//! Parsing of HTTP/1.x requests: the request line, header fields, query
//! strings, and the checks a request head must pass before its body is read.
use vstd::prelude::*;

use crate::http_method::{HttpMethod, method_of_token, parse_method};
use crate::http_version::{HttpVersion, parse_http_version, version_of_token};
use crate::map::{
    DuplicateMap, DuplicateValues, ParamMap, add_duplicate, has_key, lookup,
    lemma_index_of_key, all_values, law_duplicate_add_accumulates, index_of_key, is_first_key,
};
use crate::text::{
    chars_of, lowercase, split_chars, split_once_chars, split_once_seq, split_seq, str_eq,
    string_of, to_lowercase, trim_end_chars, trim_end_seq, trim_start_chars, trim_start_seq,
    views, find_chars_from, find_seq, lemma_find_from,
};
use vstd::utf8::{decode_utf8, encode_utf8, valid_utf8};
use crate::number::{parse_unsigned, parse_unsigned_chars};
use crate::text::{
    contains_seq, law_split_at_separator, law_split_without_separator, lemma_first_separator,
    lemma_split_once_at_separator, lemma_split_once_without_separator,
};

verus! {

/// `std::io::Error`, carried through unchanged from the transport.
#[verifier::external_type_specification]
#[verifier::external_body]
pub struct ExIoError(std::io::Error);

/// Why a request could not be turned into a `Request`.
#[derive(Debug)]
pub enum RequestParsingError {
    UnhandledRequest,
    InvalidRequest,
    InvalidHeader,
    InvalidBody,
    PayloadTooLarge,
    IoError(std::io::Error),
    Timeout,
    Cancellation,
    UnexpectedError,
}

/// `ToString::to_string` on an I/O error: the text its `Display` writes.
/// Nothing is claimed of that text.
#[verifier::external_body]
pub(crate) fn io_error_text(e: &std::io::Error) -> (r: String) {
    e.to_string()
}

/// The name of an error other than an I/O error, as it is written out.
pub open spec fn parsing_error_name(e: RequestParsingError) -> Seq<char> {
    match e {
        RequestParsingError::UnhandledRequest => "UnhandledRequest"@,
        RequestParsingError::InvalidRequest => "InvalidRequest"@,
        RequestParsingError::InvalidHeader => "InvalidHeader"@,
        RequestParsingError::InvalidBody => "InvalidBody"@,
        RequestParsingError::PayloadTooLarge => "PayloadTooLarge"@,
        RequestParsingError::IoError(_) => "IoError"@,
        RequestParsingError::Timeout => "Timeout"@,
        RequestParsingError::Cancellation => "Cancellation"@,
        RequestParsingError::UnexpectedError => "UnexpectedError"@,
    }
}

impl RequestParsingError {
    /// The error as text: its name, followed for an I/O error by `: ` and
    /// the error's own text.
    pub fn to_string(&self) -> (r: String)
        ensures
            !(*self is IoError) ==> r@ == parsing_error_name(*self),
            *self is IoError ==> r@.len() >= 9 && r@.take(9) == "IoError: "@,
    {
        match self {
            RequestParsingError::UnhandledRequest => String::from_str("UnhandledRequest"),
            RequestParsingError::InvalidRequest => String::from_str("InvalidRequest"),
            RequestParsingError::InvalidHeader => String::from_str("InvalidHeader"),
            RequestParsingError::InvalidBody => String::from_str("InvalidBody"),
            RequestParsingError::PayloadTooLarge => String::from_str("PayloadTooLarge"),
            RequestParsingError::IoError(e) => {
                let mut r = String::from_str("IoError: ");
                let text = io_error_text(e);
                r.append(text.as_str());
                proof {
                    reveal_strlit("IoError: ");
                    assert(r@.take(9) =~= "IoError: "@);
                }
                r
            },
            RequestParsingError::Timeout => String::from_str("Timeout"),
            RequestParsingError::Cancellation => String::from_str("Cancellation"),
            RequestParsingError::UnexpectedError => String::from_str("UnexpectedError"),
        }
    }
}

/// `c` is an ASCII letter or digit.
pub open spec fn is_ascii_alnum(c: char) -> bool {
    ('0' <= c && c <= '9') || ('a' <= c && c <= 'z') || ('A' <= c && c <= 'Z')
}

/// `c` may appear in a token (RFC 9110 `tchar`).
pub open spec fn is_token_char(c: char) -> bool {
    is_ascii_alnum(c) || c == '!' || c == '#' || c == '$' || c == '%' || c == '&' || c == '\''
        || c == '*' || c == '+' || c == '-' || c == '.' || c == '^' || c == '_' || c == '`'
        || c == '|' || c == '~'
}

/// Whether `c` is a token character (RFC 9110 `tchar`).
pub fn is_tchar(c: char) -> (r: bool)
    ensures
        r == is_token_char(c),
{
    ('0' <= c && c <= '9') || ('a' <= c && c <= 'z') || ('A' <= c && c <= 'Z') || c == '!' || c
        == '#' || c == '$' || c == '%' || c == '&' || c == '\'' || c == '*' || c == '+' || c
        == '-' || c == '.' || c == '^' || c == '_' || c == '`' || c == '|' || c == '~'
}

/// What `char::is_alphanumeric` returns for `c`; consulted only for
/// characters outside ASCII.
pub uninterp spec fn unicode_alphanumeric(c: char) -> bool;

/// Whether `c` is alphabetic or numeric: among ASCII characters exactly the
/// letters and digits.
pub open spec fn is_alphanumeric_char(c: char) -> bool {
    if c <= '\u{7f}' {
        is_ascii_alnum(c)
    } else {
        unicode_alphanumeric(c)
    }
}

/// `char::is_alphanumeric`: whether `c` is alphabetic or numeric in the
/// Unicode sense. Among ASCII characters these are exactly the letters and
/// digits; for other characters the answer is left to
/// `unicode_alphanumeric`.
#[verifier::external_body]
fn char_is_alphanumeric(c: char) -> (r: bool)
    ensures
        c <= '\u{7f}' ==> r == is_ascii_alnum(c),
        c > '\u{7f}' ==> r == unicode_alphanumeric(c),
{
    c.is_alphanumeric()
}

/// Every character of `name` is alphanumeric or a token character.
pub open spec fn valid_header_name(name: Seq<char>) -> bool {
    forall|i: int| 0 <= i < name.len() ==> is_alphanumeric_char(#[trigger] name[i])
        || is_token_char(name[i])
}

/// A byte allowed in a header value: tab, or visible/space but not DEL.
pub open spec fn is_value_byte(b: u8) -> bool {
    b == 9 || (b >= 32 && b != 127)
}

/// Every byte of the UTF-8 encoding of `value` is allowed in a value.
pub open spec fn valid_header_value(value: Seq<char>) -> bool {
    forall|i: int| 0 <= i < encode_utf8(value).len() ==> is_value_byte(#[trigger] encode_utf8(value)[i])
}

fn chars_valid_header_name(name: &Vec<char>) -> (r: bool)
    ensures
        r == valid_header_name(name@),
{
    let mut i: usize = 0;
    while i < name.len()
        invariant
            i <= name@.len(),
            forall|j: int| 0 <= j < i ==> is_alphanumeric_char(#[trigger] name@[j])
                || is_token_char(name@[j]),
        decreases name@.len() - i,
    {
        let c = name[i];
        if !(char_is_alphanumeric(c) || is_tchar(c)) {
            return false;
        }
        i = i + 1;
    }
    true
}

/// Whether `name` is a valid header field name.
pub fn is_valid_header_name(name: &str) -> (r: bool)
    ensures
        r == valid_header_name(name@),
{
    let chars = chars_of(name);
    chars_valid_header_name(&chars)
}

/// Whether every byte of `value` is allowed in a header field value.
pub fn is_valid_header_value(value: &str) -> (r: bool)
    ensures
        r == valid_header_value(value@),
{
    let bytes = value.as_bytes();
    let mut i: usize = 0;
    while i < bytes.len()
        invariant
            bytes@ == encode_utf8(value@),
            i <= bytes@.len(),
            forall|j: int| 0 <= j < i ==> is_value_byte(#[trigger] bytes@[j]),
        decreases bytes@.len() - i,
    {
        let b = bytes[i];
        if !(b == 9 || (b >= 32 && b != 127)) {
            return false;
        }
        i = i + 1;
    }
    true
}

/// Header fields that may legitimately appear more than once.
pub open spec fn duplicatable_header(name: Seq<char>) -> bool {
    name == "set-cookie"@ || name == "warning"@ || name == "www-authenticate"@ || name
        == "proxy-authenticate"@ || name == "accept"@ || name == "via"@ || name
        == "accept-language"@ || name == "link"@ || name == "forwarded"@
}

/// Whether the (lowercase) header `name` may appear more than once.
pub fn header_can_be_duplicate(name: &str) -> (r: bool)
    ensures
        r == duplicatable_header(name@),
{
    str_eq(name, "set-cookie") || str_eq(name, "warning") || str_eq(name, "www-authenticate")
        || str_eq(name, "proxy-authenticate") || str_eq(name, "accept") || str_eq(name, "via")
        || str_eq(name, "accept-language") || str_eq(name, "link") || str_eq(name, "forwarded")
}

/// The method, version and target of a request line, or `None` when the
/// line is not one this server handles: fewer than three space-separated
/// fields, or an unknown method or version. Fields past the third are
/// ignored.
pub open spec fn request_line_parts(line: Seq<char>) -> Option<(HttpMethod, HttpVersion, Seq<char>)> {
    let tokens = split_seq(line, seq![' ']);
    if tokens.len() < 3 {
        None
    } else {
        match (method_of_token(tokens[0]), version_of_token(tokens[2])) {
            (Some(m), Some(v)) => Some((m, v, tokens[1])),
            _ => None,
        }
    }
}

/// Parses a request line from its characters.
fn parse_request_line_chars(line: &Vec<char>) -> (r: Result<
    (HttpMethod, HttpVersion, String),
    RequestParsingError,
>)
    ensures
        match request_line_parts(line@) {
            Some((m, v, p)) => r matches Ok((m2, v2, p2)) && m2 == m && v2 == v && p2@ == p,
            None => r matches Err(RequestParsingError::UnhandledRequest),
        },
{
    let space = vec![' '];
    assert(space@ =~= seq![' ']);
    let tokens = split_chars(line, &space);
    assert(views(tokens@).len() == tokens@.len());
    if tokens.len() < 3 {
        return Err(RequestParsingError::UnhandledRequest);
    }
    proof {
        assert(views(tokens@)[0] == tokens@[0]@);
        assert(views(tokens@)[1] == tokens@[1]@);
        assert(views(tokens@)[2] == tokens@[2]@);
    }
    let method_name = string_of(tokens[0].as_slice());
    let http_method = match parse_method(method_name.as_str()) {
        Some(method) => method,
        None => return Err(RequestParsingError::UnhandledRequest),
    };
    let version_name = string_of(tokens[2].as_slice());
    let http_version = match parse_http_version(version_name.as_str()) {
        Some(version) => version,
        None => return Err(RequestParsingError::UnhandledRequest),
    };
    let path = string_of(tokens[1].as_slice());
    Ok((http_method, http_version, path))
}

/// Parses a request line such as `GET /index.html HTTP/1.1`.
pub fn parse_http_request_line(line: &str) -> (r: Result<
    (HttpMethod, HttpVersion, String),
    RequestParsingError,
>)
    ensures
        match request_line_parts(line@) {
            Some((m, v, p)) => r matches Ok((m2, v2, p2)) && m2 == m && v2 == v && p2@ == p,
            None => r matches Err(RequestParsingError::UnhandledRequest),
        },
{
    let chars = chars_of(line);
    parse_request_line_chars(&chars)
}

/// What a single line of the header block amounts to.
pub enum HeaderLine {
    /// An empty line, or a line without a colon.
    NoField,
    /// A well-formed field: lowercase name and value.
    Field(Seq<char>, Seq<char>),
    /// A field with a bad name or value.
    Invalid,
}

/// The meaning of header line `h`: the name is the text before the first
/// colon without trailing white space, lowercased; the value is the text
/// after it without leading white space.
pub open spec fn header_line_meaning(h: Seq<char>) -> HeaderLine {
    if h.len() == 0 {
        HeaderLine::NoField
    } else {
        match split_once_seq(h, seq![':']) {
            None => HeaderLine::NoField,
            Some((before, after)) => {
                let name = lowercase(trim_end_seq(before));
                let value = trim_start_seq(after);
                if valid_header_name(name) && valid_header_value(value) {
                    HeaderLine::Field(name, value)
                } else {
                    HeaderLine::Invalid
                }
            },
        }
    }
}

/// Parses one header line from its characters.
fn parse_header_line_chars(header: &Vec<char>) -> (r: Result<
    Option<(String, String)>,
    RequestParsingError,
>)
    ensures
        match header_line_meaning(header@) {
            HeaderLine::NoField => r matches Ok(None),
            HeaderLine::Field(n, v) => r matches Ok(Some((n2, v2))) && n2@ == n && v2@ == v,
            HeaderLine::Invalid => r matches Err(RequestParsingError::InvalidHeader),
        },
{
    if header.len() == 0 {
        return Ok(None);
    }
    let colon = vec![':'];
    assert(colon@ =~= seq![':']);
    let (before, after) = match split_once_chars(header, &colon) {
        Some(parts) => parts,
        None => return Ok(None),
    };
    let name_chars = trim_end_chars(&before);
    let value_chars = trim_start_chars(&after);
    let raw_name = string_of(name_chars.as_slice());
    let header_name = to_lowercase(raw_name.as_str());
    let header_value = string_of(value_chars.as_slice());
    if !is_valid_header_name(header_name.as_str()) || !is_valid_header_value(
        header_value.as_str(),
    ) {
        return Err(RequestParsingError::InvalidHeader);
    }
    Ok(Some((header_name, header_value)))
}

/// Parses one header line such as `Content-Type: application/json`; the
/// name comes back lowercased.
pub fn parse_header_line(header: &str) -> (r: Result<Option<(String, String)>, RequestParsingError>)
    ensures
        match header_line_meaning(header@) {
            HeaderLine::NoField => r matches Ok(None),
            HeaderLine::Field(n, v) => r matches Ok(Some((n2, v2))) && n2@ == n && v2@ == v,
            HeaderLine::Invalid => r matches Err(RequestParsingError::InvalidHeader),
        },
{
    let chars = chars_of(header);
    parse_header_line_chars(&chars)
}

/// The header map built from `lines`, or `None` when a line is rejected:
/// a bad field, a non-empty line without a colon, or a second occurrence
/// of a field that must be unique.
pub open spec fn header_block(lines: Seq<Seq<char>>) -> Option<Seq<(Seq<char>, DuplicateValues)>>
    decreases lines.len(),
{
    if lines.len() == 0 {
        Some(Seq::empty())
    } else {
        match header_block(lines.drop_last()) {
            None => None,
            Some(m) => {
                let line = lines.last();
                match header_line_meaning(line) {
                    HeaderLine::Invalid => None,
                    HeaderLine::NoField => if line.len() == 0 {
                        Some(m)
                    } else {
                        None
                    },
                    HeaderLine::Field(n, v) => if duplicatable_header(n) {
                        Some(add_duplicate(m, n, v))
                    } else if has_key(m, n) {
                        None
                    } else {
                        Some(m.push((n, DuplicateValues::Single(v))))
                    },
                }
            },
        }
    }
}

/// The fields of a header block in order: the name and value of each line
/// that holds a well-formed field.
pub open spec fn header_fields(lines: Seq<Seq<char>>) -> Seq<(Seq<char>, Seq<char>)>
    decreases lines.len(),
{
    if lines.len() == 0 {
        Seq::empty()
    } else {
        match header_line_meaning(lines.last()) {
            HeaderLine::Field(n, v) => header_fields(lines.drop_last()).push((n, v)),
            _ => header_fields(lines.drop_last()),
        }
    }
}

/// Appending an entry under a key not present makes that key read back as
/// the entry's value and leaves every other key as it was.
proof fn lemma_push_new_key<V>(m: Seq<(Seq<char>, V)>, key: Seq<char>, value: V, name: Seq<char>)
    requires
        !has_key(m, key),
    ensures
        lookup(m.push((key, value)), name) == if name == key {
            Some(value)
        } else {
            lookup(m, name)
        },
{
    let n = m.push((key, value));
    lemma_index_of_key(m, name);
    lemma_index_of_key(n, name);
    if name == key {
        assert(is_first_key(n, name, m.len() as int));
    } else {
        if let Some(i) = index_of_key(m, name) {
            assert(is_first_key(n, name, i));
        } else if let Some(i) = index_of_key(n, name) {
            assert(m[i].0 == name);
        }
    }
}

/// An accepted header block holds, under each name, every value given for
/// it, in the order given; a name that may not repeat was given at most
/// once.
pub proof fn law_header_block_collects(lines: Seq<Seq<char>>, name: Seq<char>)
    ensures
        header_block(lines) matches Some(m) ==> {
            &&& match lookup(m, name) {
                Some(d) => all_values(d) == values_for(header_fields(lines), name) && values_for(
                    header_fields(lines),
                    name,
                ).len() > 0,
                None => values_for(header_fields(lines), name).len() == 0,
            }
            &&& has_key(m, name) <==> values_for(header_fields(lines), name).len() > 0
            &&& !duplicatable_header(name) ==> values_for(header_fields(lines), name).len() <= 1
        },
    decreases lines.len(),
{
    if let Some(m) = header_block(lines) {
        lemma_index_of_key(m, name);
    }
    if lines.len() > 0 {
        let front = lines.drop_last();
        law_header_block_collects(front, name);
        if let Some(m) = header_block(front) {
            let fields = header_fields(front);
            if let HeaderLine::Field(n, v) = header_line_meaning(lines.last()) {
                assert(header_fields(lines) == fields.push((n, v)));
                assert(fields.push((n, v)).drop_last() =~= fields);
                if duplicatable_header(n) {
                    if n == name {
                        let other = name.push('x');
                        assert(other.len() != name.len());
                        law_duplicate_add_accumulates(m, name, v, other);
                    } else {
                        law_duplicate_add_accumulates(m, n, v, name);
                    }
                } else if !has_key(m, n) {
                    lemma_push_new_key(m, n, DuplicateValues::Single(v), name);
                    if n == name {
                        lemma_index_of_key(m, name);
                        assert(seq![v] =~= values_for(fields, name).push(v));
                    }
                }
            }
        }
    }
}

/// A line that makes a header block fail: a malformed field, or a non-empty
/// line without a colon.
pub open spec fn rejected_line(line: Seq<char>) -> bool {
    match header_line_meaning(line) {
        HeaderLine::Invalid => true,
        HeaderLine::NoField => line.len() != 0,
        HeaderLine::Field(_, _) => false,
    }
}

/// Some field name that may not repeat is given twice.
pub open spec fn repeats_single_name(fields: Seq<(Seq<char>, Seq<char>)>) -> bool {
    exists|i: int, j: int|
        0 <= i < j < fields.len() && #[trigger] fields[i].0 == #[trigger] fields[j].0
            && !duplicatable_header(fields[j].0)
}

/// A header block fails when one of its lines is rejected, or when a name
/// that may not repeat is given twice.
pub open spec fn header_block_refused(lines: Seq<Seq<char>>) -> bool {
    (exists|k: int| 0 <= k < lines.len() && #[trigger] rejected_line(lines[k]))
        || repeats_single_name(header_fields(lines))
}

/// Some field of `fields` has name `name` exactly when it has values there.
proof fn lemma_values_present(fields: Seq<(Seq<char>, Seq<char>)>, name: Seq<char>)
    ensures
        values_for(fields, name).len() > 0 <==> exists|i: int|
            0 <= i < fields.len() && #[trigger] fields[i].0 == name,
    decreases fields.len(),
{
    if fields.len() > 0 {
        let front = fields.drop_last();
        lemma_values_present(front, name);
        if exists|i: int| 0 <= i < front.len() && #[trigger] front[i].0 == name {
            let i = choose|i: int| 0 <= i < front.len() && #[trigger] front[i].0 == name;
            assert(fields[i].0 == name);
        }
        if exists|i: int| 0 <= i < fields.len() && #[trigger] fields[i].0 == name {
            let i = choose|i: int| 0 <= i < fields.len() && #[trigger] fields[i].0 == name;
            if i < front.len() {
                assert(front[i].0 == name);
            }
        }
    }
}

/// A header block is refused exactly when one of its lines is rejected or
/// a name that may not repeat is given twice.
pub proof fn law_header_block_fails(lines: Seq<Seq<char>>)
    ensures
        header_block(lines) is None <==> header_block_refused(lines),
    decreases lines.len(),
{
    if lines.len() > 0 {
        let front = lines.drop_last();
        law_header_block_fails(front);
        let f0 = header_fields(front);
        let fields = header_fields(lines);
        let last = lines.last();
        let n_last = lines.len() - 1;
        assert forall|k: int| 0 <= k < front.len() implies lines[k] == front[k] by {}
        assert(fields == f0 || (exists|n: Seq<char>, v: Seq<char>| fields == f0.push((n, v))));
        assert forall|i: int| 0 <= i < f0.len() implies fields[i] == f0[i] by {
            if let HeaderLine::Field(n, v) = header_line_meaning(last) {
                assert(fields == f0.push((n, v)));
            }
        }
        if header_block_refused(front) {
            if exists|k: int| 0 <= k < front.len() && #[trigger] rejected_line(front[k]) {
                let k = choose|k: int| 0 <= k < front.len() && #[trigger] rejected_line(front[k]);
                assert(rejected_line(lines[k]));
            } else {
                let (i, j) = choose|i: int, j: int|
                    0 <= i < j < f0.len() && #[trigger] f0[i].0 == #[trigger] f0[j].0
                        && !duplicatable_header(f0[j].0);
                assert(fields[i].0 == fields[j].0);
            }
            assert(header_block_refused(lines));
        } else {
            let m = header_block(front)->0;
            assert forall|k: int| 0 <= k < n_last implies !#[trigger] rejected_line(lines[k]) by {
                assert(lines[k] == front[k]);
            }
            match header_line_meaning(last) {
                HeaderLine::Invalid => {
                    assert(rejected_line(lines[n_last]));
                },
                HeaderLine::NoField => {
                    if last.len() != 0 {
                        assert(rejected_line(lines[n_last]));
                    } else {
                        assert(fields == f0);
                        assert forall|k: int| 0 <= k < lines.len() implies !#[trigger] rejected_line(
                            lines[k],
                        ) by {
                            if k < n_last {
                                assert(lines[k] == front[k]);
                            }
                        }
                    }
                },
                HeaderLine::Field(n, v) => {
                    assert(fields == f0.push((n, v)));
                    assert forall|k: int| 0 <= k < lines.len() implies !#[trigger] rejected_line(
                        lines[k],
                    ) by {
                        if k < n_last {
                            assert(lines[k] == front[k]);
                        }
                    }
                    law_header_block_collects(front, n);
                    lemma_values_present(f0, n);
                    let j0 = f0.len() as int;
                    if !duplicatable_header(n) && has_key(m, n) {
                        let i = choose|i: int| 0 <= i < f0.len() && #[trigger] f0[i].0 == n;
                        assert(fields[i].0 == fields[j0].0);
                        assert(repeats_single_name(fields));
                    } else {
                        assert forall|i: int, j: int|
                            0 <= i < j < fields.len() && #[trigger] fields[i].0 == #[trigger] fields[j].0
                                implies duplicatable_header(fields[j].0) by {
                            if j < j0 {
                                assert(fields[i] == f0[i] && fields[j] == f0[j]);
                            } else {
                                assert(fields[i] == f0[i]);
                            }
                        }
                    }
                },
            }
        }
    }
}

/// Builds the header map of a request from its header lines.
fn parse_header_lines(lines: &Vec<Vec<char>>) -> (r: Result<
    ParamMap<DuplicateMap>,
    RequestParsingError,
>)
    ensures
        match header_block(views(lines@)) {
            Some(m) => r matches Ok(map) && map@ == m,
            None => r matches Err(RequestParsingError::InvalidHeader),
        },
{
    let mut header_map: ParamMap<DuplicateMap> = ParamMap::empty();
    let mut i: usize = 0;
    while i < lines.len()
        invariant
            i <= lines@.len(),
            header_block(views(lines@).take(i as int)) == Some(header_map@),
        decreases lines@.len() - i,
    {
        let ghost before = header_map@;
        proof {
            assert(views(lines@).take(i + 1).drop_last() =~= views(lines@).take(i as int));
            assert(views(lines@).take(i + 1).last() == lines@[i as int]@);
        }
        match parse_header_line_chars(&lines[i]) {
            Err(e) => {
                proof {
                    lemma_header_block_stays_rejected(views(lines@), i + 1);
                }
                return Err(e);
            },
            Ok(Some((name, value))) => {
                if header_can_be_duplicate(name.as_str()) {
                    header_map.add(name.as_str(), value);
                } else {
                    match header_map.add_require_single(name.as_str(), value) {
                        Ok(_) => {},
                        Err(_) => {
                            proof {
                                lemma_index_of_key(before, name@);
                                lemma_header_block_stays_rejected(views(lines@), i + 1);
                            }
                            return Err(RequestParsingError::InvalidHeader);
                        },
                    }
                    proof {
                        lemma_index_of_key(before, name@);
                    }
                }
            },
            Ok(None) => {
                if lines[i].len() != 0 {
                    proof {
                        lemma_header_block_stays_rejected(views(lines@), i + 1);
                    }
                    return Err(RequestParsingError::InvalidHeader);
                }
            },
        }
        i = i + 1;
    }
    proof {
        assert(views(lines@).take(i as int) =~= views(lines@));
    }
    Ok(header_map)
}

/// Once a prefix of the header lines is rejected, the whole block is.
proof fn lemma_header_block_stays_rejected(lines: Seq<Seq<char>>, k: int)
    requires
        0 <= k <= lines.len(),
        header_block(lines.take(k)) is None,
    ensures
        header_block(lines) is None,
    decreases lines.len() - k,
{
    if k < lines.len() {
        assert(lines.take(k + 1).drop_last() =~= lines.take(k));
        lemma_header_block_stays_rejected(lines, k + 1);
    } else {
        assert(lines.take(k) =~= lines);
    }
}

/// Builds the header map of a request from its header lines.
pub fn parse_headers(headers: &[&str]) -> (r: Result<ParamMap<DuplicateMap>, RequestParsingError>)
    ensures
        match header_block(headers@.map_values(|h: &str| h@)) {
            Some(m) => r matches Ok(map) && map@ == m,
            None => r matches Err(RequestParsingError::InvalidHeader),
        },
{
    let mut lines: Vec<Vec<char>> = Vec::new();
    let mut i: usize = 0;
    while i < headers.len()
        invariant
            i <= headers@.len(),
            views(lines@) == headers@.map_values(|h: &str| h@).take(i as int),
        decreases headers@.len() - i,
    {
        let ghost before = lines@;
        let line = chars_of(headers[i]);
        lines.push(line);
        proof {
            assert(views(before.push(line)) =~= views(before).push(line@));
            assert(headers@.map_values(|h: &str| h@).take(i + 1) =~= headers@.map_values(
                |h: &str| h@,
            ).take(i as int).push(headers@[i as int]@));
        }
        i = i + 1;
    }
    proof {
        assert(headers@.map_values(|h: &str| h@).take(i as int) =~= headers@.map_values(
            |h: &str| h@,
        ));
    }
    parse_header_lines(&lines)
}

/// A query parameter `key=value`, or a bare `key` with an empty value.
pub open spec fn query_pair(p: Seq<char>) -> (Seq<char>, Seq<char>) {
    match split_once_seq(p, seq!['=']) {
        Some((k, v)) => (k, v),
        None => (p, Seq::empty()),
    }
}

/// The `&`-separated parameters after the first `?` of `path`.
pub open spec fn query_pairs(path: Seq<char>) -> Seq<(Seq<char>, Seq<char>)> {
    match find_seq(path, seq!['?']) {
        Some(i) => split_seq(path.skip(i + 1), seq!['&']).map_values(|p: Seq<char>| query_pair(p)),
        None => Seq::empty(),
    }
}

/// `m` after adding every pair of `pairs`, in order, keeping repeated keys
/// together.
pub open spec fn add_all_duplicates(
    m: Seq<(Seq<char>, DuplicateValues)>,
    pairs: Seq<(Seq<char>, Seq<char>)>,
) -> Seq<(Seq<char>, DuplicateValues)>
    decreases pairs.len(),
{
    if pairs.len() == 0 {
        m
    } else {
        add_duplicate(add_all_duplicates(m, pairs.drop_last()), pairs.last().0, pairs.last().1)
    }
}

/// The query parameters of a request target.
pub open spec fn query_map(path: Seq<char>) -> Seq<(Seq<char>, DuplicateValues)> {
    add_all_duplicates(Seq::empty(), query_pairs(path))
}

/// The values given for `key` among `pairs`, in order.
pub open spec fn values_for(pairs: Seq<(Seq<char>, Seq<char>)>, key: Seq<char>) -> Seq<Seq<char>>
    decreases pairs.len(),
{
    if pairs.len() == 0 {
        Seq::empty()
    } else if pairs.last().0 == key {
        values_for(pairs.drop_last(), key).push(pairs.last().1)
    } else {
        values_for(pairs.drop_last(), key)
    }
}

proof fn lemma_add_all_collects(pairs: Seq<(Seq<char>, Seq<char>)>, key: Seq<char>)
    ensures
        match lookup(add_all_duplicates(Seq::empty(), pairs), key) {
            Some(d) => all_values(d) == values_for(pairs, key) && values_for(pairs, key).len() > 0,
            None => values_for(pairs, key).len() == 0,
        },
    decreases pairs.len(),
{
    if pairs.len() > 0 {
        let front = pairs.drop_last();
        lemma_add_all_collects(front, key);
        let m = add_all_duplicates(Seq::empty(), front);
        let (k, v) = pairs.last();
        if k == key {
            let other = key.push('=');
            assert(other.len() != key.len());
            law_duplicate_add_accumulates(m, key, v, other);
        } else {
            law_duplicate_add_accumulates(m, k, v, key);
        }
    }
}

/// Every query key reads back all the values given for it, in the order
/// they appear in the target; a key that is never given is absent.
pub proof fn law_query_collects_values(path: Seq<char>, key: Seq<char>)
    ensures
        match lookup(query_map(path), key) {
            Some(d) => all_values(d) == values_for(query_pairs(path), key),
            None => values_for(query_pairs(path), key).len() == 0,
        },
{
    lemma_add_all_collects(query_pairs(path), key);
}

/// The query parameters of `path`; a key given several times collects all
/// its values.
pub fn parse_query_params(path: &str) -> (r: ParamMap<DuplicateMap>)
    ensures
        r@ == query_map(path@),
{
    let mut query_params: ParamMap<DuplicateMap> = ParamMap::empty();
    let chars = chars_of(path);
    let path_len = chars.len();
    let question = vec!['?'];
    assert(question@ =~= seq!['?']);
    match find_chars_from(&chars, &question, 0) {
        None => {
            return query_params;
        },
        Some(query_start) => {
            proof {
                lemma_find_from(chars@, question@, 0);
                assert(chars@.len() == path_len);
            }
            let query_string = crate::text::sub_chars(&chars, query_start + 1, chars.len());
            assert(query_string@ =~= path@.skip(query_start + 1));
            let amp = vec!['&'];
            assert(amp@ =~= seq!['&']);
            let params = split_chars(&query_string, &amp);
            let ghost pieces = views(params@);
            let ghost pairs = pieces.map_values(|p: Seq<char>| query_pair(p));
            let eq = vec!['='];
            assert(eq@ =~= seq!['=']);
            let mut i: usize = 0;
            while i < params.len()
                invariant
                    i <= params@.len(),
                    eq@ == seq!['='],
                    pieces == views(params@),
                    pairs == pieces.map_values(|p: Seq<char>| query_pair(p)),
                    query_params@ == add_all_duplicates(Seq::empty(), pairs.take(i as int)),
                decreases params@.len() - i,
            {
                proof {
                    assert(pieces[i as int] == params@[i as int]@);
                    assert(pairs.take(i + 1).drop_last() =~= pairs.take(i as int));
                }
                let (key, value) = match split_once_chars(&params[i], &eq) {
                    Some((k, v)) => (k, v),
                    None => {
                        let k = crate::text::sub_chars(&params[i], 0, params[i].len());
                        assert(k@ =~= params@[i as int]@);
                        (k, Vec::new())
                    },
                };
                assert(pairs.take(i + 1).last() == (key@, value@));
                let key_string = string_of(key.as_slice());
                query_params.add(key_string.as_str(), string_of(value.as_slice()));
                i = i + 1;
            }
            assert(pairs.take(i as int) =~= pairs);
            query_params
        },
    }
}

/// `String::from_utf8`: the text encoded by `bytes`, when they are valid
/// UTF-8.
#[verifier::external_body]
fn string_from_utf8(bytes: Vec<u8>) -> (r: Option<String>)
    ensures
        r is Some <==> valid_utf8(bytes@),
        r matches Some(s) ==> s@ == decode_utf8(bytes@),
{
    String::from_utf8(bytes).ok()
}

/// A request head: everything before the body.
pub struct RequestHead {
    pub method: HttpMethod,
    pub http_version: HttpVersion,
    pub path: String,
    pub headers: ParamMap<DuplicateMap>,
    /// The client sent `Expect: 100-continue` and waits for an interim
    /// response before sending the body.
    pub expects_continue: bool,
}

/// The abstract contents of a request head.
pub struct HeadView {
    pub method: HttpMethod,
    pub http_version: HttpVersion,
    pub path: Seq<char>,
    pub headers: Seq<(Seq<char>, DuplicateValues)>,
    pub expects_continue: bool,
}

impl RequestHead {
    /// The abstract contents of this head.
    pub open spec fn head_view(&self) -> HeadView {
        HeadView {
            method: self.method,
            http_version: self.http_version,
            path: self.path@,
            headers: self.headers@,
            expects_continue: self.expects_continue,
        }
    }
}

/// Whether the headers ask for `100 Continue`: a single `expect` value
/// containing `100-continue`, in any case.
pub open spec fn expects_continue(headers: Seq<(Seq<char>, DuplicateValues)>) -> bool {
    match lookup(headers, "expect"@) {
        Some(DuplicateValues::Single(e)) => contains_seq(lowercase(e), "100-continue"@),
        _ => false,
    }
}

/// The head of a request whose bytes before the blank line are `bytes`:
/// valid UTF-8, a request line and header lines separated by CRLF, a
/// `host` field on HTTP/1.1, and not both `content-length` and
/// `transfer-encoding`.
pub open spec fn request_head(bytes: Seq<u8>) -> Result<HeadView, RequestParsingError> {
    if !valid_utf8(bytes) {
        Err(RequestParsingError::InvalidRequest)
    } else {
        match split_once_seq(decode_utf8(bytes), seq!['\r', '\n']) {
            None => Err(RequestParsingError::InvalidRequest),
            Some((line, rest)) => match request_line_parts(line) {
                None => Err(RequestParsingError::UnhandledRequest),
                Some((m, v, p)) => match header_block(split_seq(rest, seq!['\r', '\n'])) {
                    None => Err(RequestParsingError::InvalidHeader),
                    Some(h) => if v == HttpVersion::Http1_1 && !has_key(h, "host"@) {
                        Err(RequestParsingError::InvalidRequest)
                    } else if has_key(h, "content-length"@) && has_key(h, "transfer-encoding"@) {
                        Err(RequestParsingError::InvalidRequest)
                    } else {
                        Ok(
                            HeadView {
                                method: m,
                                http_version: v,
                                path: p,
                                headers: h,
                                expects_continue: expects_continue(h),
                            },
                        )
                    },
                },
            },
        }
    }
}

/// Whether `e`, lowercased, contains `100-continue`.
fn asks_continue(e: &String) -> (r: bool)
    ensures
        r == contains_seq(lowercase(e@), "100-continue"@),
{
    let lower = to_lowercase(e.as_str());
    let chars = chars_of(lower.as_str());
    let pattern = chars_of("100-continue");
    let found = find_chars_from(&chars, &pattern, 0);
    proof {
        lemma_find_from(chars@, pattern@, 0);
    }
    found.is_some()
}

/// Parses the head of a request: the bytes up to and including the blank
/// line that ends the header block.
pub fn parse_request_head(request_headers: Vec<u8>) -> (r: Result<RequestHead, RequestParsingError>)
    ensures
        match request_head(request_headers@) {
            Ok(h) => r matches Ok(x) && x.head_view() == h,
            Err(e) => r matches Err(x) && x == e,
        },
{
    let headers_s = match string_from_utf8(request_headers) {
        Some(headers) => headers,
        None => return Err(RequestParsingError::InvalidRequest),
    };
    let text = chars_of(headers_s.as_str());
    let crlf = vec!['\r', '\n'];
    assert(crlf@ =~= seq!['\r', '\n']);
    let (header_line, headers) = match split_once_chars(&text, &crlf) {
        Some(v) => v,
        None => return Err(RequestParsingError::InvalidRequest),
    };
    let (http_method, http_version, path) = match parse_request_line_chars(&header_line) {
        Ok(parts) => parts,
        Err(e) => return Err(e),
    };
    let lines = split_chars(&headers, &crlf);
    let header_map = match parse_header_lines(&lines) {
        Ok(m) => m,
        Err(e) => return Err(e),
    };
    if http_version == HttpVersion::Http1_1 && !header_map.has("host") {
        return Err(RequestParsingError::InvalidRequest);
    }
    if header_map.has("content-length") && header_map.has("transfer-encoding") {
        return Err(RequestParsingError::InvalidRequest);
    }
    let needs_continue = match header_map.get_single("expect") {
        Some(e) => asks_continue(e),
        None => false,
    };
    Ok(
        RequestHead {
            method: http_method,
            http_version,
            path,
            headers: header_map,
            expects_continue: needs_continue,
        },
    )
}

/// How the body of a request is delimited.
#[derive(Debug, Clone, Copy, PartialEq, Eq, Structural)]
pub enum BodyFraming {
    /// No body.
    Empty,
    /// Exactly this many bytes follow the head.
    ContentLength(usize),
    /// The body is sent in chunks.
    Chunked,
}

/// The framing of a request body given its headers and the largest body
/// accepted: a single numeric `content-length` within the limit, else a
/// single `transfer-encoding: chunked`, else no body.
pub open spec fn body_framing(headers: Seq<(Seq<char>, DuplicateValues)>, max_size: usize) -> Result<
    BodyFraming,
    RequestParsingError,
> {
    match lookup(headers, "content-length"@) {
        Some(DuplicateValues::Single(cl)) => match parse_unsigned(cl, 10) {
            None => Err(RequestParsingError::InvalidHeader),
            Some(n) => if n > max_size {
                Err(RequestParsingError::PayloadTooLarge)
            } else {
                Ok(BodyFraming::ContentLength(n))
            },
        },
        _ => match lookup(headers, "transfer-encoding"@) {
            Some(DuplicateValues::Single(te)) => if te == "chunked"@ {
                Ok(BodyFraming::Chunked)
            } else {
                Err(RequestParsingError::InvalidHeader)
            },
            _ => Ok(BodyFraming::Empty),
        },
    }
}

/// Decides how to read the body of a request with headers `header_map`.
pub fn parse_body_framing(header_map: &ParamMap<DuplicateMap>, request_body_max_size: usize) -> (r:
    Result<BodyFraming, RequestParsingError>)
    ensures
        match body_framing(header_map@, request_body_max_size) {
            Ok(f) => r == Ok::<BodyFraming, RequestParsingError>(f),
            Err(e) => r matches Err(x) && x == e,
        },
{
    if let Ok(Some(content_length)) = header_map.get_require_single("content-length") {
        let digits = chars_of(content_length.as_str());
        let content_length = match parse_unsigned_chars(&digits, 10) {
            Some(value) => value,
            None => return Err(RequestParsingError::InvalidHeader),
        };
        if content_length > request_body_max_size {
            return Err(RequestParsingError::PayloadTooLarge);
        }
        Ok(BodyFraming::ContentLength(content_length))
    } else if let Ok(Some(transfer_encoding)) = header_map.get_require_single("transfer-encoding") {
        if !str_eq(transfer_encoding.as_str(), "chunked") {
            return Err(RequestParsingError::InvalidHeader);
        }
        Ok(BodyFraming::Chunked)
    } else {
        Ok(BodyFraming::Empty)
    }
}

/// A parsed request.
pub struct Request {
    pub method: HttpMethod,
    pub http_version: HttpVersion,
    pub body: Vec<u8>,
    pub path: String,
    pub query_params: ParamMap<DuplicateMap>,
    pub headers: ParamMap<DuplicateMap>,
    pub path_params: ParamMap<String>,
}

impl Default for Request {
    /// An empty `GET` request over HTTP/1.1.
    fn default() -> (r: Self)
        ensures
            r.method == HttpMethod::GET,
            r.http_version == HttpVersion::Http1_1,
            r.body@.len() == 0,
            r.path@.len() == 0,
            r.query_params@.len() == 0,
            r.headers@.len() == 0,
            r.path_params@.len() == 0,
    {
        Request {
            method: HttpMethod::GET,
            http_version: HttpVersion::Http1_1,
            body: Vec::new(),
            path: String::new(),
            query_params: ParamMap::empty(),
            headers: ParamMap::empty(),
            path_params: ParamMap::empty(),
        }
    }
}

/// The request made of a parsed head and the body read after it; its
/// query parameters come from the path, and it has no path parameters yet.
pub fn build_request(head: RequestHead, body: Vec<u8>) -> (r: Request)
    ensures
        r.method == head.method,
        r.http_version == head.http_version,
        r.path@ == head.path@,
        r.headers@ == head.headers@,
        r.body == body,
        r.query_params@ == query_map(head.path@),
        r.path_params@.len() == 0,
{
    let query_params = parse_query_params(head.path.as_str());
    Request {
        path: head.path,
        http_version: head.http_version,
        method: head.method,
        body,
        headers: head.headers,
        query_params,
        path_params: ParamMap::empty(),
    }
}

/// A header line `name:value` whose name holds no colon is read as that
/// name (trailing white space removed, lowercased) and the whole text after
/// the colon with only its leading white space removed, colons in the value
/// included; the line is refused when either is not allowed.
pub proof fn law_header_value_is_rest_of_line(name: Seq<char>, value: Seq<char>)
    requires
        !name.contains(':'),
    ensures
        header_line_meaning(name + seq![':'] + value) == (if valid_header_name(
            lowercase(trim_end_seq(name)),
        ) && valid_header_value(trim_start_seq(value)) {
            HeaderLine::Field(lowercase(trim_end_seq(name)), trim_start_seq(value))
        } else {
            HeaderLine::Invalid
        }),
{
    lemma_split_once_at_separator(name, ':', value);
    assert((name + seq![':'] + value).len() > 0);
}

/// A header line without a colon holds no field.
pub proof fn law_header_line_without_colon(line: Seq<char>)
    requires
        !line.contains(':'),
    ensures
        header_line_meaning(line) == HeaderLine::NoField,
{
    lemma_split_once_without_separator(line, ':');
}

/// A query parameter `key=value` whose key holds no `=` is read as that key
/// and the whole text after the first `=`, unchanged.
pub proof fn law_query_pair_splits_at_first_equals(key: Seq<char>, value: Seq<char>)
    requires
        !key.contains('='),
    ensures
        query_pair(key + seq!['='] + value) == (key, value),
{
    lemma_split_once_at_separator(key, '=', value);
}

/// A query parameter without `=` is a key with an empty value.
pub proof fn law_query_pair_without_equals(piece: Seq<char>)
    requires
        !piece.contains('='),
    ensures
        query_pair(piece) == (piece, Seq::<char>::empty()),
{
    lemma_split_once_without_separator(piece, '=');
}

/// A request line `method target version`, fields without spaces, names the
/// method and version its first and third fields spell and the target its
/// second field, unchanged; it is not handled when the method or version is
/// unknown.
pub proof fn law_request_line_fields(method: Seq<char>, target: Seq<char>, version: Seq<char>)
    requires
        !method.contains(' '),
        !target.contains(' '),
        !version.contains(' '),
    ensures
        request_line_parts(method + seq![' '] + target + seq![' '] + version) == match (
            method_of_token(method),
            version_of_token(version),
        ) {
            (Some(m), Some(v)) => Some((m, v, target)),
            _ => None,
        },
{
    let rest = target + seq![' '] + version;
    assert(method + seq![' '] + target + seq![' '] + version =~= method + seq![' '] + rest);
    law_split_at_separator(method, ' ', rest);
    law_split_at_separator(target, ' ', version);
    law_split_without_separator(version, ' ');
    let tokens = split_seq(method + seq![' '] + rest, seq![' ']);
    assert(tokens =~= seq![method, target, version]);
}

/// The query parameters of a target are the `&`-separated pieces after its
/// first `?`, each read as a pair; a target without `?` has none.
pub proof fn law_query_pairs_after_question_mark(prefix: Seq<char>, query: Seq<char>)
    requires
        !prefix.contains('?'),
    ensures
        query_pairs(prefix + seq!['?'] + query) == split_seq(query, seq!['&']).map_values(
            |p: Seq<char>| query_pair(p),
        ),
        query_pairs(prefix) == Seq::<(Seq<char>, Seq<char>)>::empty(),
{
    let s = prefix + seq!['?'] + query;
    let k = prefix.len() as int;
    assert forall|j: int| 0 <= j < k implies s[j] != '?' by {
        assert(s[j] == prefix[j]);
    }
    lemma_first_separator(s, '?', k);
    assert(s.skip(k + 1) =~= query);
    lemma_split_once_without_separator(prefix, '?');
}

} // verus!
