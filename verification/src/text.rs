//! Text and byte-sequence primitives shared by the parsers: searching,
//! splitting, trimming and conversions between `&str`, `String` and
//! character vectors.
use vstd::prelude::*;
use vstd::utf8::is_ascii_chars;

verus! {

/// `d` occurs in `s` starting at position `i`.
pub open spec fn matches_at<A>(s: Seq<A>, d: Seq<A>, i: int) -> bool {
    &&& 0 <= i
    &&& i + d.len() <= s.len()
    &&& s.subrange(i, i + d.len()) == d
}

/// The first position at or after `from` where `d` occurs in `s`.
pub open spec fn find_from<A>(s: Seq<A>, d: Seq<A>, from: int) -> Option<int>
    decreases s.len() + 1 - from,
{
    if from < 0 || from > s.len() || from + d.len() > s.len() {
        None
    } else if matches_at(s, d, from) {
        Some(from)
    } else {
        find_from(s, d, from + 1)
    }
}

/// The first position where `d` occurs in `s`.
pub open spec fn find_seq<A>(s: Seq<A>, d: Seq<A>) -> Option<int> {
    find_from(s, d, 0)
}

/// `s` contains `d` as a contiguous block.
pub open spec fn contains_seq<A>(s: Seq<A>, d: Seq<A>) -> bool {
    exists|i: int| matches_at(s, d, i)
}

/// The pieces of `s` between the occurrences of `d`, scanning left to right
/// (as `str::split` with a non-empty pattern does).
pub open spec fn split_seq<A>(s: Seq<A>, d: Seq<A>) -> Seq<Seq<A>>
    decreases s.len(),
{
    if d.len() == 0 {
        seq![s]
    } else {
        match find_seq(s, d) {
            Some(i) => {
                if 0 <= i && i + d.len() <= s.len() {
                    seq![s.take(i)] + split_seq(s.skip(i + d.len()), d)
                } else {
                    seq![s]
                }
            },
            None => seq![s],
        }
    }
}

/// `s` cut at the first occurrence of `d` (as `str::split_once`).
pub open spec fn split_once_seq<A>(s: Seq<A>, d: Seq<A>) -> Option<(Seq<A>, Seq<A>)> {
    match find_seq(s, d) {
        Some(i) => Some((s.take(i), s.skip(i + d.len()))),
        None => None,
    }
}

/// What `find_from` returns is a match, it is the first one at or after
/// `from`, and no match exists there when it returns `None`.
pub proof fn lemma_find_from(s: Seq<char>, d: Seq<char>, from: int)
    requires
        0 <= from,
    ensures
        find_from(s, d, from) matches Some(i) ==> {
            &&& from <= i
            &&& matches_at(s, d, i)
            &&& forall|j: int| from <= j < i ==> !matches_at(s, d, j)
        },
        find_from(s, d, from) is None ==> forall|j: int| from <= j ==> !matches_at(s, d, j),
    decreases s.len() + 1 - from,
{
    if from > s.len() || from + d.len() > s.len() {
    } else if matches_at(s, d, from) {
    } else {
        lemma_find_from(s, d, from + 1);
    }
}

/// Same as `lemma_find_from`, for sequences of any element type.
pub proof fn lemma_find_from_any<A>(s: Seq<A>, d: Seq<A>, from: int)
    requires
        0 <= from,
    ensures
        find_from(s, d, from) matches Some(i) ==> {
            &&& from <= i
            &&& matches_at(s, d, i)
            &&& forall|j: int| from <= j < i ==> !matches_at(s, d, j)
        },
        find_from(s, d, from) is None ==> forall|j: int| from <= j ==> !matches_at(s, d, j),
    decreases s.len() + 1 - from,
{
    if from > s.len() || from + d.len() > s.len() {
    } else if matches_at(s, d, from) {
    } else {
        lemma_find_from_any(s, d, from + 1);
    }
}

/// The first place where the one-element sequence `[c]` occurs in `s` is
/// the first position holding `c`.
pub proof fn lemma_first_separator<A>(s: Seq<A>, c: A, k: int)
    requires
        0 <= k < s.len(),
        s[k] == c,
        forall|j: int| 0 <= j < k ==> s[j] != c,
    ensures
        find_seq(s, seq![c]) == Some(k),
{
    let d = seq![c];
    assert(s.subrange(k, k + 1) =~= d);
    assert(matches_at(s, d, k));
    lemma_find_from_any(s, d, 0);
    assert forall|j: int| 0 <= j < k implies !matches_at(s, d, j) by {
        if matches_at(s, d, j) {
            assert(s.subrange(j, j + 1)[0] == s[j]);
        }
    }
    assert(find_seq(s, d) == find_from(s, d, 0));
}

/// A sequence made of `a`, the separator `c` and `b`, where `a` holds no
/// `c`, splits at that separator into `a` and `b`.
pub proof fn lemma_split_once_at_separator<A>(a: Seq<A>, c: A, b: Seq<A>)
    requires
        !a.contains(c),
    ensures
        split_once_seq(a + seq![c] + b, seq![c]) == Some((a, b)),
{
    let s = a + seq![c] + b;
    let k = a.len() as int;
    assert forall|j: int| 0 <= j < k implies s[j] != c by {
        assert(s[j] == a[j]);
    }
    lemma_first_separator(s, c, k);
    assert(s.take(k) =~= a);
    assert(s.skip(k + 1) =~= b);
}

/// Splitting `a`, the separator `c` and `b` (with no `c` in `a`) gives `a`
/// followed by the pieces of `b`.
pub proof fn law_split_at_separator<A>(a: Seq<A>, c: A, b: Seq<A>)
    requires
        !a.contains(c),
    ensures
        split_seq(a + seq![c] + b, seq![c]) == seq![a] + split_seq(b, seq![c]),
{
    let s = a + seq![c] + b;
    let k = a.len() as int;
    assert forall|j: int| 0 <= j < k implies s[j] != c by {
        assert(s[j] == a[j]);
    }
    lemma_first_separator(s, c, k);
    assert(s.take(k) =~= a);
    assert(s.skip(k + 1) =~= b);
}

/// A sequence without the separator `c` splits into itself alone.
pub proof fn law_split_without_separator<A>(s: Seq<A>, c: A)
    requires
        !s.contains(c),
    ensures
        split_seq(s, seq![c]) == seq![s],
{
    let d = seq![c];
    lemma_find_from_any(s, d, 0);
    if let Some(i) = find_seq(s, d) {
        assert(s.subrange(i, i + 1)[0] == s[i]);
        assert(s[i] == c);
    }
}

/// A sequence without the separator `c` does not split at it.
pub proof fn lemma_split_once_without_separator<A>(s: Seq<A>, c: A)
    requires
        !s.contains(c),
    ensures
        split_once_seq(s, seq![c]) is None,
{
    let d = seq![c];
    lemma_find_from_any(s, d, 0);
    if let Some(i) = find_seq(s, d) {
        assert(s.subrange(i, i + 1)[0] == s[i]);
        assert(s[i] == c);
    }
}

/// Same as `lemma_find_from`, for byte sequences.
pub proof fn lemma_find_from_bytes(s: Seq<u8>, d: Seq<u8>, from: int)
    requires
        0 <= from,
    ensures
        find_from(s, d, from) matches Some(i) ==> {
            &&& from <= i
            &&& matches_at(s, d, i)
            &&& forall|j: int| from <= j < i ==> !matches_at(s, d, j)
        },
        find_from(s, d, from) is None ==> forall|j: int| from <= j ==> !matches_at(s, d, j),
    decreases s.len() + 1 - from,
{
    if from > s.len() || from + d.len() > s.len() {
    } else if matches_at(s, d, from) {
    } else {
        lemma_find_from_bytes(s, d, from + 1);
    }
}

/// Whether `d` occurs in `s` at position `i`.
fn chars_match_at(s: &Vec<char>, d: &Vec<char>, i: usize) -> (r: bool)
    requires
        i + d@.len() <= s@.len(),
    ensures
        r == matches_at(s@, d@, i as int),
{
    let slen = s.len();
    let mut k: usize = 0;
    while k < d.len()
        invariant
            k <= d@.len(),
            i + d@.len() <= s@.len(),
            s@.len() == slen,
            forall|j: int| 0 <= j < k ==> s@[i + j] == d@[j],
        decreases d@.len() - k,
    {
        if s[i + k] != d[k] {
            assert(s@.subrange(i as int, i + d@.len())[k as int] != d@[k as int]);
            return false;
        }
        k = k + 1;
    }
    assert(s@.subrange(i as int, i + d@.len()) =~= d@);
    true
}

/// The first position at or after `from` where `d` occurs in `s`.
pub fn find_chars_from(s: &Vec<char>, d: &Vec<char>, from: usize) -> (r: Option<usize>)
    ensures
        r matches Some(i) ==> find_from(s@, d@, from as int) == Some(i as int),
        r is None ==> find_from(s@, d@, from as int) is None,
{
    if d.len() > s.len() || from > s.len() - d.len() {
        return None;
    }
    if d.len() == 0 {
        assert(s@.subrange(from as int, from as int) =~= d@);
        return Some(from);
    }
    let slen = s.len();
    let last = s.len() - d.len();
    let mut i = from;
    while i <= last
        invariant
            last + d@.len() == s@.len(),
            s@.len() == slen,
            d@.len() > 0,
            from <= i,
            find_from(s@, d@, from as int) == find_from(s@, d@, i as int),
        decreases last + 1 - i,
    {
        if chars_match_at(s, d, i) {
            return Some(i);
        }
        i = i + 1;
    }
    None
}

/// Whether `d` occurs in `s` at position `i` (bytes).
fn bytes_match_at(s: &[u8], d: &[u8], i: usize) -> (r: bool)
    requires
        i + d@.len() <= s@.len(),
    ensures
        r == matches_at(s@, d@, i as int),
{
    let slen = s.len();
    let mut k: usize = 0;
    while k < d.len()
        invariant
            k <= d@.len(),
            i + d@.len() <= s@.len(),
            s@.len() == slen,
            forall|j: int| 0 <= j < k ==> s@[i + j] == d@[j],
        decreases d@.len() - k,
    {
        if s[i + k] != d[k] {
            assert(s@.subrange(i as int, i + d@.len())[k as int] != d@[k as int]);
            return false;
        }
        k = k + 1;
    }
    assert(s@.subrange(i as int, i + d@.len()) =~= d@);
    true
}

/// The first position where `d` occurs in `s` (bytes).
pub fn find_bytes(s: &[u8], d: &[u8]) -> (r: Option<usize>)
    ensures
        r matches Some(i) ==> find_seq(s@, d@) == Some(i as int),
        r is None ==> find_seq(s@, d@) is None,
{
    if d.len() > s.len() {
        return None;
    }
    if d.len() == 0 {
        assert(s@.subrange(0, 0) =~= d@);
        return Some(0);
    }
    let slen = s.len();
    let last = s.len() - d.len();
    let mut i: usize = 0;
    while i <= last
        invariant
            last + d@.len() == s@.len(),
            s@.len() == slen,
            d@.len() > 0,
            find_seq(s@, d@) == find_from(s@, d@, i as int),
        decreases last + 1 - i,
    {
        if bytes_match_at(s, d, i) {
            return Some(i);
        }
        i = i + 1;
    }
    None
}

/// The characters of `s`, in order.
pub fn chars_of(s: &str) -> (v: Vec<char>)
    ensures
        v@ == s@,
{
    let mut v: Vec<char> = Vec::new();
    for c in it: s.chars()
        invariant
            it.seq() == s@,
            v@ == it.seq().take(it.index() as int),
    {
        v.push(c);
    }
    v
}

/// Appends `c` to `s` (`String::push`).
#[verifier::external_body]
fn push_char(s: &mut String, c: char)
    ensures
        final(s)@ == old(s)@.push(c),
{
    s.push(c)
}

/// The string made of the characters of `v`.
pub fn string_of(v: &[char]) -> (s: String)
    ensures
        s@ == v@,
{
    let mut s = String::new();
    let mut i: usize = 0;
    while i < v.len()
        invariant
            i <= v@.len(),
            s@ == v@.take(i as int),
        decreases v@.len() - i,
    {
        push_char(&mut s, v[i]);
        assert(v@.take(i + 1) =~= v@.take(i as int).push(v@[i as int]));
        i = i + 1;
    }
    assert(v@.take(i as int) =~= v@);
    s
}

/// The characters of `v` from `from` up to `to`.
pub fn sub_chars(v: &Vec<char>, from: usize, to: usize) -> (r: Vec<char>)
    requires
        from <= to <= v@.len(),
    ensures
        r@ == v@.subrange(from as int, to as int),
{
    let mut r: Vec<char> = Vec::new();
    let mut i = from;
    while i < to
        invariant
            from <= i <= to <= v@.len(),
            r@ == v@.subrange(from as int, i as int),
        decreases to - i,
    {
        r.push(v[i]);
        assert(v@.subrange(from as int, i + 1) =~= v@.subrange(from as int, i as int).push(
            v@[i as int],
        ));
        i = i + 1;
    }
    r
}

/// Whether two character sequences are equal.
pub fn chars_eq(a: &Vec<char>, b: &Vec<char>) -> (r: bool)
    ensures
        r == (a@ == b@),
{
    if a.len() != b.len() {
        return false;
    }
    let mut i: usize = 0;
    while i < a.len()
        invariant
            a@.len() == b@.len(),
            i <= a@.len(),
            forall|j: int| 0 <= j < i ==> a@[j] == b@[j],
        decreases a@.len() - i,
    {
        if a[i] != b[i] {
            return false;
        }
        i = i + 1;
    }
    assert(a@ =~= b@);
    true
}

/// Whether two strings hold the same characters.
pub fn str_eq(a: &str, b: &str) -> (r: bool)
    ensures
        r == (a@ == b@),
{
    let ca = chars_of(a);
    let cb = chars_of(b);
    chars_eq(&ca, &cb)
}

/// The character sequences held by a vector of character vectors.
pub open spec fn views(v: Seq<Vec<char>>) -> Seq<Seq<char>> {
    v.map_values(|x: Vec<char>| x@)
}

/// Splits `s` at every occurrence of the non-empty `d`.
pub fn split_chars(s: &Vec<char>, d: &Vec<char>) -> (r: Vec<Vec<char>>)
    requires
        d@.len() > 0,
    ensures
        views(r@) == split_seq(s@, d@),
{
    let slen = s.len();
    let mut r: Vec<Vec<char>> = Vec::new();
    let mut start: usize = 0;
    assert(s@.skip(0) =~= s@);
    assert(views(r@) =~= Seq::<Seq<char>>::empty());
    loop
        invariant
            d@.len() > 0,
            s@.len() == slen,
            start <= s@.len(),
            views(r@) + split_seq(s@.skip(start as int), d@) == split_seq(s@, d@),
        decreases s@.len() - start,
    {
        let ghost rest = s@.skip(start as int);
        let ghost prev = views(r@);
        match find_chars_from(s, d, start) {
            Some(i) => {
                proof {
                    lemma_find_from(s@, d@, start as int);
                    lemma_find_shift(s@, d@, start as int);
                }
                let piece = sub_chars(s, start, i);
                r.push(piece);
                proof {
                    assert(rest.take(i - start) =~= s@.subrange(start as int, i as int));
                    assert(rest.skip(i - start + d@.len()) =~= s@.skip(i + d@.len()));
                    assert(views(r@) =~= prev.push(piece@));
                }
                start = i + d.len();
                proof {
                    assert(views(r@) + split_seq(s@.skip(start as int), d@) =~= prev + (seq![
                        piece@,
                    ] + split_seq(s@.skip(start as int), d@)));
                }
            },
            None => {
                proof {
                    lemma_find_shift(s@, d@, start as int);
                }
                let piece = sub_chars(s, start, s.len());
                assert(piece@ =~= rest);
                r.push(piece);
                assert(views(r@) =~= prev.push(piece@));
                return r;
            },
        }
    }
}

/// Searching from `from` in `s` is searching from 0 in `s.skip(from)`,
/// shifted by `from`.
pub proof fn lemma_find_shift(s: Seq<char>, d: Seq<char>, from: int)
    requires
        0 <= from <= s.len(),
    ensures
        find_from(s, d, from) matches Some(i) ==> find_seq(s.skip(from), d) == Some(i - from),
        find_from(s, d, from) is None ==> find_seq(s.skip(from), d) is None,
{
    lemma_find_shift_rec(s, d, from, 0);
}

proof fn lemma_find_shift_rec(s: Seq<char>, d: Seq<char>, from: int, k: int)
    requires
        0 <= from <= s.len(),
        0 <= k,
    ensures
        find_from(s, d, from + k) matches Some(i) ==> find_from(s.skip(from), d, k) == Some(
            i - from,
        ),
        find_from(s, d, from + k) is None ==> find_from(s.skip(from), d, k) is None,
    decreases s.len() + 1 - from - k,
{
    let t = s.skip(from);
    if from + k > s.len() || from + k + d.len() > s.len() {
    } else {
        assert(t.subrange(k, k + d.len()) =~= s.subrange(from + k, from + k + d.len()));
        if matches_at(s, d, from + k) {
        } else {
            lemma_find_shift_rec(s, d, from, k + 1);
        }
    }
}

/// Cuts `s` at the first occurrence of `d`.
pub fn split_once_chars(s: &Vec<char>, d: &Vec<char>) -> (r: Option<(Vec<char>, Vec<char>)>)
    ensures
        r matches Some((a, b)) ==> split_once_seq(s@, d@) == Some((a@, b@)),
        r is None ==> split_once_seq(s@, d@) is None,
{
    let slen = s.len();
    match find_chars_from(s, d, 0) {
        Some(i) => {
            proof {
                lemma_find_from(s@, d@, 0);
            }
            let a = sub_chars(s, 0, i);
            let b = sub_chars(s, i + d.len(), s.len());
            assert(a@ =~= s@.take(i as int));
            assert(b@ =~= s@.skip(i + d@.len()));
            Some((a, b))
        },
        None => None,
    }
}

/// Whether `c` has the Unicode `White_Space` property, as
/// `char::is_whitespace` tests it.
pub open spec fn is_white_space(c: char) -> bool {
    ('\t' <= c && c <= '\r') || c == ' ' || c == '\u{85}' || c == '\u{a0}' || c == '\u{1680}'
        || ('\u{2000}' <= c && c <= '\u{200a}') || c == '\u{2028}' || c == '\u{2029}' || c
        == '\u{202f}' || c == '\u{205f}' || c == '\u{3000}'
}

/// Whether `c` is white space.
fn char_is_whitespace(c: char) -> (r: bool)
    ensures
        r == is_white_space(c),
{
    ('\t' <= c && c <= '\r') || c == ' ' || c == '\u{85}' || c == '\u{a0}' || c == '\u{1680}'
        || ('\u{2000}' <= c && c <= '\u{200a}') || c == '\u{2028}' || c == '\u{2029}' || c
        == '\u{202f}' || c == '\u{205f}' || c == '\u{3000}'
}

/// `s` without its leading white space.
pub open spec fn trim_start_seq(s: Seq<char>) -> Seq<char>
    decreases s.len(),
{
    if s.len() > 0 && is_white_space(s[0]) {
        trim_start_seq(s.drop_first())
    } else {
        s
    }
}

/// `s` without its trailing white space.
pub open spec fn trim_end_seq(s: Seq<char>) -> Seq<char>
    decreases s.len(),
{
    if s.len() > 0 && is_white_space(s.last()) {
        trim_end_seq(s.drop_last())
    } else {
        s
    }
}

/// `s` without its leading white space (`str::trim_start`).
pub fn trim_start_chars(s: &Vec<char>) -> (r: Vec<char>)
    ensures
        r@ == trim_start_seq(s@),
{
    let mut i: usize = 0;
    assert(s@.skip(0) =~= s@);
    while i < s.len() && char_is_whitespace(s[i])
        invariant
            i <= s@.len(),
            trim_start_seq(s@) == trim_start_seq(s@.skip(i as int)),
        decreases s@.len() - i,
    {
        assert(s@.skip(i as int).drop_first() =~= s@.skip(i + 1));
        i = i + 1;
    }
    let r = sub_chars(s, i, s.len());
    assert(r@ =~= s@.skip(i as int));
    r
}

/// `s` without its trailing white space (`str::trim_end`).
pub fn trim_end_chars(s: &Vec<char>) -> (r: Vec<char>)
    ensures
        r@ == trim_end_seq(s@),
{
    let mut n: usize = s.len();
    assert(s@.take(s@.len() as int) =~= s@);
    while n > 0 && char_is_whitespace(s[n - 1])
        invariant
            n <= s@.len(),
            trim_end_seq(s@) == trim_end_seq(s@.take(n as int)),
        decreases n,
    {
        assert(s@.take(n as int).drop_last() =~= s@.take(n - 1));
        n = n - 1;
    }
    let r = sub_chars(s, 0, n);
    assert(r@ =~= s@.take(n as int));
    r
}

/// What `str::to_lowercase` returns for `s`; consulted only for text that
/// is not all ASCII.
pub uninterp spec fn unicode_lowercase(s: Seq<char>) -> Seq<char>;

/// `c` with the capital letters `A` to `Z` mapped to `a` to `z`.
pub open spec fn ascii_lower(c: char) -> char {
    if 'A' <= c && c <= 'Z' {
        ((c as u32) + 32) as char
    } else {
        c
    }
}

/// The lowercase equivalent of `s`: for ASCII text, each capital letter
/// lowered and every other character kept.
pub open spec fn lowercase(s: Seq<char>) -> Seq<char> {
    if is_ascii_chars(s) {
        s.map_values(|c: char| ascii_lower(c))
    } else {
        unicode_lowercase(s)
    }
}

/// `str::to_lowercase`: the lowercase equivalent of `s`, as a new string.
/// On ASCII text it lowers `A` to `Z` and keeps every other character;
/// what it makes of other text is left to `unicode_lowercase`.
#[verifier::external_body]
pub(crate) fn to_lowercase(s: &str) -> (r: String)
    ensures
        is_ascii_chars(s@) ==> r@ == s@.map_values(|c: char| ascii_lower(c)),
        !is_ascii_chars(s@) ==> r@ == unicode_lowercase(s@),
{
    s.to_lowercase()
}

/// The pieces of `parts` with `sep` between consecutive ones.
pub open spec fn join_seq(parts: Seq<Seq<char>>, sep: Seq<char>) -> Seq<char>
    decreases parts.len(),
{
    if parts.len() == 0 {
        Seq::empty()
    } else if parts.len() == 1 {
        parts[0]
    } else {
        join_seq(parts.drop_last(), sep) + sep + parts.last()
    }
}

/// `s` without its first `n` elements (empty when it has fewer), as
/// `Iterator::skip` gives them.
pub open spec fn drop_n<A>(s: Seq<A>, n: int) -> Seq<A> {
    if n >= s.len() {
        Seq::empty()
    } else {
        s.skip(n)
    }
}

/// The pieces of `parts` from position `from` on, with `sep` between
/// consecutive ones.
pub fn join_chars_from(parts: &Vec<Vec<char>>, from: usize, sep: &Vec<char>) -> (r: Vec<char>)
    ensures
        r@ == join_seq(drop_n(views(parts@), from as int), sep@),
{
    let mut r: Vec<char> = Vec::new();
    if from >= parts.len() {
        return r;
    }
    let mut i = from;
    while i < parts.len()
        invariant
            from <= i <= parts@.len(),
            from < parts@.len(),
            r@ == join_seq(views(parts@).subrange(from as int, i as int), sep@),
        decreases parts@.len() - i,
    {
        let ghost prev = views(parts@).subrange(from as int, i as int);
        let ghost next = views(parts@).subrange(from as int, i + 1);
        assert(next.drop_last() =~= prev);
        assert(next.last() == parts@[i as int]@);
        if i > from {
            let mut k: usize = 0;
            while k < sep.len()
                invariant
                    k <= sep@.len(),
                    r@ == join_seq(prev, sep@) + sep@.take(k as int),
                decreases sep@.len() - k,
            {
                r.push(sep[k]);
                assert(sep@.take(k + 1) =~= sep@.take(k as int).push(sep@[k as int]));
                k = k + 1;
            }
            assert(sep@.take(k as int) =~= sep@);
        }
        let ghost before = r@;
        let piece = &parts[i];
        let mut k: usize = 0;
        while k < piece.len()
            invariant
                k <= piece@.len(),
                r@ == before + piece@.take(k as int),
            decreases piece@.len() - k,
        {
            r.push(piece[k]);
            assert(piece@.take(k + 1) =~= piece@.take(k as int).push(piece@[k as int]));
            k = k + 1;
        }
        assert(piece@.take(k as int) =~= piece@);
        if i == from {
            assert(r@ =~= join_seq(next, sep@));
        }
        i = i + 1;
    }
    assert(views(parts@).subrange(from as int, i as int) =~= views(parts@).skip(from as int));
    r
}

} // verus!
