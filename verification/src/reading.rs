//! The decisions taken while reading from a client: how much to ask for
//! next, when a read is complete, and how a chunked body is reassembled.
//! The transport performs each read and hands the bytes back here.
use vstd::prelude::*;

use crate::number::{parse_unsigned, parse_unsigned_chars};
use crate::request::{RequestParsingError, io_error_text};
use crate::text::{
    find_bytes, find_seq, lemma_find_from_bytes, matches_at, trim_end_chars, trim_end_seq, trim_start_chars,
    trim_start_seq,
};
use crate::utils::push_bytes;
use vstd::slice::slice_subrange;
use vstd::utf8::{decode_utf8, valid_utf8};

verus! {

/// The largest single read from a client.
pub const BUFFER_SIZE: usize = 8192;

/// Why reading from a client stopped.
#[derive(Debug)]
pub enum ReadError {
    IoError(std::io::Error),
    MaxSizeExceeded,
    Timeout,
    Cancellation,
    UnexpectedError,
}

/// The text of a read failure other than an I/O error.
pub open spec fn read_error_text(e: ReadError) -> Seq<char> {
    match e {
        ReadError::IoError(_) => "IO Error"@,
        ReadError::MaxSizeExceeded => "Max size exceeded"@,
        ReadError::Timeout => "Read timeout"@,
        ReadError::Cancellation => "Read cancelled"@,
        ReadError::UnexpectedError => "Unexpected error"@,
    }
}

impl ReadError {
    /// The failure as text; an I/O error is written as `IO Error: ` and the
    /// error's own text.
    pub fn to_string(&self) -> (r: String)
        ensures
            !(*self is IoError) ==> r@ == read_error_text(*self),
            *self is IoError ==> r@.len() >= 10 && r@.take(10) == "IO Error: "@,
    {
        match self {
            ReadError::IoError(e) => {
                let mut r = String::from_str("IO Error: ");
                let text = io_error_text(e);
                r.append(text.as_str());
                proof {
                    reveal_strlit("IO Error: ");
                    assert(r@.take(10) =~= "IO Error: "@);
                }
                r
            },
            ReadError::MaxSizeExceeded => String::from_str("Max size exceeded"),
            ReadError::Timeout => String::from_str("Read timeout"),
            ReadError::Cancellation => String::from_str("Read cancelled"),
            ReadError::UnexpectedError => String::from_str("Unexpected error"),
        }
    }
}

/// How a failed body read is reported for the request.
pub open spec fn parsing_error_of(e: ReadError) -> RequestParsingError {
    match e {
        ReadError::MaxSizeExceeded => RequestParsingError::PayloadTooLarge,
        ReadError::IoError(io) => RequestParsingError::IoError(io),
        ReadError::Timeout => RequestParsingError::Timeout,
        ReadError::Cancellation => RequestParsingError::Cancellation,
        ReadError::UnexpectedError => RequestParsingError::InvalidBody,
    }
}

/// Reports a failed body read as a request parsing error.
pub fn read_error_to_parsing_error(e: ReadError) -> (r: RequestParsingError)
    ensures
        r == parsing_error_of(e),
{
    match e {
        ReadError::MaxSizeExceeded => RequestParsingError::PayloadTooLarge,
        ReadError::IoError(io) => RequestParsingError::IoError(io),
        ReadError::Timeout => RequestParsingError::Timeout,
        ReadError::Cancellation => RequestParsingError::Cancellation,
        ReadError::UnexpectedError => RequestParsingError::InvalidBody,
    }
}

/// How many bytes to ask for when `have` of `wanted` bytes are read.
pub open spec fn read_size(have: nat, wanted: nat) -> nat {
    if wanted - have < BUFFER_SIZE {
        (wanted - have) as nat
    } else {
        BUFFER_SIZE as nat
    }
}

/// How many bytes to ask for next when reading exactly `size` bytes and
/// `have` are already read.
pub fn read_n_request_size(have: usize, size: usize) -> (r: usize)
    requires
        have <= size,
    ensures
        r == read_size(have as nat, size as nat),
{
    if size - have < BUFFER_SIZE {
        size - have
    } else {
        BUFFER_SIZE
    }
}

/// Takes the bytes of one read while reading `size` bytes: an empty read
/// means the peer is done. Returns the bytes read so far and whether the
/// read is complete.
pub fn read_n_step(output: Vec<u8>, data: &[u8], size: usize) -> (r: (Vec<u8>, bool))
    ensures
        data@.len() == 0 ==> r.0@ == output@ && r.1,
        data@.len() > 0 ==> r.0@ == output@ + data@ && r.1 == (r.0@.len() >= size),
{
    if data.len() == 0 {
        return (output, true);
    }
    let mut out = output;
    push_bytes(&mut out, data);
    let done = out.len() >= size;
    (out, done)
}

/// What happens after one read while reading up to a delimiter.
pub enum UntilStep {
    /// Not found yet; the bytes read so far.
    Continue(Vec<u8>),
    /// Found: the bytes up to and including the delimiter, and the rest.
    Found(Vec<u8>, Vec<u8>),
    /// The peer is done before the delimiter: everything read.
    EndOfInput(Vec<u8>),
    /// The limit was reached without finding the delimiter.
    TooLarge,
}

/// The abstract outcome of one read while looking for a delimiter.
pub enum UntilOutcome {
    Continue(Seq<u8>),
    Found(Seq<u8>, Seq<u8>),
    EndOfInput(Seq<u8>),
    TooLarge,
}

impl View for UntilStep {
    type V = UntilOutcome;

    open spec fn view(&self) -> UntilOutcome {
        match self {
            UntilStep::Continue(o) => UntilOutcome::Continue(o@),
            UntilStep::Found(b, a) => UntilOutcome::Found(b@, a@),
            UntilStep::EndOfInput(o) => UntilOutcome::EndOfInput(o@),
            UntilStep::TooLarge => UntilOutcome::TooLarge,
        }
    }
}

/// The outcome of reading `data` after `output` while looking for `d`
/// within `max_size` bytes: an empty read ends the input; otherwise the
/// delimiter is searched for in everything read so far.
pub open spec fn until_outcome(output: Seq<u8>, data: Seq<u8>, d: Seq<u8>, max_size: nat) -> UntilOutcome {
    if data.len() == 0 {
        UntilOutcome::EndOfInput(output)
    } else {
        let out = output + data;
        match find_seq(out, d) {
            Some(i) => UntilOutcome::Found(out.take(i + d.len()), out.skip(i + d.len())),
            None => if out.len() >= max_size {
                UntilOutcome::TooLarge
            } else {
                UntilOutcome::Continue(out)
            },
        }
    }
}

/// How many bytes to ask for next when reading up to a delimiter with
/// `have` bytes read and a limit of `max_size`.
pub fn read_until_request_size(have: usize, max_size: usize) -> (r: usize)
    requires
        have <= max_size,
    ensures
        r == read_size(have as nat, max_size as nat),
{
    read_n_request_size(have, max_size)
}

/// Takes the bytes of one read while looking for `delimiter` within
/// `max_size` bytes; `output` holds what was read before.
pub fn read_until_step(output: Vec<u8>, data: &[u8], delimiter: &[u8], max_size: usize) -> (r:
    UntilStep)
    ensures
        r@ == until_outcome(output@, data@, delimiter@, max_size as nat),
{
    if data.len() == 0 {
        return UntilStep::EndOfInput(output);
    }
    let mut out = output;
    push_bytes(&mut out, data);
    let out_len = out.len();
    match find_bytes(out.as_slice(), delimiter) {
        Some(index) => {
            proof {
                lemma_find_from_bytes(out@, delimiter@, 0);
                assert(out@.len() == out_len);
            }
            let end = index + delimiter.len();
            let before = vstd::slice::slice_to_vec(slice_subrange(out.as_slice(), 0, end));
            let after = vstd::slice::slice_to_vec(slice_subrange(out.as_slice(), end, out.len()));
            assert(before@ =~= out@.take(end as int));
            assert(after@ =~= out@.skip(end as int));
            UntilStep::Found(before, after)
        },
        None => {
            if out.len() >= max_size {
                UntilStep::TooLarge
            } else {
                UntilStep::Continue(out)
            }
        },
    }
}

/// What `String::from_utf8_lossy` makes of `bytes`.
pub uninterp spec fn utf8_lossy(bytes: Seq<u8>) -> Seq<char>;

/// `String::from_utf8_lossy`: the text of `bytes`, with invalid sequences
/// replaced; valid UTF-8 is decoded as it is.
#[verifier::external_body]
fn string_from_utf8_lossy(bytes: &[u8]) -> (r: String)
    ensures
        r@ == utf8_lossy(bytes@),
        valid_utf8(bytes@) ==> r@ == decode_utf8(bytes@),
{
    String::from_utf8_lossy(bytes).into_owned()
}

/// The text of `bytes`: decoded when valid UTF-8, else as
/// `String::from_utf8_lossy` makes it.
pub open spec fn lossy_text(bytes: Seq<u8>) -> Seq<char> {
    if valid_utf8(bytes) {
        decode_utf8(bytes)
    } else {
        utf8_lossy(bytes)
    }
}

/// The size announced by a chunk-size line `line` (CRLF included): the
/// hexadecimal number it holds between white space, or 0 when there is
/// none.
pub open spec fn announced_chunk_size(line: Seq<u8>) -> usize {
    let text = trim_start_seq(trim_end_seq(lossy_text(line.take(line.len() - 2))));
    match parse_unsigned(text, 16) {
        Some(n) => n,
        None => 0,
    }
}

/// Reads the size from a chunk-size line (which ends with CRLF).
pub fn chunk_size_of(line: &[u8]) -> (r: usize)
    requires
        line@.len() >= 2,
    ensures
        r == announced_chunk_size(line@),
{
    let size_part = slice_subrange(line, 0, line.len() - 2);
    assert(size_part@ =~= line@.take(line@.len() - 2));
    let text = string_from_utf8_lossy(size_part);
    let chars = crate::text::chars_of(text.as_str());
    let trimmed = trim_start_chars(&trim_end_chars(&chars));
    match parse_unsigned_chars(&trimmed, 16) {
        Some(n) => n,
        None => 0,
    }
}

/// The state of reading a chunked body: the body so far, bytes received
/// but not yet used, and the largest body accepted.
pub struct ChunkedBody {
    pub output: Vec<u8>,
    pub pending: Vec<u8>,
    pub max_size: usize,
}

/// What to do at the start of each chunk.
pub enum ChunkStart {
    /// The body has reached the limit: stop.
    Limit,
    /// The pending bytes hold a size line: the line (CRLF included) and the
    /// bytes after it. The pending bytes are used up.
    SizeLine(Vec<u8>, Vec<u8>),
    /// The pending bytes hold no complete size line: read five more bytes
    /// and add them with `add_pending`.
    ReadMore,
    /// Reading more pending bytes would pass the limit.
    TooLarge,
    /// Nothing is pending: read up to the next CRLF within this many bytes.
    ReadSizeLine(usize),
}

/// What to do once the size of a chunk is known.
#[derive(Debug, PartialEq, Eq, Structural)]
pub enum ChunkAction {
    /// The last chunk: stop.
    Finish,
    /// The chunk does not fit within the limit.
    TooLarge,
    /// The chunk was complete in the bytes at hand; go on with the next.
    Continue,
    /// Read this many more bytes (the rest of the chunk and its CRLF) and
    /// pass them to `add_chunk_tail` with the second number: how many bytes
    /// of the chunk are still owed.
    ReadRest(usize, usize),
}

/// The bytes before the first CRLF of `s` together with that CRLF, and the
/// bytes after it.
pub open spec fn cut_after_crlf(s: Seq<u8>) -> Option<(Seq<u8>, Seq<u8>)> {
    match find_seq(s, seq![13u8, 10u8]) {
        Some(i) => Some((s.take(i + 2), s.skip(i + 2))),
        None => None,
    }
}

impl ChunkedBody {
    /// A reader for a chunked body whose first bytes `extra_bytes` arrived
    /// with the head.
    pub fn new(extra_bytes: Vec<u8>, max_size: usize) -> (r: Self)
        ensures
            r.output@.len() == 0,
            r.pending == extra_bytes,
            r.max_size == max_size,
    {
        ChunkedBody { output: Vec::new(), pending: extra_bytes, max_size }
    }

    /// Decides how the next chunk starts.
    pub fn start_chunk(&mut self) -> (r: ChunkStart)
        ensures
            final(self).output == old(self).output,
            final(self).max_size == old(self).max_size,
            old(self).output@.len() >= old(self).max_size ==> r is Limit && final(self).pending
                == old(self).pending,
            old(self).output@.len() < old(self).max_size && old(self).pending@.len() > 0 ==> match
            cut_after_crlf(old(self).pending@) {
                Some((line, rest)) => r matches ChunkStart::SizeLine(l, x) && l@ == line && x@
                    == rest && final(self).pending@.len() == 0,
                None => final(self).pending == old(self).pending && if old(self).output@.len() + 5
                    + old(self).pending@.len() > old(self).max_size {
                    r is TooLarge
                } else {
                    r is ReadMore
                },
            },
            old(self).output@.len() < old(self).max_size && old(self).pending@.len() == 0 ==> (r
                matches ChunkStart::ReadSizeLine(n) && n == old(self).max_size - old(self).output@.len()) && final(self).pending == old(self).pending,
    {
        let out_len = self.output.len();
        if out_len >= self.max_size {
            return ChunkStart::Limit;
        }
        if self.pending.len() == 0 {
            return ChunkStart::ReadSizeLine(self.max_size - out_len);
        }
        let crlf: Vec<u8> = vec![13u8, 10u8];
        assert(crlf@ =~= seq![13u8, 10u8]);
        let pending_len = self.pending.len();
        match find_bytes(self.pending.as_slice(), crlf.as_slice()) {
            Some(i) => {
                proof {
                    lemma_find_from_bytes(self.pending@, crlf@, 0);
                    assert(self.pending@.len() == pending_len);
                }
                let line = vstd::slice::slice_to_vec(
                    slice_subrange(self.pending.as_slice(), 0, i + 2),
                );
                let rest = vstd::slice::slice_to_vec(
                    slice_subrange(self.pending.as_slice(), i + 2, pending_len),
                );
                assert(line@ =~= self.pending@.take(i + 2));
                assert(rest@ =~= self.pending@.skip(i + 2));
                self.pending = Vec::new();
                ChunkStart::SizeLine(line, rest)
            },
            None => {
                let room = self.max_size - out_len;
                if room < 5 || pending_len > room - 5 {
                    ChunkStart::TooLarge
                } else {
                    ChunkStart::ReadMore
                }
            },
        }
    }

    /// Adds bytes read while looking for a size line in the pending bytes.
    pub fn add_pending(&mut self, data: &[u8])
        ensures
            final(self).pending@ == old(self).pending@ + data@,
            final(self).output == old(self).output,
            final(self).max_size == old(self).max_size,
    {
        push_bytes(&mut self.pending, data);
    }

    /// Decides what to do with a chunk of `chunk_size` bytes, given the
    /// bytes `extra` that followed its size line.
    pub fn on_chunk_size(&mut self, chunk_size: usize, extra: Vec<u8>) -> (r: ChunkAction)
        requires
            old(self).output@.len() < old(self).max_size,
            chunk_size > old(self).max_size - old(self).output@.len() ==> extra@.len() >= old(self).max_size - old(self).output@.len(),
            chunk_size != 0 && chunk_size <= old(self).max_size - old(self).output@.len() ==>
                chunk_size + 2 <= usize::MAX,
        ensures
            final(self).max_size == old(self).max_size,
            chunk_size == 0 ==> r == ChunkAction::Finish && final(self).output == old(self).output && final(self).pending == old(self).pending,
            chunk_size != 0 && old(self).output@.len() + chunk_size > old(self).max_size ==> r
                == ChunkAction::TooLarge && final(self).output@ == old(self).output@ + extra@.take(
                old(self).max_size - old(self).output@.len(),
            ),
            chunk_size != 0 && old(self).output@.len() + chunk_size <= old(self).max_size
                && extra@.len() >= chunk_size + 2 ==> r == ChunkAction::Continue && final(self).output@ == old(self).output@ + extra@.take(chunk_size as int) && final(self).pending@
                == extra@.skip(chunk_size + 2),
            chunk_size != 0 && old(self).output@.len() + chunk_size <= old(self).max_size
                && extra@.len() < chunk_size + 2 ==> r == ChunkAction::ReadRest(
                (chunk_size + 2 - extra@.len()) as usize,
                if extra@.len() < chunk_size { (chunk_size - extra@.len()) as usize } else { 0 },
            ) && final(self).output@ == old(self).output@ + extra@.take(
                if extra@.len() < chunk_size { extra@.len() as int } else { chunk_size as int },
            ) && final(self).pending == old(self).pending,
    {
        if chunk_size == 0 {
            return ChunkAction::Finish;
        }
        let out_len = self.output.len();
        let allowed = self.max_size - out_len;
        if chunk_size > allowed {
            let head = slice_subrange(extra.as_slice(), 0, allowed);
            assert(head@ =~= extra@.take(allowed as int));
            push_bytes(&mut self.output, head);
            return ChunkAction::TooLarge;
        }
        let already_read = extra.len();
        if already_read >= chunk_size + 2 {
            let data = slice_subrange(extra.as_slice(), 0, chunk_size);
            assert(data@ =~= extra@.take(chunk_size as int));
            push_bytes(&mut self.output, data);
            let rest = vstd::slice::slice_to_vec(
                slice_subrange(extra.as_slice(), chunk_size + 2, already_read),
            );
            assert(rest@ =~= extra@.skip(chunk_size + 2));
            self.pending = rest;
            ChunkAction::Continue
        } else {
            let taken = if already_read < chunk_size {
                already_read
            } else {
                chunk_size
            };
            let data = slice_subrange(extra.as_slice(), 0, taken);
            assert(data@ =~= extra@.take(taken as int));
            push_bytes(&mut self.output, data);
            ChunkAction::ReadRest(chunk_size + 2 - already_read, chunk_size - taken)
        }
    }

    /// Adds the first `owed` bytes of `data`: the bytes still owed of a
    /// chunk that was not complete in the bytes at hand, read after it.
    pub fn add_chunk_tail(&mut self, data: &[u8], owed: usize)
        requires
            data@.len() >= owed,
        ensures
            final(self).output@ == old(self).output@ + data@.take(owed as int),
            final(self).pending == old(self).pending,
            final(self).max_size == old(self).max_size,
    {
        let part = slice_subrange(data, 0, owed);
        assert(part@ =~= data@.take(owed as int));
        push_bytes(&mut self.output, part);
    }

    /// The body once all chunks are read; an error when it reached the
    /// limit.
    pub fn finish(self) -> (r: Result<Vec<u8>, ReadError>)
        ensures
            self.output@.len() >= self.max_size ==> r matches Err(ReadError::MaxSizeExceeded),
            self.output@.len() < self.max_size ==> (r matches Ok(b) && b == self.output),
    {
        if self.output.len() >= self.max_size {
            Err(ReadError::MaxSizeExceeded)
        } else {
            Ok(self.output)
        }
    }
}

/// The bytes before a body read by content length: the bytes that came
/// with the head, and how many more to read. Refused when the length
/// passes the limit.
pub fn content_length_start(content_length: usize, extra_bytes: Vec<u8>, max_size: usize) -> (r:
    Result<(Vec<u8>, usize), ReadError>)
    ensures
        content_length > max_size ==> r matches Err(ReadError::MaxSizeExceeded),
        content_length <= max_size ==> (r matches Ok((b, more)) && b == extra_bytes && more == (
        if extra_bytes@.len() < content_length {
            content_length - extra_bytes@.len()
        } else {
            0
        })),
{
    let already_received = extra_bytes.len();
    if content_length > max_size {
        return Err(ReadError::MaxSizeExceeded);
    }
    let more = if already_received < content_length {
        content_length - already_received
    } else {
        0
    };
    Ok((extra_bytes, more))
}

/// After a non-empty read, the delimiter is looked for in everything read
/// so far, including across the boundary between earlier bytes and the new
/// ones: when it occurs anywhere, the outcome is `Found`, cutting the bytes
/// just after its first occurrence; when it occurs nowhere, it is not
/// `Found`.
pub proof fn law_until_finds_first_delimiter(
    output: Seq<u8>,
    data: Seq<u8>,
    d: Seq<u8>,
    max_size: nat,
)
    requires
        data.len() > 0,
        d.len() > 0,
    ensures
        (exists|i: int| #[trigger] matches_at(output + data, d, i)) ==> (until_outcome(
            output,
            data,
            d,
            max_size,
        ) matches UntilOutcome::Found(before, after) && before + after == output + data
            && before.len() >= d.len() && matches_at(output + data, d, before.len() - d.len())
            && forall|j: int| #[trigger] matches_at(output + data, d, j) ==> before.len() <= j + d.len()),
        !(exists|i: int| #[trigger] matches_at(output + data, d, i)) ==> !(until_outcome(
            output,
            data,
            d,
            max_size,
        ) is Found),
{
    let out = output + data;
    lemma_find_from_bytes(out, d, 0);
    if let Some(i) = find_seq(out, d) {
        assert(out.take(i + d.len()) + out.skip(i + d.len()) =~= out);
        assert(matches_at(out, d, i));
    } else {
        if exists|i: int| #[trigger] matches_at(out, d, i) {
            let i = choose|i: int| #[trigger] matches_at(out, d, i);
            assert(!matches_at(out, d, i));
        }
    }
}

} // verus!
