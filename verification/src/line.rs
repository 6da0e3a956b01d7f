//! Byte-level line framing: a growable buffer of accumulated reads is cut
//! at the first line feed, one preceding carriage return is stripped, and a
//! scan cursor keeps partial buffers from being rescanned from the start.

use crate::bufio::{bm_advance, bm_find_byte, bm_len, bm_take_front, bytes_of};
use vstd::prelude::*;

verus! {

/// The line feed byte.
pub const LF: u8 = 10;

/// The carriage return byte.
pub const CR: u8 = 13;

/// Index of the first occurrence of `x` in `s`.
pub open spec fn find_byte(s: Seq<u8>, x: u8) -> Option<int>
    decreases s.len(),
{
    if s.len() == 0 {
        None
    } else if s[0] == x {
        Some(0int)
    } else {
        match find_byte(s.drop_first(), x) {
            None => None,
            Some(i) => Some(i + 1),
        }
    }
}

/// `find_byte` returns the first occurrence: the hit is in range, and no
/// earlier position holds `x`.
pub proof fn lemma_find_byte(s: Seq<u8>, x: u8)
    ensures
        match find_byte(s, x) {
            None => forall|j: int| 0 <= j < s.len() ==> s[j] != x,
            Some(i) => 0 <= i < s.len() && s[i] == x && (forall|j: int| 0 <= j < i ==> s[j] != x),
        },
    decreases s.len(),
{
    if s.len() > 0 && s[0] != x {
        lemma_find_byte(s.drop_first(), x);
        assert(forall|j: int| 1 <= j < s.len() ==> #[trigger] s[j] == s.drop_first()[j - 1]);
    }
}

/// A payload with one trailing carriage return stripped.
pub open spec fn strip_cr(line: Seq<u8>) -> Seq<u8> {
    if line.len() > 0 && line[line.len() - 1] == CR {
        line.drop_last()
    } else {
        line
    }
}

/// What one decode call does to a buffer under a maximum line length.
pub enum FrameStep {
    /// The buffer is empty.
    Empty,
    /// No terminator yet and the buffer is within bounds: wait for more.
    More,
    /// A complete line: the stripped payload and the remaining buffer.
    Line(Seq<u8>, Seq<u8>),
    /// The buffer outgrew the maximum without a terminator in reach.
    Overflow,
}

/// The framing decision for a buffer `b` under maximum line length `mx`:
/// a line ends at the first line feed, which must lie within the first
/// `mx + 1` bytes; a buffer longer than `mx` with no line feed in reach
/// overflows.
pub open spec fn frame_of(b: Seq<u8>, mx: int) -> FrameStep {
    if b.len() == 0 {
        FrameStep::Empty
    } else {
        match find_byte(b, LF) {
            Some(i) => if i <= mx {
                FrameStep::Line(strip_cr(b.take(i)), b.skip(i + 1))
            } else {
                FrameStep::Overflow
            },
            None => if b.len() > mx {
                FrameStep::Overflow
            } else {
                FrameStep::More
            },
        }
    }
}

/// The scan cursor is valid for a buffer: it lies within it and no line
/// feed hides before it.
pub open spec fn cursor_ok(cursor: int, b: Seq<u8>) -> bool {
    0 <= cursor <= b.len() && (forall|j: int| 0 <= j < cursor ==> b[j] != LF)
}

/// All complete lines a buffer holds, in order.
pub open spec fn drain_lines(b: Seq<u8>) -> Seq<Seq<u8>>
    decreases b.len(),
    via drain_lines_decreases
{
    match find_byte(b, LF) {
        None => Seq::empty(),
        Some(i) => seq![strip_cr(b.take(i))] + drain_lines(b.skip(i + 1)),
    }
}

#[via_fn]
proof fn drain_lines_decreases(b: Seq<u8>) {
    lemma_find_byte(b, LF);
}

/// What a buffer keeps after every complete line is taken: a remainder
/// with no line feed.
pub open spec fn drain_rest(b: Seq<u8>) -> Seq<u8>
    decreases b.len(),
    via drain_rest_decreases
{
    match find_byte(b, LF) {
        None => b,
        Some(i) => drain_rest(b.skip(i + 1)),
    }
}

#[via_fn]
proof fn drain_rest_decreases(b: Seq<u8>) {
    lemma_find_byte(b, LF);
}

/// Splitting the input at any point changes nothing: the lines decoded
/// from the first chunk, followed by the lines decoded from the leftover
/// bytes with the second chunk appended, are the lines of the whole input,
/// and the final leftovers agree too.
pub proof fn lemma_decode_in_chunks(b: Seq<u8>, k: int)
    requires
        0 <= k <= b.len(),
    ensures
        drain_lines(b) == drain_lines(b.take(k)) + drain_lines(drain_rest(b.take(k)) + b.skip(k)),
        drain_rest(b) == drain_rest(drain_rest(b.take(k)) + b.skip(k)),
    decreases b.len(),
{
    let p = b.take(k);
    lemma_find_byte(p, LF);
    lemma_find_byte(b, LF);
    match find_byte(p, LF) {
        None => {
            assert(drain_lines(p) =~~= Seq::<Seq<u8>>::empty());
            assert(drain_rest(p) == p);
            assert(p + b.skip(k) =~= b);
            assert(Seq::<Seq<u8>>::empty() + drain_lines(b) =~~= drain_lines(b));
        },
        Some(i) => {
            // The first line feed of the prefix is the first of the whole.
            assert(b[i] == LF);
            assert(forall|j: int| 0 <= j < i ==> #[trigger] b[j] == p[j]);
            assert(forall|j: int| 0 <= j < i ==> b[j] != LF);
            match find_byte(b, LF) {
                None => {
                    assert(false);
                },
                Some(i0) => {
                    assert(i0 == i);
                },
            }
            assert(p.take(i) =~= b.take(i));
            let b1 = b.skip(i + 1);
            let k1 = k - (i + 1);
            assert(p.skip(i + 1) =~= b1.take(k1));
            assert(b.skip(k) =~= b1.skip(k1));
            lemma_decode_in_chunks(b1, k1);
            assert(drain_lines(b) =~~= seq![strip_cr(b.take(i))] + drain_lines(b1));
            assert(drain_lines(p) =~~= seq![strip_cr(b.take(i))] + drain_lines(b1.take(k1)));
            assert(drain_rest(p) == drain_rest(b1.take(k1)));
            assert((seq![strip_cr(b.take(i))] + drain_lines(b1.take(k1))) + drain_lines(
                drain_rest(b1.take(k1)) + b1.skip(k1),
            ) =~~= seq![strip_cr(b.take(i))] + (drain_lines(b1.take(k1)) + drain_lines(
                drain_rest(b1.take(k1)) + b1.skip(k1),
            )));
        },
    }
}

/// One emitted line is the head of the buffer's lines, and the remaining
/// buffer holds exactly the tail.
pub proof fn lemma_frame_head(b: Seq<u8>, mx: int)
    requires
        frame_of(b, mx) is Line,
    ensures
        drain_lines(b) == seq![frame_of(b, mx)->Line_0] + drain_lines(frame_of(b, mx)->Line_1),
        drain_rest(b) == drain_rest(frame_of(b, mx)->Line_1),
{
}

/// Raw CRLF framing over a byte buffer: cuts at the first line feed,
/// strips one preceding carriage return, and remembers a scan cursor so
/// partial buffers are not rescanned from the start.
#[derive(Clone, PartialEq, Eq, Debug, Hash)]
pub struct IrcCodec {
    next_index: usize,
    max_length: usize,
}

impl IrcCodec {
    /// The scan cursor.
    pub closed spec fn cursor(&self) -> int {
        self.next_index as int
    }

    /// The maximum line length, terminator included.
    pub closed spec fn max_len(&self) -> int {
        self.max_length as int
    }

    /// A codec with the default maximum line length of 512 bytes.
    pub fn new() -> (r: IrcCodec)
        ensures
            r.cursor() == 0,
            r.max_len() == 512,
    {
        IrcCodec { next_index: 0, max_length: 512 }
    }

    /// A codec with the given maximum line length.
    pub fn new_break_length(max_length: usize) -> (r: IrcCodec)
        ensures
            r.cursor() == 0,
            r.max_len() == max_length,
    {
        IrcCodec { next_index: 0, max_length }
    }

    /// Whether the scan cursor is valid for the given buffer, so a caller
    /// outside the proof can check before decoding.
    pub fn cursor_valid(&self, src: &bytes::BytesMut) -> (r: bool)
        ensures
            r == (cursor_ok(self.cursor(), bytes_of(*src)) && self.cursor() <= self.max_len()),
    {
        let blen = bm_len(src);
        if self.next_index > blen || self.next_index > self.max_length {
            return false;
        }
        let hit = bm_find_byte(src, LF, 0, self.next_index);
        proof {
            if hit is None {
                assert(cursor_ok(self.cursor(), bytes_of(*src)));
            }
        }
        hit.is_none()
    }

    /// The configured maximum line length.
    pub fn max_length_value(&self) -> (r: usize)
        ensures
            r == self.max_len(),
    {
        self.max_length
    }

    /// Frames the next line out of the accumulated buffer, as `frame_of`
    /// says: a complete line is removed from the buffer and is never
    /// longer than the maximum; on overflow the error consumes nothing;
    /// otherwise the buffer is kept and the cursor advances to its end.
    pub fn decode(&mut self, src: &mut bytes::BytesMut) -> (r: Result<
        Option<Vec<u8>>,
        IrcCodecError,
    >)
        requires
            cursor_ok(old(self).cursor(), bytes_of(*old(src))),
            old(self).cursor() <= old(self).max_len(),
        ensures
            final (self).max_len() == old(self).max_len(),
            cursor_ok(final (self).cursor(), bytes_of(*final (src))),
            final (self).cursor() <= final (self).max_len(),
            match frame_of(bytes_of(*old(src)), old(self).max_len()) {
                FrameStep::Empty => r matches Ok(ro) && ro is None && bytes_of(*final (src))
                    == bytes_of(*old(src)) && final (self).cursor() == old(self).cursor(),
                FrameStep::More => r matches Ok(ro) && ro is None && bytes_of(*final (src))
                    == bytes_of(*old(src)) && final (self).cursor() == bytes_of(
                    *old(src),
                ).len() as int,
                FrameStep::Line(line, rem) => r matches Ok(ro) && ro matches Some(v) && v@ == line
                    && line.len() <= old(self).max_len() && bytes_of(*final (src)) == rem && final (
                self).cursor() == 0,
                FrameStep::Overflow => r matches Err(e) && e is MaxLineLengthExceeded && bytes_of(
                    *final (src),
                ) == bytes_of(*old(src)) && final (self).cursor() == old(self).cursor(),
            },
    {
        proof {
            lemma_find_byte(bytes_of(*src), LF);
        }
        let blen = bm_len(src);
        if blen == 0 {
            return Ok(None);
        }
        let read_to: usize = if self.max_length >= blen {
            blen
        } else {
            self.max_length + 1
        };
        match bm_find_byte(src, LF, self.next_index, read_to) {
            Some(rel) => {
                let idx = self.next_index + rel;
                let line = bm_take_front(src, idx);
                bm_advance(src, 1);
                let mut v = line;
                let vl = v.len();
                if vl > 0 && v[vl - 1] == CR {
                    v.truncate(vl - 1);
                    proof {
                        assert(v@ =~= strip_cr(bytes_of(*old(src)).take(idx as int)));
                    }
                }
                self.next_index = 0;
                Ok(Some(v))
            },
            None => {
                if blen > self.max_length {
                    return Err(IrcCodecError::MaxLineLengthExceeded);
                }
                self.next_index = blen;
                Ok(None)
            },
        }
    }
}

/// Failures of the raw framing codec.
#[derive(Debug)]
pub enum IrcCodecError {
    /// The buffer outgrew the maximum line length without a terminator.
    MaxLineLengthExceeded,
    /// An error of the underlying stream.
    Io(std::io::Error),
}

impl From<std::io::Error> for IrcCodecError {
    fn from(e: std::io::Error) -> (r: IrcCodecError) {
        IrcCodecError::Io(e)
    }
}

impl vstd::std_specs::convert::FromSpecImpl<std::io::Error> for IrcCodecError {
    open spec fn obeys_from_spec() -> bool {
        true
    }

    open spec fn from_spec(v: std::io::Error) -> Self {
        IrcCodecError::Io(v)
    }
}

} // verus!
