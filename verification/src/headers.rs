//! Header-block logic: detecting the end of the header block, deciding
//! whether the header-read loop goes on, scanning for the `Content-Length`
//! header, and sizing the bounded reads of the body.
use vstd::prelude::*;
use crate::digits::{parse_decimal, parse_decimal_spec};
use crate::scan::{byte_pos, find_byte, find_pair, lemma_byte_pos, pair_pos};
use crate::text::{ascii_bytes, ascii_seq, bytes_eq};
use vstd::slice::slice_subrange;

verus! {

/// The header terminator `\r\n\r\n` occurs at position `i` of `s`.
pub open spec fn terminator_at(s: Seq<u8>, i: int) -> bool {
    &&& 0 <= i
    &&& i + 4 <= s.len()
    &&& s[i] == 13
    &&& s[i + 1] == 10
    &&& s[i + 2] == 13
    &&& s[i + 3] == 10
}

/// The header terminator `\r\n\r\n` occurs somewhere in `s`.
pub open spec fn has_terminator(s: Seq<u8>) -> bool {
    exists|i: int| terminator_at(s, i)
}

/// Does the accumulated request text contain the header terminator?
pub fn header_complete(request: &Vec<u8>) -> (r: bool)
    ensures
        r == has_terminator(request@),
{
    if request.len() < 4 {
        return false;
    }
    let mut i: usize = 0;
    while i <= request.len() - 4
        invariant
            4 <= request.len(),
            i <= request.len(),
            forall|m: int| 0 <= m < i ==> !terminator_at(request@, m),
        decreases request.len() - i,
    {
        if request[i] == 13 && request[i + 1] == 10 && request[i + 2] == 13 && request[i + 3]
            == 10 {
            proof {
                assert(terminator_at(request@, i as int));
            }
            return true;
        }
        i = i + 1;
    }
    proof {
        assert forall|m: int| 0 <= m implies !terminator_at(request@, m) by {
            if m < i {
            } else {
                assert(m + 4 > request@.len());
            }
        }
    }
    false
}

/// The header-read loop goes on exactly while the last read returned bytes
/// and the terminator has not appeared; a zero-byte read always stops it.
pub fn continue_header_read(request: &Vec<u8>, bytes_read: usize) -> (r: bool)
    ensures
        r == (bytes_read != 0 && !has_terminator(request@)),
        bytes_read == 0 ==> !r,
{
    bytes_read != 0 && !header_complete(request)
}

/// How many bytes the body-read loop asks for next: the remaining count,
/// capped at the 1024-byte scratch buffer; zero once everything is in.
pub fn next_chunk_len(content_length: usize, received: usize) -> (r: usize)
    ensures
        received >= content_length ==> r == 0,
        received < content_length ==> r == if content_length - received > 1024 {
            1024int
        } else {
            content_length - received
        },
{
    if received >= content_length {
        0
    } else {
        let rem = content_length - received;
        if rem > 1024 {
            1024
        } else {
            rem
        }
    }
}

/// The literal header prefix the scan looks for.
pub open spec fn cl_prefix() -> Seq<u8> {
    ascii_seq("Content-Length: "@)
}

/// `cl_prefix` as a byte vector.
pub fn cl_prefix_bytes() -> (r: Vec<u8>)
    ensures
        r@ == cl_prefix(),
        r@.len() == 16,
{
    let s = "Content-Length: ";
    proof {
        reveal_strlit("Content-Length: ");
    }
    ascii_bytes(s)
}

/// A line with its trailing carriage return removed, as `str::lines` yields
/// it.
pub open spec fn strip_cr(line: Seq<u8>) -> Seq<u8> {
    if line.len() > 0 && line.last() == 13 {
        line.drop_last()
    } else {
        line
    }
}

/// The line (already stripped) declares the content length.
pub open spec fn is_cl_line(line: Seq<u8>) -> bool {
    line.len() >= 16 && line.take(16) == cl_prefix()
}

/// The value part of a content-length line: what stands between the first
/// `": "` and the next `": "` or the end of the line.
pub open spec fn cl_value_seg(line: Seq<u8>) -> Seq<u8> {
    let rest = line.skip(16);
    rest.take(pair_pos(rest, 58, 32))
}

/// The content length the request declares: scanning line by line, the first
/// line with the exact prefix `Content-Length: ` has its value parsed as an
/// unsigned integer; absence or a parse failure defaults to zero.
pub open spec fn content_length_spec(req: Seq<u8>) -> nat
    decreases req.len(),
    via content_length_spec_dec
{
    if req.len() == 0 {
        0
    } else {
        let le = byte_pos(req, 10);
        let line = strip_cr(req.take(le));
        if is_cl_line(line) {
            parse_decimal_spec(cl_value_seg(line))
        } else if le >= req.len() {
            0
        } else {
            content_length_spec(req.skip(le + 1))
        }
    }
}

#[via_fn]
proof fn content_length_spec_dec(req: Seq<u8>) {
    lemma_byte_pos(req, 10);
}

/// Scans the accumulated request for the first `Content-Length: ` line and
/// parses its value, defaulting to zero.
pub fn content_length_of(request: &Vec<u8>) -> (n: usize)
    ensures
        n as nat == content_length_spec(request@),
{
    let prefix = cl_prefix_bytes();
    let mut pos: usize = 0;
    proof {
        assert(request@.skip(0) =~= request@);
    }
    loop
        invariant
            pos <= request.len(),
            prefix@ == cl_prefix(),
            content_length_spec(request@) == content_length_spec(request@.skip(pos as int)),
        decreases request.len() - pos,
    {
        let ghost t = request@.skip(pos as int);
        if pos == request.len() {
            proof {
                assert(t =~= Seq::<u8>::empty());
            }
            return 0;
        }
        let le = find_byte(request, pos, 10);
        proof {
            assert(t.take(le - pos) =~= request@.subrange(pos as int, le as int));
        }
        let line_hi: usize = if le > pos && request[le - 1] == 13 {
            le - 1
        } else {
            le
        };
        let ghost line = strip_cr(t.take(byte_pos(t, 10)));
        proof {
            if le > pos {
                assert(t.take(le - pos).last() == request@[le - 1]);
            }
            if le > pos && request@[le - 1] == 13 {
                assert(line =~= request@.subrange(pos as int, line_hi as int));
            } else {
                assert(line =~= request@.subrange(pos as int, line_hi as int));
            }
        }
        if line_hi - pos >= 16 && bytes_eq(
            slice_subrange(request.as_slice(), pos, pos + 16),
            prefix.as_slice(),
        ) {
            proof {
                assert(line.take(16) =~= request@.subrange(pos as int, pos as int + 16));
                assert(is_cl_line(line));
            }
            let vs = find_pair(request, pos + 16, line_hi, 58, 32);
            let n = parse_decimal(request, pos + 16, vs);
            proof {
                assert(line.skip(16) =~= request@.subrange(pos as int + 16, line_hi as int));
                assert(cl_value_seg(line) =~= request@.subrange(pos as int + 16, vs as int));
                assert(content_length_spec(t) == parse_decimal_spec(cl_value_seg(line)));
            }
            return n;
        }
        proof {
            if line.len() >= 16 {
                assert(line.take(16) =~= request@.subrange(pos as int, pos as int + 16));
                assert(!is_cl_line(line));
            }
        }
        if le == request.len() {
            proof {
                assert(byte_pos(t, 10) >= t.len());
                assert(content_length_spec(t) == 0);
            }
            return 0;
        }
        proof {
            assert(t.skip(byte_pos(t, 10) + 1) =~= request@.skip(le as int + 1));
            assert(content_length_spec(t) == content_length_spec(request@.skip(le as int + 1)));
        }
        pos = le + 1;
    }
}

} // verus!
