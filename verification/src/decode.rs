//! UTF-8 decoding of a byte stream, one Unicode scalar value at a time.
//!
//! The shell reads its input as raw bytes and must turn them into characters
//! before any line editing happens.  The functions here classify a lead byte,
//! decode the byte group of a single character, and decode a whole byte
//! sequence; their contracts are stated against the UTF-8 model of
//! `vstd::utf8`.
use vstd::prelude::*;
use vstd::utf8::is_leading_byte_width_1;
use vstd::utf8::is_leading_byte_width_2;
use vstd::utf8::is_leading_byte_width_3;
use vstd::utf8::is_leading_byte_width_4;
use vstd::utf8::codepoint_width_1;
use vstd::utf8::codepoint_width_2;
use vstd::utf8::codepoint_width_3;
use vstd::utf8::codepoint_width_4;
use vstd::utf8::valid_leading_and_continuation_bytes_first_codepoint;
use vstd::utf8::decode_first_codepoint;
use vstd::utf8::valid_first_scalar;
use vstd::utf8::decode_first_scalar;
use vstd::utf8::length_of_first_scalar;
use vstd::utf8::pop_first_scalar;
use vstd::utf8::valid_utf8;
use vstd::utf8::decode_utf8;
use vstd::utf8::is_scalar;
use vstd::utf8::char_u32_cast;

verus! {

broadcast use vstd::utf8::utf8_byte_ranges_bitwise;

/// Why a byte sequence failed to decode as UTF-8.
#[derive(Clone, Copy, Debug, PartialEq, Eq, Structural)]
pub enum DecodeError {
    /// The first byte matches no UTF-8 lead-byte pattern.
    InvalidLead,
    /// The stream ended before the character's bytes were complete.
    Truncated,
    /// The byte group is not a well-formed encoding of a Unicode scalar.
    Invalid,
}

/// Number of bytes occupied by a character whose encoding starts with the
/// given lead byte, or 0 when the byte is not a valid lead byte.
pub open spec fn lead_width(b: u8) -> int {
    if is_leading_byte_width_1(b) {
        1
    } else if is_leading_byte_width_2(b) {
        2
    } else if is_leading_byte_width_3(b) {
        3
    } else if is_leading_byte_width_4(b) {
        4
    } else {
        0
    }
}

/// Classifies a lead byte by its high bits: how many bytes the encoded
/// character occupies in total, or `None` when the byte can start no
/// character.
pub fn char_width(first: u8) -> (r: Option<usize>)
    ensures
        r matches Some(w) ==> w == lead_width(first) && 1 <= w <= 4,
        r is None <==> lead_width(first) == 0,
{
    if first & 0x80 == 0x00 {
        Some(1)
    } else if first & 0xE0 == 0xC0 {
        Some(2)
    } else if first & 0xF0 == 0xE0 {
        Some(3)
    } else if first & 0xF8 == 0xF0 {
        Some(4)
    } else {
        None
    }
}

/// Relies on `char::from_u32`: for every value in the Unicode scalar range
/// it returns `Some` of the `char` with exactly that scalar value.
#[verifier::external_body]
fn char_from_scalar(v: u32) -> (c: char)
    requires
        is_scalar(v),
    ensures
        c as u32 == v,
{
    char::from_u32(v).unwrap()
}

/// Result of decoding one character's byte group.
pub open spec fn decode_char_spec(chunk: Seq<u8>) -> Result<char, DecodeError> {
    let w = lead_width(chunk[0]);
    if w == 0 {
        Err(DecodeError::InvalidLead)
    } else if chunk.len() < w {
        Err(DecodeError::Truncated)
    } else if chunk.len() > w {
        Err(DecodeError::Invalid)
    } else if valid_first_scalar(chunk) {
        Ok(decode_first_scalar(chunk) as char)
    } else {
        Err(DecodeError::Invalid)
    }
}

/// Decodes the byte group of a single character: exactly the bytes named by
/// the lead byte's classification, assembled and checked as one Unicode
/// scalar value.
pub fn decode_char_bytes(chunk: &Vec<u8>) -> (r: Result<char, DecodeError>)
    requires
        chunk@.len() >= 1,
    ensures
        r == decode_char_spec(chunk@),
{
    let n = chunk.len();
    let b0 = chunk[0];
    let w = match char_width(b0) {
        Some(w) => w,
        None => {
            return Err(DecodeError::InvalidLead);
        },
    };
    if n < w {
        return Err(DecodeError::Truncated);
    }
    if n > w {
        return Err(DecodeError::Invalid);
    }
    if w == 1 {
        let cp: u32 = (b0 & 0x7F) as u32;
        proof {
            assert(b0 & 0x7F == b0) by (bit_vector)
                requires
                    b0 & 0x80 == 0x00,
            ;
            assert(cp == codepoint_width_1(b0));
            assert(decode_first_codepoint(chunk@) == cp);
            assert(valid_first_scalar(chunk@));
        }
        let c = char_from_scalar(cp);
        proof {
            char_u32_cast(c, cp);
        }
        return Ok(c);
    }
    let b1 = chunk[1];
    if !(b1 & 0xC0 == 0x80) {
        proof {
            assert(!valid_leading_and_continuation_bytes_first_codepoint(chunk@));
        }
        return Err(DecodeError::Invalid);
    }
    if w == 2 {
        let cp: u32 = (((b0 & 0x1F) as u32) << 6) | ((b1 & 0x3F) as u32);
        if cp < 0x80 {
            return Err(DecodeError::Invalid);
        }
        proof {
            assert((((b0 & 0x1F) as u32) << 6) | ((b1 & 0x3F) as u32) <= 0x7FF) by (bit_vector);
            assert(cp == codepoint_width_2(b0, b1));
            assert(decode_first_codepoint(chunk@) == cp);
            assert(valid_first_scalar(chunk@));
        }
        let c = char_from_scalar(cp);
        proof {
            char_u32_cast(c, cp);
        }
        return Ok(c);
    }
    let b2 = chunk[2];
    if !(b2 & 0xC0 == 0x80) {
        proof {
            assert(!valid_leading_and_continuation_bytes_first_codepoint(chunk@));
        }
        return Err(DecodeError::Invalid);
    }
    if w == 3 {
        let cp: u32 = (((b0 & 0x0F) as u32) << 12) | (((b1 & 0x3F) as u32) << 6) | ((b2
            & 0x3F) as u32);
        if cp < 0x800 {
            return Err(DecodeError::Invalid);
        }
        if 0xD800 <= cp && cp <= 0xDFFF {
            return Err(DecodeError::Invalid);
        }
        proof {
            assert((((b0 & 0x0F) as u32) << 12) | (((b1 & 0x3F) as u32) << 6) | ((b2
                & 0x3F) as u32) <= 0xFFFF) by (bit_vector);
            assert(cp == codepoint_width_3(b0, b1, b2));
            assert(decode_first_codepoint(chunk@) == cp);
            assert(valid_first_scalar(chunk@));
        }
        let c = char_from_scalar(cp);
        proof {
            char_u32_cast(c, cp);
        }
        return Ok(c);
    }
    let b3 = chunk[3];
    if !(b3 & 0xC0 == 0x80) {
        proof {
            assert(!valid_leading_and_continuation_bytes_first_codepoint(chunk@));
        }
        return Err(DecodeError::Invalid);
    }
    let cp: u32 = (((b0 & 0x07) as u32) << 18) | (((b1 & 0x3F) as u32) << 12) | (((b2
        & 0x3F) as u32) << 6) | ((b3 & 0x3F) as u32);
    if cp < 0x10000 || cp > 0x10FFFF {
        return Err(DecodeError::Invalid);
    }
    proof {
        assert(cp == codepoint_width_4(b0, b1, b2, b3));
        assert(decode_first_codepoint(chunk@) == cp);
        assert(valid_first_scalar(chunk@));
    }
    let c = char_from_scalar(cp);
    proof {
        char_u32_cast(c, cp);
    }
    return Ok(c);
}

/// Result of decoding a whole byte sequence, character group by character
/// group, the way the shell's input reader consumes its stream.
pub open spec fn decode_stream_spec(bytes: Seq<u8>) -> Result<Seq<char>, DecodeError>
    decreases bytes.len(),
{
    if bytes.len() == 0 {
        Ok(Seq::empty())
    } else {
        let w = lead_width(bytes[0]);
        if w == 0 {
            Err(DecodeError::InvalidLead)
        } else if bytes.len() < w {
            Err(DecodeError::Truncated)
        } else {
            match decode_char_spec(bytes.take(w)) {
                Ok(c) => match decode_stream_spec(bytes.skip(w)) {
                    Ok(rest) => Ok(seq![c] + rest),
                    Err(e) => Err(e),
                },
                Err(e) => Err(e),
            }
        }
    }
}

/// The predicates and functions on a sequence's first scalar depend only on
/// that scalar's own bytes: two sequences that agree on them agree on all
/// of validity, the decoded value, and the length.
proof fn lemma_first_scalar_agree(a: Seq<u8>, b: Seq<u8>, w: int)
    requires
        0 < w,
        w == lead_width(a[0]),
        w <= a.len(),
        w <= b.len(),
        forall|k: int| 0 <= k < w ==> a[k] == b[k],
    ensures
        valid_first_scalar(a) <==> valid_first_scalar(b),
        valid_first_scalar(a) ==> decode_first_scalar(a) == decode_first_scalar(b),
        valid_first_scalar(a) ==> length_of_first_scalar(a) == w && length_of_first_scalar(b) == w,
{
    assert(a[0] == b[0]);
    if w == 1 {
        assert(is_leading_byte_width_1(a[0]));
    } else if w == 2 {
        assert(is_leading_byte_width_2(a[0]));
        assert(a[1] == b[1]);
    } else if w == 3 {
        assert(is_leading_byte_width_3(a[0]));
        assert(a[1] == b[1]);
        assert(a[2] == b[2]);
    } else {
        assert(is_leading_byte_width_4(a[0]));
        assert(a[1] == b[1]);
        assert(a[2] == b[2]);
        assert(a[3] == b[3]);
    }
}

/// Decodes a whole byte sequence into its characters.  Succeeds exactly on
/// the valid UTF-8 sequences, and then returns the same characters as the
/// standard decoding given by `vstd::utf8::decode_utf8`.
pub fn decode_all(bytes: &Vec<u8>) -> (r: Result<Vec<char>, DecodeError>)
    ensures
        r matches Ok(cs) ==> decode_stream_spec(bytes@) == Ok::<Seq<char>, DecodeError>(cs@),
        r matches Err(e) ==> decode_stream_spec(bytes@) == Err::<Seq<char>, DecodeError>(e),
        r is Ok <==> valid_utf8(bytes@),
        r matches Ok(cs) ==> cs@ == decode_utf8(bytes@),
{
    let mut out: Vec<char> = Vec::new();
    let mut i: usize = 0;
    let n = bytes.len();
    proof {
        assert(bytes@.skip(0) =~= bytes@);
        if decode_stream_spec(bytes@) is Ok {
            let rest = decode_stream_spec(bytes@)->Ok_0;
            assert(out@ + rest =~= rest);
        }
    }
    while i < n
        invariant
            0 <= i <= n,
            n == bytes@.len(),
            decode_stream_spec(bytes@.skip(i as int)) matches Ok(rest) ==> decode_stream_spec(
                bytes@,
            ) == Ok::<Seq<char>, DecodeError>(out@ + rest),
            decode_stream_spec(bytes@.skip(i as int)) matches Err(e) ==> decode_stream_spec(
                bytes@,
            ) == Err::<Seq<char>, DecodeError>(e),
        decreases n - i,
    {
        let ghost s = bytes@.skip(i as int);
        proof {
            assert(s.len() == n - i);
            assert(s[0] == bytes@[i as int]);
        }
        let b = bytes[i];
        let w = match char_width(b) {
            Some(w) => w,
            None => {
                proof {
                    lemma_decode_stream_ok_valid(bytes@);
                }
                return Err(DecodeError::InvalidLead);
            },
        };
        if n - i < w {
            proof {
                lemma_decode_stream_ok_valid(bytes@);
            }
            return Err(DecodeError::Truncated);
        }
        let mut chunk: Vec<u8> = Vec::new();
        let mut j: usize = 0;
        while j < w
            invariant
                0 <= j <= w,
                i + w <= n,
                n == bytes@.len(),
                chunk@ =~= bytes@.subrange(i as int, i + j),
            decreases w - j,
        {
            chunk.push(bytes[i + j]);
            j = j + 1;
        }
        proof {
            assert(chunk@ =~= s.take(w as int));
        }
        match decode_char_bytes(&chunk) {
            Ok(c) => {
                let ghost out0 = out@;
                out.push(c);
                i = i + w;
                proof {
                    assert(bytes@.skip(i as int) =~= s.skip(w as int));
                    assert(decode_char_spec(s.take(w as int)) == Ok::<char, DecodeError>(c));
                    assert(s.len() > 0 && lead_width(s[0]) == w && s.len() >= w);
                    assert(out@ =~= out0 + seq![c]);
                    if decode_stream_spec(s.skip(w as int)) is Ok {
                        let rest = decode_stream_spec(s.skip(w as int))->Ok_0;
                        assert(decode_stream_spec(s) == Ok::<Seq<char>, DecodeError>(
                            seq![c] + rest,
                        ));
                        assert(out0 + (seq![c] + rest) =~= out@ + rest);
                    }
                }
            },
            Err(e) => {
                proof {
                    lemma_decode_stream_ok_valid(bytes@);
                }
                return Err(e);
            },
        }
    }
    proof {
        assert(bytes@.skip(i as int) =~= Seq::empty());
        assert(out@ + Seq::<char>::empty() =~= out@);
        lemma_decode_stream_ok_valid(bytes@);
    }
    Ok(out)
}

/// Each step of a successful stream decoding is exactly one scalar of the
/// standard model: a stream decodes cleanly if and only if its bytes are
/// valid UTF-8, and then it yields the standard character sequence.
///
/// This is the statement that for every valid UTF-8 byte sequence, the
/// shell's reader produces the same scalar values as a standard decoder,
/// consuming each character's exact byte count.
pub proof fn lemma_decode_stream_ok_valid(bytes: Seq<u8>)
    ensures
        decode_stream_spec(bytes) is Ok <==> valid_utf8(bytes),
        valid_utf8(bytes) ==> decode_stream_spec(bytes) == Ok::<Seq<char>, DecodeError>(
            decode_utf8(bytes),
        ),
    decreases bytes.len(),
{
    if bytes.len() == 0 {
        assert(valid_utf8(bytes));
        assert(decode_utf8(bytes) =~= Seq::empty());
    } else {
        let w = lead_width(bytes[0]);
        if decode_stream_spec(bytes) is Ok {
            assert(w > 0 && bytes.len() >= w);
            let chunk = bytes.take(w);
            assert(decode_char_spec(chunk) is Ok);
            assert(chunk[0] == bytes[0] && chunk.len() == w);
            assert(valid_first_scalar(chunk));
            lemma_first_scalar_agree(chunk, bytes, w);
            assert(valid_first_scalar(bytes) && length_of_first_scalar(bytes) == w);
            assert(pop_first_scalar(bytes) =~= bytes.skip(w));
            lemma_decode_stream_ok_valid(bytes.skip(w));
            assert(valid_utf8(bytes));
        }
        if valid_utf8(bytes) {
            assert(valid_first_scalar(bytes));
            assert(w == length_of_first_scalar(bytes)) by {
                if is_leading_byte_width_1(bytes[0]) {
                } else if is_leading_byte_width_2(bytes[0]) {
                } else if is_leading_byte_width_3(bytes[0]) {
                } else {
                    assert(is_leading_byte_width_4(bytes[0]));
                }
            }
            assert(0 < w <= bytes.len());
            let chunk = bytes.take(w);
            lemma_first_scalar_agree(bytes, chunk, w);
            assert(valid_first_scalar(chunk));
            assert(decode_char_spec(chunk) == Ok::<char, DecodeError>(
                decode_first_scalar(bytes) as char,
            ));
            assert(pop_first_scalar(bytes) =~= bytes.skip(w));
            lemma_decode_stream_ok_valid(bytes.skip(w));
            assert(decode_stream_spec(bytes) == Ok::<Seq<char>, DecodeError>(
                seq![decode_first_scalar(bytes) as char] + decode_utf8(bytes.skip(w)),
            ));
            assert(decode_utf8(bytes) =~= seq![decode_first_scalar(bytes) as char] + decode_utf8(
                pop_first_scalar(bytes),
            ));
        }
    }
}

/// Frames one output line: checks that the bytes are valid UTF-8 and
/// appends the line terminator, refusing anything else.
pub fn frame_line(buf: &Vec<u8>) -> (r: Option<Vec<u8>>)
    ensures
        r is Some <==> valid_utf8(buf@),
        r matches Some(v) ==> v@ == buf@.push(0x0au8),
{
    match decode_all(buf) {
        Ok(_) => {
            let n = buf.len();
            let mut v: Vec<u8> = Vec::new();
            let mut i: usize = 0;
            while i < n
                invariant
                    0 <= i <= n,
                    n == buf@.len(),
                    v@ =~= buf@.take(i as int),
                decreases n - i,
            {
                v.push(buf[i]);
                i = i + 1;
            }
            v.push(0x0a);
            proof {
                assert(v@ =~= buf@.push(0x0au8));
            }
            Some(v)
        },
        Err(_) => None,
    }
}

/// A byte sequence that ends in the middle of a multi-byte character - any
/// valid UTF-8 prefix followed by a lead byte whose announced width runs
/// past the end of the stream - never decodes cleanly and never looks like
/// a clean end of stream: it fails with a truncation error.
pub proof fn lemma_truncated_tail_fails(good: Seq<u8>, tail: Seq<u8>)
    requires
        valid_utf8(good),
        tail.len() > 0,
        0 < lead_width(tail[0]),
        tail.len() < lead_width(tail[0]),
    ensures
        decode_stream_spec(good + tail) == Err::<Seq<char>, DecodeError>(DecodeError::Truncated),
    decreases good.len(),
{
    let b = good + tail;
    if good.len() == 0 {
        assert(b =~= tail);
    } else {
        assert(valid_first_scalar(good));
        let w = length_of_first_scalar(good);
        assert(w == lead_width(good[0])) by {
            if is_leading_byte_width_1(good[0]) {
            } else if is_leading_byte_width_2(good[0]) {
            } else if is_leading_byte_width_3(good[0]) {
            } else {
                assert(is_leading_byte_width_4(good[0]));
            }
        }
        assert(0 < w <= good.len());
        assert(b[0] == good[0]);
        assert(forall|k: int| 0 <= k < w ==> good[k] == b[k]);
        lemma_first_scalar_agree(good, b, w);
        assert(valid_first_scalar(b));
        let chunk = b.take(w);
        lemma_first_scalar_agree(b, chunk, w);
        assert(decode_char_spec(chunk) is Ok);
        assert(b.skip(w) =~= pop_first_scalar(good) + tail);
        assert(pop_first_scalar(good).len() < good.len());
        lemma_truncated_tail_fails(pop_first_scalar(good), tail);
    }
}

} // verus!
