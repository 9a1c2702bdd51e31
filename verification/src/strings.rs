//! Conversions between fixed-length native byte buffers and strings.
//!
//! A native text field is a buffer of a documented maximum length whose
//! logical content runs up to the first zero byte, or through the whole
//! buffer when no zero byte occurs.  Decoding copies the content out of
//! the buffer and validates it as UTF-8; encoding writes the bytes of a
//! string into a buffer of fixed capacity, rejecting strings that carry
//! an embedded terminator or do not fit, and zero-fills the remainder
//! so the native side never reads uninitialized bytes.

use vstd::prelude::*;
use vstd::string::StringSliceAdditionalSpecFns;
use vstd::utf8::{decode_utf8, encode_utf8, encode_utf8_decode_utf8, encode_utf8_valid_utf8,
    valid_utf8};

use crate::errors::ErrorKind;

verus! {

/// The index of the first zero byte of `bytes`, or `bytes.len()` when
/// no byte is zero.
pub open spec fn first_nul(bytes: Seq<u8>) -> int
    decreases bytes.len(),
{
    if bytes.len() == 0 {
        0
    } else if bytes[0] == 0 {
        0
    } else {
        1 + first_nul(bytes.drop_first())
    }
}

/// The logical content of a native text buffer: the bytes before the
/// first zero byte, or the whole buffer when no byte is zero.
pub open spec fn native_content(buf: Seq<u8>) -> Seq<u8> {
    buf.take(first_nul(buf))
}

/// `bytes` extended with zero bytes up to `capacity`.
pub open spec fn zero_padded(bytes: Seq<u8>, capacity: int) -> Seq<u8> {
    bytes + Seq::new((capacity - bytes.len()) as nat, |i: int| 0u8)
}

/// `first_nul` lies within the sequence, the bytes before it are not
/// zero, and the byte at it (when inside the sequence) is zero.
pub proof fn lemma_first_nul_props(s: Seq<u8>)
    ensures
        0 <= first_nul(s) <= s.len(),
        forall|j: int| 0 <= j < first_nul(s) ==> s[j] != 0,
        first_nul(s) < s.len() ==> s[first_nul(s)] == 0,
    decreases s.len(),
{
    if s.len() != 0 && s[0] != 0 {
        lemma_first_nul_props(s.drop_first());
        assert(forall|j: int| 1 <= j < first_nul(s) ==> s[j] == s.drop_first()[j - 1]);
    }
}

/// `first_nul` is the one position bounded by the sequence that has
/// only nonzero bytes before it and a zero byte (or the end of the
/// sequence) at it.
pub proof fn lemma_first_nul_unique(s: Seq<u8>, n: int)
    requires
        0 <= n <= s.len(),
        forall|j: int| 0 <= j < n ==> s[j] != 0,
        n < s.len() ==> s[n] == 0,
    ensures
        first_nul(s) == n,
    decreases s.len(),
{
    if s.len() != 0 && s[0] != 0 {
        assert(n != 0);
        assert(forall|j: int| 0 <= j < n - 1 ==> s.drop_first()[j] == s[j + 1] && s[j + 1] != 0);
        lemma_first_nul_unique(s.drop_first(), n - 1);
    }
}

/// The error a fixed-capacity text field produces, if any: an embedded
/// terminator byte is rejected before an oversized length.
pub open spec fn text_field_error(bytes: Seq<u8>, capacity: int) -> Option<ErrorKind> {
    if bytes.contains(0) {
        Some(ErrorKind::InvalidInput)
    } else if bytes.len() > capacity {
        Some(ErrorKind::TooLong)
    } else {
        None
    }
}

/// Checks that the bytes of `s` can fill a fixed text field of
/// `capacity` bytes: no embedded terminator and no overflow.
pub fn check_text_field(s: &str, capacity: usize) -> (r: Option<ErrorKind>)
    ensures
        r == text_field_error(s.spec_bytes(), capacity as int),
{
    let sb = s.as_bytes();
    let nul = scan_nul(sb, sb.len());
    proof {
        lemma_first_nul_props(sb@.take(sb@.len() as int));
        assert(sb@.take(sb@.len() as int) =~= sb@);
    }
    if nul < sb.len() {
        proof {
            assert(s.spec_bytes().contains(0)) by {
                assert(s.spec_bytes()[first_nul(s.spec_bytes())] == 0);
            }
        }
        Some(ErrorKind::InvalidInput)
    } else {
        proof {
            assert(!s.spec_bytes().contains(0)) by {
                if s.spec_bytes().contains(0) {
                    let j = choose|j: int|
                        0 <= j < s.spec_bytes().len() && s.spec_bytes()[j] == 0;
                    assert(s.spec_bytes()[j] != 0);
                }
            }
        }
        if sb.len() > capacity {
            Some(ErrorKind::TooLong)
        } else {
            None
        }
    }
}

/// Relies on `String::from_utf8`: it returns `Ok` exactly when the
/// bytes are valid UTF-8, and then decodes them per the standard.
#[verifier::external_body]
fn bytes_into_string(bytes: Vec<u8>) -> (r: Option<String>)
    ensures
        r is Some <==> valid_utf8(bytes@),
        r matches Some(s) ==> s@ == decode_utf8(bytes@),
{
    String::from_utf8(bytes).ok()
}

/// The index of the first zero byte among the first `max_length` bytes
/// of `bytes`, or `max_length` when none of them is zero.
fn scan_nul(bytes: &[u8], max_length: usize) -> (r: usize)
    requires
        max_length <= bytes@.len(),
    ensures
        r == first_nul(bytes@.take(max_length as int)),
{
    let mut i: usize = 0;
    while i < max_length && bytes[i] != 0
        invariant
            i <= max_length <= bytes@.len(),
            forall|j: int| 0 <= j < i ==> bytes@[j] != 0,
        decreases max_length - i,
    {
        i += 1;
    }
    proof {
        let window = bytes@.take(max_length as int);
        assert(forall|j: int| 0 <= j < i ==> window[j] != 0);
        lemma_first_nul_unique(window, i as int);
    }
    i
}

/// Copies `max_length` bytes out of a native text buffer, cuts the copy
/// at the first zero byte, and validates the content as UTF-8.
///
/// Returns `EncodingError` when the content is not valid UTF-8; a
/// buffer whose first byte is zero decodes to the empty string.
pub fn string_from_bytes(bytes: &[u8], max_length: usize) -> (r: Result<String, ErrorKind>)
    requires
        max_length <= bytes@.len(),
    ensures
        ({
            let content = native_content(bytes@.take(max_length as int));
            &&& r is Ok <==> valid_utf8(content)
            &&& (r matches Ok(s) ==> s@ == decode_utf8(content))
            &&& (r is Err ==> r == Err::<String, ErrorKind>(ErrorKind::EncodingError))
        }),
{
    let ghost window = bytes@.take(max_length as int);
    let end = scan_nul(bytes, max_length);
    proof {
        lemma_first_nul_props(window);
    }
    let mut content: Vec<u8> = Vec::new();
    let mut i: usize = 0;
    while i < end
        invariant
            end == first_nul(window),
            end <= max_length <= bytes@.len(),
            window == bytes@.take(max_length as int),
            i <= end,
            content@ == window.take(i as int),
        decreases end - i,
    {
        content.push(bytes[i]);
        proof {
            assert(content@ =~= window.take(i as int + 1));
        }
        i += 1;
    }
    proof {
        assert(content@ =~= native_content(window));
    }
    match bytes_into_string(content) {
        Some(s) => Ok(s),
        None => Err(ErrorKind::EncodingError),
    }
}

/// Best-effort variant of [`string_from_bytes`] for contexts where an
/// error cannot be propagated, such as notification trampolines: the
/// length is clamped to the buffer that is actually there, and content
/// that is not valid UTF-8 becomes the empty string.
pub fn string_from_bytes_safe(bytes: &[u8], max_length: usize) -> (r: String)
    ensures
        ({
            let bound = if max_length <= bytes@.len() {
                max_length as int
            } else {
                bytes@.len() as int
            };
            let content = native_content(bytes@.take(bound));
            r@ == if valid_utf8(content) {
                decode_utf8(content)
            } else {
                Seq::<char>::empty()
            }
        }),
{
    let clamped = if max_length <= bytes.len() {
        max_length
    } else {
        bytes.len()
    };
    match string_from_bytes(bytes, clamped) {
        Ok(s) => s,
        Err(_) => String::new(),
    }
}

/// Writes the bytes of `s` into a fixed-capacity native text buffer,
/// zero-filling the rest of the buffer.
///
/// Fails with `InvalidInput` when `s` carries an embedded terminator
/// byte and with `TooLong` when its bytes do not fit the buffer; on
/// either error the buffer is left exactly as it was.
pub fn string_to_bytes(s: &str, bytes: &mut Vec<u8>) -> (r: Result<(), ErrorKind>)
    ensures
        final(bytes)@.len() == old(bytes)@.len(),
        r is Ok <==> !s.spec_bytes().contains(0) && s.spec_bytes().len() <= old(bytes)@.len(),
        r is Ok ==> final(bytes)@ == zero_padded(s.spec_bytes(), old(bytes)@.len() as int),
        r is Err ==> final(bytes)@ == old(bytes)@,
        r == Err::<(), ErrorKind>(ErrorKind::InvalidInput) <==> s.spec_bytes().contains(0),
        r == Err::<(), ErrorKind>(ErrorKind::TooLong) <==> !s.spec_bytes().contains(0)
            && s.spec_bytes().len() > old(bytes)@.len(),
{
    let sb = s.as_bytes();
    let nul = scan_nul(sb, sb.len());
    proof {
        lemma_first_nul_props(sb@.take(sb@.len() as int));
        assert(sb@.take(sb@.len() as int) =~= sb@);
    }
    if nul < sb.len() {
        proof {
            assert(s.spec_bytes().contains(0)) by {
                assert(s.spec_bytes()[first_nul(s.spec_bytes())] == 0);
            }
        }
        return Err(ErrorKind::InvalidInput);
    }
    proof {
        assert(!s.spec_bytes().contains(0)) by {
            if s.spec_bytes().contains(0) {
                let j = choose|j: int| 0 <= j < s.spec_bytes().len() && s.spec_bytes()[j] == 0;
                assert(s.spec_bytes()[j] != 0);
            }
        }
    }
    if sb.len() > bytes.len() {
        return Err(ErrorKind::TooLong);
    }
    let capacity = bytes.len();
    let mut out: Vec<u8> = Vec::new();
    let mut i: usize = 0;
    while i < sb.len()
        invariant
            i <= sb@.len() <= capacity,
            out@ == sb@.take(i as int),
        decreases sb@.len() - i,
    {
        out.push(sb[i]);
        proof {
            assert(out@ =~= sb@.take(i + 1));
        }
        i += 1;
    }
    while out.len() < capacity
        invariant
            sb@.len() <= out@.len() <= capacity,
            out@.take(sb@.len() as int) == sb@,
            forall|j: int| sb@.len() <= j < out@.len() ==> out@[j] == 0,
        decreases capacity - out@.len(),
    {
        out.push(0);
        proof {
            assert(out@.take(sb@.len() as int) =~= sb@);
        }
    }
    proof {
        assert(out@ =~= zero_padded(s.spec_bytes(), capacity as int));
    }
    *bytes = out;
    Ok(())
}

/// Law: a string whose bytes are free of terminator bytes and fit the
/// capacity can be encoded into a zero-filled buffer and decoded back
/// to exactly the original string.
pub proof fn lemma_string_round_trip(s: Seq<char>, capacity: int)
    requires
        !encode_utf8(s).contains(0),
        encode_utf8(s).len() <= capacity,
    ensures
        native_content(zero_padded(encode_utf8(s), capacity)) == encode_utf8(s),
        valid_utf8(encode_utf8(s)),
        decode_utf8(native_content(zero_padded(encode_utf8(s), capacity))) == s,
{
    let bytes = encode_utf8(s);
    let buf = zero_padded(bytes, capacity);
    assert(forall|j: int| 0 <= j < bytes.len() ==> buf[j] != 0) by {
        assert(forall|j: int| 0 <= j < bytes.len() && buf[j] == 0 ==> bytes.contains(0));
    }
    lemma_first_nul_unique(buf, bytes.len() as int);
    assert(native_content(buf) =~= bytes);
    encode_utf8_valid_utf8(s);
    encode_utf8_decode_utf8(s);
}

} // verus!
