//! Text held as UTF-8 bytes.

use vstd::prelude::*;
use vstd::string::*;
use vstd::utf8::*;

verus! {

/// `core::str::Utf8Error`, of which only its presence is read.
#[verifier::external_type_specification]
#[verifier::external_body]
pub struct ExUtf8Error(core::str::Utf8Error);

/// `core::str::from_utf8` succeeds exactly on the byte slices that are
/// well-formed UTF-8, and the string slice it gives is made of the very
/// bytes it was given.
pub assume_specification[ core::str::from_utf8 ](v: &[u8]) -> (res: Result<
    &str,
    core::str::Utf8Error,
>)
    ensures
        res is Ok <==> valid_utf8(v@),
        res matches Ok(s) ==> s.spec_bytes() == v@,
;

/// The byte that encodes a period.
pub const PERIOD: u8 = 0x2e;

/// Whether a byte sequence holds the byte of a period.
pub open spec fn has_period_byte(bytes: Seq<u8>) -> bool {
    exists|i: int| 0 <= i < bytes.len() && bytes[i] == PERIOD
}

/// A text whose UTF-8 form holds no period byte holds no period.
pub proof fn lemma_no_period_byte_no_period(bytes: Seq<u8>)
    requires
        valid_utf8(bytes),
        !has_period_byte(bytes),
    ensures
        !decode_utf8(bytes).contains('.'),
    decreases bytes.len(),
{
    let text = decode_utf8(bytes);
    if bytes.len() > 0 {
        let rest = pop_first_scalar(bytes);
        let width = length_of_first_scalar(bytes);
        assert(valid_first_scalar(bytes) && valid_utf8(rest));
        assert(rest.len() == bytes.len() - width);
        assert(text.len() == decode_utf8(rest).len() + 1);
        assert(text.drop_first() =~= decode_utf8(rest));
        assert(text[0] != '.') by {
            if text[0] == '.' {
                decode_utf8_first_scalar(bytes);
                assert((0x2eu32 & 0x7f) as u8 == 0x2e) by (bit_vector);
                assert(encode_scalar('.' as u32)[0] == PERIOD);
                assert(take_first_scalar(bytes)[0] == bytes[0]);
            }
        }
        assert(!has_period_byte(rest)) by {
            if has_period_byte(rest) {
                let i = choose|i: int| 0 <= i < rest.len() && rest[i] == PERIOD;
                assert(0 <= width + i < bytes.len());
                assert(bytes[width + i] == PERIOD);
            }
        }
        lemma_no_period_byte_no_period(rest);
        assert forall|k: int| 0 <= k < text.len() implies text[k] != '.' by {
            if k > 0 {
                assert(text[k] == text.drop_first()[k - 1]);
                assert(decode_utf8(rest).contains(decode_utf8(rest)[k - 1]));
            }
        }
    }
}

/// Whether two byte slices hold the same bytes.
pub fn bytes_eq(a: &[u8], b: &[u8]) -> (same: bool)
    ensures
        same == (a@ == b@),
{
    if a.len() != b.len() {
        return false;
    }
    let mut i: usize = 0;
    while i < a.len()
        invariant
            a@.len() == b@.len(),
            i <= a.len(),
            a@.take(i as int) == b@.take(i as int),
        decreases a.len() - i,
    {
        if a[i] != b[i] {
            return false;
        }
        proof {
            assert(a@.take(i + 1) =~= a@.take(i as int).push(a@[i as int]));
            assert(b@.take(i + 1) =~= b@.take(i as int).push(b@[i as int]));
        }
        i += 1;
    }
    proof {
        assert(a@.take(a@.len() as int) =~= a@);
        assert(b@.take(b@.len() as int) =~= b@);
    }
    true
}

/// Whether two string slices hold the same text.
pub fn str_eq(a: &str, b: &str) -> (same: bool)
    ensures
        same == (a@ == b@),
{
    let same = bytes_eq(a.as_bytes(), b.as_bytes());
    proof {
        encode_utf8_decode_utf8(a@);
        encode_utf8_decode_utf8(b@);
    }
    same
}

} // verus!
