//! The extension of a path.
//!
//! The extension is the text that follows the last period of the path. A
//! path without a period has none.

use vstd::prelude::*;
use vstd::string::*;
use vstd::utf8::*;
use crate::error::ConvError;
use crate::text::{has_period_byte, lemma_no_period_byte_no_period, PERIOD};

verus! {

/// The position of the last period of a text, if it holds one.
pub open spec fn last_period(text: Seq<char>) -> Option<int>
    decreases text.len(),
{
    if text.len() == 0 {
        None
    } else if text.last() == '.' {
        Some(text.len() - 1)
    } else {
        last_period(text.drop_last())
    }
}

/// The extension of a path: what follows its last period.
pub open spec fn extension_of(path: Seq<char>) -> Option<Seq<char>> {
    match last_period(path) {
        Some(at) => Some(path.skip(at + 1)),
        None => None,
    }
}

/// The extension of a path given as bytes: the path must be well-formed
/// UTF-8 and hold a period.
pub open spec fn extension_of_bytes(path: Seq<u8>) -> Result<Seq<char>, ConvError> {
    if !valid_utf8(path) {
        Err(ConvError::PathEncoding)
    } else {
        match extension_of(decode_utf8(path)) {
            Some(ext) => Ok(ext),
            None => Err(ConvError::MissingExtension),
        }
    }
}

/// `last_period` gives the place of a period after which no period comes,
/// and gives none exactly for a text without a period.
pub proof fn lemma_last_period(text: Seq<char>)
    ensures
        match last_period(text) {
            Some(at) => {
                &&& 0 <= at < text.len()
                &&& text[at] == '.'
                &&& forall|j: int| at < j < text.len() ==> text[j] != '.'
            },
            None => !text.contains('.'),
        },
    decreases text.len(),
{
    if text.len() > 0 && text.last() != '.' {
        let front = text.drop_last();
        lemma_last_period(front);
        match last_period(front) {
            Some(at) => {
                assert(text[at] == front[at]);
                assert forall|j: int| at < j < text.len() implies text[j] != '.' by {
                    if j < front.len() {
                        assert(text[j] == front[j]);
                    }
                }
            },
            None => {
                assert forall|j: int| 0 <= j < text.len() implies text[j] != '.' by {
                    if j < front.len() {
                        assert(front.contains(front[j]));
                    }
                }
            },
        }
    }
}

/// A path made of a stem, a period and a text without a period has that
/// text as its extension.
pub proof fn lemma_extension_of_joined(stem: Seq<char>, ext: Seq<char>)
    requires
        !ext.contains('.'),
    ensures
        last_period(stem + seq!['.'] + ext) == Some(stem.len() as int),
        extension_of(stem + seq!['.'] + ext) == Some(ext),
    decreases ext.len(),
{
    let path = stem + seq!['.'] + ext;
    if ext.len() == 0 {
        assert(path.last() == '.');
    } else {
        let front = ext.drop_last();
        assert(!front.contains('.')) by {
            if front.contains('.') {
                let i = choose|i: int| 0 <= i < front.len() && front[i] == '.';
                assert(ext[i] == '.');
            }
        }
        lemma_extension_of_joined(stem, front);
        assert(path.drop_last() =~= stem + seq!['.'] + front);
        assert(ext.contains(ext.last()));
        assert(path.last() == ext.last());
    }
    assert(path.skip(stem.len() as int + 1) =~= ext);
}

/// A path without a period has no extension.
pub proof fn lemma_no_period_no_extension(path: Seq<char>)
    requires
        !path.contains('.'),
    ensures
        extension_of(path) is None,
{
    lemma_last_period(path);
    if let Some(at) = last_period(path) {
        assert(path.contains(path[at]));
    }
}

/// Where the UTF-8 form of a path holds a period byte with none after it,
/// that byte starts a character, and the extension of the path is the text
/// that the bytes after it encode.
pub proof fn lemma_extension_after_last_period_byte(bytes: Seq<u8>, at: int)
    requires
        valid_utf8(bytes),
        0 <= at < bytes.len(),
        bytes[at] == PERIOD,
        !has_period_byte(bytes.skip(at + 1)),
    ensures
        is_char_boundary(bytes, at),
        valid_utf8(bytes.skip(at + 1)),
        extension_of(decode_utf8(bytes)) == Some(decode_utf8(bytes.skip(at + 1))),
{
    let len = bytes.len() as int;
    let tail = bytes.subrange(at, len);
    let rest = bytes.skip(at + 1);
    is_char_boundary_iff_not_is_continuation_byte(bytes, at);
    valid_utf8_split(bytes, at);
    decode_utf8_split(bytes, at);
    assert(tail[0] == PERIOD);
    assert(pop_first_scalar(tail) =~= rest);
    assert(decode_first_scalar(tail) == 0x2e) by {
        assert((0x2eu8 & 0x7f) as u32 == 0x2e) by (bit_vector);
    }
    assert(decode_utf8(tail) =~= seq!['.'] + decode_utf8(rest));
    lemma_no_period_byte_no_period(rest);
    lemma_extension_of_joined(decode_utf8(bytes.subrange(0, at)), decode_utf8(rest));
    assert(decode_utf8(bytes) =~= decode_utf8(bytes.subrange(0, at)) + seq!['.'] + decode_utf8(
        rest,
    ));
}

/// The extension of a path: the text after its last period, or nothing
/// where the path holds no period.
pub fn str_ext(path: &str) -> (res: Option<&str>)
    ensures
        match res {
            Some(ext) => extension_of(path@) == Some(ext@),
            None => extension_of(path@) is None,
        },
{
    let bytes = path.as_bytes();
    proof {
        encode_utf8_valid_utf8(path@);
        encode_utf8_decode_utf8(path@);
    }
    let mut end: usize = bytes.len();
    while end > 0
        invariant
            end <= bytes@.len(),
            bytes@ == path.spec_bytes(),
            valid_utf8(bytes@),
            decode_utf8(bytes@) == path@,
            !has_period_byte(bytes@.skip(end as int)),
        decreases end,
    {
        let at: usize = end - 1;
        if bytes[at] == PERIOD {
            proof {
                is_char_boundary_iff_not_is_continuation_byte(bytes@, at as int);
            }
            // The tail starts with the period, which is one byte long.
            let (_, tail) = path.split_at(at);
            proof {
                encode_utf8_valid_utf8(tail@);
                assert(tail.spec_bytes()[0] == PERIOD);
                reveal_with_fuel(is_char_boundary, 2);
            }
            let (_, ext) = tail.split_at(1);
            proof {
                encode_utf8_decode_utf8(ext@);
                assert(ext.spec_bytes() =~= bytes@.skip(end as int));
                lemma_extension_after_last_period_byte(bytes@, at as int);
            }
            return Some(ext);
        }
        proof {
            assert(!has_period_byte(bytes@.skip(at as int))) by {
                if has_period_byte(bytes@.skip(at as int)) {
                    let i = choose|i: int|
                        0 <= i < bytes@.skip(at as int).len() && bytes@.skip(at as int)[i]
                            == PERIOD;
                    assert(bytes@.skip(end as int)[i - 1] == PERIOD);
                }
            }
        }
        end = at;
    }
    proof {
        assert(bytes@.skip(0) =~= bytes@);
        lemma_no_period_byte_no_period(bytes@);
        lemma_no_period_no_extension(path@);
    }
    None
}

/// The extension of a path given as its bytes. The path must be
/// well-formed UTF-8 and hold a period.
pub fn os_str_ext(path: &[u8]) -> (res: Result<&str, ConvError>)
    ensures
        match res {
            Ok(ext) => extension_of_bytes(path@) == Ok::<Seq<char>, ConvError>(ext@),
            Err(e) => extension_of_bytes(path@) == Err::<Seq<char>, ConvError>(e),
        },
{
    match core::str::from_utf8(path) {
        Ok(text) => {
            proof {
                encode_utf8_decode_utf8(text@);
            }
            match str_ext(text) {
                Some(ext) => Ok(ext),
                None => Err(ConvError::MissingExtension),
            }
        },
        Err(_) => Err(ConvError::PathEncoding),
    }
}

} // verus!
