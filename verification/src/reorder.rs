//! Channel reordering of packed pixel buffers.
//!
//! A pixel buffer is a sequence of bytes made of records of four channel
//! bytes each. The source order of a record is red, green, blue, alpha.

use vstd::prelude::*;

verus! {

/// A pixel buffer holds whole pixel records only.
pub open spec fn is_pixel_buffer(bytes: Seq<u8>) -> bool {
    bytes.len() % 4 == 0
}

/// The ARGB32 form of an RGBA8 pixel buffer: the record `(r, g, b, a)` at
/// position `4i` becomes `(a, r, g, b)` at position `4i`.
pub open spec fn argb32_of_rgba8(rgba: Seq<u8>) -> Seq<u8> {
    Seq::new(
        rgba.len(),
        |i: int|
            {
                let record = 4 * (i / 4);
                let r = rgba[record];
                let g = rgba[record + 1];
                let b = rgba[record + 2];
                let a = rgba[record + 3];
                seq![a, r, g, b][i % 4]
            },
    )
}

/// Every group of four bytes rotated right by one place: the last byte of
/// the group moves to its front.
pub open spec fn rotate_groups_right(bytes: Seq<u8>) -> Seq<u8> {
    Seq::new(
        bytes.len(),
        |i: int|
            if i % 4 == 0 {
                bytes[i + 3]
            } else {
                bytes[i - 1]
            },
    )
}

/// Every group of four bytes rotated left by one place: the first byte of
/// the group moves to its end.
pub open spec fn rotate_groups_left(bytes: Seq<u8>) -> Seq<u8> {
    Seq::new(
        bytes.len(),
        |i: int|
            if i % 4 == 3 {
                bytes[i - 3]
            } else {
                bytes[i + 1]
            },
    )
}

/// Reorders an RGBA8 pixel buffer into ARGB32.
pub fn argb32_from_rgba8(rgba: &[u8]) -> (argb: Vec<u8>)
    requires
        is_pixel_buffer(rgba@),
    ensures
        argb@ == argb32_of_rgba8(rgba@),
        argb@.len() == rgba@.len(),
        is_pixel_buffer(argb@),
{
    let mut argb: Vec<u8> = Vec::with_capacity(rgba.len());
    let mut i: usize = 0;
    while i < rgba.len()
        invariant
            is_pixel_buffer(rgba@),
            i % 4 == 0,
            i <= rgba.len(),
            argb@ == argb32_of_rgba8(rgba@).take(i as int),
        decreases rgba.len() - i,
    {
        let r = rgba[i];
        let g = rgba[i + 1];
        let b = rgba[i + 2];
        let a = rgba[i + 3];
        argb.push(a);
        argb.push(r);
        argb.push(g);
        argb.push(b);
        i += 4;
    }
    argb
}

/// The ARGB32 form of an RGBA8 buffer, written channel by channel, is the
/// rotation of every record right by one place.
pub proof fn lemma_argb32_is_rotation_right(rgba: Seq<u8>)
    ensures
        argb32_of_rgba8(rgba) == rotate_groups_right(rgba),
{
    assert(argb32_of_rgba8(rgba) =~= rotate_groups_right(rgba));
}

/// Rotating every record left by one place undoes the rotation right by one
/// place, on every buffer of whole records.
pub proof fn lemma_rotate_left_inverts_rotate_right(bytes: Seq<u8>)
    requires
        is_pixel_buffer(bytes),
    ensures
        rotate_groups_left(rotate_groups_right(bytes)) == bytes,
{
    assert(rotate_groups_left(rotate_groups_right(bytes)) =~= bytes);
}

/// Rotating every record right by one place undoes the rotation left by one
/// place, on every buffer of whole records.
pub proof fn lemma_rotate_right_inverts_rotate_left(bytes: Seq<u8>)
    requires
        is_pixel_buffer(bytes),
    ensures
        rotate_groups_right(rotate_groups_left(bytes)) == bytes,
{
    assert(rotate_groups_right(rotate_groups_left(bytes)) =~= bytes);
}

/// The reordering to ARGB32 followed by the rotation of every record left by
/// one place gives back the RGBA8 buffer.
pub proof fn lemma_argb32_round_trip(rgba: Seq<u8>)
    requires
        is_pixel_buffer(rgba),
    ensures
        rotate_groups_left(argb32_of_rgba8(rgba)) == rgba,
{
    lemma_argb32_is_rotation_right(rgba);
    lemma_rotate_left_inverts_rotate_right(rgba);
}

/// The reordering to ARGB32 is one-to-one and reaches every buffer of whole
/// records.
pub proof fn lemma_argb32_is_bijection(a: Seq<u8>, b: Seq<u8>)
    requires
        is_pixel_buffer(a),
        is_pixel_buffer(b),
    ensures
        argb32_of_rgba8(a) == argb32_of_rgba8(b) ==> a == b,
        argb32_of_rgba8(rotate_groups_left(b)) == b,
{
    lemma_argb32_round_trip(a);
    lemma_argb32_round_trip(b);
    lemma_argb32_is_rotation_right(rotate_groups_left(b));
    lemma_rotate_right_inverts_rotate_left(b);
}

} // verus!
