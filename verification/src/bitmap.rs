//! Bitmaps as the binding sees them: opaque, engine-owned images.
//!
//! A [`Bitmap`] value is one counted reference to a slot of the engine-side
//! store modeled by [`crate::gfx::Graphics`]. References are never copied
//! silently: a new one is taken with [`crate::gfx::Graphics::retain`] and
//! given up with [`crate::gfx::Graphics::release`], so the store's count
//! always equals the number of outstanding `Bitmap` values for that slot.

use vstd::prelude::*;

verus! {

/// One counted reference to an engine-owned bitmap.
///
/// Deliberately neither `Clone` nor `Copy`: duplicating a reference without
/// telling the store would break the count.
pub struct Bitmap {
    id: usize,
}

impl Bitmap {
    /// The identity of the underlying engine-side slot.
    pub closed spec fn id(self) -> usize {
        self.id
    }

    /// Reads the identity of the underlying slot, for identity comparisons.
    pub fn slot_id(&self) -> (r: usize)
        ensures
            r == self.id(),
    {
        self.id
    }

    /// Whether two references name the same underlying bitmap.
    pub fn same_bitmap(&self, other: &Bitmap) -> (r: bool)
        ensures
            r <==> self.id() == other.id(),
    {
        self.id == other.id
    }

    pub(crate) fn raw_id(&self) -> (r: usize)
        ensures
            r == self.id(),
    {
        self.id
    }
}

/// Builds the reference value for a slot; only the store may mint these.
pub(crate) fn bitmap_from_id(id: usize) -> (r: Bitmap)
    ensures
        r.id() == id,
{
    Bitmap { id }
}

/// The geometry of a bitmap, as the native engine reports it.
#[derive(Clone, Copy, PartialEq, Eq, Structural, Debug)]
pub struct BitmapData {
    pub width: i32,
    pub height: i32,
    pub row_bytes: i32,
}

/// How an image is mirrored when drawn.
#[derive(Clone, Copy, PartialEq, Eq, Structural, Debug)]
pub enum BitmapFlip {
    Unflipped,
    FlippedX,
    FlippedY,
    FlippedXY,
}

impl BitmapFlip {
    pub open spec fn spec_code(self) -> u32 {
        match self {
            BitmapFlip::Unflipped => 0,
            BitmapFlip::FlippedX => 1,
            BitmapFlip::FlippedY => 2,
            BitmapFlip::FlippedXY => 3,
        }
    }

    /// The numeric encoding the native engine uses for flips.
    pub fn code(&self) -> (r: u32)
        ensures
            r == self.spec_code(),
    {
        match self {
            BitmapFlip::Unflipped => 0,
            BitmapFlip::FlippedX => 1,
            BitmapFlip::FlippedY => 2,
            BitmapFlip::FlippedXY => 3,
        }
    }

    /// Decodes the engine's numeric flip value; exactly the codes 0 through 3
    /// decode, and decoding is the inverse of [`BitmapFlip::code`].
    pub fn try_from_code(value: u32) -> (r: Option<BitmapFlip>)
        ensures
            r is Some <==> value <= 3,
            r matches Some(f) ==> f.spec_code() == value,
    {
        match value {
            0 => Some(BitmapFlip::Unflipped),
            1 => Some(BitmapFlip::FlippedX),
            2 => Some(BitmapFlip::FlippedY),
            3 => Some(BitmapFlip::FlippedXY),
            _ => None,
        }
    }
}

} // verus!
