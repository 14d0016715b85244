//! Geometry and the graphics subsystem model.
//!
//! The native engine works in screen coordinates. This model uses integer
//! coordinates throughout; overlap tests are computed in 64-bit arithmetic so
//! that no bound on the coordinates is ever needed.
//!
//! [`Graphics`] models the engine-owned bitmap store: every bitmap the engine
//! allocates is a slot with a reference count, and [`crate::bitmap::Bitmap`]
//! values are the outstanding shared references to a slot. The count reaches
//! zero exactly when the last reference is released, and the slot is freed at
//! that moment.

use vstd::prelude::*;

use crate::bitmap::bitmap_from_id;
use crate::bitmap::Bitmap;
use crate::bitmap::BitmapData;

verus! {

/// A point in screen coordinates.
#[derive(Clone, Copy, PartialEq, Eq, Structural, Debug)]
pub struct Point {
    pub x: i32,
    pub y: i32,
}

/// An axis-aligned rectangle: origin and size, in screen coordinates.
#[derive(Clone, Copy, PartialEq, Eq, Structural, Debug)]
pub struct Rect {
    pub x: i32,
    pub y: i32,
    pub width: i32,
    pub height: i32,
}

/// Strict overlap: the interiors of the two rectangles intersect.
/// Rectangles that merely touch along an edge do not overlap.
pub open spec fn rects_overlap(a: Rect, b: Rect) -> bool {
    a.x < b.x + b.width && b.x < a.x + a.width && a.y < b.y + b.height && b.y < a.y + a.height
}

/// Inclusive point membership, as the spatial queries use it: a point on the
/// boundary of the rectangle counts as inside.
pub open spec fn rect_contains_point(r: Rect, x: int, y: int) -> bool {
    r.x <= x <= r.x + r.width && r.y <= y <= r.y + r.height
}

/// Inclusive rectangle intersection, as the spatial queries use it.
pub open spec fn rects_touch_or_overlap(a: Rect, b: Rect) -> bool {
    a.x <= b.x + b.width && b.x <= a.x + a.width && a.y <= b.y + b.height && b.y <= a.y + a.height
}

/// A value clamped into the `i32` range.
pub open spec fn spec_clamp_i32(v: int) -> int {
    if v > i32::MAX {
        i32::MAX as int
    } else if v < i32::MIN {
        i32::MIN as int
    } else {
        v
    }
}

/// The rectangle `r` translated so that its origin moves by `(dx, dy)`,
/// clamping at the ends of the coordinate range.
pub open spec fn spec_rect_at(r: Rect, dx: int, dy: int) -> Rect {
    Rect {
        x: spec_clamp_i32(r.x + dx) as i32,
        y: spec_clamp_i32(r.y + dy) as i32,
        width: r.width,
        height: r.height,
    }
}

impl Rect {
    /// Executable strict-overlap test, computed in 64-bit arithmetic.
    pub fn overlaps(&self, other: &Rect) -> (r: bool)
        ensures
            r == rects_overlap(*self, *other),
    {
        let ax: i64 = self.x as i64;
        let ay: i64 = self.y as i64;
        let bx: i64 = other.x as i64;
        let by: i64 = other.y as i64;
        ax < bx + other.width as i64 && bx < ax + self.width as i64 && ay < by
            + other.height as i64 && by < ay + self.height as i64
    }

    /// Executable inclusive point-membership test.
    pub fn contains_point(&self, x: i32, y: i32) -> (r: bool)
        ensures
            r == rect_contains_point(*self, x as int, y as int),
    {
        let px: i64 = x as i64;
        let py: i64 = y as i64;
        self.x as i64 <= px && px <= self.x as i64 + self.width as i64 && self.y as i64 <= py && py
            <= self.y as i64 + self.height as i64
    }

    /// Executable inclusive intersection test.
    pub fn touches(&self, other: &Rect) -> (r: bool)
        ensures
            r == rects_touch_or_overlap(*self, *other),
    {
        self.x as i64 <= other.x as i64 + other.width as i64 && other.x as i64 <= self.x as i64
            + self.width as i64 && self.y as i64 <= other.y as i64 + other.height as i64
            && other.y as i64 <= self.y as i64 + self.height as i64
    }
}

/// Addition on a coordinate that clamps at the ends of the `i32` range instead
/// of wrapping; the screen space of the model is a bounded world.
pub fn sat_add_coord(a: i32, d: i32) -> (r: i32)
    ensures
        r == spec_clamp_i32(a + d),
{
    let wide: i64 = a as i64 + d as i64;
    if wide > i32::MAX as i64 {
        i32::MAX
    } else if wide < i32::MIN as i64 {
        i32::MIN
    } else {
        wide as i32
    }
}

/// The two colors of the 1-bit screen, plus the transparency modes the engine
/// accepts wherever a color is taken.
#[derive(Clone, Copy, PartialEq, Eq, Structural, Debug)]
pub enum Color {
    Black,
    White,
    Clear,
    XOR,
}

impl Color {
    /// The numeric encoding the native engine uses for colors.
    pub fn code(&self) -> (r: u32)
        ensures
            r == self.spec_code(),
    {
        match self {
            Color::Black => 0,
            Color::White => 1,
            Color::Clear => 2,
            Color::XOR => 3,
        }
    }

    pub open spec fn spec_code(self) -> u32 {
        match self {
            Color::Black => 0,
            Color::White => 1,
            Color::Clear => 2,
            Color::XOR => 3,
        }
    }
}

/// One bitmap slot owned by the engine-side store.
pub(crate) struct BitmapSlot {
    pub(crate) live: bool,
    pub(crate) refs: u32,
    pub(crate) width: i32,
    pub(crate) height: i32,
    pub(crate) bg: Color,
}

/// The graphics subsystem model: the engine-owned bitmap store.
///
/// Slots are never reused; a freed slot stays dead. A [`Bitmap`] value stands
/// for one counted reference to a slot, as a shared pointer clone would in the
/// original engine.
pub struct Graphics {
    pub(crate) bitmaps: Vec<BitmapSlot>,
}

impl Graphics {
    /// The number of slots ever allocated; also the next fresh identity.
    pub closed spec fn slot_count(self) -> nat {
        self.bitmaps@.len()
    }

    /// Whether `id` names a slot that has been allocated and not yet freed.
    pub closed spec fn live(self, id: int) -> bool {
        0 <= id < self.bitmaps@.len() && self.bitmaps@[id].live
    }

    /// The reference count of slot `id`.
    pub closed spec fn refs(self, id: int) -> nat {
        if 0 <= id < self.bitmaps@.len() {
            self.bitmaps@[id].refs as nat
        } else {
            0
        }
    }

    /// The width of slot `id`.
    pub closed spec fn spec_width(self, id: int) -> int {
        if 0 <= id < self.bitmaps@.len() {
            self.bitmaps@[id].width as int
        } else {
            0
        }
    }

    /// The height of slot `id`.
    pub closed spec fn spec_height(self, id: int) -> int {
        if 0 <= id < self.bitmaps@.len() {
            self.bitmaps@[id].height as int
        } else {
            0
        }
    }

    /// A live slot identity always lies below the slot count.
    pub broadcast proof fn lemma_live_in_bounds(self, id: int)
        ensures
            #[trigger] self.live(id) ==> 0 <= id < self.slot_count(),
    {
    }

    pub(crate) fn new() -> (r: Graphics)
        ensures
            r.slot_count() == 0,
    {
        Graphics { bitmaps: Vec::new() }
    }

    /// Allocates a fresh bitmap of the given size and background color and
    /// hands back the first reference to it.
    pub fn new_bitmap(&mut self, width: i32, height: i32, bg_color: Color) -> (r: Bitmap)
        requires
            0 < width,
            0 < height,
        ensures
            r.id() == old(self).slot_count(),
            final(self).slot_count() == old(self).slot_count() + 1,
            final(self).live(r.id() as int),
            final(self).refs(r.id() as int) == 1,
            final(self).spec_width(r.id() as int) == width,
            final(self).spec_height(r.id() as int) == height,
            forall|j: int|
                0 <= j < old(self).slot_count() ==> #[trigger] final(self).live(j) == old(self).live(j),
            forall|j: int|
                0 <= j < old(self).slot_count() ==> #[trigger] final(self).refs(j) == old(self).refs(j),
            forall|j: int|
                0 <= j < old(self).slot_count() ==> #[trigger] final(self).spec_width(j) == old(self).spec_width(j),
            forall|j: int|
                0 <= j < old(self).slot_count() ==> #[trigger] final(self).spec_height(j) == old(self).spec_height(j),
    {
        let id = self.bitmaps.len();
        self.bitmaps.push(BitmapSlot { live: true, refs: 1, width, height, bg: bg_color });
        bitmap_from_id(id)
    }

    /// Takes one more counted reference to the bitmap, as cloning a shared
    /// pointer to it would.
    pub fn retain(&mut self, bitmap: &Bitmap) -> (r: Bitmap)
        requires
            old(self).live(bitmap.id() as int),
            old(self).refs(bitmap.id() as int) < u32::MAX,
        ensures
            r.id() == bitmap.id(),
            final(self).slot_count() == old(self).slot_count(),
            final(self).refs(bitmap.id() as int) == old(self).refs(bitmap.id() as int) + 1,
            final(self).live(bitmap.id() as int),
            forall|j: int|
                0 <= j < old(self).slot_count() && j != bitmap.id() as int ==> #[trigger] final(self).live(j) == old(self).live(j),
            forall|j: int|
                0 <= j < old(self).slot_count() && j != bitmap.id() as int ==> #[trigger] final(self).refs(j) == old(self).refs(j),
            forall|j: int|
                0 <= j < old(self).slot_count() ==> #[trigger] final(self).spec_width(j) == old(self).spec_width(j),
            forall|j: int|
                0 <= j < old(self).slot_count() ==> #[trigger] final(self).spec_height(j) == old(self).spec_height(j),
    {
        let id = bitmap.raw_id();
        let slot = &mut self.bitmaps[id];
        slot.refs = slot.refs + 1;
        bitmap_from_id(id)
    }

    /// Releases one counted reference. When the last reference goes, the
    /// slot is freed, exactly once. Releasing into a slot that is already
    /// dead changes nothing.
    pub fn release(&mut self, bitmap: Bitmap) -> (freed: bool)
        ensures
            final(self).slot_count() == old(self).slot_count(),
            old(self).live(bitmap.id() as int) && old(self).refs(bitmap.id() as int) >= 1 ==> {
                &&& final(self).refs(bitmap.id() as int) == old(self).refs(bitmap.id() as int) - 1
                &&& (freed <==> old(self).refs(bitmap.id() as int) == 1)
                &&& (final(self).live(bitmap.id() as int) <==> old(self).refs(bitmap.id() as int)
                    > 1)
            },
            !(old(self).live(bitmap.id() as int) && old(self).refs(bitmap.id() as int) >= 1) ==> {
                &&& *final(self) == *old(self)
                &&& !freed
            },
            forall|j: int|
                0 <= j < old(self).slot_count() && j != bitmap.id() as int ==> #[trigger] final(self).live(j) == old(self).live(j),
            forall|j: int|
                0 <= j < old(self).slot_count() && j != bitmap.id() as int ==> #[trigger] final(self).refs(j) == old(self).refs(j),
            forall|j: int|
                0 <= j < old(self).slot_count() ==> #[trigger] final(self).spec_width(j) == old(self).spec_width(j),
            forall|j: int|
                0 <= j < old(self).slot_count() ==> #[trigger] final(self).spec_height(j) == old(self).spec_height(j),
    {
        let id = bitmap.raw_id();
        if id < self.bitmaps.len() && self.bitmaps[id].live && self.bitmaps[id].refs >= 1 {
            let slot = &mut self.bitmaps[id];
            slot.refs = slot.refs - 1;
            if slot.refs == 0 {
                slot.live = false;
                true
            } else {
                false
            }
        } else {
            false
        }
    }

    /// Reads the current reference count of a bitmap's slot.
    pub fn ref_count(&self, bitmap: &Bitmap) -> (r: u32)
        requires
            bitmap.id() < self.slot_count(),
        ensures
            r == self.refs(bitmap.id() as int),
    {
        let id = bitmap.raw_id();
        self.bitmaps[id].refs
    }

    /// Reads the geometry of a bitmap, as the native `getBitmapData` entry
    /// point reports it. Rows are stored one bit per pixel, padded to whole
    /// 32-bit words.
    pub fn bitmap_data(&self, bitmap: &Bitmap) -> (r: BitmapData)
        requires
            self.live(bitmap.id() as int),
            0 < self.spec_width(bitmap.id() as int),
            self.spec_width(bitmap.id() as int) <= 0x4000_0000,
        ensures
            r.width == self.spec_width(bitmap.id() as int),
            r.height == self.spec_height(bitmap.id() as int),
            r.row_bytes == ((self.spec_width(bitmap.id() as int) + 31) / 32) * 4,
    {
        let id = bitmap.raw_id();
        let slot = &self.bitmaps[id];
        let row_bytes = ((slot.width + 31) / 32) * 4;
        BitmapData { width: slot.width, height: slot.height, row_bytes }
    }
}

} // verus!
