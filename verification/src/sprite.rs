//! The sprite binding core: the engine model, the owning sprite wrapper, the
//! staged builder, the logic-object capability set, collision translation and
//! the registry with its batch operations.
//!
//! The native engine identifies every sprite by an opaque handle and keeps a
//! display list of the handles that were added to the scene. [`Engine`] models
//! exactly that retained state. A [`Sprite`] is the sole owning wrapper of one
//! handle together with its correlated data: the owned logic object, the
//! cached image and stencil references, and the `displayed` flag. The
//! invariants the binding is built for are stated in [`SpriteAPI::inv`] and
//! [`SpriteAPI::guest_ok`] and proved across every operation:
//!
//! - every live handle has exactly one owning wrapper;
//! - a sprite stands in the display list exactly when its `displayed` flag is
//!   set, and `add`/`remove` are idempotent;
//! - teardown ([`Playdate::destroy_sprite`]) detaches a displayed sprite from
//!   the scene and releases its cached references, and, consuming the wrapper
//!   by value, can only run once.
//!
//! The fixed-signature trampolines the native engine would call back through
//! become the three dispatch sites here: the per-frame update and draw
//! passes of [`Playdate::update_and_draw_sprites`], and the per-pair
//! response dispatch inside [`Sprite::move_with_collisions`]. Each recovers
//! the logic object that belongs to a handle by taking its sprite out of the
//! registry for the duration of the call, so the callback holds the only
//! mutable path to it.

use vstd::prelude::*;

use crate::bitmap::Bitmap;
use crate::bitmap::BitmapFlip;
use crate::display::Display;
use crate::file::FileSystem;
use crate::gfx::rect_contains_point;
use crate::gfx::rects_overlap;
use crate::gfx::rects_touch_or_overlap;
use crate::gfx::sat_add_coord;
use crate::gfx::spec_clamp_i32;
use crate::gfx::spec_rect_at;
use crate::gfx::Graphics;
use crate::gfx::Point;
use crate::gfx::Rect;
use crate::system::System;
use vstd::multiset::Multiset;

verus! {

broadcast use vstd::seq_lib::lemma_seq_contains_after_push, crate::gfx::Graphics::lemma_live_in_bounds;

/// The per-frame verdict of a logic object's `update`: whether the sprite
/// lives on or is torn down before the next frame.
#[derive(Clone, Copy, PartialEq, Eq, Structural, Debug)]
pub enum Persistance {
    Keep,
    Destroy,
}

/// How the engine resolves the motion of a pair of colliding sprites.
#[derive(Clone, Copy, PartialEq, Eq, Structural, Debug)]
pub enum CollisionResponse {
    Slide,
    Freeze,
    Overlap,
    Bounce,
}

impl CollisionResponse {
    pub open spec fn spec_code(self) -> u32 {
        match self {
            CollisionResponse::Slide => 0,
            CollisionResponse::Freeze => 1,
            CollisionResponse::Overlap => 2,
            CollisionResponse::Bounce => 3,
        }
    }

    /// The numeric encoding the native engine uses for collision responses.
    pub fn code(&self) -> (r: u32)
        ensures
            r == self.spec_code(),
    {
        match self {
            CollisionResponse::Slide => 0,
            CollisionResponse::Freeze => 1,
            CollisionResponse::Overlap => 2,
            CollisionResponse::Bounce => 3,
        }
    }

    /// Decodes the engine's numeric response value; exactly the codes 0
    /// through 3 decode, and decoding inverts [`CollisionResponse::code`].
    pub fn try_from_code(value: u32) -> (r: Option<CollisionResponse>)
        ensures
            r is Some <==> value <= 3,
            r matches Some(c) ==> c.spec_code() == value,
    {
        match value {
            0 => Some(CollisionResponse::Slide),
            1 => Some(CollisionResponse::Freeze),
            2 => Some(CollisionResponse::Overlap),
            3 => Some(CollisionResponse::Bounce),
            _ => None,
        }
    }
}

impl Default for CollisionResponse {
    /// The engine's default response for a sprite pair.
    fn default() -> (r: Self)
        ensures
            r is Bounce,
    {
        CollisionResponse::Bounce
    }
}

/// How a sprite's image is combined with the framebuffer.
#[derive(Clone, Copy, PartialEq, Eq, Structural, Debug)]
pub enum DrawMode {
    Copy,
    WhiteTransparent,
    BlackTransparent,
    FillWhite,
    FillBlack,
    Xor,
    NotXor,
    Inverted,
}

impl DrawMode {
    pub open spec fn spec_code(self) -> u32 {
        match self {
            DrawMode::Copy => 0,
            DrawMode::WhiteTransparent => 1,
            DrawMode::BlackTransparent => 2,
            DrawMode::FillWhite => 3,
            DrawMode::FillBlack => 4,
            DrawMode::Xor => 5,
            DrawMode::NotXor => 6,
            DrawMode::Inverted => 7,
        }
    }

    /// The numeric encoding the native engine uses for draw modes.
    pub fn code(&self) -> (r: u32)
        ensures
            r == self.spec_code(),
    {
        match self {
            DrawMode::Copy => 0,
            DrawMode::WhiteTransparent => 1,
            DrawMode::BlackTransparent => 2,
            DrawMode::FillWhite => 3,
            DrawMode::FillBlack => 4,
            DrawMode::Xor => 5,
            DrawMode::NotXor => 6,
            DrawMode::Inverted => 7,
        }
    }
}

/// Whether a stencil image repeats across the sprite.
#[derive(Clone, Copy, PartialEq, Eq, Structural, Debug)]
pub enum TileMode {
    NoTile,
    Tile,
}

impl TileMode {
    /// The numeric encoding the native engine uses.
    pub fn code(&self) -> (r: i32)
        ensures
            r == 0 <==> self is NoTile,
            r == 1 <==> self is Tile,
    {
        match self {
            TileMode::NoTile => 0,
            TileMode::Tile => 1,
        }
    }
}

/// Whether the sprite takes part in the per-frame update pass.
#[derive(Clone, Copy, PartialEq, Eq, Structural, Debug)]
pub enum UpdatesState {
    Disabled,
    Enabled,
}

impl UpdatesState {
    /// The numeric encoding the native engine uses.
    pub fn code(&self) -> (r: i32)
        ensures
            r == 0 <==> self is Disabled,
            r == 1 <==> self is Enabled,
    {
        match self {
            UpdatesState::Disabled => 0,
            UpdatesState::Enabled => 1,
        }
    }
}

/// Whether the sprite is drawn.
#[derive(Clone, Copy, PartialEq, Eq, Structural, Debug)]
pub enum Visibility {
    Invisible,
    Visible,
}

impl Visibility {
    /// The numeric encoding the native engine uses.
    pub fn code(&self) -> (r: i32)
        ensures
            r == 0 <==> self is Invisible,
            r == 1 <==> self is Visible,
    {
        match self {
            Visibility::Invisible => 0,
            Visibility::Visible => 1,
        }
    }
}

/// Whether the sprite covers everything behind it.
#[derive(Clone, Copy, PartialEq, Eq, Structural, Debug)]
pub enum Opaqueness {
    Translucent,
    Opaque,
}

impl Opaqueness {
    /// The numeric encoding the native engine uses.
    pub fn code(&self) -> (r: i32)
        ensures
            r == 0 <==> self is Translucent,
            r == 1 <==> self is Opaque,
    {
        match self {
            Opaqueness::Translucent => 0,
            Opaqueness::Opaque => 1,
        }
    }
}

/// Whether sprites are redrawn every frame or only when marked dirty.
#[derive(Clone, Copy, PartialEq, Eq, Structural, Debug)]
pub enum DrawTime {
    WhenNeeded,
    Always,
}

impl DrawTime {
    /// The numeric encoding the native engine uses.
    pub fn code(&self) -> (r: i32)
        ensures
            r == 0 <==> self is WhenNeeded,
            r == 1 <==> self is Always,
    {
        match self {
            DrawTime::WhenNeeded => 0,
            DrawTime::Always => 1,
        }
    }
}

/// Whether the sprite follows the global draw offset or sticks to screen
/// coordinates.
#[derive(Clone, Copy, PartialEq, Eq, Structural, Debug)]
pub enum OffsetBehavior {
    DrawOffset,
    ScreenCoordinates,
}

impl OffsetBehavior {
    /// The numeric encoding the native engine uses.
    pub fn code(&self) -> (r: i32)
        ensures
            r == 0 <==> self is DrawOffset,
            r == 1 <==> self is ScreenCoordinates,
    {
        match self {
            OffsetBehavior::DrawOffset => 0,
            OffsetBehavior::ScreenCoordinates => 1,
        }
    }
}

/// Whether the sprite takes part in collision resolution.
#[derive(Clone, Copy, PartialEq, Eq, Structural, Debug)]
pub enum CollisionState {
    Disabled,
    Enabled,
}

impl CollisionState {
    /// The numeric encoding the native engine uses.
    pub fn code(&self) -> (r: i32)
        ensures
            r == 0 <==> self is Disabled,
            r == 1 <==> self is Enabled,
    {
        match self {
            CollisionState::Disabled => 0,
            CollisionState::Enabled => 1,
        }
    }
}

/// Whether the colliding pair overlapped where the motion ended, or the
/// mover passed through the partner on the way.
#[derive(Clone, Copy, PartialEq, Eq, Structural, Debug)]
pub enum SpriteOverlap {
    TunneledThrough,
    Overlapping,
}

impl SpriteOverlap {
    /// The numeric encoding the native engine uses.
    pub fn code(&self) -> (r: i32)
        ensures
            r == 0 <==> self is TunneledThrough,
            r == 1 <==> self is Overlapping,
    {
        match self {
            SpriteOverlap::TunneledThrough => 0,
            SpriteOverlap::Overlapping => 1,
        }
    }
}

/// The opaque identity of a sprite inside the native engine.
#[derive(Clone, Copy, PartialEq, Eq, Structural, Debug, Hash)]
pub struct SpriteHandle(pub u64);

/// A sprite's stencil: either a counted reference to an engine-owned bitmap
/// or an inline 8-by-8 pattern.
pub enum SpriteStencil {
    Bitmap(Bitmap),
    Pattern([u8; 8]),
}

/// The spec-level mirror of a stencil: the bitmap case carries the slot
/// identity of the referenced image.
pub enum StencilView {
    Bitmap(int),
    Pattern([u8; 8]),
}

impl SpriteStencil {
    pub closed spec fn view_spec(self) -> StencilView {
        match self {
            SpriteStencil::Bitmap(b) => StencilView::Bitmap(b.id() as int),
            SpriteStencil::Pattern(p) => StencilView::Pattern(p),
        }
    }
}

/// The abstract state of one sprite: its handle, its correlated data and the
/// per-handle settings the engine keeps for it.
pub struct SpriteState<L> {
    pub handle: SpriteHandle,
    pub displayed: bool,
    pub bitmap: Option<int>,
    pub flip: BitmapFlip,
    pub stencil: Option<StencilView>,
    pub stencil_tile: TileMode,
    pub logic: Option<L>,
    pub bounds: Rect,
    pub z_index: i16,
    pub tag: u8,
    pub draw_mode: DrawMode,
    pub visible: Visibility,
    pub opaque: Opaqueness,
    pub updates: UpdatesState,
    pub collisions: CollisionState,
    pub collide_rect: Option<Rect>,
    pub clip_rect: Option<Rect>,
    pub offset_behavior: OffsetBehavior,
    pub dirty: bool,
    pub update_fn: bool,
    pub draw_fn: bool,
    pub collide_fn: bool,
}

/// The correlated data block of one sprite: the owned logic object, the
/// cached resource references, the `displayed` flag and the per-handle
/// settings mirrored from the engine.
pub(crate) struct SpriteData<L> {
    pub(crate) displayed: bool,
    pub(crate) bitmap: Option<Bitmap>,
    pub(crate) flip: BitmapFlip,
    pub(crate) stencil: Option<SpriteStencil>,
    pub(crate) stencil_tile: TileMode,
    pub(crate) logic: Option<L>,
    pub(crate) bounds: Rect,
    pub(crate) z_index: i16,
    pub(crate) tag: u8,
    pub(crate) draw_mode: DrawMode,
    pub(crate) visible: Visibility,
    pub(crate) opaque: Opaqueness,
    pub(crate) updates: UpdatesState,
    pub(crate) collisions: CollisionState,
    pub(crate) collide_rect: Option<Rect>,
    pub(crate) clip_rect: Option<Rect>,
    pub(crate) offset_behavior: OffsetBehavior,
    pub(crate) dirty: bool,
    pub(crate) update_fn: bool,
    pub(crate) draw_fn: bool,
    pub(crate) collide_fn: bool,
}

/// The sole owning wrapper of one native handle and its correlated data.
///
/// Deliberately neither `Clone` nor `Copy`: a second owning wrapper for the
/// same handle would mean a second teardown path.
pub struct Sprite<L> {
    pub(crate) handle: SpriteHandle,
    pub(crate) data: SpriteData<L>,
}

impl<L> View for Sprite<L> {
    type V = SpriteState<L>;

    closed spec fn view(&self) -> SpriteState<L> {
        SpriteState {
            handle: self.handle,
            displayed: self.data.displayed,
            bitmap: match self.data.bitmap {
                Some(b) => Some(b.id() as int),
                None => None,
            },
            flip: self.data.flip,
            stencil: match self.data.stencil {
                Some(s) => Some(s.view_spec()),
                None => None,
            },
            stencil_tile: self.data.stencil_tile,
            logic: self.data.logic,
            bounds: self.data.bounds,
            z_index: self.data.z_index,
            tag: self.data.tag,
            draw_mode: self.data.draw_mode,
            visible: self.data.visible,
            opaque: self.data.opaque,
            updates: self.data.updates,
            collisions: self.data.collisions,
            collide_rect: self.data.collide_rect,
            clip_rect: self.data.clip_rect,
            offset_behavior: self.data.offset_behavior,
            dirty: self.data.dirty,
            update_fn: self.data.update_fn,
            draw_fn: self.data.draw_fn,
            collide_fn: self.data.collide_fn,
        }
    }
}

/// Whether a sprite takes part in collision resolution at all: collisions
/// enabled and a collide rectangle configured.
pub open spec fn spec_collidable<L>(s: SpriteState<L>) -> bool {
    s.collisions is Enabled && s.collide_rect is Some
}

impl<L> Sprite<L> {
    /// The native handle this wrapper owns.
    pub fn handle(&self) -> (r: SpriteHandle)
        ensures
            r == self@.handle,
    {
        self.handle
    }

    /// Attaches the sprite to the scene so the engine's per-frame traversal
    /// visits it. Adding an already-displayed sprite changes nothing.
    pub fn add(&mut self, api: &mut SpriteAPI<L>)
        requires
            old(api).guest_ok(*old(self)),
        ensures
            final(self)@ == (SpriteState { displayed: true, ..old(self)@ }),
            final(api).guest_ok(*final(self)),
            final(api).spec_sprites() == old(api).spec_sprites(),
            final(api).spec_engine().spec_next_handle() == old(api).spec_engine().spec_next_handle(),
            final(api).spec_engine().spec_always_redraw() == old(api).spec_engine().spec_always_redraw(),
            final(api).spec_engine().spec_dirty_rects() == old(api).spec_engine().spec_dirty_rects(),
            old(self)@.displayed ==> *final(api) == *old(api),
            forall|h: SpriteHandle|
                final(api).spec_engine().spec_scene().contains(h) <==> (old(api).spec_engine().spec_scene().contains(h) || h == old(self)@.handle),
            old(api).inv() ==> final(api).inv(),
    {
        if self.data.displayed {
            return ;
        }
        self.data.displayed = true;
        api.engine.scene.push(self.handle);
        proof {
            assert(final(api).spec_engine().spec_scene() == old(api).spec_engine().spec_scene().push(old(self)@.handle));
            assert forall|h: SpriteHandle|
                final(api).spec_engine().spec_scene().contains(h) <==> (old(api).spec_engine().spec_scene().contains(h) || h == old(self)@.handle) by {
                let s_old = old(api).spec_engine().spec_scene();
                let s_new = final(api).spec_engine().spec_scene();
                if s_old.contains(h) {
                    let k = choose|k: int| 0 <= k < s_old.len() && s_old[k] == h;
                    assert(s_new[k] == h);
                }
                if h == old(self)@.handle {
                    assert(s_new[s_new.len() - 1] == h);
                }
                if s_new.contains(h) {
                    let k = choose|k: int| 0 <= k < s_new.len() && s_new[k] == h;
                    if k < s_old.len() {
                        assert(s_old[k] == h);
                    }
                }
            }
        }
    }

    /// Detaches the sprite from the scene; it keeps its handle and data and
    /// can be added again. Removing a detached sprite changes nothing.
    pub fn remove(&mut self, api: &mut SpriteAPI<L>)
        requires
            old(api).guest_ok(*old(self)),
        ensures
            final(self)@ == (SpriteState { displayed: false, ..old(self)@ }),
            final(api).guest_ok(*final(self)),
            final(api).spec_sprites() == old(api).spec_sprites(),
            final(api).spec_engine().spec_next_handle() == old(api).spec_engine().spec_next_handle(),
            final(api).spec_engine().spec_always_redraw() == old(api).spec_engine().spec_always_redraw(),
            final(api).spec_engine().spec_dirty_rects() == old(api).spec_engine().spec_dirty_rects(),
            !old(self)@.displayed ==> *final(api) == *old(api),
            forall|h: SpriteHandle|
                final(api).spec_engine().spec_scene().contains(h) <==> (old(api).spec_engine().spec_scene().contains(h) && h != old(self)@.handle),
            old(api).inv() ==> final(api).inv(),
    {
        if !self.data.displayed {
            return ;
        }
        self.data.displayed = false;
        scene_remove(&mut api.engine.scene, self.handle);
        proof {
            let ns = api.engine.scene@;
            let os = old(api).spec_engine().spec_scene();
            assert forall|k: int|
                0 <= k < ns.len() implies (#[trigger] ns[k]).0
                < api.engine.next_handle by {
                let x = ns[k];
                assert(ns.contains(x));
                assert(os.contains(x));
                let m = choose|m: int| 0 <= m < os.len() && os[m] == x;
            }
        }
    }

    /// Replaces the sprite's whole bounds rectangle.
    pub fn set_bounds(&mut self, bounds: Rect)
        ensures
            final(self)@ == (SpriteState { bounds, ..old(self)@ }),
    {
        self.data.bounds = bounds;
    }

    /// The sprite's bounds rectangle.
    pub fn bounds(&self) -> (r: Rect)
        ensures
            r == self@.bounds,
    {
        self.data.bounds
    }

    /// Moves the bounds origin to the given position.
    pub fn move_to(&mut self, x: i32, y: i32)
        ensures
            final(self)@ == (SpriteState {
                bounds: Rect { x, y, width: old(self)@.bounds.width, height: old(self)@.bounds.height },
                ..old(self)@
            }),
    {
        self.data.bounds.x = x;
        self.data.bounds.y = y;
    }

    /// Moves the bounds origin by the given amounts, clamping at the ends of
    /// the coordinate range.
    pub fn move_by(&mut self, dx: i32, dy: i32)
        ensures
            final(self)@ == (SpriteState {
                bounds: Rect {
                    x: spec_clamp_i32(old(self)@.bounds.x + dx) as i32,
                    y: spec_clamp_i32(old(self)@.bounds.y + dy) as i32,
                    width: old(self)@.bounds.width,
                    height: old(self)@.bounds.height,
                },
                ..old(self)@
            }),
    {
        let x = sat_add_coord(self.data.bounds.x, dx);
        let y = sat_add_coord(self.data.bounds.y, dy);
        self.data.bounds.x = x;
        self.data.bounds.y = y;
    }

    /// The position of the sprite: its bounds origin.
    pub fn position(&self) -> (r: Point)
        ensures
            r.x == self@.bounds.x,
            r.y == self@.bounds.y,
    {
        Point { x: self.data.bounds.x, y: self.data.bounds.y }
    }

    /// The center of the sprite's bounds.
    pub fn center(&self) -> (r: Point)
        requires
            0 <= self@.bounds.width,
            0 <= self@.bounds.height,
            self@.bounds.x + self@.bounds.width / 2 <= i32::MAX,
            self@.bounds.y + self@.bounds.height / 2 <= i32::MAX,
        ensures
            r.x == self@.bounds.x + self@.bounds.width / 2,
            r.y == self@.bounds.y + self@.bounds.height / 2,
    {
        Point {
            x: self.data.bounds.x + self.data.bounds.width / 2,
            y: self.data.bounds.y + self.data.bounds.height / 2,
        }
    }

    /// Resizes the bounds, keeping the origin.
    pub fn set_size(&mut self, width: i32, height: i32)
        ensures
            final(self)@ == (SpriteState {
                bounds: Rect { x: old(self)@.bounds.x, y: old(self)@.bounds.y, width, height },
                ..old(self)@
            }),
    {
        self.data.bounds.width = width;
        self.data.bounds.height = height;
    }

    /// Replaces the sprite's image with the given counted reference; the
    /// previously cached reference, if any, is released.
    pub fn set_image(&mut self, gfx: &mut Graphics, image: Bitmap, flip: BitmapFlip)
        ensures
            final(self)@ == (SpriteState {
                bitmap: Some(image.id() as int),
                flip,
                ..old(self)@
            }),
            final(gfx).slot_count() == old(gfx).slot_count(),
            old(self)@.bitmap matches Some(id) ==> (old(gfx).live(id) && old(gfx).refs(id) >= 1
                ==> final(gfx).refs(id) == old(gfx).refs(id) - 1),
            old(self)@.bitmap is None ==> *final(gfx) == *old(gfx),
            forall|j: int|
                0 <= j < old(gfx).slot_count() && old(self)@.bitmap != Some(j) ==> final(gfx).live(
                    j,
                ) == old(gfx).live(j) && final(gfx).refs(j) == old(gfx).refs(j),
    {
        let previous = self.data.bitmap.take();
        self.data.bitmap = Some(image);
        self.data.flip = flip;
        if let Some(old_image) = previous {
            gfx.release(old_image);
        }
    }

    /// Clears the sprite's image, releasing the cached reference if one was
    /// held. Clearing an imageless sprite changes nothing.
    pub fn clear_image(&mut self, gfx: &mut Graphics)
        ensures
            final(self)@ == (SpriteState { bitmap: None, ..old(self)@ }),
            final(gfx).slot_count() == old(gfx).slot_count(),
            old(self)@.bitmap matches Some(id) ==> (old(gfx).live(id) && old(gfx).refs(id) >= 1
                ==> final(gfx).refs(id) == old(gfx).refs(id) - 1),
            old(self)@.bitmap is None ==> *final(gfx) == *old(gfx),
            forall|j: int|
                0 <= j < old(gfx).slot_count() && old(self)@.bitmap != Some(j) ==> final(gfx).live(
                    j,
                ) == old(gfx).live(j) && final(gfx).refs(j) == old(gfx).refs(j),
    {
        let previous = self.data.bitmap.take();
        if let Some(old_image) = previous {
            gfx.release(old_image);
        }
    }

    /// The cached image reference, if any.
    pub fn image(&self) -> (r: Option<&Bitmap>)
        ensures
            r is Some <==> self@.bitmap is Some,
            r matches Some(b) ==> self@.bitmap == Some(b.id() as int),
    {
        self.data.bitmap.as_ref()
    }

    /// Sets the drawing order; higher z-indexes draw later, so in front.
    pub fn set_z_index(&mut self, z_index: i16)
        ensures
            final(self)@ == (SpriteState { z_index, ..old(self)@ }),
    {
        self.data.z_index = z_index;
    }

    /// The drawing order of the sprite.
    pub fn z_index(&self) -> (r: i16)
        ensures
            r == self@.z_index,
    {
        self.data.z_index
    }

    /// Tags the sprite with an application-chosen byte.
    pub fn set_tag(&mut self, tag: u8)
        ensures
            final(self)@ == (SpriteState { tag, ..old(self)@ }),
    {
        self.data.tag = tag;
    }

    /// Reads the sprite's tag back.
    pub fn tag(&self) -> (r: u8)
        ensures
            r == self@.tag,
    {
        self.data.tag
    }

    /// Sets how the image is combined with the framebuffer.
    pub fn set_draw_mode(&mut self, mode: DrawMode)
        ensures
            final(self)@ == (SpriteState { draw_mode: mode, ..old(self)@ }),
    {
        self.data.draw_mode = mode;
    }

    /// Sets how the image is mirrored when drawn.
    pub fn set_image_flip(&mut self, flip: BitmapFlip)
        ensures
            final(self)@ == (SpriteState { flip, ..old(self)@ }),
    {
        self.data.flip = flip;
    }

    /// The current image mirroring.
    pub fn image_flip(&self) -> (r: BitmapFlip)
        ensures
            r == self@.flip,
    {
        self.data.flip
    }

    /// Installs a bitmap stencil, releasing the previously cached stencil
    /// image if one was held.
    pub fn set_stencil(&mut self, gfx: &mut Graphics, stencil: Bitmap)
        ensures
            final(self)@ == (SpriteState {
                stencil: Some(StencilView::Bitmap(stencil.id() as int)),
                stencil_tile: TileMode::NoTile,
                ..old(self)@
            }),
            final(gfx).slot_count() == old(gfx).slot_count(),
            old(self)@.stencil matches Some(StencilView::Bitmap(id)) ==> (old(gfx).live(id)
                && old(gfx).refs(id) >= 1 ==> final(gfx).refs(id) == old(gfx).refs(id) - 1),
            stencil_bitmap_id(old(self)@.stencil) is None ==> *final(gfx) == *old(gfx),
            forall|j: int|
                0 <= j < old(gfx).slot_count() && old(self)@.stencil != Some(
                    StencilView::Bitmap(j),
                ) ==> final(gfx).live(j) == old(gfx).live(j) && final(gfx).refs(j) == old(gfx).refs(
                    j,
                ),
    {
        let previous = self.data.stencil.take();
        self.data.stencil = Some(SpriteStencil::Bitmap(stencil));
        self.data.stencil_tile = TileMode::NoTile;
        if let Some(SpriteStencil::Bitmap(old_stencil)) = previous {
            gfx.release(old_stencil);
        }
    }

    /// Installs a bitmap stencil with the given tiling mode; the engine only
    /// tiles stencils whose width is a multiple of 32.
    pub fn set_stencil_image(&mut self, gfx: &mut Graphics, stencil: Bitmap, tile: TileMode)
        requires
            tile is Tile ==> old(gfx).spec_width(stencil.id() as int) % 32 == 0,
        ensures
            final(self)@ == (SpriteState {
                stencil: Some(StencilView::Bitmap(stencil.id() as int)),
                stencil_tile: tile,
                ..old(self)@
            }),
            final(gfx).slot_count() == old(gfx).slot_count(),
            old(self)@.stencil matches Some(StencilView::Bitmap(id)) ==> (old(gfx).live(id)
                && old(gfx).refs(id) >= 1 ==> final(gfx).refs(id) == old(gfx).refs(id) - 1),
            stencil_bitmap_id(old(self)@.stencil) is None ==> *final(gfx) == *old(gfx),
            forall|j: int|
                0 <= j < old(gfx).slot_count() && old(self)@.stencil != Some(
                    StencilView::Bitmap(j),
                ) ==> final(gfx).live(j) == old(gfx).live(j) && final(gfx).refs(j) == old(gfx).refs(
                    j,
                ),
    {
        let previous = self.data.stencil.take();
        self.data.stencil = Some(SpriteStencil::Bitmap(stencil));
        self.data.stencil_tile = tile;
        if let Some(SpriteStencil::Bitmap(old_stencil)) = previous {
            gfx.release(old_stencil);
        }
    }

    /// Installs an inline 8-by-8 stencil pattern, releasing the previously
    /// cached stencil image if one was held.
    pub fn set_stencil_pattern(&mut self, gfx: &mut Graphics, pattern: [u8; 8])
        ensures
            final(self)@ == (SpriteState {
                stencil: Some(StencilView::Pattern(pattern)),
                stencil_tile: TileMode::NoTile,
                ..old(self)@
            }),
            final(gfx).slot_count() == old(gfx).slot_count(),
            old(self)@.stencil matches Some(StencilView::Bitmap(id)) ==> (old(gfx).live(id)
                && old(gfx).refs(id) >= 1 ==> final(gfx).refs(id) == old(gfx).refs(id) - 1),
            stencil_bitmap_id(old(self)@.stencil) is None ==> *final(gfx) == *old(gfx),
            forall|j: int|
                0 <= j < old(gfx).slot_count() && old(self)@.stencil != Some(
                    StencilView::Bitmap(j),
                ) ==> final(gfx).live(j) == old(gfx).live(j) && final(gfx).refs(j) == old(gfx).refs(
                    j,
                ),
    {
        let previous = self.data.stencil.take();
        self.data.stencil = Some(SpriteStencil::Pattern(pattern));
        self.data.stencil_tile = TileMode::NoTile;
        if let Some(SpriteStencil::Bitmap(old_stencil)) = previous {
            gfx.release(old_stencil);
        }
    }

    /// Clears the stencil, releasing the cached stencil image if one was
    /// held. Clearing a stencil-less sprite changes nothing.
    pub fn clear_stencil(&mut self, gfx: &mut Graphics)
        ensures
            final(self)@ == (SpriteState {
                stencil: None,
                stencil_tile: TileMode::NoTile,
                ..old(self)@
            }),
            final(gfx).slot_count() == old(gfx).slot_count(),
            old(self)@.stencil matches Some(StencilView::Bitmap(id)) ==> (old(gfx).live(id)
                && old(gfx).refs(id) >= 1 ==> final(gfx).refs(id) == old(gfx).refs(id) - 1),
            stencil_bitmap_id(old(self)@.stencil) is None ==> *final(gfx) == *old(gfx),
            forall|j: int|
                0 <= j < old(gfx).slot_count() && old(self)@.stencil != Some(
                    StencilView::Bitmap(j),
                ) ==> final(gfx).live(j) == old(gfx).live(j) && final(gfx).refs(j) == old(gfx).refs(
                    j,
                ),
    {
        let previous = self.data.stencil.take();
        self.data.stencil_tile = TileMode::NoTile;
        if let Some(SpriteStencil::Bitmap(old_stencil)) = previous {
            gfx.release(old_stencil);
        }
    }

    /// The tiling mode of the installed stencil.
    pub fn stencil_tile(&self) -> (r: TileMode)
        ensures
            r == self@.stencil_tile,
    {
        self.data.stencil_tile
    }

    /// Restricts drawing of the sprite to the given screen rectangle.
    pub fn set_clip_rect(&mut self, clip_rect: Rect)
        ensures
            final(self)@ == (SpriteState { clip_rect: Some(clip_rect), ..old(self)@ }),
    {
        self.data.clip_rect = Some(clip_rect);
    }

    /// The clip rectangle, if one is set.
    pub fn clip_rect(&self) -> (r: Option<Rect>)
        ensures
            r == self@.clip_rect,
    {
        self.data.clip_rect
    }

    /// Removes the clip rectangle.
    pub fn clear_clip_rect(&mut self)
        ensures
            final(self)@ == (SpriteState { clip_rect: None, ..old(self)@ }),
    {
        self.data.clip_rect = None;
    }

    /// Switches the sprite in or out of the per-frame update pass.
    pub fn set_updates_enabled(&mut self, enabled: UpdatesState)
        ensures
            final(self)@ == (SpriteState { updates: enabled, ..old(self)@ }),
    {
        self.data.updates = enabled;
    }

    /// Whether the sprite takes part in the per-frame update pass.
    pub fn updates_enabled(&self) -> (r: UpdatesState)
        ensures
            r == self@.updates,
    {
        self.data.updates
    }

    /// Shows or hides the sprite.
    pub fn set_visible(&mut self, state: Visibility)
        ensures
            final(self)@ == (SpriteState { visible: state, ..old(self)@ }),
    {
        self.data.visible = state;
    }

    /// Whether the sprite is drawn.
    pub fn visible(&self) -> (r: Visibility)
        ensures
            r == self@.visible,
    {
        self.data.visible
    }

    /// Marks the sprite as covering everything behind it.
    pub fn set_opaque(&mut self, state: Opaqueness)
        ensures
            final(self)@ == (SpriteState { opaque: state, ..old(self)@ }),
    {
        self.data.opaque = state;
    }

    /// Forces the sprite to be redrawn this frame.
    pub fn mark_dirty(&mut self)
        ensures
            final(self)@ == (SpriteState { dirty: true, ..old(self)@ }),
    {
        self.data.dirty = true;
    }

    /// Chooses whether the sprite follows the global draw offset.
    pub fn set_ignores_draw_offset(&mut self, offset_behavior: OffsetBehavior)
        ensures
            final(self)@ == (SpriteState { offset_behavior, ..old(self)@ }),
    {
        self.data.offset_behavior = offset_behavior;
    }

    /// Switches the sprite in or out of collision resolution.
    pub fn set_collisions_enabled(&mut self, enabled: CollisionState)
        ensures
            final(self)@ == (SpriteState { collisions: enabled, ..old(self)@ }),
    {
        self.data.collisions = enabled;
    }

    /// Whether the sprite takes part in collision resolution.
    pub fn collisions_enabled(&self) -> (r: CollisionState)
        ensures
            r == self@.collisions,
    {
        self.data.collisions
    }

    /// Sets the collision rectangle, relative to the bounds origin.
    pub fn set_collide_rect(&mut self, rect: Rect)
        ensures
            final(self)@ == (SpriteState { collide_rect: Some(rect), ..old(self)@ }),
    {
        self.data.collide_rect = Some(rect);
    }

    /// The collision rectangle, if one is configured.
    pub fn collide_rect(&self) -> (r: Option<Rect>)
        ensures
            r == self@.collide_rect,
    {
        self.data.collide_rect
    }

    /// Removes the collision rectangle; the sprite no longer collides.
    pub fn clear_collide_rect(&mut self)
        ensures
            final(self)@ == (SpriteState { collide_rect: None, ..old(self)@ }),
    {
        self.data.collide_rect = None;
    }
}

/// Removes the first occurrence of `h` from the scene list.
fn scene_remove(scene: &mut Vec<SpriteHandle>, h: SpriteHandle)
    requires
        old(scene)@.contains(h),
        forall|k: int, l: int| 0 <= k < l < old(scene)@.len() ==> old(scene)@[k] != old(scene)@[l],
    ensures
        final(scene)@.len() == old(scene)@.len() - 1,
        !final(scene)@.contains(h),
        forall|x: SpriteHandle|
            x != h ==> (final(scene)@.contains(x) <==> old(scene)@.contains(x)),
        forall|k: int, l: int|
            0 <= k < l < final(scene)@.len() ==> final(scene)@[k] != final(scene)@[l],
{
    let ghost orig = scene@;
    let mut i: usize = 0;
    while i < scene.len()
        invariant
            scene@ == orig,
            orig == old(scene)@,
            orig.contains(h),
            forall|k: int, l: int| 0 <= k < l < orig.len() ==> orig[k] != orig[l],
            0 <= i <= orig.len(),
            forall|k: int| 0 <= k < i ==> orig[k] != h,
        decreases scene@.len() - i,
    {
        if scene[i] == h {
            scene.remove(i);
            proof {
                let fs = scene@;
                assert(fs == orig.remove(i as int));
                orig.remove_ensures(i as int);
                assert(orig[i as int] == h);
                assert forall|k: int| 0 <= k < fs.len() implies fs[k] != h by {
                    if k < i {
                        assert(fs[k] == orig[k]);
                    } else {
                        assert(fs[k] == orig[k + 1]);
                        assert(orig[i as int] != orig[k + 1]);
                    }
                }
                assert(!fs.contains(h));
                assert forall|x: SpriteHandle| x != h implies (fs.contains(x) <==> orig.contains(
                    x,
                )) by {
                    if fs.contains(x) {
                        let k = choose|k: int| 0 <= k < fs.len() && fs[k] == x;
                        if k < i {
                            assert(orig[k] == x);
                        } else {
                            assert(orig[k + 1] == x);
                        }
                    }
                    if orig.contains(x) {
                        let k = choose|k: int| 0 <= k < orig.len() && orig[k] == x;
                        if k < i {
                            assert(fs[k] == x);
                        } else {
                            assert(k != i);
                            assert(fs[k - 1] == x);
                        }
                    }
                }
                assert forall|k: int, l: int| 0 <= k < l < fs.len() implies fs[k] != fs[l] by {
                    let ok: int = if k < i { k } else { k + 1 };
                    let ol: int = if l < i { l } else { l + 1 };
                    assert(fs[k] == orig[ok]);
                    assert(fs[l] == orig[ol]);
                }
            }
            return ;
        }
        i = i + 1;
    }
    proof {
        let k = choose|k: int| 0 <= k < orig.len() && orig[k] == h;
        assert(orig[k] != h);
        assert(false);
    }
}

/// The retained state of the native engine itself: the handle counter, the
/// display list, and the global drawing switches.
pub struct Engine {
    pub(crate) next_handle: u64,
    pub(crate) scene: Vec<SpriteHandle>,
    pub(crate) always_redraw: DrawTime,
    pub(crate) dirty_rects: Vec<Rect>,
}

impl Engine {
    /// The next handle the engine will mint; every handle ever minted is
    /// below it.
    pub closed spec fn spec_next_handle(self) -> u64 {
        self.next_handle
    }

    /// The display list: the handles of the sprites in the scene, in the
    /// order they were added.
    pub closed spec fn spec_scene(self) -> Seq<SpriteHandle> {
        self.scene@
    }

    pub closed spec fn spec_always_redraw(self) -> DrawTime {
        self.always_redraw
    }

    pub closed spec fn spec_dirty_rects(self) -> Seq<Rect> {
        self.dirty_rects@
    }

    pub(crate) fn new() -> (r: Engine)
        ensures
            r.spec_next_handle() == 0,
            r.spec_scene() == Seq::<SpriteHandle>::empty(),
            r.spec_always_redraw() is WhenNeeded,
            r.spec_dirty_rects() == Seq::<Rect>::empty(),
    {
        Engine {
            next_handle: 0,
            scene: Vec::new(),
            always_redraw: DrawTime::WhenNeeded,
            dirty_rects: Vec::new(),
        }
    }
}

/// Whether some sprite in the sequence carries the given handle.
pub open spec fn has_sprite_with_handle<L>(s: Seq<Sprite<L>>, h: SpriteHandle) -> bool {
    exists|i: int| 0 <= i < s.len() && (#[trigger] s[i])@.handle == h
}

/// No handle occurs twice in the display list.
pub open spec fn scene_no_dups(scene: Seq<SpriteHandle>) -> bool {
    forall|k: int, l: int| 0 <= k < l < scene.len() ==> scene[k] != scene[l]
}

/// The registry: the engine model plus the owned list of live sprites.
pub struct SpriteAPI<L> {
    pub(crate) engine: Engine,
    pub(crate) sprites: Vec<Sprite<L>>,
}

impl<L> SpriteAPI<L> {
    /// The engine model's state.
    pub closed spec fn spec_engine(self) -> Engine {
        self.engine
    }

    /// The owned sprites, by value.
    pub closed spec fn spec_sprites(self) -> Seq<Sprite<L>> {
        self.sprites@
    }

    /// The registry invariant.
    ///
    /// - all owned sprites carry distinct handles, all already minted;
    /// - every owned sprite owns its logic object;
    /// - the display list holds no handle twice and no unminted handle;
    /// - an owned sprite stands in the display list exactly when its
    ///   `displayed` flag is set.
    pub open spec fn inv(self) -> bool {
        &&& forall|i: int, j: int|
            0 <= i < j < self.spec_sprites().len() ==> self.spec_sprites()[i]@.handle
                != self.spec_sprites()[j]@.handle
        &&& forall|i: int|
            0 <= i < self.spec_sprites().len() ==> (#[trigger] self.spec_sprites()[i])@.handle.0
                < self.spec_engine().spec_next_handle()
        &&& forall|i: int|
            0 <= i < self.spec_sprites().len() ==> (#[trigger] self.spec_sprites()[i])@.logic
                is Some
        &&& scene_no_dups(self.spec_engine().spec_scene())
        &&& forall|k: int|
            0 <= k < self.spec_engine().spec_scene().len() ==> (
            #[trigger] self.spec_engine().spec_scene()[k]).0
                < self.spec_engine().spec_next_handle()
        &&& forall|i: int|
            0 <= i < self.spec_sprites().len() ==> ((#[trigger] self.spec_sprites()[i])@.displayed
                <==> self.spec_engine().spec_scene().contains(self.spec_sprites()[i]@.handle))
    }

    /// What holds of a sprite temporarily outside the registry, as one is
    /// while its own callback runs: its handle is minted, no owned sprite
    /// shares it, and its scene membership agrees with its `displayed` flag.
    pub open spec fn guest_ok(self, s: Sprite<L>) -> bool {
        &&& self.inv()
        &&& s@.handle.0 < self.spec_engine().spec_next_handle()
        &&& forall|i: int|
            0 <= i < self.spec_sprites().len() ==> (#[trigger] self.spec_sprites()[i])@.handle
                != s@.handle
        &&& (self.spec_engine().spec_scene().contains(s@.handle) <==> s@.displayed)
    }

    pub(crate) fn new() -> (r: SpriteAPI<L>)
        ensures
            r.inv(),
            r.spec_sprites() == Seq::<Sprite<L>>::empty(),
            r.spec_engine().spec_next_handle() == 0,
            r.spec_engine().spec_scene() == Seq::<SpriteHandle>::empty(),
            r.spec_engine().spec_always_redraw() is WhenNeeded,
            r.spec_engine().spec_dirty_rects() == Seq::<Rect>::empty(),
    {
        SpriteAPI { engine: Engine::new(), sprites: Vec::new() }
    }

    /// How many sprites the registry owns.
    pub fn len(&self) -> (r: usize)
        ensures
            r == self.spec_sprites().len(),
    {
        self.sprites.len()
    }

    /// How many sprites stand in the display list, as the native engine
    /// counts them.
    pub fn sprite_count(&self) -> (r: usize)
        ensures
            r == self.spec_engine().spec_scene().len(),
    {
        self.engine.scene.len()
    }

    /// Switches between redrawing every sprite each frame and redrawing only
    /// what is marked dirty.
    pub fn set_always_redraw(&mut self, state: DrawTime)
        ensures
            final(self).spec_engine().spec_always_redraw() == state,
            final(self).spec_engine().spec_scene() == old(self).spec_engine().spec_scene(),
            final(self).spec_engine().spec_next_handle() == old(self).spec_engine().spec_next_handle(),
            final(self).spec_engine().spec_dirty_rects() == old(self).spec_engine().spec_dirty_rects(),
            final(self).spec_sprites() == old(self).spec_sprites(),
            old(self).inv() ==> final(self).inv(),
    {
        self.engine.always_redraw = state;
    }

    /// Marks a screen region as needing redraw this frame.
    pub fn add_dirty_rect(&mut self, rect: Rect)
        ensures
            final(self).spec_engine().spec_dirty_rects() == old(self).spec_engine().spec_dirty_rects().push(rect),
            final(self).spec_engine().spec_scene() == old(self).spec_engine().spec_scene(),
            final(self).spec_engine().spec_next_handle() == old(self).spec_engine().spec_next_handle(),
            final(self).spec_engine().spec_always_redraw() == old(self).spec_engine().spec_always_redraw(),
            final(self).spec_sprites() == old(self).spec_sprites(),
            old(self).inv() ==> final(self).inv(),
    {
        self.engine.dirty_rects.push(rect);
    }

    /// Looks the registry's own list up by handle.
    pub fn index_of(&self, h: SpriteHandle) -> (r: Option<usize>)
        ensures
            r matches Some(i) ==> i < self.spec_sprites().len() && self.spec_sprites()[
                i as int
            ]@.handle == h,
            r is None ==> forall|i: int|
                0 <= i < self.spec_sprites().len() ==> (
                #[trigger] self.spec_sprites()[i])@.handle != h,
    {
        let mut i: usize = 0;
        while i < self.sprites.len()
            invariant
                0 <= i <= self.spec_sprites().len(),
                forall|k: int| 0 <= k < i ==> (#[trigger] self.spec_sprites()[k])@.handle != h,
            decreases self.spec_sprites().len() - i,
        {
            if self.sprites[i].handle == h {
                return Some(i);
            }
            i = i + 1;
        }
        None
    }

    /// Borrows the sprite at a registry position.
    pub fn get(&self, i: usize) -> (r: &Sprite<L>)
        requires
            i < self.spec_sprites().len(),
        ensures
            *r == self.spec_sprites()[i as int],
    {
        &self.sprites[i]
    }

    /// Borrows the logic object of the sprite at a registry position
    /// mutably; the partner-mutation path of collision handling.
    pub fn logic_mut(&mut self, i: usize) -> (r: &mut L)
        requires
            i < old(self).spec_sprites().len(),
            old(self).spec_sprites()[i as int]@.logic is Some,
        ensures
            *r == old(self).spec_sprites()[i as int]@.logic->0,
            final(self).spec_engine() == old(self).spec_engine(),
            final(self).spec_sprites().len() == old(self).spec_sprites().len(),
            forall|j: int|
                0 <= j < old(self).spec_sprites().len() && j != i ==> final(self).spec_sprites()[j]
                    == old(self).spec_sprites()[j],
            final(self).spec_sprites()[i as int]@ == (SpriteState {
                logic: Some(*final(r)),
                ..old(self).spec_sprites()[i as int]@
            }),
    {
        let sprite = &mut self.sprites[i];
        match &mut sprite.data.logic {
            Some(l) => l,
            None => {
                proof {
                    assert(false);
                }
                unreached()
            },
        }
    }

    /// Attaches the owned sprite carrying the given handle to the scene, as
    /// the native `add_sprite` entry point does; adding a displayed sprite
    /// or an unknown handle changes nothing.
    pub fn add_sprite(&mut self, h: SpriteHandle) -> (found: bool)
        requires
            old(self).inv(),
        ensures
            final(self).inv(),
            found <==> has_sprite_with_handle(old(self).spec_sprites(), h),
            !found ==> *final(self) == *old(self),
            final(self).spec_sprites().len() == old(self).spec_sprites().len(),
            final(self).spec_engine().spec_next_handle() == old(self).spec_engine().spec_next_handle(),
            forall|i: int|
                0 <= i < old(self).spec_sprites().len() ==> (
                #[trigger] final(self).spec_sprites()[i])@ == (if old(self).spec_sprites()[i]@.handle
                    == h {
                    SpriteState { displayed: true, ..old(self).spec_sprites()[i]@ }
                } else {
                    old(self).spec_sprites()[i]@
                }),
            forall|x: SpriteHandle|
                final(self).spec_engine().spec_scene().contains(x) <==> (old(self).spec_engine().spec_scene().contains(x) || (found && x == h)),
    {
        let idx = self.index_of(h);
        match idx {
            Some(i) => {
                if !self.sprites[i].data.displayed {
                    let sp = &mut self.sprites[i];
                    sp.data.displayed = true;
                    self.engine.scene.push(h);
                    proof {
                        let os = old(self).spec_sprites();
                        let ns = self.spec_sprites();
                        let oscene = old(self).spec_engine().spec_scene();
                        let nscene = self.spec_engine().spec_scene();
                        assert(nscene == oscene.push(h));
                        assert forall|x: SpriteHandle|
                            nscene.contains(x) <==> (oscene.contains(x) || x == h) by {
                        }
                        assert forall|a: int|
                            0 <= a < ns.len() implies ((#[trigger] ns[a])@.displayed
                            <==> nscene.contains(ns[a]@.handle)) by {
                            if a != i {
                                assert(ns[a] == os[a]);
                                assert(os[a]@.handle != os[i as int]@.handle);
                            }
                        }
                        assert forall|a: int, b: int|
                            0 <= a < b < ns.len() implies (#[trigger] ns[a])@.handle != (
                        #[trigger] ns[b])@.handle by {
                            assert(ns[a]@.handle == os[a]@.handle);
                            assert(ns[b]@.handle == os[b]@.handle);
                        }
                    }
                } else {
                    proof {
                        assert(self.spec_sprites() =~= old(self).spec_sprites());
                    }
                }
                true
            },
            None => false,
        }
    }

    /// Detaches the owned sprite carrying the given handle from the scene,
    /// as the native `remove_sprite` entry point does; removing a detached
    /// sprite or an unknown handle changes nothing.
    pub fn remove_sprite(&mut self, h: SpriteHandle) -> (found: bool)
        requires
            old(self).inv(),
        ensures
            final(self).inv(),
            found <==> has_sprite_with_handle(old(self).spec_sprites(), h),
            !found ==> *final(self) == *old(self),
            final(self).spec_sprites().len() == old(self).spec_sprites().len(),
            final(self).spec_engine().spec_next_handle() == old(self).spec_engine().spec_next_handle(),
            forall|i: int|
                0 <= i < old(self).spec_sprites().len() ==> (
                #[trigger] final(self).spec_sprites()[i])@ == (if old(self).spec_sprites()[i]@.handle
                    == h {
                    SpriteState { displayed: false, ..old(self).spec_sprites()[i]@ }
                } else {
                    old(self).spec_sprites()[i]@
                }),
            forall|x: SpriteHandle|
                final(self).spec_engine().spec_scene().contains(x) <==> (old(self).spec_engine().spec_scene().contains(x) && !(found && x == h)),
    {
        let idx = self.index_of(h);
        match idx {
            Some(i) => {
                if self.sprites[i].data.displayed {
                    let sp = &mut self.sprites[i];
                    sp.data.displayed = false;
                    proof {
                        assert(self.spec_engine().spec_scene().contains(h));
                    }
                    scene_remove(&mut self.engine.scene, h);
                    proof {
                        let os = old(self).spec_sprites();
                        let ns = self.spec_sprites();
                        let nscene = self.spec_engine().spec_scene();
                        assert forall|a: int|
                            0 <= a < ns.len() implies ((#[trigger] ns[a])@.displayed
                            <==> nscene.contains(ns[a]@.handle)) by {
                            if a != i {
                                assert(ns[a] == os[a]);
                                assert(os[a]@.handle != os[i as int]@.handle);
                            }
                        }
                        assert forall|a: int, b: int|
                            0 <= a < b < ns.len() implies (#[trigger] ns[a])@.handle != (
                        #[trigger] ns[b])@.handle by {
                            assert(ns[a]@.handle == os[a]@.handle);
                            assert(ns[b]@.handle == os[b]@.handle);
                        }
                        assert forall|k: int|
                            0 <= k < nscene.len() implies (#[trigger] nscene[k]).0
                            < self.spec_engine().spec_next_handle() by {
                            assert(nscene.contains(nscene[k]));
                            assert(old(self).spec_engine().spec_scene().contains(nscene[k]));
                            let m = choose|m: int|
                                0 <= m < old(self).spec_engine().spec_scene().len() && old(self).spec_engine().spec_scene()[m] == nscene[k];
                        }
                    }
                } else {
                    proof {
                        assert(self.spec_sprites() =~= old(self).spec_sprites());
                    }
                }
                true
            },
            None => false,
        }
    }

    /// Resets the engine's collision world: every sprite loses its collide
    /// rectangle and takes no further part in collision resolution until
    /// given a new one.
    pub fn reset_collision_world(&mut self)
        requires
            old(self).inv(),
        ensures
            final(self).inv(),
            final(self).spec_sprites().len() == old(self).spec_sprites().len(),
            forall|i: int|
                0 <= i < old(self).spec_sprites().len() ==> (
                #[trigger] final(self).spec_sprites()[i])@ == (SpriteState {
                    collide_rect: None::<Rect>,
                    ..old(self).spec_sprites()[i]@
                }),
            final(self).spec_engine() == old(self).spec_engine(),
    {
        let mut i: usize = 0;
        while i < self.sprites.len()
            invariant
                old(self).inv(),
                0 <= i <= self.spec_sprites().len(),
                self.spec_sprites().len() == old(self).spec_sprites().len(),
                forall|k: int|
                    0 <= k < i ==> (#[trigger] self.spec_sprites()[k])@ == (SpriteState {
                        collide_rect: None::<Rect>,
                        ..old(self).spec_sprites()[k]@
                    }),
                forall|k: int|
                    i <= k < self.spec_sprites().len() ==> (#[trigger] self.spec_sprites()[k])
                        == old(self).spec_sprites()[k],
                self.spec_engine() == old(self).spec_engine(),
            decreases self.spec_sprites().len() - i,
        {
            let sprite = &mut self.sprites[i];
            sprite.clear_collide_rect();
            i = i + 1;
        }
        proof {
            assert forall|i: int|
                0 <= i < self.spec_sprites().len() implies ((
            #[trigger] self.spec_sprites()[i])@.displayed <==> self.spec_engine().spec_scene().contains(
                self.spec_sprites()[i]@.handle,
            )) by {
            }
        }
    }

    /// Sets the clip rectangle of every displayed sprite whose drawing order
    /// lies in the given range.
    pub fn set_clip_rects_in_range(&mut self, rect: Rect, start_z: i32, end_z: i32)
        requires
            old(self).inv(),
        ensures
            final(self).inv(),
            final(self).spec_sprites().len() == old(self).spec_sprites().len(),
            forall|i: int|
                0 <= i < old(self).spec_sprites().len() ==> (
                #[trigger] final(self).spec_sprites()[i])@ == (if old(self).spec_sprites()[i]@.displayed
                    && start_z <= old(self).spec_sprites()[i]@.z_index <= end_z {
                    SpriteState { clip_rect: Some(rect), ..old(self).spec_sprites()[i]@ }
                } else {
                    old(self).spec_sprites()[i]@
                }),
            final(self).spec_engine() == old(self).spec_engine(),
    {
        let mut i: usize = 0;
        while i < self.sprites.len()
            invariant
                old(self).inv(),
                0 <= i <= self.spec_sprites().len(),
                self.spec_sprites().len() == old(self).spec_sprites().len(),
                forall|k: int|
                    0 <= k < i ==> (#[trigger] self.spec_sprites()[k])@ == (if old(self).spec_sprites()[k]@.displayed && start_z <= old(self).spec_sprites()[k]@.z_index
                        <= end_z {
                        SpriteState { clip_rect: Some(rect), ..old(self).spec_sprites()[k]@ }
                    } else {
                        old(self).spec_sprites()[k]@
                    }),
                forall|k: int|
                    i <= k < self.spec_sprites().len() ==> (#[trigger] self.spec_sprites()[k])
                        == old(self).spec_sprites()[k],
                self.spec_engine() == old(self).spec_engine(),
            decreases self.spec_sprites().len() - i,
        {
            let z = self.sprites[i].data.z_index;
            let displayed = self.sprites[i].data.displayed;
            if displayed && start_z <= z as i32 && z as i32 <= end_z {
                let sprite = &mut self.sprites[i];
                sprite.set_clip_rect(rect);
            }
            i = i + 1;
        }
        proof {
            assert forall|i: int|
                0 <= i < self.spec_sprites().len() implies ((
            #[trigger] self.spec_sprites()[i])@.displayed <==> self.spec_engine().spec_scene().contains(
                self.spec_sprites()[i]@.handle,
            )) by {
            }
        }
    }

    /// Clears the clip rectangle of every displayed sprite whose drawing
    /// order lies in the given range.
    pub fn clear_clip_rects_in_range(&mut self, start_z: i32, end_z: i32)
        requires
            old(self).inv(),
        ensures
            final(self).inv(),
            final(self).spec_sprites().len() == old(self).spec_sprites().len(),
            forall|i: int|
                0 <= i < old(self).spec_sprites().len() ==> (
                #[trigger] final(self).spec_sprites()[i])@ == (if old(self).spec_sprites()[i]@.displayed
                    && start_z <= old(self).spec_sprites()[i]@.z_index <= end_z {
                    SpriteState { clip_rect: None::<Rect>, ..old(self).spec_sprites()[i]@ }
                } else {
                    old(self).spec_sprites()[i]@
                }),
            final(self).spec_engine() == old(self).spec_engine(),
    {
        let mut i: usize = 0;
        while i < self.sprites.len()
            invariant
                old(self).inv(),
                0 <= i <= self.spec_sprites().len(),
                self.spec_sprites().len() == old(self).spec_sprites().len(),
                forall|k: int|
                    0 <= k < i ==> (#[trigger] self.spec_sprites()[k])@ == (if old(self).spec_sprites()[k]@.displayed && start_z <= old(self).spec_sprites()[k]@.z_index
                        <= end_z {
                        SpriteState { clip_rect: None::<Rect>, ..old(self).spec_sprites()[k]@ }
                    } else {
                        old(self).spec_sprites()[k]@
                    }),
                forall|k: int|
                    i <= k < self.spec_sprites().len() ==> (#[trigger] self.spec_sprites()[k])
                        == old(self).spec_sprites()[k],
                self.spec_engine() == old(self).spec_engine(),
            decreases self.spec_sprites().len() - i,
        {
            let z = self.sprites[i].data.z_index;
            let displayed = self.sprites[i].data.displayed;
            if displayed && start_z <= z as i32 && z as i32 <= end_z {
                let sprite = &mut self.sprites[i];
                sprite.clear_clip_rect();
            }
            i = i + 1;
        }
        proof {
            assert forall|i: int|
                0 <= i < self.spec_sprites().len() implies ((
            #[trigger] self.spec_sprites()[i])@.displayed <==> self.spec_engine().spec_scene().contains(
                self.spec_sprites()[i]@.handle,
            )) by {
            }
        }
    }

    /// The handles of the sprites whose bounds contain the given point, in
    /// registry order; the scan walks the registry's own list, so no
    /// engine-side aliasing can occur.
    pub fn query_at_point(&self, x: i32, y: i32) -> (r: Vec<SpriteHandle>)
        ensures
            r@ == spec_handles_at_point(self.spec_sprites(), x as int, y as int),
    {
        let mut out: Vec<SpriteHandle> = Vec::new();
        let mut i: usize = 0;
        while i < self.sprites.len()
            invariant
                0 <= i <= self.spec_sprites().len(),
                out@ == spec_handles_at_point(
                    self.spec_sprites().take(i as int),
                    x as int,
                    y as int,
                ),
            decreases self.spec_sprites().len() - i,
        {
            proof {
                assert(self.spec_sprites().take(i as int + 1).drop_last()
                    =~= self.spec_sprites().take(i as int));
                assert(self.spec_sprites().take(i as int + 1).last() == self.spec_sprites()[
                    i as int
                ]);
            }
            if self.sprites[i].data.bounds.contains_point(x, y) {
                out.push(self.sprites[i].handle);
            }
            i = i + 1;
        }
        proof {
            assert(self.spec_sprites().take(self.spec_sprites().len() as int)
                =~= self.spec_sprites());
        }
        out
    }

    /// The handles of the sprites whose bounds meet the given rectangle, in
    /// registry order; the scan walks the registry's own list, so no
    /// engine-side aliasing can occur.
    pub fn query_in_rect(&self, rect: Rect) -> (r: Vec<SpriteHandle>)
        ensures
            r@ == spec_handles_in_rect(self.spec_sprites(), rect),
    {
        let mut out: Vec<SpriteHandle> = Vec::new();
        let mut i: usize = 0;
        while i < self.sprites.len()
            invariant
                0 <= i <= self.spec_sprites().len(),
                out@ == spec_handles_in_rect(self.spec_sprites().take(i as int), rect),
            decreases self.spec_sprites().len() - i,
        {
            proof {
                assert(self.spec_sprites().take(i as int + 1).drop_last()
                    =~= self.spec_sprites().take(i as int));
                assert(self.spec_sprites().take(i as int + 1).last() == self.spec_sprites()[
                    i as int
                ]);
            }
            if self.sprites[i].data.bounds.touches(&rect) {
                out.push(self.sprites[i].handle);
            }
            i = i + 1;
        }
        proof {
            assert(self.spec_sprites().take(self.spec_sprites().len() as int)
                =~= self.spec_sprites());
        }
        out
    }
}

/// The handles of the sprites whose bounds contain the point, in the order
/// the registry holds them.
pub open spec fn spec_handles_at_point<L>(sprites: Seq<Sprite<L>>, x: int, y: int) -> Seq<
    SpriteHandle,
>
    decreases sprites.len(),
{
    if sprites.len() == 0 {
        Seq::empty()
    } else {
        let rest = spec_handles_at_point(sprites.drop_last(), x, y);
        if rect_contains_point(sprites.last()@.bounds, x, y) {
            rest.push(sprites.last()@.handle)
        } else {
            rest
        }
    }
}

/// The handles of the sprites whose bounds meet the rectangle under the
/// inclusive test, in the order the registry holds them.
pub open spec fn spec_handles_in_rect<L>(sprites: Seq<Sprite<L>>, rect: Rect) -> Seq<SpriteHandle>
    decreases sprites.len(),
{
    if sprites.len() == 0 {
        Seq::empty()
    } else {
        let rest = spec_handles_in_rect(sprites.drop_last(), rect);
        if rects_touch_or_overlap(sprites.last()@.bounds, rect) {
            rest.push(sprites.last()@.handle)
        } else {
            rest
        }
    }
}

/// The bitmap slot identity a stencil holds, if it holds one./// The bitmap slot identity a stencil holds, if it holds one.
pub open spec fn stencil_bitmap_id(s: Option<StencilView>) -> Option<int> {
    match s {
        Some(StencilView::Bitmap(id)) => Some(id),
        _ => None,
    }
}

/// The stencil view of an optional stencil value.
pub open spec fn opt_stencil_view(s: Option<SpriteStencil>) -> Option<StencilView> {
    match s {
        Some(st) => Some(st.view_spec()),
        None => None,
    }
}

/// Releases the bitmap reference a stencil holds, if it holds one.
fn release_stencil(gfx: &mut Graphics, st: Option<SpriteStencil>)
    ensures
        final(gfx).slot_count() == old(gfx).slot_count(),
        forall|j: int|
            0 <= j < old(gfx).slot_count() && Some(j) != stencil_bitmap_id(opt_stencil_view(st))
                ==> #[trigger] final(gfx).refs(j) == old(gfx).refs(j),
        forall|j: int|
            0 <= j < old(gfx).slot_count() && Some(j) != stencil_bitmap_id(opt_stencil_view(st))
                ==> #[trigger] final(gfx).live(j) == old(gfx).live(j),
        stencil_bitmap_id(opt_stencil_view(st)) matches Some(id) ==> (old(gfx).live(id) && old(
            gfx,
        ).refs(id) >= 1 ==> final(gfx).refs(id) == old(gfx).refs(id) - 1),
{
    match st {
        Some(SpriteStencil::Bitmap(image)) => {
            gfx.release(image);
        },
        Some(SpriteStencil::Pattern(_)) => {},
        None => {},
    }
}

/// The staged, chainable construction of exactly one sprite.
///
/// A builder mints a fresh handle, attaches a fresh correlated data block and
/// installs the three dispatch trampolines; the chained settings are applied
/// in the order given. `build` consumes the builder, so no builder can
/// produce two sprites.
pub struct SpriteBuilder<L> {
    pub(crate) sprite: Sprite<L>,
}

impl<L> SpriteBuilder<L> {
    /// The sprite under construction, by value.
    pub closed spec fn spec_sprite(self) -> Sprite<L> {
        self.sprite
    }

    /// Allocates a fresh handle from the engine, attaches a fresh correlated
    /// data block, and installs the three trampolines.
    pub(crate) fn new_in(api: &mut SpriteAPI<L>) -> (r: SpriteBuilder<L>)
        requires
            old(api).inv(),
            old(api).spec_engine().spec_next_handle() < u64::MAX,
        ensures
            final(api).inv(),
            final(api).spec_sprites() == old(api).spec_sprites(),
            final(api).spec_engine().spec_scene() == old(api).spec_engine().spec_scene(),
            final(api).spec_engine().spec_next_handle() == old(api).spec_engine().spec_next_handle() + 1,
            final(api).spec_engine().spec_always_redraw() == old(api).spec_engine().spec_always_redraw(),
            final(api).spec_engine().spec_dirty_rects() == old(api).spec_engine().spec_dirty_rects(),
            final(api).guest_ok(r.spec_sprite()),
            r.spec_sprite()@ == (SpriteState {
                handle: SpriteHandle(old(api).spec_engine().spec_next_handle()),
                displayed: false,
                bitmap: None::<int>,
                flip: BitmapFlip::Unflipped,
                stencil: None::<StencilView>,
                stencil_tile: TileMode::NoTile,
                logic: None::<L>,
                bounds: Rect { x: 0, y: 0, width: 0, height: 0 },
                z_index: 0i16,
                tag: 0u8,
                draw_mode: DrawMode::Copy,
                visible: Visibility::Visible,
                opaque: Opaqueness::Translucent,
                updates: UpdatesState::Enabled,
                collisions: CollisionState::Enabled,
                collide_rect: None::<Rect>,
                clip_rect: None::<Rect>,
                offset_behavior: OffsetBehavior::DrawOffset,
                dirty: false,
                update_fn: true,
                draw_fn: true,
                collide_fn: true,
            }),
    {
        let handle = SpriteHandle(api.engine.next_handle);
        api.engine.next_handle = api.engine.next_handle + 1;
        let data = SpriteData {
            displayed: false,
            bitmap: None,
            flip: BitmapFlip::Unflipped,
            stencil: None,
            stencil_tile: TileMode::NoTile,
            logic: None,
            bounds: Rect { x: 0, y: 0, width: 0, height: 0 },
            z_index: 0,
            tag: 0,
            draw_mode: DrawMode::Copy,
            visible: Visibility::Visible,
            opaque: Opaqueness::Translucent,
            updates: UpdatesState::Enabled,
            collisions: CollisionState::Enabled,
            collide_rect: None,
            clip_rect: None,
            offset_behavior: OffsetBehavior::DrawOffset,
            dirty: false,
            update_fn: true,
            draw_fn: true,
            collide_fn: true,
        };
        let sprite = Sprite { handle, data };
        proof {
            let scene = api.engine.scene@;
            if scene.contains(handle) {
                let k = choose|k: int| 0 <= k < scene.len() && scene[k] == handle;
            }
        }
        SpriteBuilder { sprite }
    }

    /// Finishes construction and hands the sprite over.
    pub fn build(self) -> (r: Sprite<L>)
        ensures
            r == self.spec_sprite(),
    {
        self.sprite
    }

    /// Stages the sprite's image and flip.
    pub fn image(self, gfx: &mut Graphics, image: Bitmap, flip: BitmapFlip) -> (r: Self)
        ensures
            r.spec_sprite()@ == (SpriteState {
                bitmap: Some(image.id() as int),
                flip,
                ..self.spec_sprite()@
            }),
            final(gfx).slot_count() == old(gfx).slot_count(),
            self.spec_sprite()@.bitmap is None ==> *final(gfx) == *old(gfx),
            forall|j: int|
                0 <= j < old(gfx).slot_count() && self.spec_sprite()@.bitmap != Some(j) ==> final(gfx).live(j) == old(gfx).live(j) && final(gfx).refs(j) == old(gfx).refs(j),
    {
        let mut this = self;
        this.sprite.set_image(gfx, image, flip);
        this
    }

    /// Stages the sprite's position.
    pub fn move_to(self, x: i32, y: i32) -> (r: Self)
        ensures
            r.spec_sprite()@ == (SpriteState {
                bounds: Rect {
                    x,
                    y,
                    width: self.spec_sprite()@.bounds.width,
                    height: self.spec_sprite()@.bounds.height,
                },
                ..self.spec_sprite()@
            }),
    {
        let mut this = self;
        this.sprite.move_to(x, y);
        this
    }

    /// Stages the sprite's drawing order.
    pub fn z_index(self, z_index: i16) -> (r: Self)
        ensures
            r.spec_sprite()@ == (SpriteState { z_index, ..self.spec_sprite()@ }),
    {
        let mut this = self;
        this.sprite.set_z_index(z_index);
        this
    }

    /// Stages the sprite's collision rectangle.
    pub fn collide_rect(self, rect: Rect) -> (r: Self)
        ensures
            r.spec_sprite()@ == (SpriteState { collide_rect: Some(rect), ..self.spec_sprite()@ }),
    {
        let mut this = self;
        this.sprite.set_collide_rect(rect);
        this
    }

    /// Stages the sprite's tag.
    pub fn tag(self, tag: u8) -> (r: Self)
        ensures
            r.spec_sprite()@ == (SpriteState { tag, ..self.spec_sprite()@ }),
    {
        let mut this = self;
        this.sprite.set_tag(tag);
        this
    }

    /// Stages the sprite's whole bounds rectangle.
    pub fn bounds(self, bounds: Rect) -> (r: Self)
        ensures
            r.spec_sprite()@ == (SpriteState { bounds, ..self.spec_sprite()@ }),
    {
        let mut this = self;
        this.sprite.set_bounds(bounds);
        this
    }

    /// Stages "add to scene now": the sprite enters the display list at
    /// build time rather than later.
    pub fn add(self, api: &mut SpriteAPI<L>) -> (r: Self)
        requires
            old(api).guest_ok(self.spec_sprite()),
        ensures
            r.spec_sprite()@ == (SpriteState { displayed: true, ..self.spec_sprite()@ }),
            final(api).guest_ok(r.spec_sprite()),
            final(api).spec_sprites() == old(api).spec_sprites(),
            final(api).spec_engine().spec_next_handle() == old(api).spec_engine().spec_next_handle(),
            forall|h: SpriteHandle|
                final(api).spec_engine().spec_scene().contains(h) <==> (old(api).spec_engine().spec_scene().contains(h) || h == self.spec_sprite()@.handle),
    {
        let mut this = self;
        this.sprite.add(api);
        this
    }
}

/// The logic-object capability set: the closed, polymorphic interface every
/// game entity implements some subset of.
///
/// `T` is the game-wide shared state held by [`Playdate`]; implementors are
/// meant to be a closed enumeration of the game's concrete behaviors, so that
/// a collision partner is resolved by exhaustive matching rather than an
/// open-ended type query.
///
/// During a callback the sprite being dispatched is handed out of the
/// registry as `me`, so the callback may freely mutate both its own sprite
/// and the rest of the world without aliasing.
pub trait GameObject<T>: Sized {
    /// Builds and fully configures this object's sprite; called exactly once,
    /// at spawn. The returned sprite must be the builder's sprite, either
    /// attached to the scene or left detached for a later `add`.
    fn init(&mut self, builder: SpriteBuilder<Self>, pd: &mut Playdate<T, Self>) -> (s: Sprite<
        Self,
    >)
        requires
            old(pd).spec_sprite().guest_ok(builder.spec_sprite()),
            builder.spec_sprite()@.logic is None,
        ensures
            final(pd).spec_sprite().guest_ok(s),
            s@.handle == builder.spec_sprite()@.handle,
            s@.logic is None,
            old(pd).spec_dispatch_log().is_prefix_of(final(pd).spec_dispatch_log()),
    ;

    /// The per-frame step while the sprite is displayed; the verdict decides
    /// whether the sprite survives the frame. When not overridden, every
    /// call returns `Keep` and mutates nothing.
    fn update(&mut self, me: &mut Sprite<Self>, pd: &mut Playdate<T, Self>) -> (r: Persistance)
        requires
            old(pd).spec_sprite().guest_ok(*old(me)),
        ensures
            final(pd).spec_sprite().guest_ok(*final(me)),
            final(me)@.handle == old(me)@.handle,
            old(pd).spec_dispatch_log().is_prefix_of(final(pd).spec_dispatch_log()),
        default_ensures
            r is Keep,
            *final(self) == *old(self),
            *final(me) == *old(me),
            *final(pd) == *old(pd),
    {
        proof {
            lemma_log_prefix_reflexive(pd.spec_dispatch_log());
        }
        Persistance::Keep
    }

    /// The verdict for one overlapping pair during collision resolution; the
    /// partner's logic object is reached through `other` and
    /// [`SpriteAPI::logic_mut`]. When not overridden, every pair overlaps
    /// freely.
    fn collide(&mut self, me: &mut Sprite<Self>, other: SpriteHandle, pd: &mut Playdate<
        T,
        Self,
    >) -> (r: CollisionResponse)
        requires
            old(pd).spec_sprite().guest_ok(*old(me)),
        ensures
            final(pd).spec_sprite().guest_ok(*final(me)),
            final(me)@.handle == old(me)@.handle,
            old(pd).spec_dispatch_log().is_prefix_of(final(pd).spec_dispatch_log()),
        default_ensures
            r is Overlap,
            *final(self) == *old(self),
            *final(me) == *old(me),
            *final(pd) == *old(pd),
    {
        proof {
            lemma_log_prefix_reflexive(pd.spec_dispatch_log());
        }
        CollisionResponse::Overlap
    }

    /// The per-frame drawing step while the sprite is visible; the sprite
    /// view is read-only. When not overridden, nothing is drawn and nothing
    /// changes.
    fn draw(&mut self, me: &Sprite<Self>, pd: &mut Playdate<T, Self>)
        requires
            old(pd).spec_sprite().guest_ok(*me),
        ensures
            final(pd).spec_sprite().guest_ok(*me),
            old(pd).spec_dispatch_log().is_prefix_of(final(pd).spec_dispatch_log()),
        default_ensures
            *final(self) == *old(self),
            *final(pd) == *old(pd),
    {
        proof {
            lemma_log_prefix_reflexive(pd.spec_dispatch_log());
        }
    }

    /// Runs once, at teardown, before the correlated data is released.
    fn destroy(&mut self)
        default_ensures
            *final(self) == *old(self),
    {
    }
}

/// One entry of the dispatch trace: a callback the binding forwarded into a
/// logic object, as the native engine's trampolines would. The hub keeps the
/// trace as ghost state, so every dispatch is stated in the contracts and
/// none can be skipped or reordered silently.
pub enum DispatchEvent {
    /// `init` ran for the sprite being spawned under this handle.
    Init { handle: SpriteHandle },
    /// `update` ran for this sprite and returned this verdict.
    Update { handle: SpriteHandle, verdict: Persistance },
    /// `collide` ran for this mover/partner pair and returned this response.
    Collide { mover: SpriteHandle, other: SpriteHandle, response: CollisionResponse },
    /// `draw` ran for this sprite.
    Draw { handle: SpriteHandle },
    /// The logic object's `destroy` hook ran during this sprite's teardown.
    Destroy { handle: SpriteHandle },
}

/// Every trace is a prefix of itself.
pub proof fn lemma_log_prefix_reflexive(s: Seq<DispatchEvent>)
    ensures
        s.is_prefix_of(s),
{
    assert(s =~= s.subrange(0, s.len() as int));
}

/// A trace extended by one entry keeps the old trace as a prefix.
pub proof fn lemma_log_prefix_push(s: Seq<DispatchEvent>, e: DispatchEvent)
    ensures
        s.is_prefix_of(s.push(e)),
{
    assert(s =~= s.push(e).subrange(0, s.len() as int));
}

/// Being a prefix of a trace carries over to every later extension.
pub proof fn lemma_log_prefix_trans(
    a: Seq<DispatchEvent>,
    b: Seq<DispatchEvent>,
    c: Seq<DispatchEvent>,
)
    requires
        a.is_prefix_of(b),
        b.is_prefix_of(c),
    ensures
        a.is_prefix_of(c),
{
    assert forall|i: int| 0 <= i < a.len() implies a[i] == #[trigger] c.subrange(
        0,
        a.len() as int,
    )[i] by {
        assert(a[i] == b.subrange(0, b.len() as int)[i]);
    }
    assert(a =~= c.subrange(0, a.len() as int));
}

/// An entry of a trace stays in place under every later extension.
pub proof fn lemma_log_prefix_index(a: Seq<DispatchEvent>, b: Seq<DispatchEvent>, p: int)
    requires
        a.is_prefix_of(b),
        0 <= p < a.len(),
    ensures
        b[p] == a[p],
{
    assert(a[p] == b.subrange(0, a.len() as int)[p]);
}

/// The API hub: the game-wide shared state plus every subsystem model,
/// passed explicitly through each callback instead of living in a global.
pub struct Playdate<T, L> {
    pub(crate) data: T,
    pub(crate) log: Ghost<Seq<DispatchEvent>>,
    pub(crate) display: Display,
    pub(crate) file: FileSystem,
    pub(crate) graphics: Graphics,
    pub(crate) sprite: SpriteAPI<L>,
    pub(crate) system: System,
}

impl<T, L> Playdate<T, L> {
    pub closed spec fn spec_data(self) -> T {
        self.data
    }

    pub closed spec fn spec_display(self) -> Display {
        self.display
    }

    pub closed spec fn spec_file(self) -> FileSystem {
        self.file
    }

    pub closed spec fn spec_graphics(self) -> Graphics {
        self.graphics
    }

    pub closed spec fn spec_sprite(self) -> SpriteAPI<L> {
        self.sprite
    }

    pub closed spec fn spec_system(self) -> System {
        self.system
    }

    /// The dispatch trace: every callback the binding has forwarded into a
    /// logic object, in order. It only ever grows.
    pub closed spec fn spec_dispatch_log(self) -> Seq<DispatchEvent> {
        self.log@
    }

    /// Builds the whole API hub around the given game-wide state; every
    /// subsystem starts in its power-on state.
    pub fn new(data: T) -> (r: Playdate<T, L>)
        ensures
            r.spec_data() == data,
            r.spec_sprite().inv(),
            r.spec_sprite().spec_sprites() == Seq::<Sprite<L>>::empty(),
            r.spec_sprite().spec_engine().spec_next_handle() == 0,
            r.spec_sprite().spec_engine().spec_scene() == Seq::<SpriteHandle>::empty(),
            r.spec_sprite().spec_engine().spec_always_redraw() is WhenNeeded,
            r.spec_sprite().spec_engine().spec_dirty_rects() == Seq::<Rect>::empty(),
            r.spec_graphics().slot_count() == 0,
            r.spec_display() == Display::spec_initial(),
            r.spec_system().spec_is_initial(),
            r.spec_file().spec_last_error() == Seq::<char>::empty(),
            r.spec_dispatch_log() == Seq::<DispatchEvent>::empty(),
    {
        Playdate {
            data,
            log: Ghost(Seq::empty()),
            display: Display::new(),
            file: FileSystem::new(),
            graphics: Graphics::new(),
            sprite: SpriteAPI::new(),
            system: System::new(),
        }
    }

    /// The game-wide shared state.
    pub fn data(&self) -> (r: &T)
        ensures
            *r == self.spec_data(),
    {
        &self.data
    }

    /// The game-wide shared state, mutably; exclusive access is enforced by
    /// the borrow rather than checked at run time.
    pub fn data_mut(&mut self) -> (r: &mut T)
        ensures
            *r == old(self).spec_data(),
            final(self).spec_data() == *final(r),
            final(self).spec_dispatch_log() == old(self).spec_dispatch_log(),
            final(self).spec_display() == old(self).spec_display(),
            final(self).spec_file() == old(self).spec_file(),
            final(self).spec_graphics() == old(self).spec_graphics(),
            final(self).spec_sprite() == old(self).spec_sprite(),
            final(self).spec_system() == old(self).spec_system(),
    {
        &mut self.data
    }

    /// The system subsystem.
    pub fn system(&self) -> (r: &System)
        ensures
            *r == self.spec_system(),
    {
        &self.system
    }

    /// The system subsystem, mutably.
    pub fn system_mut(&mut self) -> (r: &mut System)
        ensures
            *r == old(self).spec_system(),
            final(self).spec_system() == *final(r),
            final(self).spec_dispatch_log() == old(self).spec_dispatch_log(),
            final(self).spec_data() == old(self).spec_data(),
            final(self).spec_display() == old(self).spec_display(),
            final(self).spec_file() == old(self).spec_file(),
            final(self).spec_graphics() == old(self).spec_graphics(),
            final(self).spec_sprite() == old(self).spec_sprite(),
    {
        &mut self.system
    }

    /// The display subsystem.
    pub fn display(&self) -> (r: &Display)
        ensures
            *r == self.spec_display(),
    {
        &self.display
    }

    /// The display subsystem, mutably.
    pub fn display_mut(&mut self) -> (r: &mut Display)
        ensures
            *r == old(self).spec_display(),
            final(self).spec_display() == *final(r),
            final(self).spec_dispatch_log() == old(self).spec_dispatch_log(),
            final(self).spec_data() == old(self).spec_data(),
            final(self).spec_file() == old(self).spec_file(),
            final(self).spec_graphics() == old(self).spec_graphics(),
            final(self).spec_sprite() == old(self).spec_sprite(),
            final(self).spec_system() == old(self).spec_system(),
    {
        &mut self.display
    }

    /// The sprite registry and engine model.
    pub fn sprite(&self) -> (r: &SpriteAPI<L>)
        ensures
            *r == self.spec_sprite(),
    {
        &self.sprite
    }

    /// The sprite registry and engine model, mutably.
    pub fn sprite_mut(&mut self) -> (r: &mut SpriteAPI<L>)
        ensures
            *r == old(self).spec_sprite(),
            final(self).spec_sprite() == *final(r),
            final(self).spec_dispatch_log() == old(self).spec_dispatch_log(),
            final(self).spec_data() == old(self).spec_data(),
            final(self).spec_display() == old(self).spec_display(),
            final(self).spec_file() == old(self).spec_file(),
            final(self).spec_graphics() == old(self).spec_graphics(),
            final(self).spec_system() == old(self).spec_system(),
    {
        &mut self.sprite
    }

    /// The file-system subsystem.
    pub fn file_system(&self) -> (r: &FileSystem)
        ensures
            *r == self.spec_file(),
    {
        &self.file
    }

    /// The file-system subsystem, mutably.
    pub fn file_system_mut(&mut self) -> (r: &mut FileSystem)
        ensures
            *r == old(self).spec_file(),
            final(self).spec_file() == *final(r),
            final(self).spec_dispatch_log() == old(self).spec_dispatch_log(),
            final(self).spec_data() == old(self).spec_data(),
            final(self).spec_display() == old(self).spec_display(),
            final(self).spec_graphics() == old(self).spec_graphics(),
            final(self).spec_sprite() == old(self).spec_sprite(),
            final(self).spec_system() == old(self).spec_system(),
    {
        &mut self.file
    }

    /// The graphics subsystem.
    pub fn graphics(&self) -> (r: &Graphics)
        ensures
            *r == self.spec_graphics(),
    {
        &self.graphics
    }

    /// The graphics subsystem, mutably.
    pub fn graphics_mut(&mut self) -> (r: &mut Graphics)
        ensures
            *r == old(self).spec_graphics(),
            final(self).spec_graphics() == *final(r),
            final(self).spec_dispatch_log() == old(self).spec_dispatch_log(),
            final(self).spec_data() == old(self).spec_data(),
            final(self).spec_display() == old(self).spec_display(),
            final(self).spec_file() == old(self).spec_file(),
            final(self).spec_sprite() == old(self).spec_sprite(),
            final(self).spec_system() == old(self).spec_system(),
    {
        &mut self.graphics
    }
}

impl<T, L: GameObject<T>> Playdate<T, L> {
    /// Spawns a game object: builds its sprite through the staged builder,
    /// lets the object's `init` configure it, attaches the object as the
    /// sprite's owned logic, and stores the sprite in the registry.
    pub fn new_sprite(&mut self, logic: L)
        requires
            old(self).spec_sprite().inv(),
            old(self).spec_sprite().spec_engine().spec_next_handle() < u64::MAX,
        ensures
            final(self).spec_sprite().inv(),
            final(self).spec_sprite().spec_sprites().len() >= 1,
            final(self).spec_sprite().spec_sprites().last()@.handle == SpriteHandle(
                old(self).spec_sprite().spec_engine().spec_next_handle(),
            ),
            final(self).spec_sprite().spec_sprites().last()@.logic is Some,
            old(self).spec_dispatch_log().is_prefix_of(final(self).spec_dispatch_log()),
            exists|p: int|
                old(self).spec_dispatch_log().len() <= p < final(self).spec_dispatch_log().len()
                    && final(self).spec_dispatch_log()[p] == (DispatchEvent::Init {
                    handle: SpriteHandle(old(self).spec_sprite().spec_engine().spec_next_handle()),
                }),
    {
        let new_h = SpriteHandle(self.sprite.engine.next_handle);
        let builder = SpriteBuilder::new_in(&mut self.sprite);
        let ghost log0 = self.spec_dispatch_log();
        self.log = Ghost(self.log@.push(DispatchEvent::Init { handle: new_h }));
        let ghost log1 = self.spec_dispatch_log();
        let mut logic = logic;
        let s = logic.init(builder, self);
        proof {
            lemma_log_prefix_push(log0, DispatchEvent::Init { handle: new_h });
            lemma_log_prefix_trans(log0, log1, self.spec_dispatch_log());
            lemma_log_prefix_index(log1, self.spec_dispatch_log(), log0.len() as int);
        }
        let mut s = s;
        s.data.logic = Some(logic);
        proof {
            assert(self.sprite.guest_ok(s));
        }
        let ghost api_before = self.sprite;
        let ghost s_ghost = s;
        self.sprite.sprites.push(s);
        proof {
            let ns = self.sprite.spec_sprites();
            let os = api_before.spec_sprites();
            assert(ns == os.push(s_ghost));
            assert(ns.last() == s_ghost);
            assert forall|i: int, j: int|
                0 <= i < j < ns.len() implies (#[trigger] ns[i])@.handle != (
            #[trigger] ns[j])@.handle by {
                if j < os.len() {
                } else {
                    assert(ns[j] == s_ghost);
                    assert(os[i]@.handle != s_ghost@.handle);
                }
            }
            assert forall|i: int|
                0 <= i < ns.len() implies (#[trigger] ns[i])@.handle.0
                < self.sprite.spec_engine().spec_next_handle() by {
                if i < os.len() {
                } else {
                    assert(ns[i] == s_ghost);
                }
            }
            assert forall|i: int| 0 <= i < ns.len() implies (#[trigger] ns[i])@.logic is Some by {
                if i < os.len() {
                } else {
                    assert(ns[i] == s_ghost);
                }
            }
            assert forall|i: int|
                0 <= i < ns.len() implies ((#[trigger] ns[i])@.displayed <==>
            self.sprite.spec_engine().spec_scene().contains(ns[i]@.handle)) by {
                if i < os.len() {
                } else {
                    assert(ns[i] == s_ghost);
                }
            }
        }
    }

    /// Tears one sprite down, exactly once: detaches it from the scene if it
    /// is displayed, runs the logic object's `destroy`, and releases the
    /// cached image and stencil references. Consuming the wrapper by value,
    /// no second teardown of the same handle is possible.
    pub fn destroy_sprite(&mut self, s: Sprite<L>)
        requires
            old(self).spec_sprite().guest_ok(s),
        ensures
            final(self).spec_sprite().inv(),
            final(self).spec_sprite().spec_sprites() == old(self).spec_sprite().spec_sprites(),
            final(self).spec_sprite().spec_engine().spec_next_handle() == old(self).spec_sprite().spec_engine().spec_next_handle(),
            forall|h: SpriteHandle|
                final(self).spec_sprite().spec_engine().spec_scene().contains(h) <==> (old(self).spec_sprite().spec_engine().spec_scene().contains(h) && h != s@.handle),
            final(self).spec_graphics().slot_count() == old(self).spec_graphics().slot_count(),
            s@.bitmap matches Some(id) ==> (old(self).spec_graphics().live(id) && old(self).spec_graphics().refs(id) >= 1 && Some(id) != stencil_bitmap_id(s@.stencil)
                ==> final(self).spec_graphics().refs(id) == old(self).spec_graphics().refs(id)
                - 1),
            stencil_bitmap_id(s@.stencil) matches Some(id) ==> (old(self).spec_graphics().live(id)
                && old(self).spec_graphics().refs(id) >= 1 && Some(id) != s@.bitmap
                ==> final(self).spec_graphics().refs(id) == old(self).spec_graphics().refs(id) - 1),
            forall|j: int|
                0 <= j < old(self).spec_graphics().slot_count() && Some(j) != s@.bitmap && Some(j)
                    != stencil_bitmap_id(s@.stencil) ==> final(self).spec_graphics().live(j) == old(self).spec_graphics().live(j) && final(self).spec_graphics().refs(j) == old(self).spec_graphics().refs(j),
            final(self).spec_data() == old(self).spec_data(),
            final(self).spec_display() == old(self).spec_display(),
            final(self).spec_file() == old(self).spec_file(),
            final(self).spec_system() == old(self).spec_system(),
            final(self).spec_dispatch_log() == old(self).spec_dispatch_log().push(
                (DispatchEvent::Destroy { handle: s@.handle }),
            ),
    {
        let ghost torn = s@.handle;
        let mut s = s;
        s.remove(&mut self.sprite);
        let ghost sv = s@;
        let bmp_opt = s.data.bitmap.take();
        if let Some(image) = bmp_opt {
            proof {
                assert(sv.bitmap == Some(image.id() as int));
            }
            self.graphics.release(image);
        }
        let st_opt = s.data.stencil.take();
        proof {
            assert(opt_stencil_view(st_opt) == sv.stencil);
        }
        release_stencil(&mut self.graphics, st_opt);
        let lg_opt = s.data.logic.take();
        if let Some(mut lg) = lg_opt {
            lg.destroy();
        }
        self.log = Ghost(self.log@.push(DispatchEvent::Destroy { handle: torn }));
    }

    /// Tears down every sprite the registry owns.
    pub fn remove_all_sprites(&mut self)
        requires
            old(self).spec_sprite().inv(),
        ensures
            final(self).spec_sprite().inv(),
            final(self).spec_sprite().spec_sprites().len() == 0,
            final(self).spec_sprite().spec_engine().spec_next_handle() == old(self).spec_sprite().spec_engine().spec_next_handle(),
            forall|h: SpriteHandle|
                final(self).spec_sprite().spec_engine().spec_scene().contains(h) ==> old(self).spec_sprite().spec_engine().spec_scene().contains(h),
            forall|i: int|
                0 <= i < old(self).spec_sprite().spec_sprites().len() ==> !final(self).spec_sprite().spec_engine().spec_scene().contains(
                    (#[trigger] old(self).spec_sprite().spec_sprites()[i])@.handle,
                ),
            final(self).spec_data() == old(self).spec_data(),
            final(self).spec_display() == old(self).spec_display(),
            final(self).spec_file() == old(self).spec_file(),
            final(self).spec_system() == old(self).spec_system(),
            old(self).spec_dispatch_log().is_prefix_of(final(self).spec_dispatch_log()),
            final(self).spec_dispatch_log().len() == old(self).spec_dispatch_log().len() + old(
                self,
            ).spec_sprite().spec_sprites().len(),
    {
        proof {
            lemma_log_prefix_reflexive(old(self).spec_dispatch_log());
        }
        let ghost orig = old(self).spec_sprite().spec_sprites();
        while self.sprite.sprites.len() > 0
            invariant
                self.spec_sprite().inv(),
                self.spec_sprite().spec_sprites() == orig.take(
                    self.spec_sprite().spec_sprites().len() as int,
                ),
                self.spec_sprite().spec_sprites().len() <= orig.len(),
                self.spec_sprite().spec_engine().spec_next_handle() == old(self).spec_sprite().spec_engine().spec_next_handle(),
                forall|h: SpriteHandle|
                    self.spec_sprite().spec_engine().spec_scene().contains(h) ==> old(self).spec_sprite().spec_engine().spec_scene().contains(h),
                forall|i: int|
                    self.spec_sprite().spec_sprites().len() <= i < orig.len() ==> !self
                        .spec_sprite().spec_engine().spec_scene().contains(
                        (#[trigger] orig[i])@.handle,
                    ),
                self.spec_data() == old(self).spec_data(),
                self.spec_display() == old(self).spec_display(),
                self.spec_file() == old(self).spec_file(),
                self.spec_system() == old(self).spec_system(),
                old(self).spec_dispatch_log().is_prefix_of(self.spec_dispatch_log()),
                self.spec_dispatch_log().len() == old(self).spec_dispatch_log().len() + orig.len()
                    - self.spec_sprite().spec_sprites().len(),
            decreases self.sprite.sprites.len(),
        {
            let ghost before = self.spec_sprite().spec_sprites();
            let s = self.sprite.sprites.pop().unwrap();
            proof {
                assert(before == orig.take(before.len() as int));
                assert(self.spec_sprite().spec_sprites() == before.take(before.len() - 1));
                assert(before.take(before.len() - 1) == orig.take(before.len() - 1)) by {
                    assert forall|k: int|
                        0 <= k < before.len() - 1 implies #[trigger] before.take(
                        before.len() - 1,
                    )[k] == orig.take(before.len() - 1)[k] by {
                        assert(before[k] == orig[k]);
                    }
                    assert(before.take(before.len() - 1) =~= orig.take(before.len() - 1));
                }
                assert(s == before[before.len() - 1]);
                assert(s == orig[before.len() - 1]);
                assert(self.spec_sprite().guest_ok(s)) by {
                    assert forall|i: int|
                        0 <= i < self.spec_sprite().spec_sprites().len() implies (
                    #[trigger] self.spec_sprite().spec_sprites()[i])@.handle != s@.handle by {
                        assert(before[i] == self.spec_sprite().spec_sprites()[i]);
                    }
                }
            }
            let ghost log_pre = self.spec_dispatch_log();
            let ghost sh = s@.handle;
            self.destroy_sprite(s);
            proof {
                lemma_log_prefix_push(log_pre, DispatchEvent::Destroy { handle: sh });
                lemma_log_prefix_trans(
                    old(self).spec_dispatch_log(),
                    log_pre,
                    self.spec_dispatch_log(),
                );
                assert forall|i: int|
                    self.spec_sprite().spec_sprites().len() <= i < orig.len() implies !self
                    .spec_sprite().spec_engine().spec_scene().contains(
                    (#[trigger] orig[i])@.handle,
                ) by {
                }
            }
        }
        proof {
            assert(self.spec_sprite().spec_sprites() == orig.take(0));
        }
    }

    /// Applies a frame verdict to a sprite taken out for its callback:
    /// `Keep` returns it to the registry at the position it was taken from,
    /// untouched; `Destroy` tears it down on the spot, exactly once, as
    /// [`Playdate::destroy_sprite`] does, which also logs the teardown
    /// dispatch.
    pub fn apply_verdict(&mut self, s: Sprite<L>, verdict: Persistance, at: usize)
        requires
            old(self).spec_sprite().guest_ok(s),
            s@.logic is Some,
            at <= old(self).spec_sprite().spec_sprites().len(),
        ensures
            final(self).spec_sprite().inv(),
            verdict is Keep ==> ({
                &&& final(self).spec_sprite().spec_sprites() == old(self).spec_sprite().spec_sprites().insert(at as int, s)
                &&& final(self).spec_sprite().spec_engine() == old(self).spec_sprite().spec_engine()
                &&& final(self).spec_data() == old(self).spec_data()
                &&& final(self).spec_display() == old(self).spec_display()
                &&& final(self).spec_file() == old(self).spec_file()
                &&& final(self).spec_graphics() == old(self).spec_graphics()
                &&& final(self).spec_system() == old(self).spec_system()
                &&& final(self).spec_dispatch_log() == old(self).spec_dispatch_log()
            }),
            verdict is Destroy ==> ({
                &&& final(self).spec_sprite().spec_sprites() == old(self).spec_sprite().spec_sprites()
                &&& final(self).spec_sprite().spec_engine().spec_next_handle() == old(self).spec_sprite().spec_engine().spec_next_handle()
                &&& (forall|h: SpriteHandle|
                    final(self).spec_sprite().spec_engine().spec_scene().contains(h) <==> (old(self).spec_sprite().spec_engine().spec_scene().contains(h) && h != s@.handle))
                &&& final(self).spec_graphics().slot_count() == old(self).spec_graphics().slot_count()
                &&& (s@.bitmap matches Some(id) ==> (old(self).spec_graphics().live(id) && old(self).spec_graphics().refs(id) >= 1 && Some(id) != stencil_bitmap_id(s@.stencil)
                    ==> final(self).spec_graphics().refs(id) == old(self).spec_graphics().refs(id)
                    - 1))
                &&& (stencil_bitmap_id(s@.stencil) matches Some(id) ==> (old(self).spec_graphics().live(id) && old(self).spec_graphics().refs(id) >= 1 && Some(id)
                    != s@.bitmap
                    ==> final(self).spec_graphics().refs(id) == old(self).spec_graphics().refs(id)
                    - 1))
                &&& final(self).spec_data() == old(self).spec_data()
                &&& final(self).spec_display() == old(self).spec_display()
                &&& final(self).spec_file() == old(self).spec_file()
                &&& final(self).spec_system() == old(self).spec_system()
                &&& final(self).spec_dispatch_log() == old(self).spec_dispatch_log().push(
                    (DispatchEvent::Destroy { handle: s@.handle }),
                )
            }),
    {
        match verdict {
            Persistance::Keep => {
                let ghost api0 = self.sprite;
                let ghost s_ghost = s;
                self.sprite.sprites.insert(at, s);
                proof {
                    lemma_registry_insert(api0, self.sprite, s_ghost, at as int);
                }
            },
            Persistance::Destroy => {
                self.destroy_sprite(s);
            },
        }
    }

    /// The traversal order of the engine's per-frame tick: the sprites in
    /// the scene, by ascending drawing order. Every visited handle comes
    /// from the display list, and every owned sprite in the display list is
    /// visited.
    fn traversal_order(&self) -> (r: Vec<(i16, SpriteHandle)>)
        ensures
            self.spec_sprite().spec_engine().spec_scene().len() == 0 ==> r@.len() == 0,
            forall|a: int, b: int|
                0 <= a < b < r@.len() ==> (#[trigger] r@[a]).0 <= (#[trigger] r@[b]).0,
            forall|k: int|
                0 <= k < r@.len() ==> self.spec_sprite().spec_engine().spec_scene().contains(
                    (#[trigger] r@[k]).1,
                ),
            forall|i: int|
                0 <= i < self.spec_sprite().spec_sprites().len()
                    && self.spec_sprite().spec_engine().spec_scene().contains(
                    (#[trigger] self.spec_sprite().spec_sprites()[i])@.handle,
                ) ==> spec_order_contains(r@, self.spec_sprite().spec_sprites()[i]@.handle),
    {
        let ghost scene = self.spec_sprite().spec_engine().spec_scene();
        let mut pairs: Vec<(i16, SpriteHandle)> = Vec::new();
        let mut i: usize = 0;
        while i < self.sprite.engine.scene.len()
            invariant
                scene == self.spec_sprite().spec_engine().spec_scene(),
                0 <= i <= scene.len(),
                pairs@.len() <= i,
                forall|k: int|
                    0 <= k < pairs@.len() ==> scene.contains((#[trigger] pairs@[k]).1),
                forall|k: int|
                    0 <= k < i ==> (has_sprite_with_handle(
                        self.spec_sprite().spec_sprites(),
                        #[trigger] scene[k],
                    ) ==> spec_order_contains(pairs@, scene[k])),
            decreases scene.len() - i,
        {
            let h = self.sprite.engine.scene[i];
            proof {
                assert(scene[i as int] == h);
            }
            let ghost pairs_prev = pairs@;
            if let Some(idx) = self.sprite.index_of(h) {
                let z = self.sprite.sprites[idx].data.z_index;
                pairs.push((z, h));
            }
            proof {
                assert forall|k: int|
                    0 <= k < i + 1 && has_sprite_with_handle(
                    self.spec_sprite().spec_sprites(),
                    #[trigger] scene[k],
                ) implies spec_order_contains(pairs@, scene[k]) by {
                    if k < i {
                        let m = choose|m: int|
                            0 <= m < pairs_prev.len() && (#[trigger] pairs_prev[m]).1 == scene[k];
                        assert(pairs@[m].1 == scene[k]);
                    } else {
                        assert(pairs@[pairs@.len() - 1].1 == h);
                    }
                }
            }
            i = i + 1;
        }
        let sorted = sort_by_z(pairs);
        proof {
            sorted@.to_multiset_ensures();
            pairs@.to_multiset_ensures();
            assert forall|k: int|
                0 <= k < sorted@.len() implies scene.contains((#[trigger] sorted@[k]).1) by {
                assert(sorted@.contains(sorted@[k]));
                assert(sorted@.to_multiset().count(sorted@[k]) > 0);
                assert(pairs@.to_multiset().count(sorted@[k]) > 0);
                assert(pairs@.contains(sorted@[k]));
                let j = choose|j: int| 0 <= j < pairs@.len() && pairs@[j] == sorted@[k];
            }
            assert forall|i: int|
                0 <= i < self.spec_sprite().spec_sprites().len() && scene.contains(
                    (#[trigger] self.spec_sprite().spec_sprites()[i])@.handle,
                ) implies spec_order_contains(
                sorted@,
                self.spec_sprite().spec_sprites()[i]@.handle,
            ) by {
                let h = self.spec_sprite().spec_sprites()[i]@.handle;
                let k = choose|k: int| 0 <= k < scene.len() && scene[k] == h;
                assert(has_sprite_with_handle(self.spec_sprite().spec_sprites(), h));
                let m = choose|m: int|
                    0 <= m < pairs@.len() && (#[trigger] pairs@[m]).1 == h;
                let p = pairs@[m];
                assert(pairs@.contains(p));
                assert(pairs@.to_multiset().count(p) > 0);
                assert(sorted@.to_multiset().count(p) > 0);
                assert(sorted@.contains(p));
                let q = choose|q: int| 0 <= q < sorted@.len() && sorted@[q] == p;
                assert((#[trigger] sorted@[q]).1 == h);
            }
        }
        sorted
    }

    /// Dispatches one sprite's `update` through the update trampoline, as
    /// the native engine would: the sprite is taken out of the registry, its
    /// owned logic object runs with the world, the dispatch and its verdict
    /// are logged, and the verdict is applied through
    /// [`Playdate::apply_verdict`]. A handle that does not resolve to an
    /// update-enabled sprite is left entirely alone.
    pub fn dispatch_update(&mut self, h: SpriteHandle)
        requires
            old(self).spec_sprite().inv(),
        ensures
            final(self).spec_sprite().inv(),
            old(self).spec_dispatch_log().is_prefix_of(final(self).spec_dispatch_log()),
            !spec_update_target(old(self).spec_sprite(), h) ==> *final(self) == *old(self),
            spec_update_target(old(self).spec_sprite(), h) ==> ({
                let log = final(self).spec_dispatch_log();
                let n = log.len();
                &&& n > old(self).spec_dispatch_log().len()
                &&& (log[n - 1] == (DispatchEvent::Update {
                    handle: h,
                    verdict: Persistance::Keep,
                }) || (n >= 2 && log[n - 2] == (DispatchEvent::Update {
                    handle: h,
                    verdict: Persistance::Destroy,
                }) && log[n - 1] == (DispatchEvent::Destroy { handle: h })))
            }),
    {
        let idx = self.sprite.index_of(h);
        match idx {
            Some(i) => {
                let enabled = match self.sprite.sprites[i].data.updates {
                    UpdatesState::Enabled => true,
                    UpdatesState::Disabled => false,
                };
                if enabled {
                    let ghost api0 = self.sprite;
                    let ghost log0 = self.spec_dispatch_log();
                    let mut s = self.sprite.sprites.remove(i);
                    proof {
                        lemma_registry_remove(api0, self.sprite, i as int);
                    }
                    let lg_opt = s.data.logic.take();
                    if let Some(mut lg) = lg_opt {
                        let verdict = lg.update(&mut s, self);
                        s.data.logic = Some(lg);
                        let ghost log_cb = self.spec_dispatch_log();
                        self.log = Ghost(
                            self.log@.push(DispatchEvent::Update { handle: h, verdict }),
                        );
                        let at = if i <= self.sprite.sprites.len() {
                            i
                        } else {
                            self.sprite.sprites.len()
                        };
                        let ghost log_ev = self.spec_dispatch_log();
                        self.apply_verdict(s, verdict, at);
                        proof {
                            lemma_log_prefix_push(log_cb, DispatchEvent::Update { handle: h, verdict });
                            lemma_log_prefix_trans(log0, log_cb, log_ev);
                            if verdict is Keep {
                                assert(self.spec_dispatch_log() == log_ev);
                            } else {
                                lemma_log_prefix_push(
                                    log_ev,
                                    DispatchEvent::Destroy { handle: h },
                                );
                            }
                            lemma_log_prefix_trans(log0, log_ev, self.spec_dispatch_log());
                        }
                    } else {
                        proof {
                            assert(false);
                        }
                    }
                } else {
                    proof {
                        if spec_update_target(old(self).spec_sprite(), h) {
                            let j = choose|j: int|
                                0 <= j < old(self).spec_sprite().spec_sprites().len() && (
                                #[trigger] old(self).spec_sprite().spec_sprites()[j])@.handle == h
                                    && old(self).spec_sprite().spec_sprites()[j]@.updates
                                    is Enabled;
                            assert(false);
                        }
                        lemma_log_prefix_reflexive(self.spec_dispatch_log());
                    }
                }
            },
            None => {
                proof {
                    if spec_update_target(old(self).spec_sprite(), h) {
                        let j = choose|j: int|
                            0 <= j < old(self).spec_sprite().spec_sprites().len() && (
                            #[trigger] old(self).spec_sprite().spec_sprites()[j])@.handle == h
                                && old(self).spec_sprite().spec_sprites()[j]@.updates is Enabled;
                        assert(false);
                    }
                    lemma_log_prefix_reflexive(self.spec_dispatch_log());
                }
            },
        }
    }

    /// Dispatches one sprite's `draw` through the draw trampoline: the
    /// sprite is taken out of the registry, its logic object draws with a
    /// read-only view of it, the dispatch is logged, and the sprite returns
    /// to its place. A handle that does not resolve to a visible sprite is
    /// left entirely alone.
    pub fn dispatch_draw(&mut self, h: SpriteHandle)
        requires
            old(self).spec_sprite().inv(),
        ensures
            final(self).spec_sprite().inv(),
            old(self).spec_dispatch_log().is_prefix_of(final(self).spec_dispatch_log()),
            !spec_draw_target(old(self).spec_sprite(), h) ==> *final(self) == *old(self),
            spec_draw_target(old(self).spec_sprite(), h) ==> ({
                let log = final(self).spec_dispatch_log();
                &&& log.len() > old(self).spec_dispatch_log().len()
                &&& log[log.len() - 1] == (DispatchEvent::Draw { handle: h })
            }),
    {
        let idx = self.sprite.index_of(h);
        match idx {
            Some(i) => {
                let visible = match self.sprite.sprites[i].data.visible {
                    Visibility::Visible => true,
                    Visibility::Invisible => false,
                };
                if visible {
                    let ghost api0 = self.sprite;
                    let ghost log0 = self.spec_dispatch_log();
                    let mut s = self.sprite.sprites.remove(i);
                    proof {
                        lemma_registry_remove(api0, self.sprite, i as int);
                    }
                    let lg_opt = s.data.logic.take();
                    if let Some(mut lg) = lg_opt {
                        lg.draw(&s, self);
                        s.data.logic = Some(lg);
                        let ghost log_cb = self.spec_dispatch_log();
                        self.log = Ghost(self.log@.push(DispatchEvent::Draw { handle: h }));
                        let at = if i <= self.sprite.sprites.len() {
                            i
                        } else {
                            self.sprite.sprites.len()
                        };
                        let ghost api1 = self.sprite;
                        let ghost s_ghost = s;
                        self.sprite.sprites.insert(at, s);
                        proof {
                            lemma_registry_insert(api1, self.sprite, s_ghost, at as int);
                            lemma_log_prefix_push(log_cb, DispatchEvent::Draw { handle: h });
                            lemma_log_prefix_trans(log0, log_cb, self.spec_dispatch_log());
                        }
                    } else {
                        proof {
                            assert(false);
                        }
                    }
                } else {
                    proof {
                        if spec_draw_target(old(self).spec_sprite(), h) {
                            let j = choose|j: int|
                                0 <= j < old(self).spec_sprite().spec_sprites().len() && (
                                #[trigger] old(self).spec_sprite().spec_sprites()[j])@.handle == h
                                    && old(self).spec_sprite().spec_sprites()[j]@.visible
                                    is Visible;
                            assert(false);
                        }
                        lemma_log_prefix_reflexive(self.spec_dispatch_log());
                    }
                }
            },
            None => {
                proof {
                    if spec_draw_target(old(self).spec_sprite(), h) {
                        let j = choose|j: int|
                            0 <= j < old(self).spec_sprite().spec_sprites().len() && (
                            #[trigger] old(self).spec_sprite().spec_sprites()[j])@.handle == h
                                && old(self).spec_sprite().spec_sprites()[j]@.visible is Visible;
                        assert(false);
                    }
                    lemma_log_prefix_reflexive(self.spec_dispatch_log());
                }
            },
        }
    }

    /// One update pass: visits each sprite in the display list in drawing
    /// order and dispatches through [`Playdate::dispatch_update`]. With no
    /// displayed, update-enabled sprite — in particular, with an empty
    /// scene — nothing changes; with one, at least one update dispatch is
    /// logged.
    fn update_pass(&mut self)
        requires
            old(self).spec_sprite().inv(),
        ensures
            final(self).spec_sprite().inv(),
            old(self).spec_dispatch_log().is_prefix_of(final(self).spec_dispatch_log()),
            spec_update_pass_idle(old(self).spec_sprite()) ==> *final(self) == *old(self),
            old(self).spec_sprite().spec_engine().spec_scene().len() == 0 ==> *final(self) == *old(self),
            !spec_update_pass_idle(old(self).spec_sprite()) ==> final(self).spec_dispatch_log().len() > old(self).spec_dispatch_log().len(),
    {
        let order = self.traversal_order();
        let mut k: usize = 0;
        while k < order.len()
            invariant
                self.spec_sprite().inv(),
                0 <= k <= order@.len(),
                old(self).spec_dispatch_log().is_prefix_of(self.spec_dispatch_log()),
                spec_update_pass_idle(old(self).spec_sprite()) ==> *self == *old(self),
                self.spec_dispatch_log() == old(self).spec_dispatch_log() ==> (*self == *old(self)
                    && (forall|j: int|
                    0 <= j < k ==> !spec_update_target(
                        old(self).spec_sprite(),
                        (#[trigger] order@[j]).1,
                    ))),
                forall|j: int|
                    0 <= j < order@.len() ==> old(self).spec_sprite().spec_engine().spec_scene().contains((#[trigger] order@[j]).1),
                forall|i: int|
                    0 <= i < old(self).spec_sprite().spec_sprites().len() && old(self).spec_sprite().spec_engine().spec_scene().contains(
                        (#[trigger] old(self).spec_sprite().spec_sprites()[i])@.handle,
                    ) ==> spec_order_contains(
                        order@,
                        old(self).spec_sprite().spec_sprites()[i]@.handle,
                    ),
            decreases order@.len() - k,
        {
            let h = order[k].1;
            let ghost log_before = self.spec_dispatch_log();
            self.dispatch_update(h);
            proof {
                lemma_log_prefix_trans(
                    old(self).spec_dispatch_log(),
                    log_before,
                    self.spec_dispatch_log(),
                );
                if self.spec_dispatch_log() == old(self).spec_dispatch_log() {
                    lemma_log_prefix_full(log_before, self.spec_dispatch_log());
                }
            }
            k = k + 1;
        }
        proof {
            if old(self).spec_sprite().spec_engine().spec_scene().len() == 0 {
                lemma_empty_scene_idle(old(self).spec_sprite());
            }
            if !spec_update_pass_idle(old(self).spec_sprite()) {
                if self.spec_dispatch_log() == old(self).spec_dispatch_log() {
                    let osp = old(self).spec_sprite();
                    let i = choose|i: int|
                        0 <= i < osp.spec_sprites().len() && (
                        #[trigger] osp.spec_sprites()[i])@.displayed && osp.spec_sprites()[
                            i
                        ]@.updates is Enabled;
                    let hw = osp.spec_sprites()[i]@.handle;
                    assert(osp.spec_engine().spec_scene().contains(hw));
                    assert(spec_order_contains(order@, hw));
                    let j = choose|j: int| 0 <= j < order@.len() && (#[trigger] order@[j]).1 == hw;
                    assert(!spec_update_target(osp, hw));
                    assert(spec_update_target(osp, hw));
                    assert(false);
                }
                lemma_log_prefix_neq_grows(
                    old(self).spec_dispatch_log(),
                    self.spec_dispatch_log(),
                );
            }
        }
    }

    /// One draw pass: visits each sprite in the display list in drawing
    /// order and dispatches through [`Playdate::dispatch_draw`]. With no
    /// displayed, visible sprite — in particular, with an empty scene —
    /// nothing changes; with one, at least one draw dispatch is logged.
    fn draw_pass(&mut self)
        requires
            old(self).spec_sprite().inv(),
        ensures
            final(self).spec_sprite().inv(),
            old(self).spec_dispatch_log().is_prefix_of(final(self).spec_dispatch_log()),
            spec_draw_pass_idle(old(self).spec_sprite()) ==> *final(self) == *old(self),
            old(self).spec_sprite().spec_engine().spec_scene().len() == 0 ==> *final(self) == *old(self),
            !spec_draw_pass_idle(old(self).spec_sprite()) ==> final(self).spec_dispatch_log().len() > old(self).spec_dispatch_log().len(),
    {
        let order = self.traversal_order();
        let mut k: usize = 0;
        while k < order.len()
            invariant
                self.spec_sprite().inv(),
                0 <= k <= order@.len(),
                old(self).spec_dispatch_log().is_prefix_of(self.spec_dispatch_log()),
                spec_draw_pass_idle(old(self).spec_sprite()) ==> *self == *old(self),
                self.spec_dispatch_log() == old(self).spec_dispatch_log() ==> (*self == *old(self)
                    && (forall|j: int|
                    0 <= j < k ==> !spec_draw_target(
                        old(self).spec_sprite(),
                        (#[trigger] order@[j]).1,
                    ))),
                forall|j: int|
                    0 <= j < order@.len() ==> old(self).spec_sprite().spec_engine().spec_scene().contains((#[trigger] order@[j]).1),
                forall|i: int|
                    0 <= i < old(self).spec_sprite().spec_sprites().len() && old(self).spec_sprite().spec_engine().spec_scene().contains(
                        (#[trigger] old(self).spec_sprite().spec_sprites()[i])@.handle,
                    ) ==> spec_order_contains(
                        order@,
                        old(self).spec_sprite().spec_sprites()[i]@.handle,
                    ),
            decreases order@.len() - k,
        {
            let h = order[k].1;
            let ghost log_before = self.spec_dispatch_log();
            self.dispatch_draw(h);
            proof {
                lemma_log_prefix_trans(
                    old(self).spec_dispatch_log(),
                    log_before,
                    self.spec_dispatch_log(),
                );
                if self.spec_dispatch_log() == old(self).spec_dispatch_log() {
                    lemma_log_prefix_full(log_before, self.spec_dispatch_log());
                }
            }
            k = k + 1;
        }
        proof {
            if old(self).spec_sprite().spec_engine().spec_scene().len() == 0 {
                lemma_empty_scene_idle(old(self).spec_sprite());
            }
            if !spec_draw_pass_idle(old(self).spec_sprite()) {
                if self.spec_dispatch_log() == old(self).spec_dispatch_log() {
                    let osp = old(self).spec_sprite();
                    let i = choose|i: int|
                        0 <= i < osp.spec_sprites().len() && (
                        #[trigger] osp.spec_sprites()[i])@.displayed && osp.spec_sprites()[
                            i
                        ]@.visible is Visible;
                    let hw = osp.spec_sprites()[i]@.handle;
                    assert(osp.spec_engine().spec_scene().contains(hw));
                    assert(spec_order_contains(order@, hw));
                    let j = choose|j: int| 0 <= j < order@.len() && (#[trigger] order@[j]).1 == hw;
                    assert(!spec_draw_target(osp, hw));
                    assert(spec_draw_target(osp, hw));
                    assert(false);
                }
                lemma_log_prefix_neq_grows(
                    old(self).spec_dispatch_log(),
                    self.spec_dispatch_log(),
                );
            }
        }
    }

    /// The engine's combined per-frame tick: dispatches every displayed,
    /// update-enabled sprite's `update` in drawing order, honoring each
    /// verdict, then every displayed, visible sprite's `draw`; each
    /// dispatch is logged in the dispatch trace. With no sprite to visit in
    /// either pass the whole world is left untouched; with any, the trace
    /// grows.
    pub fn update_and_draw_sprites(&mut self)
        requires
            old(self).spec_sprite().inv(),
        ensures
            final(self).spec_sprite().inv(),
            old(self).spec_dispatch_log().is_prefix_of(final(self).spec_dispatch_log()),
            spec_update_pass_idle(old(self).spec_sprite()) && spec_draw_pass_idle(
                old(self).spec_sprite(),
            ) ==> *final(self) == *old(self),
            old(self).spec_sprite().spec_engine().spec_scene().len() == 0 ==> *final(self) == *old(self),
            !(spec_update_pass_idle(old(self).spec_sprite()) && spec_draw_pass_idle(
                old(self).spec_sprite(),
            )) ==> final(self).spec_dispatch_log().len() > old(self).spec_dispatch_log().len(),
    {
        let ghost log0 = self.spec_dispatch_log();
        self.update_pass();
        let ghost log1 = self.spec_dispatch_log();
        self.draw_pass();
        proof {
            lemma_log_prefix_trans(log0, log1, self.spec_dispatch_log());
        }
    }

    /// Draws every displayed, visible sprite in drawing order, without
    /// running any update; with none to draw, nothing changes, and with
    /// any, the dispatch trace grows.
    pub fn draw_sprites(&mut self)
        requires
            old(self).spec_sprite().inv(),
        ensures
            final(self).spec_sprite().inv(),
            old(self).spec_dispatch_log().is_prefix_of(final(self).spec_dispatch_log()),
            spec_draw_pass_idle(old(self).spec_sprite()) ==> *final(self) == *old(self),
            old(self).spec_sprite().spec_engine().spec_scene().len() == 0 ==> *final(self) == *old(self),
            !spec_draw_pass_idle(old(self).spec_sprite()) ==> final(self).spec_dispatch_log().len()
                > old(self).spec_dispatch_log().len(),
    {
        self.draw_pass();
    }
}

/// Whether some pair of the traversal order carries the given handle.
pub open spec fn spec_order_contains(r: Seq<(i16, SpriteHandle)>, h: SpriteHandle) -> bool {
    exists|k: int| 0 <= k < r.len() && (#[trigger] r[k]).1 == h
}

/// Whether the handle resolves to an owned, update-enabled sprite: exactly
/// the condition under which the update trampoline dispatches.
pub open spec fn spec_update_target<L>(api: SpriteAPI<L>, h: SpriteHandle) -> bool {
    exists|i: int|
        0 <= i < api.spec_sprites().len() && (#[trigger] api.spec_sprites()[i])@.handle == h
            && api.spec_sprites()[i]@.updates is Enabled
}

/// Whether the handle resolves to an owned, visible sprite: exactly the
/// condition under which the draw trampoline dispatches.
pub open spec fn spec_draw_target<L>(api: SpriteAPI<L>, h: SpriteHandle) -> bool {
    exists|i: int|
        0 <= i < api.spec_sprites().len() && (#[trigger] api.spec_sprites()[i])@.handle == h
            && api.spec_sprites()[i]@.visible is Visible
}

/// A prefix of the same length is the trace itself.
pub proof fn lemma_log_prefix_full(a: Seq<DispatchEvent>, b: Seq<DispatchEvent>)
    requires
        a.is_prefix_of(b),
        a.len() == b.len(),
    ensures
        a == b,
{
    assert(b.subrange(0, b.len() as int) =~= b);
    assert(a =~= b);
}

/// A distinct extension of a trace is strictly longer.
pub proof fn lemma_log_prefix_neq_grows(a: Seq<DispatchEvent>, b: Seq<DispatchEvent>)
    requires
        a.is_prefix_of(b),
        a != b,
    ensures
        b.len() > a.len(),
{
    if a.len() == b.len() {
        lemma_log_prefix_full(a, b);
    }
}

/// The update pass has no sprite to visit: no owned sprite is both
/// displayed and update-enabled.
pub open spec fn spec_update_pass_idle<L>(api: SpriteAPI<L>) -> bool {
    forall|i: int|
        0 <= i < api.spec_sprites().len() ==> !((#[trigger] api.spec_sprites()[i])@.displayed
            && api.spec_sprites()[i]@.updates is Enabled)
}

/// The draw pass has no sprite to visit: no owned sprite is both displayed
/// and visible.
pub open spec fn spec_draw_pass_idle<L>(api: SpriteAPI<L>) -> bool {
    forall|i: int|
        0 <= i < api.spec_sprites().len() ==> !((#[trigger] api.spec_sprites()[i])@.displayed
            && api.spec_sprites()[i]@.visible is Visible)
}

/// With an empty display list, nothing is displayed, so both passes are
/// idle.
pub proof fn lemma_empty_scene_idle<L>(api: SpriteAPI<L>)
    requires
        api.inv(),
        api.spec_engine().spec_scene().len() == 0,
    ensures
        spec_update_pass_idle(api),
        spec_draw_pass_idle(api),
{
    assert forall|i: int|
        0 <= i < api.spec_sprites().len() implies !(#[trigger] api.spec_sprites()[i])@.displayed by {
        if api.spec_sprites()[i]@.displayed {
            assert(api.spec_engine().spec_scene().contains(api.spec_sprites()[i]@.handle));
        }
    }
}

/// One translated collision record, as the reaction code receives it. Every
/// native-side record is translated into one of these before any reaction
/// runs, and the native array behind them is the engine model's own, so no
/// separate deallocation step can be missed or doubled.
///
/// The partner is identified by handle — a non-owning name that can never
/// free or alias the partner's logic object; mutation of the partner goes
/// through [`SpriteAPI::logic_mut`].
#[derive(Clone, Copy, PartialEq, Eq, Structural, Debug)]
pub struct SpriteCollisionInfo {
    /// The collision partner's handle.
    pub other: SpriteHandle,
    /// The verdict the moving sprite's `collide` returned for this pair.
    pub response_type: CollisionResponse,
    /// Whether the pair overlapped where contact was detected.
    pub overlaps: SpriteOverlap,
    /// Time-of-impact fraction along the attempted motion, in thousandths:
    /// 0 when the pair already overlapped at the start, 1000 when contact
    /// was detected at the goal.
    pub ti: i32,
    /// The attempted movement vector, clamped to the coordinate range.
    pub moved: Point,
    /// The collision normal: zero for a pair already overlapping at the
    /// start, otherwise the unit direction against the attempted motion.
    pub normal: Point,
    /// The moving sprite's position where contact was detected.
    pub touch: Point,
    /// The moving sprite's world-space collide rectangle at the goal.
    pub sprite_rect: Rect,
    /// The partner's world-space collide rectangle.
    pub other_rect: Rect,
}

/// The sign of a value: -1, 0 or 1.
pub open spec fn spec_sign(v: int) -> int {
    if v > 0 {
        1
    } else if v < 0 {
        -1
    } else {
        0
    }
}

/// The world-space collide rectangle of a sprite state whose collide
/// rectangle is set, were its bounds origin at `(x, y)`.
pub open spec fn spec_collide_rect_at<L>(s: SpriteState<L>, x: int, y: int) -> Rect {
    spec_rect_at(s.collide_rect->0, x, y)
}

/// Whether `s` takes part as a collision partner: a displayed, collidable
/// sprite other than the mover.
pub open spec fn spec_partner<L>(me: SpriteHandle, s: SpriteState<L>) -> bool {
    s.handle != me && s.displayed && spec_collidable(s)
}

/// The collision hits the engine reports for a motion: for each eligible
/// partner, in registry order, its handle, its world-space collide rectangle,
/// and whether it already overlapped the mover at the start.
pub open spec fn spec_hits<L>(
    sprites: Seq<Sprite<L>>,
    me: SpriteHandle,
    goal_rect: Rect,
    start_rect: Rect,
) -> Seq<(SpriteHandle, Rect, bool)>
    decreases sprites.len(),
{
    if sprites.len() == 0 {
        Seq::empty()
    } else {
        let rest = spec_hits(sprites.drop_last(), me, goal_rect, start_rect);
        let s = sprites.last()@;
        if spec_partner(me, s) && rects_overlap(
            goal_rect,
            spec_collide_rect_at(s, s.bounds.x as int, s.bounds.y as int),
        ) {
            rest.push(
                (
                    s.handle,
                    spec_collide_rect_at(s, s.bounds.x as int, s.bounds.y as int),
                    rects_overlap(
                        start_rect,
                        spec_collide_rect_at(s, s.bounds.x as int, s.bounds.y as int),
                    ),
                ),
            )
        } else {
            rest
        }
    }
}

/// Whether every record's response was `Overlap`, so that no physical
/// correction holds the mover back.
pub open spec fn spec_all_overlap(r: Seq<SpriteCollisionInfo>) -> bool {
    forall|k: int| 0 <= k < r.len() ==> (#[trigger] r[k]).response_type is Overlap
}

/// What the translation of one hit pins down: everything but the response,
/// which the mover's `collide` chooses.
pub open spec fn spec_info_matches(
    info: SpriteCollisionInfo,
    hit: (SpriteHandle, Rect, bool),
    goal_rect: Rect,
    start_x: int,
    start_y: int,
    goal_x: int,
    goal_y: int,
) -> bool {
    &&& info.other == hit.0
    &&& info.other_rect == hit.1
    &&& info.overlaps == (if hit.2 {
        SpriteOverlap::Overlapping
    } else {
        SpriteOverlap::TunneledThrough
    })
    &&& info.ti == (if hit.2 {
        0int
    } else {
        1000int
    })
    &&& info.moved == (Point {
        x: spec_clamp_i32(goal_x - start_x) as i32,
        y: spec_clamp_i32(goal_y - start_y) as i32,
    })
    &&& info.normal == (if hit.2 {
        Point { x: 0, y: 0 }
    } else {
        Point { x: (0 - spec_sign(goal_x - start_x)) as i32, y: (0 - spec_sign(goal_y - start_y)) as i32 }
    })
    &&& info.touch == (if hit.2 {
        Point { x: start_x as i32, y: start_y as i32 }
    } else {
        Point { x: goal_x as i32, y: goal_y as i32 }
    })
    &&& info.sprite_rect == goal_rect
}

/// A sprite state after a plain move of its bounds origin.
pub open spec fn spec_moved_to<L>(s: SpriteState<L>, x: i32, y: i32) -> SpriteState<L> {
    SpriteState { bounds: Rect { x, y, width: s.bounds.width, height: s.bounds.height }, ..s }
}

/// Subtraction on a coordinate that clamps at the ends of the `i32` range.
fn sat_sub_coord(a: i32, b: i32) -> (r: i32)
    ensures
        r == spec_clamp_i32(a - b),
{
    let wide: i64 = a as i64 - b as i64;
    if wide > i32::MAX as i64 {
        i32::MAX
    } else if wide < i32::MIN as i64 {
        i32::MIN
    } else {
        wide as i32
    }
}

/// The sign of the difference `a - b`.
fn sign_of_motion(a: i32, b: i32) -> (r: i32)
    ensures
        r == spec_sign(a - b),
{
    if a > b {
        1
    } else if a < b {
        -1
    } else {
        0
    }
}

/// Translates one native-side collision record into the owned, safe form,
/// carrying the response the mover's logic chose for the pair; used by both
/// movement-with-resolution operations, strictly before any reaction code
/// runs.
fn translate_hit(
    hit: (SpriteHandle, Rect, bool),
    response: CollisionResponse,
    sprite_rect: Rect,
    moved_vec: Point,
    normal_when_moving: Point,
    start_x: i32,
    start_y: i32,
    goal_x: i32,
    goal_y: i32,
) -> (info: SpriteCollisionInfo)
    requires
        moved_vec == (Point {
            x: spec_clamp_i32(goal_x - start_x) as i32,
            y: spec_clamp_i32(goal_y - start_y) as i32,
        }),
        normal_when_moving == (Point {
            x: (0 - spec_sign(goal_x - start_x)) as i32,
            y: (0 - spec_sign(goal_y - start_y)) as i32,
        }),
    ensures
        spec_info_matches(
            info,
            hit,
            sprite_rect,
            start_x as int,
            start_y as int,
            goal_x as int,
            goal_y as int,
        ),
        info.response_type == response,
{
    let at_start = hit.2;
    SpriteCollisionInfo {
        other: hit.0,
        response_type: response,
        overlaps: if at_start {
            SpriteOverlap::Overlapping
        } else {
            SpriteOverlap::TunneledThrough
        },
        ti: if at_start {
            0
        } else {
            1000
        },
        moved: moved_vec,
        normal: if at_start {
            Point { x: 0, y: 0 }
        } else {
            normal_when_moving
        },
        touch: if at_start {
            Point { x: start_x, y: start_y }
        } else {
            Point { x: goal_x, y: goal_y }
        },
        sprite_rect,
        other_rect: hit.1,
    }
}

/// Scans the registry for the partners an attempted motion collides with;
/// the read-only first half of collision resolution.
fn scan_hits<L>(api: &SpriteAPI<L>, me: &Sprite<L>, goal_x: i32, goal_y: i32) -> (r: Vec<
    (SpriteHandle, Rect, bool),
>)
    requires
        me@.collide_rect is Some,
    ensures
        r@ == spec_hits(
            api.spec_sprites(),
            me@.handle,
            spec_collide_rect_at(me@, goal_x as int, goal_y as int),
            spec_collide_rect_at(me@, me@.bounds.x as int, me@.bounds.y as int),
        ),
{
    let me_rect = match me.data.collide_rect {
        Some(cr) => cr,
        None => {
            proof {
                assert(false);
            }
            unreached()
        },
    };
    let goal_rect = Rect {
        x: sat_add_coord(me_rect.x, goal_x),
        y: sat_add_coord(me_rect.y, goal_y),
        width: me_rect.width,
        height: me_rect.height,
    };
    let start_rect = Rect {
        x: sat_add_coord(me_rect.x, me.data.bounds.x),
        y: sat_add_coord(me_rect.y, me.data.bounds.y),
        width: me_rect.width,
        height: me_rect.height,
    };
    let ghost g_goal = spec_collide_rect_at(me@, goal_x as int, goal_y as int);
    let ghost g_start = spec_collide_rect_at(me@, me@.bounds.x as int, me@.bounds.y as int);
    let mut out: Vec<(SpriteHandle, Rect, bool)> = Vec::new();
    let mut i: usize = 0;
    while i < api.sprites.len()
        invariant
            me@.collide_rect is Some,
            goal_rect == g_goal,
            start_rect == g_start,
            0 <= i <= api.spec_sprites().len(),
            out@ == spec_hits(api.spec_sprites().take(i as int), me@.handle, g_goal, g_start),
        decreases api.spec_sprites().len() - i,
    {
        let s = &api.sprites[i];
        let ghost prefix = api.spec_sprites().take(i as int);
        let ghost prefix1 = api.spec_sprites().take(i as int + 1);
        proof {
            assert(prefix1.drop_last() =~= prefix);
            assert(prefix1.last() == api.spec_sprites()[i as int]);
        }
        let is_partner = s.handle != me.handle && s.data.displayed && match s.data.collisions {
            CollisionState::Enabled => true,
            CollisionState::Disabled => false,
        } && s.data.collide_rect.is_some();
        if is_partner {
            let s_rect = match s.data.collide_rect {
                Some(cr) => cr,
                None => {
                    proof {
                        assert(false);
                    }
                    unreached()
                },
            };
            let world = Rect {
                x: sat_add_coord(s_rect.x, s.data.bounds.x),
                y: sat_add_coord(s_rect.y, s.data.bounds.y),
                width: s_rect.width,
                height: s_rect.height,
            };
            if goal_rect.overlaps(&world) {
                let at_start = start_rect.overlaps(&world);
                out.push((s.handle, world, at_start));
            }
        }
        i = i + 1;
    }
    proof {
        assert(api.spec_sprites().take(api.spec_sprites().len() as int) =~= api.spec_sprites());
    }
    out
}

impl<L> Sprite<L> {
    /// Resolves the sprite's attempted motion toward the goal against every
    /// collidable sprite in the world and applies the outcome.
    ///
    /// The engine model finds every eligible overlapping partner first, then
    /// asks this sprite's logic for a response per pair, translating each
    /// record before any reaction code sees it. If every response is
    /// `Overlap` — in particular, if nothing collided — the sprite lands
    /// exactly on the goal; any blocking response leaves it at its start.
    /// The translated records are handed back for the caller's reaction.
    pub fn move_with_collisions<T>(
        &mut self,
        logic: &mut L,
        pd: &mut Playdate<T, L>,
        goal_x: i32,
        goal_y: i32,
    ) -> (r: Vec<SpriteCollisionInfo>) where L: GameObject<T>
        requires
            old(pd).spec_sprite().guest_ok(*old(self)),
        ensures
            final(pd).spec_sprite().guest_ok(*final(self)),
            old(pd).spec_dispatch_log().is_prefix_of(final(pd).spec_dispatch_log()),
            spec_collidable(old(self)@) ==> (forall|k: int|
                0 <= k < r@.len() ==> exists|p: int|
                    old(pd).spec_dispatch_log().len() <= p < final(pd).spec_dispatch_log().len()
                        && final(pd).spec_dispatch_log()[p] == (DispatchEvent::Collide {
                        mover: old(self)@.handle,
                        other: (#[trigger] r@[k]).other,
                        response: r@[k].response_type,
                    })),
            !spec_collidable(old(self)@) ==> ({
                &&& r@ == Seq::<SpriteCollisionInfo>::empty()
                &&& *final(pd) == *old(pd)
                &&& final(self)@ == spec_moved_to(old(self)@, goal_x, goal_y)
            }),
            spec_collidable(old(self)@) ==> ({
                let goal_rect = spec_collide_rect_at(old(self)@, goal_x as int, goal_y as int);
                let start_rect = spec_collide_rect_at(
                    old(self)@,
                    old(self)@.bounds.x as int,
                    old(self)@.bounds.y as int,
                );
                let hits = spec_hits(
                    old(pd).spec_sprite().spec_sprites(),
                    old(self)@.handle,
                    goal_rect,
                    start_rect,
                );
                &&& r@.len() == hits.len()
                &&& (forall|k: int|
                    0 <= k < hits.len() ==> spec_info_matches(
                        #[trigger] r@[k],
                        hits[k],
                        goal_rect,
                        old(self)@.bounds.x as int,
                        old(self)@.bounds.y as int,
                        goal_x as int,
                        goal_y as int,
                    ))
                &&& (hits.len() == 0 ==> *final(pd) == *old(pd) && final(self)@ == spec_moved_to(
                    old(self)@,
                    goal_x,
                    goal_y,
                ) && spec_all_overlap(r@))
                &&& final(self)@.bounds.x == (if spec_all_overlap(r@) {
                    goal_x
                } else {
                    old(self)@.bounds.x
                })
                &&& final(self)@.bounds.y == (if spec_all_overlap(r@) {
                    goal_y
                } else {
                    old(self)@.bounds.y
                })
            }),
    {
        let collidable = match self.data.collisions {
            CollisionState::Enabled => self.data.collide_rect.is_some(),
            CollisionState::Disabled => false,
        };
        if !collidable {
            self.move_to(goal_x, goal_y);
            proof {
                lemma_log_prefix_reflexive(pd.spec_dispatch_log());
            }
            return Vec::new();
        }
        let start_x = self.data.bounds.x;
        let start_y = self.data.bounds.y;
        let me_h = self.handle;
        proof {
            lemma_log_prefix_reflexive(pd.spec_dispatch_log());
        }
        let hits = scan_hits(&pd.sprite, self, goal_x, goal_y);
        let ghost goal_rect_g = spec_collide_rect_at(old(self)@, goal_x as int, goal_y as int);
        let moved_vec = Point {
            x: sat_sub_coord(goal_x, start_x),
            y: sat_sub_coord(goal_y, start_y),
        };
        let normal_when_moving = Point {
            x: 0 - sign_of_motion(goal_x, start_x),
            y: 0 - sign_of_motion(goal_y, start_y),
        };
        let goal_cr = match self.data.collide_rect {
            Some(cr) => cr,
            None => {
                proof {
                    assert(false);
                }
                unreached()
            },
        };
        let sprite_rect = Rect {
            x: sat_add_coord(goal_cr.x, goal_x),
            y: sat_add_coord(goal_cr.y, goal_y),
            width: goal_cr.width,
            height: goal_cr.height,
        };
        let mut infos: Vec<SpriteCollisionInfo> = Vec::new();
        let mut all_overlap = true;
        let mut k: usize = 0;
        while k < hits.len()
            invariant
                (*pd).spec_sprite().guest_ok(*self),
                0 <= k <= hits@.len(),
                me_h == old(self)@.handle,
                old(pd).spec_dispatch_log().is_prefix_of((*pd).spec_dispatch_log()),
                forall|j: int|
                    0 <= j < k ==> exists|p: int|
                        old(pd).spec_dispatch_log().len() <= p < (*pd).spec_dispatch_log().len()
                            && (*pd).spec_dispatch_log()[p] == (DispatchEvent::Collide {
                            mover: old(self)@.handle,
                            other: (#[trigger] infos@[j]).other,
                            response: infos@[j].response_type,
                        }),
                spec_collidable(old(self)@),
                start_x == old(self)@.bounds.x,
                start_y == old(self)@.bounds.y,
                goal_rect_g == spec_collide_rect_at(old(self)@, goal_x as int, goal_y as int),
                hits@ == spec_hits(
                    old(pd).spec_sprite().spec_sprites(),
                    old(self)@.handle,
                    goal_rect_g,
                    spec_collide_rect_at(
                        old(self)@,
                        old(self)@.bounds.x as int,
                        old(self)@.bounds.y as int,
                    ),
                ),
                hits@.len() == 0 ==> *pd == *old(pd) && *self == *old(self),
                infos@.len() == k,
                forall|j: int|
                    0 <= j < k ==> spec_info_matches(
                        #[trigger] infos@[j],
                        hits@[j],
                        goal_rect_g,
                        start_x as int,
                        start_y as int,
                        goal_x as int,
                        goal_y as int,
                    ),
                all_overlap <==> spec_all_overlap(infos@),
                sprite_rect == goal_rect_g,
                moved_vec == (Point {
                    x: spec_clamp_i32(goal_x - start_x) as i32,
                    y: spec_clamp_i32(goal_y - start_y) as i32,
                }),
                normal_when_moving == (Point {
                    x: (0 - spec_sign(goal_x - start_x)) as i32,
                    y: (0 - spec_sign(goal_y - start_y)) as i32,
                }),
            decreases hits@.len() - k,
        {
            let hit = hits[k];
            let ghost log_pre = (*pd).spec_dispatch_log();
            let response = logic.collide(self, hit.0, pd);
            let ghost log_cb = (*pd).spec_dispatch_log();
            pd.log = Ghost(
                pd.log@.push(DispatchEvent::Collide { mover: me_h, other: hit.0, response }),
            );
            proof {
                lemma_log_prefix_push(
                    log_cb,
                    DispatchEvent::Collide { mover: me_h, other: hit.0, response },
                );
                lemma_log_prefix_trans(log_pre, log_cb, (*pd).spec_dispatch_log());
                lemma_log_prefix_trans(
                    old(pd).spec_dispatch_log(),
                    log_pre,
                    (*pd).spec_dispatch_log(),
                );
            }
            let info = translate_hit(
                hit,
                response,
                sprite_rect,
                moved_vec,
                normal_when_moving,
                start_x,
                start_y,
                goal_x,
                goal_y,
            );
            let ghost infos_prev = infos@;
            let ghost flag_before = all_overlap;
            infos.push(info);
            let resp_overlap = response == CollisionResponse::Overlap;
            if !resp_overlap {
                all_overlap = false;
            }
            proof {
                assert(infos@ == infos_prev.push(info));
                assert(infos@[k as int] == info);
                assert forall|j: int|
                    0 <= j < k + 1 implies exists|p: int|
                    old(pd).spec_dispatch_log().len() <= p < (*pd).spec_dispatch_log().len() && (
                    *pd).spec_dispatch_log()[p] == (DispatchEvent::Collide {
                    mover: old(self)@.handle,
                    other: (#[trigger] infos@[j]).other,
                    response: infos@[j].response_type,
                }) by {
                    if j < k {
                        assert(infos@[j] == infos_prev[j]);
                        let p0 = choose|p: int|
                            old(pd).spec_dispatch_log().len() <= p < log_pre.len() && log_pre[p]
                                == (DispatchEvent::Collide {
                                mover: old(self)@.handle,
                                other: infos_prev[j].other,
                                response: infos_prev[j].response_type,
                            });
                        lemma_log_prefix_trans(log_pre, log_cb, (*pd).spec_dispatch_log());
                        lemma_log_prefix_index(log_pre, (*pd).spec_dispatch_log(), p0);
                    } else {
                        let n = (*pd).spec_dispatch_log().len();
                        assert((*pd).spec_dispatch_log()[n - 1] == (DispatchEvent::Collide {
                            mover: me_h,
                            other: hit.0,
                            response,
                        }));
                        assert(infos@[j] == info);
                    }
                }
                assert forall|j: int| 0 <= j < k + 1 implies spec_info_matches(
                    #[trigger] infos@[j],
                    hits@[j],
                    goal_rect_g,
                    start_x as int,
                    start_y as int,
                    goal_x as int,
                    goal_y as int,
                ) by {
                    if j < k {
                        assert(infos@[j] == infos_prev[j]);
                    }
                }
                if all_overlap {
                    assert(flag_before && resp_overlap);
                    assert forall|j: int|
                        0 <= j < infos@.len() implies (
                    #[trigger] infos@[j]).response_type is Overlap by {
                        if j < k {
                            assert(infos@[j] == infos_prev[j]);
                            assert(infos_prev[j].response_type is Overlap);
                        } else {
                            assert(infos@[j] == info);
                        }
                    }
                } else {
                    assert(!spec_all_overlap(infos@)) by {
                        if !resp_overlap {
                            if spec_all_overlap(infos@) {
                                assert(infos@[k as int].response_type is Overlap);
                                assert(false);
                            }
                        } else {
                            assert(!flag_before);
                            if spec_all_overlap(infos@) {
                                assert forall|j: int|
                                    0 <= j < infos_prev.len() implies (
                                #[trigger] infos_prev[j]).response_type is Overlap by {
                                    assert(infos_prev[j] == infos@[j]);
                                    assert(infos@[j].response_type is Overlap);
                                }
                                assert(false);
                            }
                        }
                    }
                }
            }
            k = k + 1;
        }
        if all_overlap {
            self.data.bounds.x = goal_x;
            self.data.bounds.y = goal_y;
        } else {
            self.data.bounds.x = start_x;
            self.data.bounds.y = start_y;
        }
        infos
    }

    /// Answers what a motion toward the goal would collide with, without
    /// moving the sprite: the same records as
    /// [`Sprite::move_with_collisions`], with no physical effect.
    #[verifier::rlimit(50)]
    pub fn check_collisions<T>(
        &mut self,
        logic: &mut L,
        pd: &mut Playdate<T, L>,
        goal_x: i32,
        goal_y: i32,
    ) -> (r: Vec<SpriteCollisionInfo>) where L: GameObject<T>
        requires
            old(pd).spec_sprite().guest_ok(*old(self)),
        ensures
            final(pd).spec_sprite().guest_ok(*final(self)),
            old(pd).spec_dispatch_log().is_prefix_of(final(pd).spec_dispatch_log()),
            spec_collidable(old(self)@) ==> (forall|k: int|
                0 <= k < r@.len() ==> exists|p: int|
                    old(pd).spec_dispatch_log().len() <= p < final(pd).spec_dispatch_log().len()
                        && final(pd).spec_dispatch_log()[p] == (DispatchEvent::Collide {
                        mover: old(self)@.handle,
                        other: (#[trigger] r@[k]).other,
                        response: r@[k].response_type,
                    })),
            !spec_collidable(old(self)@) ==> ({
                &&& r@ == Seq::<SpriteCollisionInfo>::empty()
                &&& *final(pd) == *old(pd)
                &&& *final(self) == *old(self)
            }),
            spec_collidable(old(self)@) ==> ({
                let goal_rect = spec_collide_rect_at(old(self)@, goal_x as int, goal_y as int);
                let start_rect = spec_collide_rect_at(
                    old(self)@,
                    old(self)@.bounds.x as int,
                    old(self)@.bounds.y as int,
                );
                let hits = spec_hits(
                    old(pd).spec_sprite().spec_sprites(),
                    old(self)@.handle,
                    goal_rect,
                    start_rect,
                );
                &&& r@.len() == hits.len()
                &&& (forall|k: int|
                    0 <= k < hits.len() ==> spec_info_matches(
                        #[trigger] r@[k],
                        hits[k],
                        goal_rect,
                        old(self)@.bounds.x as int,
                        old(self)@.bounds.y as int,
                        goal_x as int,
                        goal_y as int,
                    ))
                &&& (hits.len() == 0 ==> *final(pd) == *old(pd) && *final(self) == *old(self))
            }),
    {
        let collidable = match self.data.collisions {
            CollisionState::Enabled => self.data.collide_rect.is_some(),
            CollisionState::Disabled => false,
        };
        if !collidable {
            proof {
                lemma_log_prefix_reflexive(pd.spec_dispatch_log());
            }
            return Vec::new();
        }
        let start_x = self.data.bounds.x;
        let start_y = self.data.bounds.y;
        let me_h = self.handle;
        proof {
            lemma_log_prefix_reflexive(pd.spec_dispatch_log());
        }
        let hits = scan_hits(&pd.sprite, self, goal_x, goal_y);
        let ghost goal_rect_g = spec_collide_rect_at(old(self)@, goal_x as int, goal_y as int);
        let moved_vec = Point {
            x: sat_sub_coord(goal_x, start_x),
            y: sat_sub_coord(goal_y, start_y),
        };
        let normal_when_moving = Point {
            x: 0 - sign_of_motion(goal_x, start_x),
            y: 0 - sign_of_motion(goal_y, start_y),
        };
        let goal_cr = match self.data.collide_rect {
            Some(cr) => cr,
            None => {
                proof {
                    assert(false);
                }
                unreached()
            },
        };
        let sprite_rect = Rect {
            x: sat_add_coord(goal_cr.x, goal_x),
            y: sat_add_coord(goal_cr.y, goal_y),
            width: goal_cr.width,
            height: goal_cr.height,
        };
        let mut infos: Vec<SpriteCollisionInfo> = Vec::new();
        let mut k: usize = 0;
        while k < hits.len()
            invariant
                (*pd).spec_sprite().guest_ok(*self),
                0 <= k <= hits@.len(),
                me_h == old(self)@.handle,
                old(pd).spec_dispatch_log().is_prefix_of((*pd).spec_dispatch_log()),
                forall|j: int|
                    0 <= j < k ==> exists|p: int|
                        old(pd).spec_dispatch_log().len() <= p < (*pd).spec_dispatch_log().len()
                            && (*pd).spec_dispatch_log()[p] == (DispatchEvent::Collide {
                            mover: old(self)@.handle,
                            other: (#[trigger] infos@[j]).other,
                            response: infos@[j].response_type,
                        }),
                spec_collidable(old(self)@),
                start_x == old(self)@.bounds.x,
                start_y == old(self)@.bounds.y,
                goal_rect_g == spec_collide_rect_at(old(self)@, goal_x as int, goal_y as int),
                hits@ == spec_hits(
                    old(pd).spec_sprite().spec_sprites(),
                    old(self)@.handle,
                    goal_rect_g,
                    spec_collide_rect_at(
                        old(self)@,
                        old(self)@.bounds.x as int,
                        old(self)@.bounds.y as int,
                    ),
                ),
                hits@.len() == 0 ==> *pd == *old(pd) && *self == *old(self),
                infos@.len() == k,
                forall|j: int|
                    0 <= j < k ==> spec_info_matches(
                        #[trigger] infos@[j],
                        hits@[j],
                        goal_rect_g,
                        start_x as int,
                        start_y as int,
                        goal_x as int,
                        goal_y as int,
                    ),
                sprite_rect == goal_rect_g,
                moved_vec == (Point {
                    x: spec_clamp_i32(goal_x - start_x) as i32,
                    y: spec_clamp_i32(goal_y - start_y) as i32,
                }),
                normal_when_moving == (Point {
                    x: (0 - spec_sign(goal_x - start_x)) as i32,
                    y: (0 - spec_sign(goal_y - start_y)) as i32,
                }),
            decreases hits@.len() - k,
        {
            let hit = hits[k];
            let ghost log_pre = (*pd).spec_dispatch_log();
            let response = logic.collide(self, hit.0, pd);
            let ghost log_cb = (*pd).spec_dispatch_log();
            pd.log = Ghost(
                pd.log@.push(DispatchEvent::Collide { mover: me_h, other: hit.0, response }),
            );
            proof {
                lemma_log_prefix_push(
                    log_cb,
                    DispatchEvent::Collide { mover: me_h, other: hit.0, response },
                );
                lemma_log_prefix_trans(log_pre, log_cb, (*pd).spec_dispatch_log());
                lemma_log_prefix_trans(
                    old(pd).spec_dispatch_log(),
                    log_pre,
                    (*pd).spec_dispatch_log(),
                );
            }
            let info = translate_hit(
                hit,
                response,
                sprite_rect,
                moved_vec,
                normal_when_moving,
                start_x,
                start_y,
                goal_x,
                goal_y,
            );
            let ghost infos_prev = infos@;
            infos.push(info);
            proof {
                assert(infos@ == infos_prev.push(info));
                assert(infos@[k as int] == info);
                assert forall|j: int| 0 <= j < k + 1 implies spec_info_matches(
                    #[trigger] infos@[j],
                    hits@[j],
                    goal_rect_g,
                    start_x as int,
                    start_y as int,
                    goal_x as int,
                    goal_y as int,
                ) by {
                    if j < k {
                        assert(infos@[j] == infos_prev[j]);
                    }
                }
                assert forall|j: int|
                    0 <= j < k + 1 implies exists|p: int|
                    old(pd).spec_dispatch_log().len() <= p < (*pd).spec_dispatch_log().len() && (
                    *pd).spec_dispatch_log()[p] == (DispatchEvent::Collide {
                    mover: old(self)@.handle,
                    other: (#[trigger] infos@[j]).other,
                    response: infos@[j].response_type,
                }) by {
                    if j < k {
                        assert(infos@[j] == infos_prev[j]);
                        let p0 = choose|p: int|
                            old(pd).spec_dispatch_log().len() <= p < log_pre.len() && log_pre[p]
                                == (DispatchEvent::Collide {
                                mover: old(self)@.handle,
                                other: infos_prev[j].other,
                                response: infos_prev[j].response_type,
                            });
                        lemma_log_prefix_trans(log_pre, log_cb, (*pd).spec_dispatch_log());
                        lemma_log_prefix_index(log_pre, (*pd).spec_dispatch_log(), p0);
                    } else {
                        let n = (*pd).spec_dispatch_log().len();
                        assert((*pd).spec_dispatch_log()[n - 1] == (DispatchEvent::Collide {
                            mover: me_h,
                            other: hit.0,
                            response,
                        }));
                        assert(infos@[j] == info);
                    }
                }
            }
            k = k + 1;
        }
        proof {
            assert forall|k2: int|
                0 <= k2 < infos@.len() implies exists|p: int|
                old(pd).spec_dispatch_log().len() <= p < (*pd).spec_dispatch_log().len() && (
                *pd).spec_dispatch_log()[p] == (DispatchEvent::Collide {
                mover: old(self)@.handle,
                other: (#[trigger] infos@[k2]).other,
                response: infos@[k2].response_type,
            }) by {
                assert(infos@.len() == k);
                assert(0 <= k2 < k);
                let ev = (*pd).spec_dispatch_log();
                assert(exists|p: int|
                    old(pd).spec_dispatch_log().len() <= p < ev.len() && ev[p] == (
                    DispatchEvent::Collide {
                        mover: old(self)@.handle,
                        other: infos@[k2].other,
                        response: infos@[k2].response_type,
                    }));
            }
        }
        infos
    }
}

/// Taking one sprite out of the registry keeps the invariant and makes the
/// taken sprite a well-formed guest.
proof fn lemma_registry_remove<L>(api0: SpriteAPI<L>, api1: SpriteAPI<L>, i: int)
    requires
        api0.inv(),
        0 <= i < api0.spec_sprites().len(),
        api1.spec_engine() == api0.spec_engine(),
        api1.spec_sprites() == api0.spec_sprites().remove(i),
    ensures
        api1.inv(),
        api1.guest_ok(api0.spec_sprites()[i]),
{
    let os = api0.spec_sprites();
    let ns = api1.spec_sprites();
    os.remove_ensures(i);
    assert forall|a: int, b: int|
        0 <= a < b < ns.len() implies (#[trigger] ns[a])@.handle != (#[trigger] ns[b])@.handle by {
        let ma: int = if a < i {
            a
        } else {
            a + 1
        };
        let mb: int = if b < i {
            b
        } else {
            b + 1
        };
        assert(ns[a] == os[ma]);
        assert(ns[b] == os[mb]);
    }
    assert forall|a: int|
        0 <= a < ns.len() implies (#[trigger] ns[a])@.handle.0
        < api1.spec_engine().spec_next_handle() by {
        let ma: int = if a < i {
            a
        } else {
            a + 1
        };
        assert(ns[a] == os[ma]);
    }
    assert forall|a: int| 0 <= a < ns.len() implies (#[trigger] ns[a])@.logic is Some by {
        let ma: int = if a < i {
            a
        } else {
            a + 1
        };
        assert(ns[a] == os[ma]);
    }
    assert forall|a: int|
        0 <= a < ns.len() implies ((#[trigger] ns[a])@.displayed
        <==> api1.spec_engine().spec_scene().contains(ns[a]@.handle)) by {
        let ma: int = if a < i {
            a
        } else {
            a + 1
        };
        assert(ns[a] == os[ma]);
    }
    assert forall|a: int|
        0 <= a < ns.len() implies (#[trigger] ns[a])@.handle != os[i]@.handle by {
        let ma: int = if a < i {
            a
        } else {
            a + 1
        };
        assert(ns[a] == os[ma]);
    }
}

/// Returning a guest sprite to the registry restores the invariant.
proof fn lemma_registry_push<L>(api0: SpriteAPI<L>, api1: SpriteAPI<L>, s: Sprite<L>)
    requires
        api0.inv(),
        api0.guest_ok(s),
        s@.logic is Some,
        api1.spec_engine() == api0.spec_engine(),
        api1.spec_sprites() == api0.spec_sprites().push(s),
    ensures
        api1.inv(),
{
    let os = api0.spec_sprites();
    let ns = api1.spec_sprites();
    assert forall|a: int, b: int|
        0 <= a < b < ns.len() implies (#[trigger] ns[a])@.handle != (#[trigger] ns[b])@.handle by {
        if b < os.len() {
            assert(ns[a] == os[a]);
            assert(ns[b] == os[b]);
        } else {
            assert(ns[b] == s);
            assert(ns[a] == os[a]);
        }
    }
    assert forall|a: int|
        0 <= a < ns.len() implies (#[trigger] ns[a])@.handle.0
        < api1.spec_engine().spec_next_handle() by {
        if a < os.len() {
            assert(ns[a] == os[a]);
        } else {
            assert(ns[a] == s);
        }
    }
    assert forall|a: int| 0 <= a < ns.len() implies (#[trigger] ns[a])@.logic is Some by {
        if a < os.len() {
            assert(ns[a] == os[a]);
        } else {
            assert(ns[a] == s);
        }
    }
    assert forall|a: int|
        0 <= a < ns.len() implies ((#[trigger] ns[a])@.displayed
        <==> api1.spec_engine().spec_scene().contains(ns[a]@.handle)) by {
        if a < os.len() {
            assert(ns[a] == os[a]);
        } else {
            assert(ns[a] == s);
        }
    }
}

/// Inserting a guest sprite back into the registry at any position
/// restores the invariant.
proof fn lemma_registry_insert<L>(api0: SpriteAPI<L>, api1: SpriteAPI<L>, s: Sprite<L>, at: int)
    requires
        api0.inv(),
        api0.guest_ok(s),
        s@.logic is Some,
        0 <= at <= api0.spec_sprites().len(),
        api1.spec_engine() == api0.spec_engine(),
        api1.spec_sprites() == api0.spec_sprites().insert(at, s),
    ensures
        api1.inv(),
{
    let os = api0.spec_sprites();
    let ns = api1.spec_sprites();
    os.insert_ensures(at, s);
    assert forall|a: int, b: int|
        0 <= a < b < ns.len() implies (#[trigger] ns[a])@.handle != (#[trigger] ns[b])@.handle by {
        if a == at {
            assert(ns[a] == s);
            assert(ns[b] == os[b - 1]);
        } else if b == at {
            assert(ns[b] == s);
            assert(ns[a] == os[a]);
        } else {
            let ma: int = if a < at {
                a
            } else {
                a - 1
            };
            let mb: int = if b < at {
                b
            } else {
                b - 1
            };
            assert(ns[a] == os[ma]);
            assert(ns[b] == os[mb]);
        }
    }
    assert forall|a: int|
        0 <= a < ns.len() implies (#[trigger] ns[a])@.handle.0
        < api1.spec_engine().spec_next_handle() by {
        if a == at {
            assert(ns[a] == s);
        } else if a < at {
            assert(ns[a] == os[a]);
        } else {
            assert(ns[a] == os[a - 1]);
        }
    }
    assert forall|a: int| 0 <= a < ns.len() implies (#[trigger] ns[a])@.logic is Some by {
        if a == at {
            assert(ns[a] == s);
        } else if a < at {
            assert(ns[a] == os[a]);
        } else {
            assert(ns[a] == os[a - 1]);
        }
    }
    assert forall|a: int|
        0 <= a < ns.len() implies ((#[trigger] ns[a])@.displayed
        <==> api1.spec_engine().spec_scene().contains(ns[a]@.handle)) by {
        if a == at {
            assert(ns[a] == s);
        } else if a < at {
            assert(ns[a] == os[a]);
        } else {
            assert(ns[a] == os[a - 1]);
        }
    }
}

/// Sorts traversal pairs by their drawing order, ascending; ties keep the
/// order in which they were collected, the first minimum being taken first.
fn sort_by_z(v: Vec<(i16, SpriteHandle)>) -> (r: Vec<(i16, SpriteHandle)>)
    ensures
        r@.len() == v@.len(),
        forall|a: int, b: int| 0 <= a < b < r@.len() ==> (#[trigger] r@[a]).0 <= (#[trigger] r@[b]).0,
        r@.to_multiset() == v@.to_multiset(),
{
    broadcast use vstd::seq_lib::group_to_multiset_ensures;

    let ghost orig = v@;
    let mut work = v;
    let mut out: Vec<(i16, SpriteHandle)> = Vec::new();
    while work.len() > 0
        invariant
            out@.len() + work@.len() == orig.len(),
            forall|a: int, b: int|
                0 <= a < b < out@.len() ==> (#[trigger] out@[a]).0 <= (#[trigger] out@[b]).0,
            forall|a: int, j: int|
                0 <= a < out@.len() && 0 <= j < work@.len() ==> (#[trigger] out@[a]).0 <= (
                #[trigger] work@[j]).0,
            out@.to_multiset().add(work@.to_multiset()) == orig.to_multiset(),
        decreases work@.len(),
    {
        let mut m: usize = 0;
        let mut i: usize = 1;
        while i < work.len()
            invariant
                0 < work@.len(),
                0 <= m < i <= work@.len(),
                forall|j: int| 0 <= j < i ==> (#[trigger] work@[m as int]).0 <= (#[trigger] work@[j]).0,
            decreases work@.len() - i,
        {
            if work[i].0 < work[m].0 {
                m = i;
            }
            i = i + 1;
        }
        let ghost work_before = work@;
        let ghost out_before = out@;
        let x = work.remove(m);
        out.push(x);
        proof {
            work_before.remove_ensures(m as int);
            out_before.to_multiset_ensures();
            work_before.to_multiset_ensures();
            assert(out@ == out_before.push(x));
            assert(x == work_before[m as int]);
            assert forall|a: int, b: int|
                0 <= a < b < out@.len() implies (#[trigger] out@[a]).0 <= (#[trigger] out@[b]).0 by {
                if b < out_before.len() {
                    assert(out@[a] == out_before[a]);
                    assert(out@[b] == out_before[b]);
                } else {
                    assert(out@[b] == x);
                    assert(out@[a] == out_before[a]);
                }
            }
            assert forall|a: int, j: int|
                0 <= a < out@.len() && 0 <= j < work@.len() implies (#[trigger] out@[a]).0 <= (
            #[trigger] work@[j]).0 by {
                let mj: int = if j < m {
                    j
                } else {
                    j + 1
                };
                assert(work@[j] == work_before[mj]);
                if a < out_before.len() {
                    assert(out@[a] == out_before[a]);
                } else {
                    assert(out@[a] == x);
                    assert(x.0 <= work_before[mj].0);
                }
            }
            assert(out_before.push(x).to_multiset() =~= out_before.to_multiset().insert(x));
            assert(out@.to_multiset() =~= out_before.to_multiset().insert(x));
            assert(work_before.remove(m as int).to_multiset() =~= work_before.to_multiset().remove(
                work_before[m as int],
            ));
            assert(work@.to_multiset() =~= work_before.to_multiset().remove(x));
            assert(work_before.to_multiset().contains(x)) by {
                assert(work_before.contains(x));
            }
            assert(out@.to_multiset().add(work@.to_multiset()) =~= orig.to_multiset());
        }
    }
    proof {
        assert(work@.to_multiset() =~= Multiset::<(i16, SpriteHandle)>::empty()) by {
            assert(work@.len() == 0);
            assert(work@ =~= Seq::<(i16, SpriteHandle)>::empty());
        }
        assert(out@.to_multiset() =~= orig.to_multiset());
    }
    out
}

/// Round trip: taking a counted reference to an image and building a sprite
/// with it leaves the store's count one higher than before, and the identity
/// read back from the sprite is the original image's own. The hypotheses are
/// what [`Graphics::retain`] and [`Sprite::set_image`] ensure for a sprite
/// that held no image.
pub proof fn lemma_image_round_trip<L>(
    g0: Graphics,
    g1: Graphics,
    g2: Graphics,
    s0: Sprite<L>,
    s1: Sprite<L>,
    original: Bitmap,
    taken: Bitmap,
    flip: BitmapFlip,
)
    requires
        g0.live(original.id() as int),
        taken.id() == original.id(),
        g1.refs(original.id() as int) == g0.refs(original.id() as int) + 1,
        s0@.bitmap is None,
        s1@ == (SpriteState { bitmap: Some(taken.id() as int), flip, ..s0@ }),
        g2 == g1,
    ensures
        s1@.bitmap == Some(original.id() as int),
        g2.refs(original.id() as int) == g0.refs(original.id() as int) + 1,
{
}

/// With no collidable sprite in the world besides the mover, a motion
/// collides with nothing: the engine's hit list is empty, so
/// [`Sprite::move_with_collisions`] returns an empty record list and lands
/// the sprite exactly on its goal.
pub proof fn lemma_no_collidable_no_hits<L>(
    sprites: Seq<Sprite<L>>,
    me: SpriteHandle,
    goal_rect: Rect,
    start_rect: Rect,
)
    requires
        forall|i: int| 0 <= i < sprites.len() ==> !spec_partner(me, (#[trigger] sprites[i])@),
    ensures
        spec_hits(sprites, me, goal_rect, start_rect) == Seq::<(SpriteHandle, Rect, bool)>::empty(),
    decreases sprites.len(),
{
    if sprites.len() > 0 {
        assert(sprites.last() == sprites[sprites.len() - 1]);
        assert forall|i: int|
            0 <= i < sprites.drop_last().len() implies !spec_partner(
            me,
            (#[trigger] sprites.drop_last()[i])@,
        ) by {
            assert(sprites.drop_last()[i] == sprites[i]);
        }
        lemma_no_collidable_no_hits(sprites.drop_last(), me, goal_rect, start_rect);
    }
}

/// Every pair of owned sprites carries distinct handles: there is never a
/// second owning wrapper for a live handle in the registry.
pub proof fn lemma_handles_unique<L>(api: SpriteAPI<L>, i: int, j: int)
    requires
        api.inv(),
        0 <= i < api.spec_sprites().len(),
        0 <= j < api.spec_sprites().len(),
        i != j,
    ensures
        api.spec_sprites()[i]@.handle != api.spec_sprites()[j]@.handle,
{
}

/// A sprite the registry owns stands in the engine's display list exactly
/// when its `displayed` flag is set.
pub proof fn lemma_scene_iff_displayed<L>(api: SpriteAPI<L>, i: int)
    requires
        api.inv(),
        0 <= i < api.spec_sprites().len(),
    ensures
        api.spec_sprites()[i]@.displayed <==> api.spec_engine().spec_scene().contains(
            api.spec_sprites()[i]@.handle,
        ),
{
}

} // verus!
