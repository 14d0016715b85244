//! A safe, verified binding layer over a retained-mode 2D sprite-and-collision
//! engine, in the style of a handheld-console SDK.
//!
//! The native engine is closed: it identifies every sprite by an opaque handle,
//! keeps its own display list, and resolves collisions itself. This crate
//! models that engine explicitly (see [`sprite::Engine`]) and builds the
//! per-object lifecycle — construct, update, draw, collide, destroy — on top of
//! it, with the ownership and identity invariants stated and proved:
//! exactly one owning wrapper per handle, teardown runs exactly once, and a
//! sprite stands in the display list exactly when its `displayed` flag is set.

use vstd::prelude::*;

pub mod bitmap;
pub mod display;
pub mod error;
pub mod file;
pub mod gfx;
pub mod sprite;
pub mod system;

pub use bitmap::Bitmap;
pub use bitmap::BitmapData;
pub use bitmap::BitmapFlip;
pub use display::Display;
pub use display::DisplayScale;
pub use display::ScreenFlip;
pub use display::ScreenInversion;
pub use error::Error;
pub use file::FileSystem;
pub use file::HiddenFiles;
pub use file::UnlinkMode;
pub use gfx::Color;
pub use gfx::Graphics;
pub use gfx::Point;
pub use gfx::Rect;
pub use sprite::CollisionResponse;
pub use sprite::GameObject;
pub use sprite::Playdate;
pub use sprite::SpriteBuilder;
pub use sprite::SpriteCollisionInfo;
pub use sprite::SpriteState;
pub use sprite::StencilView;
pub use sprite::CollisionState;
pub use sprite::DispatchEvent;
pub use sprite::DrawMode;
pub use sprite::DrawTime;
pub use sprite::Engine;
pub use sprite::OffsetBehavior;
pub use sprite::Opaqueness;
pub use sprite::Persistance;
pub use sprite::Sprite;
pub use sprite::SpriteAPI;
pub use sprite::SpriteHandle;
pub use sprite::SpriteOverlap;
pub use sprite::SpriteStencil;
pub use sprite::TileMode;
pub use sprite::UpdatesState;
pub use sprite::Visibility;
pub use system::AutoLockState;
pub use system::Button;
pub use system::ButtonState;
pub use system::Buttons;
pub use system::Checked;
pub use system::CrankSoundState;
pub use system::CrankState;
pub use system::DateTime;
pub use system::Duration;
pub use system::Language;
pub use system::MenuRow;
pub use system::MenuRowKind;
pub use system::Peripherals;
pub use system::System;

verus! {

/// Whether the frame just computed should be pushed to the screen.
pub enum FrameResult {
    NoUpdate,
    Update,
}

impl FrameResult {
    /// The numeric encoding the native engine expects from the frame callback.
    pub fn code(&self) -> (r: i32)
        ensures
            r == 0 <==> self is NoUpdate,
            r == 1 <==> self is Update,
    {
        match self {
            FrameResult::NoUpdate => 0,
            FrameResult::Update => 1,
        }
    }
}

/// The version of the native API this binding layer was written against.
#[derive(Clone, Copy, PartialEq, Eq, Structural)]
pub struct ApiVersion {
    pub major: u16,
    pub minor: u16,
    pub patch: u16,
}

impl ApiVersion {
    /// The API version the binding targets.
    pub fn current() -> (r: ApiVersion)
        ensures
            r.major == 2 && r.minor == 4 && r.patch == 2,
    {
        ApiVersion { major: 2, minor: 4, patch: 2 }
    }
}

} // verus!
