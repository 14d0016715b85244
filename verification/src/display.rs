//! The display subsystem model.
//!
//! The device screen is 400 by 240 pixels. The engine can invert, flip,
//! mosaic, scale and offset the frame; the reported width and height shrink
//! with the scale factor. This model holds that state and answers the
//! same queries the native display API answers.

use vstd::prelude::*;

verus! {

/// Whether the screen colors are inverted.
#[derive(Clone, Copy, PartialEq, Eq, Structural, Debug)]
pub enum ScreenInversion {
    Normal,
    Inverted,
}

impl ScreenInversion {
    /// The numeric encoding the native engine uses.
    pub fn code(&self) -> (r: i32)
        ensures
            r == 0 <==> self is Normal,
            r == 1 <==> self is Inverted,
    {
        match self {
            ScreenInversion::Normal => 0,
            ScreenInversion::Inverted => 1,
        }
    }
}

/// Whether the frame is mirrored along one axis.
#[derive(Clone, Copy, PartialEq, Eq, Structural, Debug)]
pub enum ScreenFlip {
    Normal,
    Flipped,
}

impl ScreenFlip {
    /// The numeric encoding the native engine uses.
    pub fn code(&self) -> (r: i32)
        ensures
            r == 0 <==> self is Normal,
            r == 1 <==> self is Flipped,
    {
        match self {
            ScreenFlip::Normal => 0,
            ScreenFlip::Flipped => 1,
        }
    }
}

/// The pixel-doubling factor of the display.
#[derive(Clone, Copy, PartialEq, Eq, Structural, Debug)]
pub enum DisplayScale {
    One,
    Two,
    Four,
    Eight,
}

impl DisplayScale {
    pub open spec fn spec_factor(self) -> i32 {
        match self {
            DisplayScale::One => 1,
            DisplayScale::Two => 2,
            DisplayScale::Four => 4,
            DisplayScale::Eight => 8,
        }
    }

    /// The scale factor, which is also the engine's numeric encoding.
    pub fn factor(&self) -> (r: i32)
        ensures
            r == self.spec_factor(),
    {
        match self {
            DisplayScale::One => 1,
            DisplayScale::Two => 2,
            DisplayScale::Four => 4,
            DisplayScale::Eight => 8,
        }
    }
}

/// The display subsystem model.
pub struct Display {
    pub inverted: ScreenInversion,
    pub mosaic_x: u32,
    pub mosaic_y: u32,
    pub flip_x: ScreenFlip,
    pub flip_y: ScreenFlip,
    pub scale: DisplayScale,
    pub offset_dx: i32,
    pub offset_dy: i32,
}

impl Display {
    /// The state the display powers on in.
    pub open spec fn spec_initial() -> Display {
        Display {
            inverted: ScreenInversion::Normal,
            mosaic_x: 0,
            mosaic_y: 0,
            flip_x: ScreenFlip::Normal,
            flip_y: ScreenFlip::Normal,
            scale: DisplayScale::One,
            offset_dx: 0,
            offset_dy: 0,
        }
    }

    pub open spec fn spec_inverted(self) -> ScreenInversion {
        self.inverted
    }

    pub open spec fn spec_mosaic(self) -> (u32, u32) {
        (self.mosaic_x, self.mosaic_y)
    }

    pub open spec fn spec_flip(self) -> (ScreenFlip, ScreenFlip) {
        (self.flip_x, self.flip_y)
    }

    pub open spec fn spec_scale(self) -> DisplayScale {
        self.scale
    }

    pub open spec fn spec_offset(self) -> (i32, i32) {
        (self.offset_dx, self.offset_dy)
    }

    pub fn new() -> (r: Display)
        ensures
            r.spec_inverted() is Normal,
            r.spec_mosaic() == (0u32, 0u32),
            r.spec_flip() == (ScreenFlip::Normal, ScreenFlip::Normal),
            r.spec_scale() is One,
            r.spec_offset() == (0i32, 0i32),
    {
        Display {
            inverted: ScreenInversion::Normal,
            mosaic_x: 0,
            mosaic_y: 0,
            flip_x: ScreenFlip::Normal,
            flip_y: ScreenFlip::Normal,
            scale: DisplayScale::One,
            offset_dx: 0,
            offset_dy: 0,
        }
    }

    /// The visible height in pixels: 240 shrunk by the scale factor.
    pub fn height(&self) -> (r: i32)
        ensures
            r == 240i32 / self.spec_scale().spec_factor(),
    {
        240 / self.scale.factor()
    }

    /// The visible width in pixels: 400 shrunk by the scale factor.
    pub fn width(&self) -> (r: i32)
        ensures
            r == 400i32 / self.spec_scale().spec_factor(),
    {
        400 / self.scale.factor()
    }

    /// Sets color inversion for the whole frame.
    pub fn set_inverted(&mut self, state: ScreenInversion)
        ensures
            *final(self) == (Display { inverted: state, ..*old(self) }),
    {
        self.inverted = state;
    }

    /// Sets the mosaic (pixelation) amount per axis.
    pub fn set_mosaic(&mut self, x: u32, y: u32)
        ensures
            *final(self) == (Display { mosaic_x: x, mosaic_y: y, ..*old(self) }),
    {
        self.mosaic_x = x;
        self.mosaic_y = y;
    }

    /// Mirrors the frame along either axis.
    pub fn set_flipped(&mut self, x: ScreenFlip, y: ScreenFlip)
        ensures
            *final(self) == (Display { flip_x: x, flip_y: y, ..*old(self) }),
    {
        self.flip_x = x;
        self.flip_y = y;
    }

    /// Sets the pixel-doubling factor; the reported width and height shrink
    /// accordingly.
    pub fn set_scale(&mut self, scale: DisplayScale)
        ensures
            *final(self) == (Display { scale, ..*old(self) }),
    {
        self.scale = scale;
    }

    /// Offsets the whole frame on the physical screen.
    pub fn set_offset(&mut self, dx: i32, dy: i32)
        ensures
            *final(self) == (Display { offset_dx: dx, offset_dy: dy, ..*old(self) }),
    {
        self.offset_dx = dx;
        self.offset_dy = dy;
    }
}

} // verus!
