//! The sixteen-color palette and the firefly colors with their point values
//! and spawn regions.
use vstd::prelude::*;
use crate::geometry::{Point, Rectangle};
use crate::random::{random_range, range_pick, xorshift, Random};

verus! {

/// Width of the playing field in pixels.
pub const WORLD_WIDTH: i32 = 480;

/// Height of the playing field in pixels.
pub const WORLD_HEIGHT: i32 = 480;

/// Colors of the palette, by their slot.
#[derive(Clone, Copy, Debug, PartialEq, Eq, Structural)]
pub enum Palette {
    /// Slot zero: no color.
    Empty,
    DarkGreen,
    Green,
    LightGreen,
    LightYellow,
    Yellow,
    LightBrown,
    Brown,
    DarkPurple,
    Black,
    Purple,
    LightPurple,
    DarkBlue,
    SoftRed,
    BrightMagenta,
    BrightGreen,
    BrightBlue,
}

pub open spec fn palette_slot(p: Palette) -> u8 {
    match p {
        Palette::Empty => 0,
        Palette::DarkGreen => 1,
        Palette::Green => 2,
        Palette::LightGreen => 3,
        Palette::LightYellow => 4,
        Palette::Yellow => 5,
        Palette::LightBrown => 6,
        Palette::Brown => 7,
        Palette::DarkPurple => 8,
        Palette::Black => 9,
        Palette::Purple => 10,
        Palette::LightPurple => 11,
        Palette::DarkBlue => 12,
        Palette::SoftRed => 13,
        Palette::BrightMagenta => 14,
        Palette::BrightGreen => 15,
        Palette::BrightBlue => 16,
    }
}

impl Palette {
    /// The palette slot that this color occupies on the display.
    pub fn index(&self) -> (r: u8)
        ensures
            r == palette_slot(*self),
    {
        match self {
            Palette::Empty => 0,
            Palette::DarkGreen => 1,
            Palette::Green => 2,
            Palette::LightGreen => 3,
            Palette::LightYellow => 4,
            Palette::Yellow => 5,
            Palette::LightBrown => 6,
            Palette::Brown => 7,
            Palette::DarkPurple => 8,
            Palette::Black => 9,
            Palette::Purple => 10,
            Palette::LightPurple => 11,
            Palette::DarkBlue => 12,
            Palette::SoftRed => 13,
            Palette::BrightMagenta => 14,
            Palette::BrightGreen => 15,
            Palette::BrightBlue => 16,
        }
    }
}

/// The colors a firefly can have.
#[derive(Clone, Copy, Debug, PartialEq, Eq, Structural)]
pub enum FireflyColor {
    SoftRed,
    BrightMagenta,
    BrightGreen,
    BrightBlue,
    /// No color of the four: worth nothing.
    Plain,
}

/// The color that a roll in `[0, 36]` gives: red is the most common, blue
/// the rarest.
pub open spec fn color_for_roll(roll: int) -> FireflyColor {
    if 0 <= roll < 20 {
        FireflyColor::SoftRed
    } else if 20 <= roll < 30 {
        FireflyColor::BrightMagenta
    } else if 30 <= roll < 35 {
        FireflyColor::BrightGreen
    } else if 35 <= roll <= 36 {
        FireflyColor::BrightBlue
    } else {
        FireflyColor::Plain
    }
}

pub open spec fn color_palette(c: FireflyColor) -> Palette {
    match c {
        FireflyColor::SoftRed => Palette::SoftRed,
        FireflyColor::BrightMagenta => Palette::BrightMagenta,
        FireflyColor::BrightGreen => Palette::BrightGreen,
        FireflyColor::BrightBlue => Palette::BrightBlue,
        FireflyColor::Plain => Palette::Black,
    }
}

pub open spec fn color_points(c: FireflyColor) -> i32 {
    match c {
        FireflyColor::SoftRed => 1,
        FireflyColor::BrightMagenta => 2,
        FireflyColor::BrightGreen => 3,
        FireflyColor::BrightBlue => 5,
        FireflyColor::Plain => 0,
    }
}

pub open spec fn color_region(c: FireflyColor) -> Rectangle {
    match c {
        FireflyColor::SoftRed => Rectangle { point: Point { x: 16, y: 16 }, width: 192, height: 192 },
        FireflyColor::BrightMagenta => Rectangle {
            point: Point { x: 16, y: 256 },
            width: 192,
            height: 192,
        },
        FireflyColor::BrightGreen => Rectangle {
            point: Point { x: 256, y: 16 },
            width: 192,
            height: 192,
        },
        FireflyColor::BrightBlue => Rectangle {
            point: Point { x: 256, y: 256 },
            width: 192,
            height: 192,
        },
        FireflyColor::Plain => Rectangle {
            point: Point { x: 0, y: 0 },
            width: WORLD_WIDTH,
            height: WORLD_HEIGHT,
        },
    }
}

impl FireflyColor {
    /// A color drawn with weights 20, 10, 5 and 2 out of 37.
    pub fn random(rng: &mut Random) -> (r: FireflyColor)
        ensures
            r == color_for_roll(range_pick(xorshift(old(rng).state), 0, 36)),
            final(rng).state == xorshift(old(rng).state),
            r != FireflyColor::Plain,
    {
        let roll = random_range(rng, 0, 36);
        if roll < 20 {
            FireflyColor::SoftRed
        } else if roll < 30 {
            FireflyColor::BrightMagenta
        } else if roll < 35 {
            FireflyColor::BrightGreen
        } else {
            FireflyColor::BrightBlue
        }
    }

    pub fn color(&self) -> (r: Palette)
        ensures
            r == color_palette(*self),
    {
        match self {
            FireflyColor::SoftRed => Palette::SoftRed,
            FireflyColor::BrightMagenta => Palette::BrightMagenta,
            FireflyColor::BrightGreen => Palette::BrightGreen,
            FireflyColor::BrightBlue => Palette::BrightBlue,
            FireflyColor::Plain => Palette::Black,
        }
    }

    pub fn points(&self) -> (r: i32)
        ensures
            r == color_points(*self),
    {
        match self {
            FireflyColor::SoftRed => 1,
            FireflyColor::BrightMagenta => 2,
            FireflyColor::BrightGreen => 3,
            FireflyColor::BrightBlue => 5,
            FireflyColor::Plain => 0,
        }
    }

    /// The region of the world where fireflies of this color appear.
    pub fn starting_rect(&self) -> (r: Rectangle)
        ensures
            r == color_region(*self),
    {
        match self {
            FireflyColor::SoftRed => Rectangle::new(Point::new(16, 16), 192, 192),
            FireflyColor::BrightMagenta => Rectangle::new(Point::new(16, 256), 192, 192),
            FireflyColor::BrightGreen => Rectangle::new(Point::new(256, 16), 192, 192),
            FireflyColor::BrightBlue => Rectangle::new(Point::new(256, 256), 192, 192),
            FireflyColor::Plain => Rectangle::new(Point::new(0, 0), WORLD_WIDTH, WORLD_HEIGHT),
        }
    }
}

} // verus!
