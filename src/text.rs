//! Floating score labels: they rise at six tenths of a pixel per frame and
//! disappear after a fixed age.
use vstd::prelude::*;
use crate::geometry::Point;
use crate::palette::Palette;

verus! {

/// Frames a label stays on screen.
pub const MAX_AGE: i32 = 30;

/// Rise per frame, in tenths of a pixel.
pub const TEXT_SPEED_TENTHS: i32 = 6;

/// A label showing `+points` that drifts upward.
#[derive(Clone, Copy, Debug)]
pub struct Text {
    pub age: i32,
    pub color: Palette,
    pub points: i32,
    pub position: Point,
    /// Carried rise in tenths of a pixel, in `[-5, 5)`.
    pub remainder: i32,
}

/// Whole pixels that a carried rise of `tenths` rounds to, to the nearest.
pub open spec fn rounded_rise(tenths: int) -> int {
    (tenths + 5) / 10
}

/// A label one frame older, risen by the whole pixels of its carried rise.
pub open spec fn aged(t: Text) -> Text {
    let rise = rounded_rise(t.remainder + TEXT_SPEED_TENTHS);
    Text {
        age: (t.age + 1) as i32,
        position: Point { x: t.position.x, y: (t.position.y - rise) as i32 },
        remainder: (t.remainder + TEXT_SPEED_TENTHS - 10 * rise) as i32,
        ..t
    }
}

/// The labels one frame on: each aged by a frame, and those past
/// `MAX_AGE` dropped, in order.
pub open spec fn kept_labels(ts: Seq<Text>) -> Seq<Text>
    decreases ts.len(),
{
    if ts.len() == 0 {
        seq![]
    } else if aged(ts.last()).age > MAX_AGE {
        kept_labels(ts.drop_last())
    } else {
        kept_labels(ts.drop_last()).push(aged(ts.last()))
    }
}

impl Text {
    pub open spec fn wf(&self) -> bool {
        -5 <= self.remainder < 5
    }

    pub fn new(points: i32, color: Palette, position: Point) -> (r: Text)
        ensures
            r.wf(),
            r == (Text { age: 0, color, points, position, remainder: 0 }),
    {
        Text { age: 0, color, points, position, remainder: 0 }
    }

    /// Ages the label by a frame and moves it up by the whole pixels of its
    /// carried rise.
    pub fn update(&mut self)
        requires
            old(self).wf(),
            old(self).age < i32::MAX,
            old(self).position.y > i32::MIN + 1,
        ensures
            final(self).wf(),
            final(self).age == old(self).age + 1,
            final(self).position.y == old(self).position.y - rounded_rise(
                old(self).remainder + TEXT_SPEED_TENTHS,
            ),
            final(self).remainder == old(self).remainder + TEXT_SPEED_TENTHS - 10 * rounded_rise(
                old(self).remainder + TEXT_SPEED_TENTHS,
            ),
            final(self).position.x == old(self).position.x,
            final(self).color == old(self).color,
            final(self).points == old(self).points,
            *final(self) == aged(*old(self)),
    {
        self.age = self.age + 1;
        let carried = self.remainder + TEXT_SPEED_TENTHS;
        let amount = (carried + 5) / 10;
        self.remainder = carried - 10 * amount;
        self.position.y = self.position.y - amount;
    }

    /// The label has outlived its time.
    pub fn remove(&self) -> (r: bool)
        ensures
            r == (self.age > MAX_AGE),
    {
        self.age > MAX_AGE
    }
}

} // verus!
