//! Text placed over the game screen: centered lines for the end-of-round
//! messages.
use vstd::prelude::*;
use vstd::string::{is_ascii, is_ascii_spec_bytes, StringSliceAdditionalSpecFns};
use crate::camera::{SCREEN_HEIGHT, SCREEN_WIDTH};
use crate::geometry::Point;

verus! {

/// Line height of the large font in pixels.
pub const FONT_LARGE_HEIGHT: i32 = 16;

/// Half the glyph width of the large font in pixels.
pub const FONT_LARGE_HALF_WIDTH: i32 = 8;

/// Most lines, and most bytes per line, that a message may have.
pub const MAX_MESSAGE: usize = 1000;

/// Where line `i` of an `n`-line message, `len` bytes long, starts so that
/// the message is centered on the screen.
pub open spec fn centered_position(len: int, i: int, n: int) -> Point {
    Point {
        x: (SCREEN_WIDTH / 2 - len * FONT_LARGE_HALF_WIDTH) as i32,
        y: (SCREEN_HEIGHT / 2 + FONT_LARGE_HEIGHT - n * FONT_LARGE_HEIGHT / 2 + i * FONT_LARGE_HEIGHT)
            as i32,
    }
}

/// Each line with the point where it starts, for a message centered on the
/// screen in the large font.
pub fn display_centered_message(lines: &Vec<&'static str>) -> (r: Vec<(&'static str, Point)>)
    requires
        lines@.len() <= MAX_MESSAGE,
        forall|i: int| 0 <= i < lines@.len() ==> is_ascii(#[trigger] lines@[i]),
        forall|i: int| 0 <= i < lines@.len() ==> (#[trigger] lines@[i])@.len() <= MAX_MESSAGE,
    ensures
        r@.len() == lines@.len(),
        forall|i: int|
            0 <= i < lines@.len() ==> (#[trigger] r@[i]).0 == lines@[i] && r@[i].1
                == centered_position(
                lines@[i]@.len() as int,
                i,
                lines@.len() as int,
            ),
{
    let n = lines.len() as i32;
    let y_pos: i32 = SCREEN_HEIGHT / 2 + FONT_LARGE_HEIGHT - n * FONT_LARGE_HEIGHT / 2;
    let mut out: Vec<(&'static str, Point)> = Vec::new();
    let mut i: usize = 0;
    while i < lines.len()
        invariant
            i <= lines@.len() <= MAX_MESSAGE,
            n == lines@.len(),
            y_pos == SCREEN_HEIGHT / 2 + FONT_LARGE_HEIGHT - n * FONT_LARGE_HEIGHT / 2,
            forall|j: int| 0 <= j < lines@.len() ==> is_ascii(#[trigger] lines@[j]),
            forall|j: int| 0 <= j < lines@.len() ==> (#[trigger] lines@[j])@.len() <= MAX_MESSAGE,
            out@.len() == i,
            forall|j: int|
                0 <= j < i ==> (#[trigger] out@[j]).0 == lines@[j] && out@[j].1
                    == centered_position(
                    lines@[j]@.len() as int,
                    j,
                    lines@.len() as int,
                ),
        decreases lines@.len() - i,
    {
        let line = lines[i];
        proof {
            is_ascii_spec_bytes(line);
            assert(is_ascii(lines@[i as int]));
        }
        let len = line.len() as i32;
        let position = Point {
            x: SCREEN_WIDTH / 2 - len * FONT_LARGE_HALF_WIDTH,
            y: y_pos + i as i32 * FONT_LARGE_HEIGHT,
        };
        out.push((line, position));
        i = i + 1;
    }
    out
}

/// The message shown when the player died.
pub fn render_died() -> (r: Vec<(&'static str, Point)>)
    ensures
        r@.len() == 2,
        r@[0].0@ == "You died!"@,
        r@[1].0@ == "Press <E>"@,
        forall|i: int|
            0 <= i < 2 ==> (#[trigger] r@[i]).1 == centered_position(
                r@[i].0@.len() as int,
                i,
                2,
            ),
{
    let lines: Vec<&'static str> = vec!["You died!", "Press <E>"];
    proof {
        reveal_strlit("You died!");
        reveal_strlit("Press <E>");
        assert(is_ascii(lines@[0]) && is_ascii(lines@[1]));
    }
    display_centered_message(&lines)
}

/// The message shown when the game is over, won or lost.
pub fn render_gameover(won: bool) -> (r: Vec<(&'static str, Point)>)
    ensures
        r@.len() == 2,
        won ==> r@[0].0@ == "You win!"@,
        !won ==> r@[0].0@ == "You lost!"@,
        r@[1].0@ == "Press <E>"@,
        forall|i: int|
            0 <= i < 2 ==> (#[trigger] r@[i]).1 == centered_position(
                r@[i].0@.len() as int,
                i,
                2,
            ),
{
    let first: &'static str = if won { "You win!" } else { "You lost!" };
    let lines: Vec<&'static str> = vec![first, "Press <E>"];
    proof {
        reveal_strlit("You win!");
        reveal_strlit("You lost!");
        reveal_strlit("Press <E>");
        assert(is_ascii(lines@[0]) && is_ascii(lines@[1]));
    }
    display_centered_message(&lines)
}

} // verus!
