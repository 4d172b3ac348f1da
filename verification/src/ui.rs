//! The screen: its size, its regions, and text for labels.

use vstd::prelude::*;

verus! {

pub const SCREEN_W: u16 = 480;

pub const SCREEN_H: u16 = 800;

/// The difference, or 0.
pub open spec fn less(a: int, b: int) -> int {
    if a > b {
        a - b
    } else {
        0
    }
}

/// A rectangle of the screen.
#[derive(Clone, Copy, Debug, PartialEq, Eq, Structural)]
pub struct Region {
    pub x: u16,
    pub y: u16,
    pub w: u16,
    pub h: u16,
}

impl Region {
    /// Whether the pixel is in the region.
    pub open spec fn holds(self, px: int, py: int) -> bool {
        self.x <= px < self.x + self.w && self.y <= py < self.y + self.h
    }

    pub fn new(x: u16, y: u16, w: u16, h: u16) -> (r: Region)
        ensures
            r == (Region { x, y, w, h }),
    {
        Region { x, y, w, h }
    }

    /// Whether the regions share a pixel.
    pub fn intersects(&self, o: Region) -> (b: bool)
        ensures
            b == exists|px: int, py: int| #[trigger] self.holds(px, py) && o.holds(px, py),
    {
        let sx1: u32 = self.x as u32 + self.w as u32;
        let ox1: u32 = o.x as u32 + o.w as u32;
        let sy1: u32 = self.y as u32 + self.h as u32;
        let oy1: u32 = o.y as u32 + o.h as u32;
        let b: bool = self.w > 0 && self.h > 0 && o.w > 0 && o.h > 0 && (self.x as u32) < ox1
            && (o.x as u32) < sx1 && (self.y as u32) < oy1 && (o.y as u32) < sy1;
        proof {
            if b {
                let px = if self.x > o.x {
                    self.x as int
                } else {
                    o.x as int
                };
                let py = if self.y > o.y {
                    self.y as int
                } else {
                    o.y as int
                };
                assert(self.holds(px, py) && o.holds(px, py));
            }
        }
        b
    }

    pub open spec fn spec_screen() -> Region {
        Region { x: 0, y: 0, w: SCREEN_W, h: SCREEN_H }
    }

    /// The whole screen.
    pub fn screen() -> (r: Region)
        ensures
            r == Region::spec_screen(),
    {
        Region { x: 0, y: 0, w: SCREEN_W, h: SCREEN_H }
    }
}

// ── text ──────────────────────────────────────────────────────────

/// A digit as a character.
pub open spec fn digit(d: nat) -> char {
    if d == 0 {
        '0'
    } else if d == 1 {
        '1'
    } else if d == 2 {
        '2'
    } else if d == 3 {
        '3'
    } else if d == 4 {
        '4'
    } else if d == 5 {
        '5'
    } else if d == 6 {
        '6'
    } else if d == 7 {
        '7'
    } else if d == 8 {
        '8'
    } else {
        '9'
    }
}

/// A number in decimal digits.
pub open spec fn num(n: nat) -> Seq<char>
    decreases n,
{
    if n < 10 {
        seq![digit(n)]
    } else {
        num(n / 10).push(digit(n % 10))
    }
}

fn digit_str(d: u64) -> (s: &'static str)
    requires
        d < 10,
    ensures
        s@ == seq![digit(d as nat)],
{
    proof {
        reveal_strlit("0");
        reveal_strlit("1");
        reveal_strlit("2");
        reveal_strlit("3");
        reveal_strlit("4");
        reveal_strlit("5");
        reveal_strlit("6");
        reveal_strlit("7");
        reveal_strlit("8");
        reveal_strlit("9");
    }
    let s: &'static str = if d == 0 {
        "0"
    } else if d == 1 {
        "1"
    } else if d == 2 {
        "2"
    } else if d == 3 {
        "3"
    } else if d == 4 {
        "4"
    } else if d == 5 {
        "5"
    } else if d == 6 {
        "6"
    } else if d == 7 {
        "7"
    } else if d == 8 {
        "8"
    } else {
        "9"
    };
    proof {
        assert(s@ =~= seq![digit(d as nat)]);
    }
    s
}

/// Append a number.
pub fn push_num(out: &mut String, n: u64)
    ensures
        final(out)@ == old(out)@ + num(n as nat),
    decreases n,
{
    if n >= 10 {
        push_num(out, n / 10);
    }
    out.append(digit_str(n % 10));
    proof {
        assert(out@ =~= old(out)@ + num(n as nat));
    }
}

} // verus!
