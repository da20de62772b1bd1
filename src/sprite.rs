use crate::character::{animation_name, StateKind};
use vstd::prelude::*;
use vstd::string::StringExecFns;

verus! {

/// A rectangle inside the atlas bitmap, in pixels.
#[derive(Clone, Copy, Debug, PartialEq, Eq, Structural)]
pub struct SheetRect {
    pub x: i16,
    pub y: i16,
    pub w: i16,
    pub h: i16,
}

/// One atlas frame: where it lies in the bitmap, and where its visible
/// pixels sit inside the animation cell.
#[derive(Clone, Copy, Debug, PartialEq, Eq, Structural)]
pub struct Cell {
    pub frame: SheetRect,
    pub sprite_source_size: SheetRect,
}

/// A sprite atlas: named frames.  A name given twice means its last entry.
#[derive(Clone, Debug)]
pub struct Sheet {
    pub frames: Vec<(String, Cell)>,
}

/// The cell named `name` in `entries`, the last entry winning.
pub open spec fn cell_lookup(entries: Seq<(String, Cell)>, name: Seq<char>) -> Option<Cell>
    decreases entries.len(),
{
    if entries.len() == 0 {
        None
    } else if entries.last().0@ == name {
        Some(entries.last().1)
    } else {
        cell_lookup(entries.drop_last(), name)
    }
}

pub open spec fn digit_char(d: nat) -> char {
    if d == 0 { '0' }
    else if d == 1 { '1' }
    else if d == 2 { '2' }
    else if d == 3 { '3' }
    else if d == 4 { '4' }
    else if d == 5 { '5' }
    else if d == 6 { '6' }
    else if d == 7 { '7' }
    else if d == 8 { '8' }
    else { '9' }
}

/// The decimal digits of `n`.
pub open spec fn decimal(n: nat) -> Seq<char>
    decreases n,
{
    if n < 10 {
        seq![digit_char(n)]
    } else {
        decimal(n / 10) + seq![digit_char(n % 10)]
    }
}

/// The atlas name of the picture shown in state `kind` at animation frame
/// `frame`: three ticks per picture, pictures numbered from 1.
pub open spec fn frame_key(kind: StateKind, frame: u8) -> Seq<char> {
    animation_name(kind) + " ("@ + decimal(frame as nat / 3 + 1) + ").png"@
}

fn digit_str(d: u8) -> (r: &'static str)
    requires
        d < 10,
    ensures
        r@ == seq![digit_char(d as nat)],
{
    proof {
        reveal_strlit("0");
        reveal_strlit("1");
        reveal_strlit("2");
        reveal_strlit("3");
        reveal_strlit("4");
        reveal_strlit("5");
        reveal_strlit("6");
        reveal_strlit("7");
        reveal_strlit("8");
        reveal_strlit("9");
    }
    if d == 0 { "0" }
    else if d == 1 { "1" }
    else if d == 2 { "2" }
    else if d == 3 { "3" }
    else if d == 4 { "4" }
    else if d == 5 { "5" }
    else if d == 6 { "6" }
    else if d == 7 { "7" }
    else if d == 8 { "8" }
    else { "9" }
}

/// Builds `"<animation> (<frame / 3 + 1>).png"`.
pub fn frame_file_name(animation: &str, frame: u8) -> (r: String)
    ensures
        r@ == animation@ + " ("@ + decimal(frame as nat / 3 + 1) + ").png"@,
{
    let index: u8 = frame / 3 + 1;
    let mut name = String::from_str(animation);
    name.append(" (");
    if index >= 10 {
        name.append(digit_str(index / 10));
    }
    name.append(digit_str(index % 10));
    name.append(").png");
    proof {
        reveal_with_fuel(decimal, 2);
    }
    name
}

impl Sheet {
    pub open spec fn lookup(&self, name: Seq<char>) -> Option<Cell> {
        cell_lookup(self.frames@, name)
    }

    /// The cell named `name`.
    pub fn cell(&self, name: &String) -> (r: Option<Cell>)
        ensures
            r == self.lookup(name@),
    {
        let mut i: usize = self.frames.len();
        assert(self.frames@.subrange(0, i as int) =~= self.frames@);
        while i > 0
            invariant
                i <= self.frames@.len(),
                cell_lookup(self.frames@.subrange(0, i as int), name@) == self.lookup(name@),
            decreases i,
        {
            let ghost prefix = self.frames@.subrange(0, i as int);
            assert(prefix.drop_last() =~= self.frames@.subrange(0, i - 1));
            if self.frames[i - 1].0 == *name {
                return Some(self.frames[i - 1].1);
            }
            i = i - 1;
        }
        None
    }
}

} // verus!
