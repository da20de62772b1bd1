use crate::input::KeyState;
use crate::walk::{is_step, reaches, WalkTheDog};
use vstd::prelude::*;

verus! {

/// Time is counted in sixtieths of a microsecond, so that one simulation
/// step of 1000/60 ms is a whole number of units.
pub const UNITS_PER_MICROSECOND: u64 = 60;

/// One fixed simulation step: 1000/60 ms.
pub const FRAME_SIZE: u64 = 1_000_000;

/// The longest gap between two callbacks, in microseconds, that the
/// accumulator can absorb without overflowing.
pub const MAX_FRAME_GAP: u64 = u64::MAX / 120;

/// The fixed-step accumulator: when the last callback came, in microseconds,
/// and how much simulated time is owed.
#[derive(Clone, Copy, Debug, PartialEq, Eq, Structural)]
pub struct GameLoop {
    pub last_frame: u64,
    pub accumulated_delta: u64,
}

impl GameLoop {
    pub open spec fn wf(&self) -> bool {
        self.accumulated_delta <= FRAME_SIZE
    }

    /// `now` is a time the loop can take next.
    pub open spec fn accepts(&self, now: u64) -> bool {
        self.last_frame <= now && now - self.last_frame <= MAX_FRAME_GAP
    }

    /// The accumulator after a callback at `now`, before any step is taken.
    pub open spec fn owed(&self, now: u64) -> int {
        self.accumulated_delta + UNITS_PER_MICROSECOND * (now - self.last_frame)
    }

    /// A loop whose first callback is measured from `now`.
    pub fn new(now: u64) -> (r: Self)
        ensures
            r.last_frame == now,
            r.accumulated_delta == 0,
            r.wf(),
    {
        GameLoop { last_frame: now, accumulated_delta: 0 }
    }

    /// Accounts for a callback at `now` and returns how many fixed steps to
    /// run: one for each whole step strictly inside the owed time.
    pub fn advance(&mut self, now: u64) -> (steps: u64)
        requires
            old(self).wf(),
            old(self).accepts(now),
        ensures
            final(self).wf(),
            final(self).last_frame == now,
            steps * FRAME_SIZE + final(self).accumulated_delta == old(self).owed(now),
            old(self).owed(now) > 0 ==> final(self).accumulated_delta > 0,
    {
        let mut delta: u64 = self.accumulated_delta + UNITS_PER_MICROSECOND * (now - self.last_frame);
        let ghost total = delta as int;
        let mut steps: u64 = 0;
        while delta > FRAME_SIZE
            invariant
                steps * FRAME_SIZE + delta == total,
                total > 0 ==> delta > 0,
                total <= u64::MAX,
            decreases delta,
        {
            delta = delta - FRAME_SIZE;
            steps = steps + 1;
        }
        self.accumulated_delta = delta;
        self.last_frame = now;
        steps
    }

    /// One render callback at `now`: the game takes every step it is owed,
    /// each with the same key snapshot.  Drawing is left to the caller.
    pub fn frame(&mut self, now: u64, game: &mut WalkTheDog, keystate: &KeyState) -> (steps: u64)
        requires
            old(self).wf(),
            old(self).accepts(now),
            old(game).wf(),
        ensures
            final(self).wf(),
            final(self).last_frame == now,
            steps * FRAME_SIZE + final(self).accumulated_delta == old(self).owed(now),
            old(self).owed(now) > 0 ==> final(self).accumulated_delta > 0,
            final(game).wf(),
            match (*old(game), *final(game)) {
                (WalkTheDog::Loaded(before), WalkTheDog::Loaded(after)) =>
                    reaches(before, after, keystate@, steps as nat),
                (WalkTheDog::Loading, WalkTheDog::Loading) => true,
                _ => false,
            },
    {
        let ghost initial = *game;
        let steps = self.advance(now);
        let mut i: u64 = 0;
        while i < steps
            invariant
                i <= steps,
                game.wf(),
                initial == *old(game),
                match (initial, *game) {
                    (WalkTheDog::Loaded(before), WalkTheDog::Loaded(now)) =>
                        reaches(before, now, keystate@, i as nat),
                    (WalkTheDog::Loading, WalkTheDog::Loading) => true,
                    _ => false,
                },
            decreases steps - i,
        {
            let ghost previous = *game;
            game.update(keystate);
            let ghost current = *game;
            proof {
                if let (WalkTheDog::Loaded(start), WalkTheDog::Loaded(mid), WalkTheDog::Loaded(next)) =
                    (initial, previous, current) {
                    let layout = choose|layout: u8| layout < 2 && is_step(mid, next, keystate@, layout);
                    assert(layout < 2 && reaches(start, mid, keystate@, i as nat)
                        && is_step(mid, next, keystate@, layout));
                    assert(reaches(start, next, keystate@, (i + 1) as nat));
                }
            }
            i = i + 1;
        }
        steps
    }
}

} // verus!
