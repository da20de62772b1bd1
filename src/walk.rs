use crate::character::{step, Event, RUNNING_SPEED};
use crate::geometry::{Point, Rect};
use crate::input::KeyState;
use crate::geometry::boxes_overlap;
use crate::red_hat_boy::{pose_hit_box, Pose, RedHatBoy};
use crate::segment::{
    collide, is_segment, max_right, platform_and_stone, rightmost, stone_and_platform, Image,
    segment_fits, Obstacle, Size, WORLD_LEFT, WORLD_RIGHT,
};
pub use crate::segment::{OBSTACLE_BUFFER, TIMELINE_MINIMUM};
use crate::sprite::Sheet;
use rand::Rng;
use vstd::prelude::*;

verus! {

/// The widest background tile: two tiles side by side stay inside `i16`.
pub const MAX_BACKGROUND_WIDTH: i16 = 16383;

/// The character's pose after it reads the held keys and takes one tick.
pub open spec fn steered(pose: Pose, keys: Set<Seq<char>>) -> Pose {
    let sliding_pose = if keys.contains("ArrowDown"@) { step(pose.0, pose.1, Event::Slide) } else { pose };
    let running_pose = if keys.contains("ArrowRight"@) { step(sliding_pose.0, sliding_pose.1, Event::Run) } else { sliding_pose };
    let jumping_pose = if keys.contains("Space"@) { step(running_pose.0, running_pose.1, Event::Jump) } else { running_pose };
    step(jumping_pose.0, jumping_pose.1, Event::Update)
}

/// The pose after meeting each of `obstacles` in turn.
pub open spec fn collide_all(sheet: Sheet, pose: Pose, obstacles: Seq<Obstacle>) -> Pose
    decreases obstacles.len(),
{
    if obstacles.len() == 0 {
        pose
    } else {
        collide(sheet, collide_all(sheet, pose, obstacles.drop_last()), obstacles.last())
    }
}

/// The obstacles that have not yet scrolled past the left edge.
pub open spec fn visible(obstacles: Seq<Obstacle>) -> Seq<Obstacle> {
    obstacles.filter(|o: Obstacle| o.right_spec() > 0)
}

pub open spec fn image_at_x(i: Image, x: int) -> Image {
    Image {
        position: Point { x: x as i16, y: i.position.y },
        bounding_box: Rect { position: Point { x: x as i16, y: i.bounding_box.position.y }, ..i.bounding_box },
    }
}

/// Two background tiles after scrolling by `velocity`: a tile that has left
/// the screen moves to the right end of the other.
pub open spec fn scrolled(first: Image, second: Image, velocity: i16) -> (Image, Image) {
    let a = first.shifted(velocity);
    let b = second.shifted(velocity);
    let a2 = if a.bounding_box.right_spec() < 0 { image_at_x(a, b.bounding_box.right_spec()) } else { a };
    let b2 = if b.bounding_box.right_spec() < 0 { image_at_x(b, a2.bounding_box.right_spec()) } else { b };
    (a2, b2)
}

/// A background size the scrolling keeps inside `i16`: tiles narrower than
/// one tick of running would leapfrog leftwards without bound.
pub open spec fn background_size_ok(s: Size) -> bool {
    RUNNING_SPEED <= s.width <= MAX_BACKGROUND_WIDTH && 0 <= s.height
}

pub open spec fn background_ok(b: Image) -> bool {
    &&& b.bounding_box.position == b.position
    &&& background_size_ok(Size { width: b.bounding_box.width, height: b.bounding_box.height })
    &&& b.position.y == 0
    &&& b.bounding_box.right_spec() >= 0
    &&& b.position.x <= MAX_BACKGROUND_WIDTH
}

pub open spec fn backgrounds_ok(first: Image, second: Image) -> bool {
    &&& background_ok(first)
    &&& background_ok(second)
    &&& first.position.x <= second.bounding_box.right_spec()
    &&& second.position.x <= first.bounding_box.right_spec()
}

/// A play session: the character, the scrolling background, the obstacles,
/// and the x up to which obstacles have been generated.
pub struct Walk {
    pub boy: RedHatBoy,
    pub first_background: Image,
    pub second_background: Image,
    pub obstacles: Vec<Obstacle>,
    pub obstacle_sheet: Sheet,
    pub stone: Size,
    pub timeline: i16,
    /// Set once the character met an obstacle while the atlas had no usable
    /// picture for it; whoever draws the session treats it as fatal.
    pub missing_frame: bool,
}

/// Whether, meeting `obstacles` in turn from `pose`, the character met one
/// while it had no hit box (see `pose_hit_box`).
pub open spec fn met_blind(sheet: Sheet, pose: Pose, obstacles: Seq<Obstacle>) -> bool
    decreases obstacles.len(),
{
    if obstacles.len() == 0 {
        false
    } else {
        met_blind(sheet, pose, obstacles.drop_last())
            || pose_hit_box(sheet, collide_all(sheet, pose, obstacles.drop_last())) is None
    }
}

/// `after` is `before` advanced by one simulation step, with held keys
/// `keys` and, if a segment is generated, layout `layout`.
pub open spec fn is_step(before: Walk, after: Walk, keys: Set<Seq<char>>, layout: u8) -> bool {
    let pose = steered(before.boy.pose(), keys);
    let velocity = -pose.1.velocity.x;
    let kept = visible(before.obstacles@);
    let n = kept.len();
    let moved = after.obstacles@.subrange(0, n as int);
    let added = after.obstacles@.subrange(n as int, after.obstacles@.len() as int);
    &&& after.boy.sheet() == before.boy.sheet()
    &&& after.obstacle_sheet == before.obstacle_sheet
    &&& after.stone == before.stone
    &&& (after.first_background, after.second_background)
        == scrolled(before.first_background, before.second_background, velocity as i16)
    &&& n <= after.obstacles@.len()
    &&& forall|i: int| 0 <= i < n ==> (#[trigger] moved[i]).is_shift_of(kept[i], velocity as i16)
    &&& after.boy.pose() == collide_all(before.boy.sheet(), pose, moved)
    &&& after.missing_frame == (before.missing_frame || met_blind(before.boy.sheet(), pose, moved))
    &&& if before.timeline < TIMELINE_MINIMUM {
        &&& is_segment(added, layout, before.stone, before.obstacle_sheet, (before.timeline + OBSTACLE_BUFFER) as i16)
        &&& after.timeline == max_right(added)
    } else {
        &&& added.len() == 0
        &&& after.timeline == before.timeline + velocity
    }
}

/// `after` is `before` advanced by `n` simulation steps with held keys
/// `keys`, each step adding, if it adds one, a segment of either layout.
pub open spec fn reaches(before: Walk, after: Walk, keys: Set<Seq<char>>, n: nat) -> bool
    decreases n,
{
    if n == 0 {
        before == after
    } else {
        exists|mid: Walk, layout: u8|
            layout < 2 && reaches(before, mid, keys, (n - 1) as nat) && #[trigger] is_step(mid, after, keys, layout)
    }
}

/// Relies on rand's `Rng::gen_range` with the thread-local generator:
/// the value drawn lies in the half-open range.
#[verifier::external_body]
fn random_layout() -> (r: u8)
    ensures
        r < 2,
{
    rand::thread_rng().gen_range(0..2)
}

proof fn lemma_visible_push(s: Seq<Obstacle>, item: Obstacle)
    ensures
        visible(s.push(item)) == if item.right_spec() > 0 {
            visible(s).push(item)
        } else {
            visible(s)
        },
{
    s.lemma_filter_push(item, |o: Obstacle| o.right_spec() > 0);
}

impl Walk {
    pub open spec fn wf(&self) -> bool {
        &&& self.boy.wf()
        &&& self.stone.fits_stone()
        &&& WORLD_LEFT <= self.timeline <= WORLD_RIGHT
        &&& forall|i: int| 0 <= i < self.obstacles@.len() ==> (#[trigger] self.obstacles@[i]).in_world()
        &&& backgrounds_ok(self.first_background, self.second_background)
    }

    /// A session at its start: the character idle, two background tiles side
    /// by side, and a first segment of stone and platform at x = 0.
    pub fn new(boy_sheet: Sheet, background: Size, stone: Size, obstacle_sheet: Sheet) -> (r: Walk)
        requires
            background_size_ok(background),
            stone.fits_stone(),
        ensures
            is_new_walk(r, boy_sheet, background, stone, obstacle_sheet),
    {
        let boy = RedHatBoy::new(boy_sheet);
        let obstacles = stone_and_platform(stone, &obstacle_sheet, 0);
        let timeline = rightmost(&obstacles);
        proof {
            crate::segment::lemma_segment_in_world(obstacles@, 0, stone, obstacle_sheet, 0);
            crate::segment::lemma_max_right_bounds(obstacles@);
        }
        Walk {
            boy,
            first_background: Image::new(Point { x: 0, y: 0 }, background),
            second_background: Image::new(Point { x: background.width, y: 0 }, background),
            obstacles,
            obstacle_sheet,
            stone,
            timeline,
            missing_frame: false,
        }
    }

    /// How far the world moves per tick: against the character's running speed.
    pub fn velocity(&self) -> (r: i16)
        requires
            self.wf(),
        ensures
            r == -self.boy.pose().1.velocity.x,
            -RUNNING_SPEED <= r <= 0,
    {
        proof {
            self.boy.lemma_wf_pose();
        }
        -self.boy.walking_speed()
    }

    /// Appends the segment of layout `layout` after the generated world and
    /// moves the timeline to its right end, at least a platform past the
    /// insertion point.
    pub fn generate_next_segment(&mut self, layout: u8)
        requires
            old(self).wf(),
            segment_fits(layout, old(self).stone, old(self).timeline + OBSTACLE_BUFFER),
        ensures
            final(self).timeline >= old(self).timeline + OBSTACLE_BUFFER + crate::segment::FIRST_OFFSET
                + crate::segment::PLATFORM_WIDTH,
            final(self).wf(),
            final(self).obstacles@.len() == old(self).obstacles@.len() + 2,
            final(self).obstacles@.subrange(0, old(self).obstacles@.len() as int) == old(self).obstacles@,
            is_segment(
                final(self).obstacles@.subrange(old(self).obstacles@.len() as int, final(self).obstacles@.len() as int),
                layout,
                old(self).stone,
                old(self).obstacle_sheet,
                (old(self).timeline + OBSTACLE_BUFFER) as i16,
            ),
            final(self).timeline == max_right(
                final(self).obstacles@.subrange(old(self).obstacles@.len() as int, final(self).obstacles@.len() as int),
            ),
            final(self).boy == old(self).boy,
            final(self).first_background == old(self).first_background,
            final(self).second_background == old(self).second_background,
            final(self).obstacle_sheet == old(self).obstacle_sheet,
            final(self).stone == old(self).stone,
            final(self).missing_frame == old(self).missing_frame,
    {
        let offset = self.timeline + OBSTACLE_BUFFER;
        let mut next_obstacles = if layout == 0 {
            stone_and_platform(self.stone, &self.obstacle_sheet, offset)
        } else {
            platform_and_stone(self.stone, &self.obstacle_sheet, offset)
        };
        let ghost added = next_obstacles@;
        let ghost before = self.obstacles@;
        self.timeline = rightmost(&next_obstacles);
        proof {
            crate::segment::lemma_segment_in_world(added, layout, self.stone, self.obstacle_sheet, offset);
            crate::segment::lemma_max_right_bounds(added);
            reveal_with_fuel(max_right, 3);
            assert(added.drop_last() =~= seq![added[0]]);
            assert(added.last() == added[1]);
            if layout == 0 {
                assert(added[1].boxes().last() == added[1].boxes()[2]);
            } else {
                assert(added[0].boxes().last() == added[0].boxes()[2]);
            }
        }
        self.obstacles.append(&mut next_obstacles);
        proof {
            assert(self.obstacles@.subrange(0, before.len() as int) =~= before);
            assert(self.obstacles@.subrange(before.len() as int, self.obstacles@.len() as int) =~= added);
            assert forall|i: int| 0 <= i < self.obstacles@.len() implies (#[trigger] self.obstacles@[i]).in_world() by {
                if i < before.len() {
                    assert(self.obstacles@[i] == before[i]);
                } else {
                    assert(self.obstacles@[i] == added[i - before.len()]);
                }
            }
        }
    }

    fn scroll_backgrounds(&mut self, velocity: i16)
        requires
            old(self).wf(),
            -RUNNING_SPEED <= velocity <= 0,
        ensures
            final(self).wf(),
            (final(self).first_background, final(self).second_background)
                == scrolled(old(self).first_background, old(self).second_background, velocity),
            final(self).boy == old(self).boy,
            final(self).obstacles@ == old(self).obstacles@,
            final(self).obstacle_sheet == old(self).obstacle_sheet,
            final(self).stone == old(self).stone,
            final(self).timeline == old(self).timeline,
            final(self).missing_frame == old(self).missing_frame,
    {
        self.first_background.move_horizontally(velocity);
        self.second_background.move_horizontally(velocity);
        if self.first_background.right() < 0 {
            let x = self.second_background.right();
            self.first_background.set_x(x);
        }
        if self.second_background.right() < 0 {
            let x = self.first_background.right();
            self.second_background.set_x(x);
        }
    }

    /// One simulation step: keys, character tick, scrolling, culling,
    /// collisions, then segment generation with layout `layout`.
    pub fn step(&mut self, keystate: &KeyState, layout: u8)
        requires
            old(self).wf(),
        ensures
            final(self).wf(),
            is_step(*old(self), *final(self), keystate@, layout),
    {
        let ghost start = *self;
        if keystate.is_pressed("ArrowDown") {
            self.boy.slide();
        }
        if keystate.is_pressed("ArrowRight") {
            self.boy.run_right();
        }
        if keystate.is_pressed("Space") {
            self.boy.jump();
        }
        self.boy.update();
        let ghost pose = self.boy.pose();
        assert(pose == steered(start.boy.pose(), keystate@));
        let velocity = self.velocity();
        self.scroll_backgrounds(velocity);

        let ghost sheet = self.boy.sheet();
        let mut pending: Vec<Obstacle> = Vec::new();
        core::mem::swap(&mut self.obstacles, &mut pending);
        let ghost all = pending@;
        let ghost mut done: int = 0;
        assert(visible(all.subrange(0, 0)) =~= Seq::<Obstacle>::empty());
        assert(all.subrange(0, all.len() as int) =~= all);
        while pending.len() > 0
            invariant
                0 <= done <= all.len(),
                pending@ == all.subrange(done, all.len() as int),
                forall|i: int| 0 <= i < all.len() ==> (#[trigger] all[i]).in_world(),
                self.obstacles@.len() == visible(all.subrange(0, done)).len(),
                forall|i: int| 0 <= i < self.obstacles@.len() ==> (#[trigger] self.obstacles@[i]).is_shift_of(
                    visible(all.subrange(0, done))[i],
                    velocity,
                ),
                forall|i: int| 0 <= i < self.obstacles@.len() ==> (#[trigger] self.obstacles@[i]).in_world(),
                self.boy.wf(),
                self.boy.sheet() == sheet,
                self.boy.pose() == collide_all(sheet, pose, self.obstacles@),
                self.missing_frame == (start.missing_frame || met_blind(sheet, pose, self.obstacles@)),
                -RUNNING_SPEED <= velocity <= 0,
                self.stone == start.stone,
                self.obstacle_sheet == start.obstacle_sheet,
                self.timeline == start.timeline,
                backgrounds_ok(self.first_background, self.second_background),
                (self.first_background, self.second_background) == scrolled(start.first_background, start.second_background, velocity),
            decreases pending@.len(),
        {
            let mut obstacle = pending.remove(0);
            proof {
                assert(obstacle == all[done]);
                assert(all.subrange(0, done + 1) =~= all.subrange(0, done).push(all[done]));
                lemma_visible_push(all.subrange(0, done), all[done]);
                assert(pending@ =~= all.subrange(done + 1, all.len() as int));
            }
            if obstacle.right() > 0 {
                let ghost before_move = obstacle;
                let ghost moved_before = self.obstacles@;
                proof {
                    crate::segment::lemma_in_world_moves(obstacle, velocity);
                }
                obstacle.move_horizontally(velocity);
                proof {
                    crate::segment::lemma_shift_in_world(before_move, obstacle, velocity);
                }
                let sighted = obstacle.check_intersection(&mut self.boy);
                if !sighted {
                    self.missing_frame = true;
                }
                self.obstacles.push(obstacle);
                proof {
                    assert(self.obstacles@.drop_last() =~= moved_before);
                    assert(self.obstacles@.last() == obstacle);
                    let f = visible(all.subrange(0, done + 1));
                    assert(f == visible(all.subrange(0, done)).push(before_move));
                    assert forall|i: int| 0 <= i < self.obstacles@.len() implies (#[trigger] self.obstacles@[i]).is_shift_of(f[i], velocity) by {
                        if i < moved_before.len() {
                            assert(self.obstacles@[i] == moved_before[i]);
                        }
                    }
                    assert forall|i: int| 0 <= i < self.obstacles@.len() implies (#[trigger] self.obstacles@[i]).in_world() by {
                        if i < moved_before.len() {
                            assert(self.obstacles@[i] == moved_before[i]);
                        }
                    }
                }
            } else {
                proof {
                    assert(visible(all.subrange(0, done + 1)) == visible(all.subrange(0, done)));
                }
            }
            proof {
                done = done + 1;
            }
        }
        proof {
            assert(all.subrange(0, done) =~= all);
            assert(self.obstacles@.subrange(0, self.obstacles@.len() as int) =~= self.obstacles@);
        }
        let ghost kept_len = self.obstacles@.len();
        let ghost moved = self.obstacles@;
        if self.timeline < TIMELINE_MINIMUM {
            self.generate_next_segment(layout);
            proof {
                assert(self.obstacles@.len() >= kept_len);
                assert(self.obstacles@.subrange(0, kept_len as int) == moved);
            }
        } else {
            self.timeline = self.timeline + velocity;
            proof {
                assert(self.obstacles@.subrange(kept_len as int, kept_len as int) =~= Seq::<Obstacle>::empty());
            }
        }
    }

    /// One simulation step, with the next segment's layout drawn at random.
    pub fn update(&mut self, keystate: &KeyState)
        requires
            old(self).wf(),
        ensures
            final(self).wf(),
            exists|layout: u8| layout < 2 && is_step(*old(self), *final(self), keystate@, layout),
    {
        let layout = random_layout();
        self.step(keystate, layout);
    }
}

/// The assets a session is built from, once loaded.
pub struct Assets {
    pub character_sheet: Sheet,
    pub background: Size,
    pub stone: Size,
    pub obstacle_sheet: Sheet,
}

/// Image sizes the world can represent (see `background_size_ok` and
/// `Size::fits_stone`); the atlases need nothing.
pub open spec fn assets_fit(assets: Assets) -> bool {
    background_size_ok(assets.background) && assets.stone.fits_stone()
}

/// `w` is the session `Walk::new` builds from these assets.
pub open spec fn is_new_walk(w: Walk, boy_sheet: Sheet, background: Size, stone: Size, obstacle_sheet: Sheet) -> bool {
    &&& w.wf()
    &&& w.boy.pose() == (crate::character::StateKind::Idle, crate::character::starting_context())
    &&& w.boy.sheet() == boy_sheet
    &&& w.first_background == Image::placed(Point { x: 0, y: 0 }, background)
    &&& w.second_background == Image::placed(Point { x: background.width, y: 0 }, background)
    &&& is_segment(w.obstacles@, 0, stone, obstacle_sheet, 0)
    &&& w.timeline == max_right(w.obstacles@)
    &&& w.obstacle_sheet == obstacle_sheet
    &&& w.stone == stone
    &&& !w.missing_frame
}

/// Why a session could not start.
#[derive(Clone, Copy, Debug, PartialEq, Eq, Structural)]
pub enum GameError {
    /// The session is already running; sessions start once.
    AlreadyInitialized,
}

/// The game: loading until its assets are in, then a running session.
pub enum WalkTheDog {
    Loading,
    Loaded(Walk),
}

impl WalkTheDog {
    pub open spec fn wf(&self) -> bool {
        match self {
            WalkTheDog::Loading => true,
            WalkTheDog::Loaded(w) => w.wf(),
        }
    }

    pub fn new() -> (r: Self)
        ensures
            r is Loading,
    {
        WalkTheDog::Loading
    }

    /// Starts the session from the loaded assets.  A picture the character
    /// atlas lacks is only noticed when it is drawn.
    pub fn initialize(&self, assets: Assets) -> (r: Result<WalkTheDog, GameError>)
        requires
            self is Loading ==> assets_fit(assets),
        ensures
            self is Loaded ==> r == Err::<WalkTheDog, GameError>(GameError::AlreadyInitialized),
            self is Loading ==> match r {
                Ok(WalkTheDog::Loaded(w)) => is_new_walk(
                    w,
                    assets.character_sheet,
                    assets.background,
                    assets.stone,
                    assets.obstacle_sheet,
                ),
                _ => false,
            },
    {
        match self {
            WalkTheDog::Loaded(_) => Err(GameError::AlreadyInitialized),
            WalkTheDog::Loading => {
                let walk = Walk::new(assets.character_sheet, assets.background, assets.stone, assets.obstacle_sheet);
                Ok(WalkTheDog::Loaded(walk))
            },
        }
    }

    /// One simulation step of a running session; nothing while loading.
    pub fn update(&mut self, keystate: &KeyState)
        requires
            old(self).wf(),
        ensures
            final(self).wf(),
            *old(self) is Loading ==> *final(self) is Loading,
            match (*old(self), *final(self)) {
                (WalkTheDog::Loaded(before), WalkTheDog::Loaded(after)) =>
                    exists|layout: u8| layout < 2 && is_step(before, after, keystate@, layout),
                (WalkTheDog::Loading, WalkTheDog::Loading) => true,
                _ => false,
            },
    {
        match self {
            WalkTheDog::Loaded(walk) => walk.update(keystate),
            WalkTheDog::Loading => {},
        }
    }
}

/// Culling: after a step, every obstacle carried over is the moved copy of
/// one whose right edge was past 0; none whose right edge was at or before 0
/// is carried over.
pub proof fn lemma_step_culls(before: Walk, after: Walk, keys: Set<Seq<char>>, layout: u8)
    requires
        is_step(before, after, keys, layout),
    ensures
        forall|i: int| 0 <= i < visible(before.obstacles@).len() ==> {
            &&& (#[trigger] visible(before.obstacles@)[i]).right_spec() > 0
            &&& after.obstacles@[i].is_shift_of(
                visible(before.obstacles@)[i],
                (-steered(before.boy.pose(), keys).1.velocity.x) as i16,
            )
        },
        forall|j: int| 0 <= j < before.obstacles@.len() && (#[trigger] before.obstacles@[j]).right_spec() <= 0
            ==> !visible(before.obstacles@).contains(before.obstacles@[j]),
{
    let kept = visible(before.obstacles@);
    before.obstacles@.filter_lemma(|o: Obstacle| o.right_spec() > 0);
    let n = kept.len();
    let moved = after.obstacles@.subrange(0, n as int);
    let v = (-steered(before.boy.pose(), keys).1.velocity.x) as i16;
    assert forall|i: int| 0 <= i < n implies {
        &&& (#[trigger] kept[i]).right_spec() > 0
        &&& after.obstacles@[i].is_shift_of(kept[i], v)
    } by {
        assert(after.obstacles@[i] == moved[i]);
        assert(moved[i].is_shift_of(kept[i], v));
    }
    assert forall|j: int| 0 <= j < before.obstacles@.len() && (#[trigger] before.obstacles@[j]).right_spec() <= 0
        implies !kept.contains(before.obstacles@[j]) by {
        if kept.contains(before.obstacles@[j]) {
            let k = choose|k: int| 0 <= k < kept.len() && kept[k] == before.obstacles@[j];
            assert(kept[k].right_spec() > 0);
        }
    }
}

/// The timeline cursor: below the minimum, a step adds a segment and moves
/// the cursor to its rightmost edge, at least a platform's width past the
/// insertion point; otherwise it follows the scroll and ends at most one
/// tick's scroll below the minimum, so it never stays below for two steps
/// without a segment being added.
pub proof fn lemma_timeline_tracks(before: Walk, after: Walk, keys: Set<Seq<char>>, layout: u8)
    requires
        before.wf(),
        is_step(before, after, keys, layout),
    ensures
        before.timeline < TIMELINE_MINIMUM ==> {
            let n = visible(before.obstacles@).len();
            &&& after.timeline == max_right(after.obstacles@.subrange(n as int, after.obstacles@.len() as int))
            &&& after.timeline >= before.timeline + OBSTACLE_BUFFER + crate::segment::FIRST_OFFSET
                + crate::segment::PLATFORM_WIDTH
        },
        before.timeline >= TIMELINE_MINIMUM ==> after.timeline >= TIMELINE_MINIMUM - RUNNING_SPEED,
{
    before.boy.lemma_wf_pose();
    let start_pose = before.boy.pose();
    let sliding_pose = if keys.contains("ArrowDown"@) { step(start_pose.0, start_pose.1, Event::Slide) } else { start_pose };
    let running_pose = if keys.contains("ArrowRight"@) { step(sliding_pose.0, sliding_pose.1, Event::Run) } else { sliding_pose };
    let jumping_pose = if keys.contains("Space"@) { step(running_pose.0, running_pose.1, Event::Jump) } else { running_pose };
    crate::character::lemma_step_keeps_wf(start_pose.0, start_pose.1, Event::Slide);
    crate::character::lemma_step_keeps_wf(sliding_pose.0, sliding_pose.1, Event::Run);
    crate::character::lemma_step_keeps_wf(running_pose.0, running_pose.1, Event::Jump);
    crate::character::lemma_step_keeps_wf(jumping_pose.0, jumping_pose.1, Event::Update);
    if before.timeline < TIMELINE_MINIMUM {
        let n = visible(before.obstacles@).len();
        let added = after.obstacles@.subrange(n as int, after.obstacles@.len() as int);
        reveal_with_fuel(max_right, 3);
        assert(added.drop_last() =~= seq![added[0]]);
        assert(added.last() == added[1]);
        if layout == 0 {
            assert(added[1].boxes().last() == added[1].boxes()[2]);
        } else {
            assert(added[0].boxes().last() == added[0].boxes()[2]);
        }
    }
}

proof fn lemma_collide_all_quiet(sheet: Sheet, pose: Pose, obstacles: Seq<Obstacle>)
    requires
        forall|i: int| 0 <= i < obstacles.len() ==> collide(sheet, pose, #[trigger] obstacles[i]) == pose,
    ensures
        collide_all(sheet, pose, obstacles) == pose,
    decreases obstacles.len(),
{
    if obstacles.len() > 0 {
        let rest = obstacles.drop_last();
        assert forall|i: int| 0 <= i < rest.len() implies collide(sheet, pose, #[trigger] rest[i]) == pose by {
            assert(rest[i] == obstacles[i]);
        }
        lemma_collide_all_quiet(sheet, pose, rest);
        assert(obstacles.last() == obstacles[obstacles.len() - 1]);
    }
}

/// A quiet step: with none of the steering keys held, and no box of the
/// moved obstacles overlapping the character's hit box, a step is exactly one
/// update of the character, which advances its frame by one or wraps it.
pub proof fn lemma_quiet_step(before: Walk, after: Walk, keys: Set<Seq<char>>, layout: u8)
    requires
        is_step(before, after, keys, layout),
        !keys.contains("ArrowDown"@),
        !keys.contains("ArrowRight"@),
        !keys.contains("Space"@),
        forall|i: int, j: int| 0 <= i < visible(before.obstacles@).len() && 0 <= j < after.obstacles@[i].boxes().len()
            ==> match pose_hit_box(before.boy.sheet(), step(before.boy.pose().0, before.boy.pose().1, Event::Update)) {
                Some(hit) => !boxes_overlap(hit, #[trigger] after.obstacles@[i].boxes()[j]),
                None => true,
            },
    ensures
        after.boy.pose() == step(before.boy.pose().0, before.boy.pose().1, Event::Update),
{
    let sheet = before.boy.sheet();
    let pose = step(before.boy.pose().0, before.boy.pose().1, Event::Update);
    let n = visible(before.obstacles@).len();
    let moved = after.obstacles@.subrange(0, n as int);
    assert forall|i: int| 0 <= i < moved.len() implies collide(sheet, pose, #[trigger] moved[i]) == pose by {
        assert(moved[i] == after.obstacles@[i]);
        if let Some(hit) = pose_hit_box(sheet, pose) {
            let o = moved[i];
            assert forall|j: int| 0 <= j < o.boxes().len() implies !boxes_overlap(hit, #[trigger] o.boxes()[j]) by {
                assert(o.boxes()[j] == after.obstacles@[i].boxes()[j]);
            }
            match o {
                Obstacle::Barrier(b) => {
                    assert(o.boxes()[0] == b.image.bounding_box);
                },
                Obstacle::Platform(p) => {
                    assert forall|j: int| 0 <= j < p.bounding_boxes@.len() implies
                        !boxes_overlap(#[trigger] p.bounding_boxes@[j], hit) by {
                        assert(o.boxes()[j] == p.bounding_boxes@[j]);
                        assert(!boxes_overlap(hit, o.boxes()[j]));
                    }
                    lemma_no_first_overlap_either_order(p.bounding_boxes@, hit);
                },
            }
        }
    }
    lemma_collide_all_quiet(sheet, pose, moved);
}

proof fn lemma_no_first_overlap_either_order(boxes: Seq<Rect>, hit: Rect)
    requires
        forall|j: int| 0 <= j < boxes.len() ==> !boxes_overlap(#[trigger] boxes[j], hit),
    ensures
        crate::segment::first_overlap(boxes, hit) is None,
    decreases boxes.len(),
{
    if boxes.len() > 0 {
        let rest = boxes.skip(1);
        assert(!boxes_overlap(boxes[0], hit));
        assert forall|j: int| 0 <= j < rest.len() implies !boxes_overlap(#[trigger] rest[j], hit) by {
            assert(rest[j] == boxes[j + 1]);
        }
        lemma_no_first_overlap_either_order(rest, hit);
    }
}

} // verus!
