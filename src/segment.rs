use crate::character::{step, Event, LOWEST_LANDING, RUNNING_SPEED};
use crate::geometry::{boxes_overlap, Point, Rect};
use crate::red_hat_boy::{pose_hit_box, Pose, RedHatBoy};
use crate::sprite::{Cell, Sheet};
use vstd::prelude::*;
use vstd::string::StringExecFns;

verus! {

pub const STONE_ON_GROUND: i16 = 546;

pub const LOW_PLATFORM: i16 = 420;

pub const HIGH_PLATFORM: i16 = 375;

/// Offsets, from a segment's insertion x, of its first and second obstacle.
pub const FIRST_OFFSET: i16 = 150;

pub const SECOND_OFFSET: i16 = 370;

/// The width of a floating platform and of its two end caps.
pub const PLATFORM_WIDTH: i16 = 384;

pub const PLATFORM_CAP_WIDTH: i16 = 60;

pub const PLATFORM_CAP_HEIGHT: i16 = 54;

pub const PLATFORM_SPAN_WIDTH: i16 = PLATFORM_WIDTH - 2 * PLATFORM_CAP_WIDTH;

pub const PLATFORM_RIGHT_CAP_X: i16 = PLATFORM_WIDTH - PLATFORM_CAP_WIDTH;

pub const PLATFORM_SPAN_HEIGHT: i16 = 93;

/// Below this much generated look-ahead a new segment is added.
pub const TIMELINE_MINIMUM: i16 = 1000;

/// The gap between the end of the generated world and the next segment.
pub const OBSTACLE_BUFFER: i16 = 20;

/// The widest stone a running session holds: a stone this wide still fits
/// in `i16` when its segment is inserted just below the look-ahead minimum.
pub const MAX_OBSTACLE_WIDTH: i16 = i16::MAX - (TIMELINE_MINIMUM + OBSTACLE_BUFFER + SECOND_OFFSET);

/// Bounds on the right edge of an obstacle in a running session: every box,
/// up to `MAX_OBSTACLE_WIDTH` left of it, can then scroll a tick further.
pub const WORLD_LEFT: i16 = i16::MIN + MAX_OBSTACLE_WIDTH;

pub const WORLD_RIGHT: i16 = i16::MAX;

/// The size of a bitmap.
#[derive(Clone, Copy, Debug, PartialEq, Eq, Structural)]
pub struct Size {
    pub width: i16,
    pub height: i16,
}

impl Size {
    /// A stone of this size, standing on the ground, has a representable bottom.
    pub open spec fn stands_on_ground(self) -> bool {
        &&& 0 <= self.width
        &&& 0 <= self.height <= i16::MAX - STONE_ON_GROUND
    }

    /// A stone of this size fits every segment a running session inserts.
    pub open spec fn fits_stone(self) -> bool {
        &&& self.stands_on_ground()
        &&& self.width <= MAX_OBSTACLE_WIDTH
    }
}

/// A bitmap placed in the world, with the box it covers.
#[derive(Clone, Copy, Debug, PartialEq, Eq, Structural)]
pub struct Image {
    pub position: Point,
    pub bounding_box: Rect,
}

impl Image {
    pub open spec fn placed(position: Point, size: Size) -> Image {
        Image { position, bounding_box: Rect { position, width: size.width, height: size.height } }
    }

    pub fn new(position: Point, size: Size) -> (r: Image)
        ensures
            r == Image::placed(position, size),
    {
        Image { position, bounding_box: Rect { position, width: size.width, height: size.height } }
    }

    pub fn bounding_box(&self) -> (r: Rect)
        ensures
            r == self.bounding_box,
    {
        self.bounding_box
    }

    pub fn right(&self) -> (r: i16)
        requires
            self.bounding_box.edges_fit(),
        ensures
            r == self.bounding_box.right_spec(),
    {
        self.bounding_box.right()
    }

    pub fn move_horizontally(&mut self, distance: i16)
        requires
            i16::MIN <= old(self).position.x + distance <= i16::MAX,
            i16::MIN <= old(self).bounding_box.position.x + distance <= i16::MAX,
        ensures
            *final(self) == old(self).shifted(distance),
    {
        self.position.x = self.position.x + distance;
        self.bounding_box.position.x = self.bounding_box.position.x + distance;
    }

    pub fn set_x(&mut self, x: i16)
        ensures
            final(self).position == (Point { x, y: old(self).position.y }),
            final(self).bounding_box == (Rect {
                position: Point { x, y: old(self).bounding_box.position.y },
                ..old(self).bounding_box
            }),
    {
        self.position.x = x;
        self.bounding_box.set_x(x);
    }

    pub open spec fn shifted(self, distance: i16) -> Image {
        Image {
            position: Point { x: (self.position.x + distance) as i16, y: self.position.y },
            bounding_box: shifted_box(self.bounding_box, distance),
        }
    }
}

pub open spec fn shifted_box(b: Rect, distance: i16) -> Rect {
    Rect { position: Point { x: (b.position.x + distance) as i16, y: b.position.y }, ..b }
}

/// A ground-level obstacle: touching it knocks the character out.
#[derive(Clone, Copy, Debug, PartialEq, Eq, Structural)]
pub struct Barrier {
    pub image: Image,
}

impl Barrier {
    pub fn new(image: Image) -> (r: Self)
        ensures
            r.image == image,
    {
        Barrier { image }
    }
}

/// A floating platform made of several boxes, drawn with several sprites.
#[derive(Debug)]
pub struct Platform {
    pub position: Point,
    pub bounding_boxes: Vec<Rect>,
    pub sprites: Vec<Cell>,
}

/// The cells of `names` that the atlas holds, in order; absent names are skipped.
pub open spec fn found_cells(sheet: Sheet, names: Seq<Seq<char>>) -> Seq<Cell>
    decreases names.len(),
{
    if names.len() == 0 {
        Seq::empty()
    } else {
        let before = found_cells(sheet, names.drop_last());
        match sheet.lookup(names.last()) {
            Some(c) => before.push(c),
            None => before,
        }
    }
}

pub open spec fn names_of(names: Seq<String>) -> Seq<Seq<char>> {
    names.map_values(|n: String| n@)
}

/// `boxes` moved by `offset`.
pub open spec fn boxes_at(boxes: Seq<Rect>, offset: Point) -> Seq<Rect> {
    boxes.map_values(|b: Rect| Rect {
        position: Point { x: (b.position.x + offset.x) as i16, y: (b.position.y + offset.y) as i16 },
        ..b
    })
}

/// The first of `boxes` that overlaps `hit`.
pub open spec fn first_overlap(boxes: Seq<Rect>, hit: Rect) -> Option<Rect>
    decreases boxes.len(),
{
    if boxes.len() == 0 {
        None
    } else if boxes_overlap(boxes[0], hit) {
        Some(boxes[0])
    } else {
        first_overlap(boxes.skip(1), hit)
    }
}

/// The x at which the `i`-th sprite of a platform starting at `x0` is drawn:
/// each sprite right after the ones before it.
pub open spec fn sprite_x(x0: int, sprites: Seq<Cell>, i: int) -> int
    decreases i,
{
    if i <= 0 {
        x0
    } else {
        sprite_x(x0, sprites, i - 1) + sprites[i - 1].frame.w
    }
}

pub open spec fn fits_i16(v: int) -> bool {
    i16::MIN <= v <= i16::MAX
}

/// Where a platform sprite is taken from in the atlas bitmap.
pub open spec fn source_rect(c: Cell) -> Rect {
    Rect { position: Point { x: c.frame.x, y: c.frame.y }, width: c.frame.w, height: c.frame.h }
}

/// The atlas source and the destination of the `i`-th sprite of a platform at `p`.
pub open spec fn placement(p: Point, sprites: Seq<Cell>, i: int) -> (Rect, Rect) {
    (source_rect(sprites[i]), Rect {
        position: Point { x: sprite_x(p.x as int, sprites, i) as i16, y: p.y },
        width: sprites[i].frame.w,
        height: sprites[i].frame.h,
    })
}

impl Platform {
    /// The atlas source and the destination of each sprite, left to right,
    /// up to the first whose destination x is not representable.
    pub fn sprite_placements(&self) -> (r: Vec<(Rect, Rect)>)
        ensures
            r@.len() <= self.sprites@.len(),
            r@.len() < self.sprites@.len() ==> !fits_i16(sprite_x(self.position.x as int, self.sprites@, r@.len() as int)),
            forall|i: int| 0 <= i < r@.len() ==> fits_i16(#[trigger] sprite_x(self.position.x as int, self.sprites@, i)),
            forall|i: int| 0 <= i < r@.len() ==> #[trigger] r@[i] == placement(self.position, self.sprites@, i),
    {
        let mut r: Vec<(Rect, Rect)> = Vec::new();
        let mut x: i32 = self.position.x as i32;
        let mut i: usize = 0;
        while i < self.sprites.len() && i16::MIN as i32 <= x && x <= i16::MAX as i32
            invariant
                i <= self.sprites@.len(),
                r@.len() == i,
                x == sprite_x(self.position.x as int, self.sprites@, i as int),
                forall|k: int| 0 <= k < i ==> fits_i16(#[trigger] sprite_x(self.position.x as int, self.sprites@, k)),
                forall|k: int| 0 <= k < i ==> #[trigger] r@[k] == placement(self.position, self.sprites@, k),
            decreases self.sprites@.len() - i,
        {
            let c = self.sprites[i];
            let source = Rect::new_from_x_y(c.frame.x, c.frame.y, c.frame.w, c.frame.h);
            let destination = Rect::new_from_x_y(x as i16, self.position.y, c.frame.w, c.frame.h);
            let ghost before = r@;
            r.push((source, destination));
            proof {
                assert(fits_i16(sprite_x(self.position.x as int, self.sprites@, i as int)));
                assert(r@[i as int] == placement(self.position, self.sprites@, i as int));
                assert forall|k: int| 0 <= k < i + 1 implies #[trigger] r@[k] == placement(self.position, self.sprites@, k) by {
                    if k < i {
                        assert(r@[k] == before[k]);
                    }
                }
            }
            x = x + c.frame.w as i32;
            i = i + 1;
        }
        r
    }

    pub fn new(sheet: &Sheet, position: Point, sprite_names: &Vec<String>, bounding_boxes: &Vec<Rect>) -> (r: Self)
        requires
            forall|i: int| 0 <= i < bounding_boxes@.len() ==> {
                &&& i16::MIN <= #[trigger] bounding_boxes@[i].position.x + position.x <= i16::MAX
                &&& i16::MIN <= bounding_boxes@[i].position.y + position.y <= i16::MAX
            },
        ensures
            r.position == position,
            r.bounding_boxes@ == boxes_at(bounding_boxes@, position),
            r.sprites@ == found_cells(*sheet, names_of(sprite_names@)),
    {
        let mut sprites: Vec<Cell> = Vec::new();
        let mut i: usize = 0;
        while i < sprite_names.len()
            invariant
                i <= sprite_names@.len(),
                sprites@ == found_cells(*sheet, names_of(sprite_names@.subrange(0, i as int))),
            decreases sprite_names@.len() - i,
        {
            proof {
                assert(names_of(sprite_names@.subrange(0, i + 1)).drop_last() =~= names_of(sprite_names@.subrange(0, i as int)));
            }
            match sheet.cell(&sprite_names[i]) {
                Some(c) => sprites.push(c),
                None => {},
            }
            i = i + 1;
        }
        assert(sprite_names@.subrange(0, i as int) =~= sprite_names@);
        let mut boxes: Vec<Rect> = Vec::new();
        let mut j: usize = 0;
        while j < bounding_boxes.len()
            invariant
                j <= bounding_boxes@.len(),
                forall|i: int| 0 <= i < bounding_boxes@.len() ==> {
                    &&& i16::MIN <= #[trigger] bounding_boxes@[i].position.x + position.x <= i16::MAX
                    &&& i16::MIN <= bounding_boxes@[i].position.y + position.y <= i16::MAX
                },
                boxes@ == boxes_at(bounding_boxes@.subrange(0, j as int), position),
            decreases bounding_boxes@.len() - j,
        {
            let b = bounding_boxes[j];
            boxes.push(Rect::new_from_x_y(b.x() + position.x, b.y() + position.y, b.width, b.height));
            proof {
                assert(boxes@ =~= boxes_at(bounding_boxes@.subrange(0, j + 1), position));
            }
            j = j + 1;
        }
        assert(bounding_boxes@.subrange(0, j as int) =~= bounding_boxes@);
        Platform { position, bounding_boxes: boxes, sprites }
    }

    pub fn bounding_boxes(&self) -> (r: &Vec<Rect>)
        ensures
            r@ == self.bounding_boxes@,
    {
        &self.bounding_boxes
    }

    /// The first box that overlaps `rect`.
    pub fn intersects(&self, rect: &Rect) -> (r: Option<Rect>)
        ensures
            r == first_overlap(self.bounding_boxes@, *rect),
    {
        let mut i: usize = 0;
        assert(self.bounding_boxes@.skip(0) =~= self.bounding_boxes@);
        while i < self.bounding_boxes.len()
            invariant
                i <= self.bounding_boxes@.len(),
                first_overlap(self.bounding_boxes@.skip(i as int), *rect) == first_overlap(self.bounding_boxes@, *rect),
            decreases self.bounding_boxes@.len() - i,
        {
            let ghost rest = self.bounding_boxes@.skip(i as int);
            assert(rest[0] == self.bounding_boxes@[i as int]);
            assert(rest.skip(1) =~= self.bounding_boxes@.skip(i + 1));
            if self.bounding_boxes[i].intersects(rect) {
                return Some(self.bounding_boxes[i]);
            }
            i = i + 1;
        }
        None
    }
}

/// What the world scrolls past: a barrier or a platform.
#[derive(Debug)]
pub enum Obstacle {
    Barrier(Barrier),
    Platform(Platform),
}

impl Obstacle {
    pub open spec fn boxes(&self) -> Seq<Rect> {
        match self {
            Obstacle::Barrier(b) => seq![b.image.bounding_box],
            Obstacle::Platform(p) => p.bounding_boxes@,
        }
    }

    pub open spec fn position(&self) -> Point {
        match self {
            Obstacle::Barrier(b) => b.image.position,
            Obstacle::Platform(p) => p.position,
        }
    }

    /// The rightmost x of the obstacle: that of its last box, 0 for a platform without boxes.
    pub open spec fn right_spec(&self) -> int {
        if self.boxes().len() == 0 {
            0
        } else {
            self.boxes().last().right_spec()
        }
    }

    /// The obstacle has boxes, each of them representable (right and bottom
    /// edges included) and one a character can land on.
    pub open spec fn wf(&self) -> bool {
        &&& self.boxes().len() > 0
        &&& forall|i: int| 0 <= i < self.boxes().len() ==> #[trigger] box_ok(self.boxes()[i])
    }

    /// Moving by `distance` keeps the position and every box representable.
    pub open spec fn shift_fits(&self, distance: i16) -> bool {
        &&& i16::MIN <= self.position().x + distance <= i16::MAX
        &&& forall|i: int| 0 <= i < self.boxes().len() ==> {
            &&& i16::MIN <= #[trigger] self.boxes()[i].position.x + distance
            &&& self.boxes()[i].right_spec() + distance <= i16::MAX
        }
    }

    /// Where an obstacle of a running session stands: nothing of it lies more
    /// than `MAX_OBSTACLE_WIDTH` left of its right edge, which is at least
    /// `WORLD_LEFT`.
    pub open spec fn in_world(&self) -> bool {
        &&& self.wf()
        &&& WORLD_LEFT <= self.right_spec()
        &&& self.right_spec() - MAX_OBSTACLE_WIDTH <= self.position().x
        &&& forall|i: int| 0 <= i < self.boxes().len() ==>
            self.right_spec() - MAX_OBSTACLE_WIDTH <= #[trigger] self.boxes()[i].position.x
    }

    /// `self` is `before` moved horizontally by `distance`.
    pub open spec fn is_shift_of(&self, before: Obstacle, distance: i16) -> bool {
        &&& self.position() == Point { x: (before.position().x + distance) as i16, y: before.position().y }
        &&& self.boxes() == before.boxes().map_values(|b: Rect| shifted_box(b, distance))
        &&& match (self, before) {
            (Obstacle::Barrier(_), Obstacle::Barrier(_)) => true,
            (Obstacle::Platform(p), Obstacle::Platform(q)) => p.sprites@ == q.sprites@,
            _ => false,
        }
    }

    pub fn right(&self) -> (r: i16)
        requires
            self.wf(),
        ensures
            r == self.right_spec(),
    {
        match self {
            Obstacle::Barrier(b) => {
                proof {
                    assert(box_ok(self.boxes()[0]));
                }
                b.image.right()
            },
            Obstacle::Platform(p) => {
                let n = p.bounding_boxes.len();
                if n == 0 {
                    0
                } else {
                    proof {
                        assert(box_ok(self.boxes()[n - 1]));
                    }
                    p.bounding_boxes[n - 1].right()
                }
            },
        }
    }

    /// Moves the obstacle, and each of its boxes, by `distance`.
    pub fn move_horizontally(&mut self, distance: i16)
        requires
            old(self).wf(),
            old(self).shift_fits(distance),
        ensures
            final(self).is_shift_of(*old(self), distance),
            final(self).right_spec() == old(self).right_spec() + distance,
            final(self).wf(),
    {
        match self {
            Obstacle::Barrier(b) => {
                proof {
                    assert(box_ok(old(self).boxes()[0]));
                    assert(old(self).boxes()[0].right_spec() + distance <= i16::MAX);
                }
                b.image.move_horizontally(distance);
                proof {
                    assert(self.boxes() =~= old(self).boxes().map_values(|b: Rect| shifted_box(b, distance)));
                    assert(self.boxes().last() == self.boxes()[0]);
                    assert(old(self).boxes().last() == old(self).boxes()[0]);
                    assert(box_ok(self.boxes()[0]));
                }
            },
            Obstacle::Platform(p) => {
                let ghost before = *old(self);
                let mut boxes: Vec<Rect> = Vec::new();
                let mut i: usize = 0;
                while i < p.bounding_boxes.len()
                    invariant
                        i <= p.bounding_boxes@.len(),
                        before.boxes() == p.bounding_boxes@,
                        before.wf(),
                        before.shift_fits(distance),
                        boxes@ == p.bounding_boxes@.subrange(0, i as int).map_values(|b: Rect| shifted_box(b, distance)),
                    decreases p.bounding_boxes@.len() - i,
                {
                    let b = p.bounding_boxes[i];
                    proof {
                        assert(box_ok(before.boxes()[i as int]));
                        assert(i16::MIN <= before.boxes()[i as int].position.x + distance);
                    }
                    boxes.push(Rect::new_from_x_y(b.x() + distance, b.y(), b.width, b.height));
                    proof {
                        assert(boxes@ =~= p.bounding_boxes@.subrange(0, i + 1).map_values(|b: Rect| shifted_box(b, distance)));
                    }
                    i = i + 1;
                }
                proof {
                    assert(p.bounding_boxes@.subrange(0, i as int) =~= p.bounding_boxes@);
                }
                p.bounding_boxes = boxes;
                p.position.x = p.position.x + distance;
                proof {
                    let after = self.boxes();
                    let k = after.len() - 1;
                    assert(box_ok(before.boxes()[k]));
                    assert(before.boxes()[k].right_spec() + distance <= i16::MAX);
                    assert(after.last() == shifted_box(before.boxes().last(), distance));
                    assert(self.right_spec() == before.right_spec() + distance);
                    assert forall|k: int| 0 <= k < after.len() implies #[trigger] box_ok(after[k]) by {
                        assert(box_ok(before.boxes()[k]));
                        assert(i16::MIN <= before.boxes()[k].position.x + distance);
                        assert(before.boxes()[k].right_spec() + distance <= i16::MAX);
                        assert(after[k] == shifted_box(before.boxes()[k], distance));
                    }
                }
            },
        }
    }

    /// Tests the character against the obstacle and applies the resolution.
    /// Reports whether the character had a hit box to test (see `pose_hit_box`).
    pub fn check_intersection(&self, boy: &mut RedHatBoy) -> (sighted: bool)
        requires
            old(boy).wf(),
            self.wf(),
        ensures
            final(boy).wf(),
            final(boy).sheet() == old(boy).sheet(),
            final(boy).pose() == collide(old(boy).sheet(), old(boy).pose(), *self),
            sighted == pose_hit_box(old(boy).sheet(), old(boy).pose()) is Some,
    {
        proof {
            old(boy).lemma_wf_pose();
        }
        let hit = match boy.bounding_box() {
            Some(hit) => hit,
            None => return false,
        };
        match self {
            Obstacle::Barrier(b) => {
                if hit.intersects(&b.image.bounding_box()) {
                    boy.knock_out();
                }
            },
            Obstacle::Platform(p) => {
                match p.intersects(&hit) {
                    Some(box_to_land_on) => {
                        proof {
                            lemma_first_overlap_member(self.boxes(), hit);
                            let k = choose|k: int| 0 <= k < self.boxes().len() && self.boxes()[k] == box_to_land_on;
                            assert(box_ok(self.boxes()[k]));
                        }
                        if boy.velocity_y() > 0 && boy.pos_y() < p.position.y {
                            boy.land_on(box_to_land_on.y());
                        } else {
                            boy.knock_out();
                        }
                    },
                    None => {},
                }
            },
        }
        true
    }
}

/// A box of an obstacle: not inverted, representable to its right and
/// bottom edges, with a top a character can land on.
pub open spec fn box_ok(b: Rect) -> bool {
    &&& 0 <= b.width
    &&& 0 <= b.height
    &&& b.edges_fit()
    &&& b.position.y >= LOWEST_LANDING
}

/// A session's obstacle with its right edge past 0 can scroll one tick.
pub proof fn lemma_in_world_moves(o: Obstacle, distance: i16)
    requires
        o.in_world(),
        o.right_spec() > 0,
        -RUNNING_SPEED <= distance <= 0,
    ensures
        o.shift_fits(distance),
        WORLD_LEFT <= o.right_spec() + distance,
{
    assert forall|i: int| 0 <= i < o.boxes().len() implies {
        &&& i16::MIN <= #[trigger] o.boxes()[i].position.x + distance
        &&& o.boxes()[i].right_spec() + distance <= i16::MAX
    } by {
        assert(box_ok(o.boxes()[i]));
    }
}

/// Scrolling keeps an obstacle in the world while its right edge stays at or
/// past `WORLD_LEFT`.
pub proof fn lemma_shift_in_world(before: Obstacle, after: Obstacle, distance: i16)
    requires
        before.in_world(),
        before.shift_fits(distance),
        after.wf(),
        after.is_shift_of(before, distance),
        after.right_spec() == before.right_spec() + distance,
        WORLD_LEFT <= after.right_spec(),
    ensures
        after.in_world(),
{
    assert forall|i: int| 0 <= i < after.boxes().len() implies
        after.right_spec() - MAX_OBSTACLE_WIDTH <= #[trigger] after.boxes()[i].position.x by {
        assert(after.boxes()[i] == shifted_box(before.boxes()[i], distance));
        assert(before.right_spec() - MAX_OBSTACLE_WIDTH <= before.boxes()[i].position.x);
        assert(box_ok(before.boxes()[i]));
        assert(i16::MIN <= before.boxes()[i].position.x + distance);
        assert(before.boxes()[i].right_spec() + distance <= i16::MAX);
    }
}

proof fn lemma_first_overlap_member(boxes: Seq<Rect>, hit: Rect)
    requires
        first_overlap(boxes, hit) is Some,
    ensures
        exists|k: int| 0 <= k < boxes.len() && boxes[k] == first_overlap(boxes, hit).unwrap(),
    decreases boxes.len(),
{
    if !boxes_overlap(boxes[0], hit) {
        lemma_first_overlap_member(boxes.skip(1), hit);
        let k = choose|k: int| 0 <= k < boxes.skip(1).len() && boxes.skip(1)[k] == first_overlap(boxes, hit).unwrap();
        assert(boxes[k + 1] == boxes.skip(1)[k]);
    } else {
        assert(boxes[0] == first_overlap(boxes, hit).unwrap());
    }
}

/// The event a collision with `o` sends to a character in `pose` with hit box `hit`, if any.
pub open spec fn collision_event(o: Obstacle, pose: Pose, hit: Rect) -> Option<Event> {
    match o {
        Obstacle::Barrier(b) => if boxes_overlap(hit, b.image.bounding_box) {
            Some(Event::KnockOut)
        } else {
            None
        },
        Obstacle::Platform(p) => match first_overlap(p.bounding_boxes@, hit) {
            Some(b) => if pose.1.velocity.y > 0 && pose.1.position.y < p.position.y {
                Some(Event::Land(b.position.y))
            } else {
                Some(Event::KnockOut)
            },
            None => None,
        },
    }
}

/// The character's pose after meeting `o`; a character without a hit box
/// (see `pose_hit_box`) meets nothing.
pub open spec fn collide(sheet: Sheet, pose: Pose, o: Obstacle) -> Pose {
    match pose_hit_box(sheet, pose) {
        Some(hit) => match collision_event(o, pose, hit) {
            Some(e) => step(pose.0, pose.1, e),
            None => pose,
        },
        None => pose,
    }
}

/// The boxes of a floating platform at `p`: left cap, middle span, right cap.
pub open spec fn floating_boxes(p: Point) -> Seq<Rect> {
    seq![
        Rect { position: p, width: PLATFORM_CAP_WIDTH, height: PLATFORM_CAP_HEIGHT },
        Rect {
            position: Point { x: (p.x + PLATFORM_CAP_WIDTH) as i16, y: p.y },
            width: PLATFORM_SPAN_WIDTH,
            height: PLATFORM_SPAN_HEIGHT,
        },
        Rect {
            position: Point { x: (p.x + PLATFORM_RIGHT_CAP_X) as i16, y: p.y },
            width: PLATFORM_CAP_WIDTH,
            height: PLATFORM_CAP_HEIGHT,
        },
    ]
}

/// The atlas names of a floating platform's three sprites.
pub open spec fn floating_sprite_names() -> Seq<Seq<char>> {
    seq!["13.png"@, "14.png"@, "15.png"@]
}

pub open spec fn is_floating_platform_at(o: Obstacle, sheet: Sheet, p: Point) -> bool {
    match o {
        Obstacle::Platform(q) => {
            &&& q.position == p
            &&& q.bounding_boxes@ == floating_boxes(p)
            &&& q.sprites@ == found_cells(sheet, floating_sprite_names())
        },
        _ => false,
    }
}

/// A stone barrier standing at `p`.
pub open spec fn stone_at(stone: Size, p: Point) -> Obstacle {
    Obstacle::Barrier(Barrier {
        image: Image { position: p, bounding_box: Rect { position: p, width: stone.width, height: stone.height } },
    })
}

/// The segment of layout `layout` inserted at `offset_x` is representable:
/// its stone stands on the ground and both right edges fit in `i16`.
pub open spec fn segment_fits(layout: u8, stone: Size, offset_x: int) -> bool {
    &&& stone.stands_on_ground()
    &&& if layout == 0 {
        &&& offset_x + FIRST_OFFSET + stone.width <= i16::MAX
        &&& offset_x + SECOND_OFFSET + PLATFORM_WIDTH <= i16::MAX
    } else {
        &&& offset_x + FIRST_OFFSET + PLATFORM_WIDTH <= i16::MAX
        &&& offset_x + SECOND_OFFSET + stone.width <= i16::MAX
    }
}

/// `s` is the segment of layout `layout` inserted at `offset_x`:
/// layout 0 is a stone then a low platform, layout 1 a high platform then a stone.
pub open spec fn is_segment(s: Seq<Obstacle>, layout: u8, stone: Size, sheet: Sheet, offset_x: i16) -> bool {
    let first = Point { x: (offset_x + FIRST_OFFSET) as i16, y: 0 };
    let second = Point { x: (offset_x + SECOND_OFFSET) as i16, y: 0 };
    &&& s.len() == 2
    &&& if layout == 0 {
        &&& s[0] == stone_at(stone, Point { y: STONE_ON_GROUND, ..first })
        &&& is_floating_platform_at(s[1], sheet, Point { y: LOW_PLATFORM, ..second })
    } else {
        &&& is_floating_platform_at(s[0], sheet, Point { y: HIGH_PLATFORM, ..first })
        &&& s[1] == stone_at(stone, Point { y: STONE_ON_GROUND, ..second })
    }
}

fn floating_platform_boxes() -> (r: Vec<Rect>)
    ensures
        r@ == floating_boxes(Point { x: 0, y: 0 }),
{
    let r = vec![
        Rect::new_from_x_y(0, 0, PLATFORM_CAP_WIDTH, PLATFORM_CAP_HEIGHT),
        Rect::new_from_x_y(PLATFORM_CAP_WIDTH, 0, PLATFORM_SPAN_WIDTH, PLATFORM_SPAN_HEIGHT),
        Rect::new_from_x_y(PLATFORM_RIGHT_CAP_X, 0, PLATFORM_CAP_WIDTH, PLATFORM_CAP_HEIGHT),
    ];
    assert(r@ =~= floating_boxes(Point { x: 0, y: 0 }));
    r
}

fn create_floating_platform(sprite_sheet: &Sheet, position: Point) -> (r: Obstacle)
    requires
        position.x + PLATFORM_WIDTH <= i16::MAX,
        0 <= position.y <= i16::MAX - PLATFORM_SPAN_HEIGHT,
    ensures
        is_floating_platform_at(r, *sprite_sheet, position),
        r.wf(),
        r.right_spec() == position.x + PLATFORM_WIDTH,
{
    let names = vec![String::from_str("13.png"), String::from_str("14.png"), String::from_str("15.png")];
    assert(names_of(names@) =~= floating_sprite_names());
    let boxes = floating_platform_boxes();
    let p = Platform::new(sprite_sheet, position, &names, &boxes);
    assert(p.bounding_boxes@ =~= floating_boxes(position));
    let r = Obstacle::Platform(p);
    assert(r.boxes().last() == r.boxes()[2]);
    assert(box_ok(r.boxes()[0]));
    assert(box_ok(r.boxes()[1]));
    assert(box_ok(r.boxes()[2]));
    r
}

fn create_stone(stone: Size, position: Point) -> (r: Obstacle)
    requires
        stone.stands_on_ground(),
        position.x + stone.width <= i16::MAX,
        position.y == STONE_ON_GROUND,
    ensures
        r == stone_at(stone, position),
        r.wf(),
        r.right_spec() == position.x + stone.width,
{
    let r = Obstacle::Barrier(Barrier::new(Image::new(position, stone)));
    assert(r.boxes().last() == r.boxes()[0]);
    assert(box_ok(r.boxes()[0]));
    r
}

/// A stone on the ground followed by a low floating platform.
pub fn stone_and_platform(stone: Size, sprite_sheet: &Sheet, offset_x: i16) -> (r: Vec<Obstacle>)
    requires
        segment_fits(0, stone, offset_x as int),
    ensures
        is_segment(r@, 0, stone, *sprite_sheet, offset_x),
        forall|i: int| 0 <= i < r@.len() ==> (#[trigger] r@[i]).wf(),
{
    let first = create_stone(stone, Point { x: offset_x + FIRST_OFFSET, y: STONE_ON_GROUND });
    let second = create_floating_platform(sprite_sheet, Point { x: offset_x + SECOND_OFFSET, y: LOW_PLATFORM });
    let r = vec![first, second];
    r
}

/// A high floating platform followed by a stone on the ground.
pub fn platform_and_stone(stone: Size, sprite_sheet: &Sheet, offset_x: i16) -> (r: Vec<Obstacle>)
    requires
        segment_fits(1, stone, offset_x as int),
    ensures
        is_segment(r@, 1, stone, *sprite_sheet, offset_x),
        forall|i: int| 0 <= i < r@.len() ==> (#[trigger] r@[i]).wf(),
{
    let first = create_floating_platform(sprite_sheet, Point { x: offset_x + FIRST_OFFSET, y: HIGH_PLATFORM });
    let second = create_stone(stone, Point { x: offset_x + SECOND_OFFSET, y: STONE_ON_GROUND });
    let r = vec![first, second];
    r
}

/// The largest right edge in `s`; 0 for an empty list.
pub open spec fn max_right(s: Seq<Obstacle>) -> int
    decreases s.len(),
{
    if s.len() == 0 {
        0
    } else if s.len() == 1 {
        s[0].right_spec()
    } else {
        let m = max_right(s.drop_last());
        if s.last().right_spec() > m {
            s.last().right_spec()
        } else {
            m
        }
    }
}

/// The rightmost x over all obstacles of the list, 0 when it is empty.
pub fn rightmost(obstacle_list: &Vec<Obstacle>) -> (r: i16)
    requires
        forall|i: int| 0 <= i < obstacle_list@.len() ==> (#[trigger] obstacle_list@[i]).wf(),
    ensures
        r == max_right(obstacle_list@),
{
    let mut best: i16 = 0;
    let mut i: usize = 0;
    while i < obstacle_list.len()
        invariant
            i <= obstacle_list@.len(),
            forall|k: int| 0 <= k < obstacle_list@.len() ==> (#[trigger] obstacle_list@[k]).wf(),
            best == max_right(obstacle_list@.subrange(0, i as int)),
        decreases obstacle_list@.len() - i,
    {
        let right = obstacle_list[i].right();
        proof {
            let next = obstacle_list@.subrange(0, i + 1);
            assert(next.drop_last() =~= obstacle_list@.subrange(0, i as int));
            assert(next.last() == obstacle_list@[i as int]);
            if i == 0 {
                assert(next[0] == obstacle_list@[0]);
            }
        }
        if i == 0 || right > best {
            best = right;
        }
        i = i + 1;
    }
    assert(obstacle_list@.subrange(0, i as int) =~= obstacle_list@);
    best
}

pub proof fn lemma_max_right_bounds(s: Seq<Obstacle>)
    requires
        s.len() > 0,
        forall|i: int| 0 <= i < s.len() ==> (#[trigger] s[i]).in_world(),
    ensures
        WORLD_LEFT <= max_right(s) <= WORLD_RIGHT,
    decreases s.len(),
{
    let last = s[s.len() - 1];
    assert(last.in_world());
    assert(box_ok(last.boxes()[last.boxes().len() - 1]));
    assert(s.last() == last);
    if s.len() > 1 {
        let rest = s.drop_last();
        assert forall|i: int| 0 <= i < rest.len() implies (#[trigger] rest[i]).in_world() by {
            assert(rest[i] == s[i]);
        }
        lemma_max_right_bounds(rest);
    }
}

/// A segment a running session inserts, with its stone at most
/// `MAX_OBSTACLE_WIDTH` wide and at an insertion point at or past
/// `WORLD_LEFT`, lies in the world.
pub proof fn lemma_segment_in_world(s: Seq<Obstacle>, layout: u8, stone: Size, sheet: Sheet, offset_x: i16)
    requires
        is_segment(s, layout, stone, sheet, offset_x),
        segment_fits(layout, stone, offset_x as int),
        stone.fits_stone(),
        WORLD_LEFT <= offset_x,
        forall|i: int| 0 <= i < s.len() ==> (#[trigger] s[i]).wf(),
    ensures
        forall|i: int| 0 <= i < s.len() ==> (#[trigger] s[i]).in_world(),
{
    assert(s[0].wf());
    assert(s[1].wf());
    let p = if layout == 0 { s[1] } else { s[0] };
    assert(p.boxes().len() == 3);
    assert(p.boxes().last() == p.boxes()[2]);
    let t = if layout == 0 { s[0] } else { s[1] };
    assert(t.boxes().last() == t.boxes()[0]);
    assert(p.in_world());
    assert(t.in_world());
}

/// Tie-break of a platform collision: a descending character whose top is
/// above the platform's top lands on the box it overlaps; one at the
/// platform's height, meeting it from the side, is knocked out.
pub proof fn lemma_platform_tie_break(p: Platform, pose: Pose, hit: Rect)
    requires
        first_overlap(p.bounding_boxes@, hit) is Some,
        pose.1.velocity.y > 0,
    ensures
        pose.1.position.y < p.position.y ==> collision_event(Obstacle::Platform(p), pose, hit)
            == Some(Event::Land(first_overlap(p.bounding_boxes@, hit).unwrap().position.y)),
        pose.1.position.y == p.position.y ==> collision_event(Obstacle::Platform(p), pose, hit)
            == Some(Event::KnockOut),
{
}

} // verus!
