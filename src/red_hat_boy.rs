use crate::character::{
    step, Event, RedHatBoyContext, RedHatBoyStateMachine, StateKind, event_in_range,
};
use crate::geometry::{Point, Rect};
use crate::sprite::{frame_file_name, frame_key, Cell, Sheet};
use vstd::prelude::*;

verus! {

/// Where the hit box sits inside the drawn sprite.
pub const HIT_X_OFFSET: i16 = 18;

pub const HIT_Y_OFFSET: i16 = 14;

pub const HIT_WIDTH_OFFSET: i16 = 28;

/// The state of the character as the world sees it: its state and its context.
pub type Pose = (StateKind, RedHatBoyContext);

/// Where the sprite of `cell` is drawn for a character with context `c`.
pub open spec fn sprite_box(c: RedHatBoyContext, cell: Cell) -> Rect {
    Rect {
        position: Point {
            x: (c.position.x + cell.sprite_source_size.x) as i16,
            y: (c.position.y + cell.sprite_source_size.y) as i16,
        },
        width: cell.frame.w,
        height: cell.frame.h,
    }
}

/// The corner of `sprite_box(c, cell)` is representable.
pub open spec fn sprite_box_fits(c: RedHatBoyContext, cell: Cell) -> bool {
    &&& i16::MIN <= c.position.x + cell.sprite_source_size.x <= i16::MAX
    &&& i16::MIN <= c.position.y + cell.sprite_source_size.y <= i16::MAX
}

/// The hit box inside a drawn sprite box.
pub open spec fn hit_box(d: Rect) -> Rect {
    Rect {
        position: Point { x: (d.position.x + HIT_X_OFFSET) as i16, y: (d.position.y + HIT_Y_OFFSET) as i16 },
        width: (d.width - HIT_WIDTH_OFFSET) as i16,
        height: (d.height - HIT_Y_OFFSET) as i16,
    }
}

/// Every field of `hit_box(d)` is representable.
pub open spec fn hit_box_fits(d: Rect) -> bool {
    &&& d.position.x + HIT_X_OFFSET <= i16::MAX
    &&& d.position.y + HIT_Y_OFFSET <= i16::MAX
    &&& d.width - HIT_WIDTH_OFFSET >= i16::MIN
    &&& d.height - HIT_Y_OFFSET >= i16::MIN
}

/// Where the picture of a pose is drawn: absent when the atlas lacks the
/// picture or its box is not representable.
pub open spec fn pose_sprite_box(sheet: Sheet, pose: Pose) -> Option<Rect> {
    match sheet.lookup(frame_key(pose.0, pose.1.frame)) {
        Some(cell) => if sprite_box_fits(pose.1, cell) {
            Some(sprite_box(pose.1, cell))
        } else {
            None
        },
        None => None,
    }
}

/// The hit box of a pose, absent with its picture or when not representable.
pub open spec fn pose_hit_box(sheet: Sheet, pose: Pose) -> Option<Rect> {
    match pose_sprite_box(sheet, pose) {
        Some(d) => if hit_box_fits(d) {
            Some(hit_box(d))
        } else {
            None
        },
        None => None,
    }
}

/// The character: its state machine and the atlas its pictures come from.
pub struct RedHatBoy {
    state_machine: RedHatBoyStateMachine,
    sprite_sheet: Sheet,
}

impl RedHatBoy {
    pub closed spec fn pose(&self) -> Pose {
        (self.state_machine.kind(), self.state_machine.ctx())
    }

    pub closed spec fn sheet(&self) -> Sheet {
        self.sprite_sheet
    }

    pub closed spec fn wf(&self) -> bool {
        self.state_machine.wf()
    }

    /// The poses the machine keeps: the invariant of a well-formed character.
    pub proof fn lemma_wf_pose(&self)
        requires
            self.wf(),
        ensures
            self.pose().1.wf_in(self.pose().0),
    {
    }

    /// A character idle at the starting point, drawn from `sheet`.
    pub fn new(sheet: Sheet) -> (r: Self)
        ensures
            r.wf(),
            r.pose() == (StateKind::Idle, crate::character::starting_context()),
            r.sheet() == sheet,
    {
        RedHatBoy { state_machine: RedHatBoyStateMachine::new(), sprite_sheet: sheet }
    }

    pub fn state_kind(&self) -> (r: StateKind)
        ensures
            r == self.pose().0,
    {
        self.state_machine.state_kind()
    }

    pub fn context(&self) -> (r: RedHatBoyContext)
        ensures
            r == self.pose().1,
    {
        *self.state_machine.context()
    }

    /// The atlas name of the picture to show now.
    pub fn frame_name(&self) -> (r: String)
        ensures
            r@ == frame_key(self.pose().0, self.pose().1.frame),
    {
        frame_file_name(self.state_machine.frame_name(), self.state_machine.context().frame)
    }

    /// The atlas cell of the picture to show now, if the atlas has it.
    pub fn current_sprite(&self) -> (r: Option<Cell>)
        ensures
            r == self.sheet().lookup(frame_key(self.pose().0, self.pose().1.frame)),
    {
        let name = self.frame_name();
        self.sprite_sheet.cell(&name)
    }

    /// Where the current picture is drawn (see `pose_sprite_box`).
    pub fn destination_box(&self) -> (r: Option<Rect>)
        ensures
            r == pose_sprite_box(self.sheet(), self.pose()),
    {
        let sprite = match self.current_sprite() {
            Some(sprite) => sprite,
            None => return None,
        };
        let c = self.state_machine.context();
        let x = c.position.x as i32 + sprite.sprite_source_size.x as i32;
        let y = c.position.y as i32 + sprite.sprite_source_size.y as i32;
        if x < i16::MIN as i32 || x > i16::MAX as i32 || y < i16::MIN as i32 || y > i16::MAX as i32 {
            return None;
        }
        Some(Rect::new_from_x_y(x as i16, y as i16, sprite.frame.w, sprite.frame.h))
    }

    /// The box collisions are tested against (see `pose_hit_box`).
    pub fn bounding_box(&self) -> (r: Option<Rect>)
        ensures
            r == pose_hit_box(self.sheet(), self.pose()),
    {
        let d = match self.destination_box() {
            Some(d) => d,
            None => return None,
        };
        if d.x() > i16::MAX - HIT_X_OFFSET || d.y() > i16::MAX - HIT_Y_OFFSET
            || d.width < i16::MIN + HIT_WIDTH_OFFSET || d.height < i16::MIN + HIT_Y_OFFSET {
            return None;
        }
        Some(Rect::new_from_x_y(
            d.x() + HIT_X_OFFSET,
            d.y() + HIT_Y_OFFSET,
            d.width - HIT_WIDTH_OFFSET,
            d.height - HIT_Y_OFFSET,
        ))
    }

    pub fn walking_speed(&self) -> (r: i16)
        ensures
            r == self.pose().1.velocity.x,
    {
        self.state_machine.context().velocity.x
    }

    pub fn velocity_y(&self) -> (r: i16)
        ensures
            r == self.pose().1.velocity.y,
    {
        self.state_machine.context().velocity.y
    }

    pub fn pos_y(&self) -> (r: i16)
        ensures
            r == self.pose().1.position.y,
    {
        self.state_machine.context().position.y
    }

    fn apply(&mut self, event: Event)
        requires
            old(self).wf(),
            event_in_range(old(self).pose().0, event),
        ensures
            final(self).wf(),
            final(self).pose() == step(old(self).pose().0, old(self).pose().1, event),
            final(self).sheet() == old(self).sheet(),
    {
        self.state_machine = self.state_machine.transition(event);
    }

    pub fn update(&mut self)
        requires
            old(self).wf(),
        ensures
            final(self).wf(),
            final(self).pose() == step(old(self).pose().0, old(self).pose().1, Event::Update),
            final(self).sheet() == old(self).sheet(),
    {
        self.apply(Event::Update);
    }

    pub fn run_right(&mut self)
        requires
            old(self).wf(),
        ensures
            final(self).wf(),
            final(self).pose() == step(old(self).pose().0, old(self).pose().1, Event::Run),
            final(self).sheet() == old(self).sheet(),
    {
        self.apply(Event::Run);
    }

    pub fn slide(&mut self)
        requires
            old(self).wf(),
        ensures
            final(self).wf(),
            final(self).pose() == step(old(self).pose().0, old(self).pose().1, Event::Slide),
            final(self).sheet() == old(self).sheet(),
    {
        self.apply(Event::Slide);
    }

    pub fn jump(&mut self)
        requires
            old(self).wf(),
        ensures
            final(self).wf(),
            final(self).pose() == step(old(self).pose().0, old(self).pose().1, Event::Jump),
            final(self).sheet() == old(self).sheet(),
    {
        self.apply(Event::Jump);
    }

    pub fn land_on(&mut self, ground_height: i16)
        requires
            old(self).wf(),
            event_in_range(old(self).pose().0, Event::Land(ground_height)),
        ensures
            final(self).wf(),
            final(self).pose() == step(old(self).pose().0, old(self).pose().1, Event::Land(ground_height)),
            final(self).sheet() == old(self).sheet(),
    {
        self.apply(Event::Land(ground_height));
    }

    pub fn knock_out(&mut self)
        requires
            old(self).wf(),
        ensures
            final(self).wf(),
            final(self).pose() == step(old(self).pose().0, old(self).pose().1, Event::KnockOut),
            final(self).sheet() == old(self).sheet(),
    {
        self.apply(Event::KnockOut);
    }

    /// Reports whether a jump sound is due, and marks it played.
    pub fn take_jump_sound(&mut self) -> (r: bool)
        requires
            old(self).wf(),
        ensures
            r == old(self).pose().1.jump_sound_pending,
            final(self).wf(),
            final(self).pose() == (old(self).pose().0, RedHatBoyContext {
                jump_sound_pending: false,
                ..old(self).pose().1
            }),
            final(self).sheet() == old(self).sheet(),
    {
        let pending = self.state_machine.context().jump_sound_pending;
        self.state_machine = self.state_machine.sound_played();
        pending
    }
}

} // verus!
