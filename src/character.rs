use crate::geometry::Point;
use vstd::prelude::*;

verus! {

pub const CANVAS_HEIGHT: i16 = 600;

pub const FLOOR: i16 = 479;

pub const STARTING_POINT: i16 = -20;

pub const PLAYER_HEIGHT: i16 = CANVAS_HEIGHT - FLOOR;

pub const IDLE_FRAMES: u8 = 29;

pub const RUNNING_FRAMES: u8 = 23;

pub const SLIDING_FRAMES: u8 = 14;

pub const JUMPING_FRAMES: u8 = 35;

pub const FALLING_FRAMES: u8 = 29;

pub const RUNNING_SPEED: i16 = 4;

pub const JUMP_SPEED: i16 = -25;

pub const GRAVITY: i16 = 1;

pub const FALLING_TERMINAL_SPEED: i16 = 20;

/// How far a jump at `JUMP_SPEED` carries the character above its take-off height.
pub const JUMP_RISE: i16 = 300;

/// The lowest landing height for which the character's later positions,
/// jumps included, stay representable.
pub const LOWEST_LANDING: i16 = i16::MIN + JUMP_RISE + PLAYER_HEIGHT;

/// The lowest landing height at which the character itself stays
/// representable; a knocked-out character never jumps again.
pub const LOWEST_RESTING_LANDING: i16 = i16::MIN + PLAYER_HEIGHT;

/// The highest vertical position from which a tick cannot overflow.
pub const HIGHEST_POSITION: i16 = i16::MAX - FALLING_TERMINAL_SPEED;

/// How far the character still rises while its vertical velocity is `vy`:
/// each tick adds gravity before moving, so from `vy < 0` it moves up
/// `-vy - 1`, then `-vy - 2`, ..., then 0.
pub open spec fn rise(vy: int) -> int
    decreases (if vy < 0 { -vy } else { 0 }),
{
    if vy < 0 {
        (-vy - 1) + rise(vy + 1)
    } else {
        0
    }
}

pub proof fn lemma_rise_bounds(vy: int)
    requires
        JUMP_SPEED <= vy,
    ensures
        0 <= rise(vy) <= JUMP_RISE,
    decreases (if vy < 0 { -vy } else { 0 }),
{
    if vy < 0 {
        lemma_rise_bounds(vy + 1);
        lemma_rise_le_jump(vy);
    }
}

proof fn lemma_rise_le_jump(vy: int)
    requires
        JUMP_SPEED <= vy,
    ensures
        rise(vy) <= rise(JUMP_SPEED as int),
        rise(JUMP_SPEED as int) == JUMP_RISE,
    decreases vy - JUMP_SPEED,
{
    reveal_with_fuel(rise, 27);
    if vy > JUMP_SPEED {
        lemma_rise_le_jump(vy - 1);
        lemma_rise_nonneg(vy);
    }
}

proof fn lemma_rise_nonneg(vy: int)
    ensures
        rise(vy) >= 0,
    decreases (if vy < 0 { -vy } else { 0 }),
{
    if vy < 0 {
        lemma_rise_nonneg(vy + 1);
    }
}

/// The character's physical and animation state, shared by every state of the machine.
#[derive(Clone, Copy, Debug, PartialEq, Eq, Structural)]
pub struct RedHatBoyContext {
    pub frame: u8,
    pub position: Point,
    pub velocity: Point,
    /// Set when a jump starts; whoever owns the audio plays the clip and clears it.
    pub jump_sound_pending: bool,
}

/// The six states of the character.
#[derive(Clone, Copy, Debug, PartialEq, Eq, Structural)]
pub enum StateKind {
    Idle,
    Running,
    Sliding,
    Jumping,
    Falling,
    KnockedOut,
}

/// The events the state machine reacts to.
#[derive(Clone, Copy, Debug, PartialEq, Eq, Structural)]
pub enum Event {
    Run,
    Slide,
    Update,
    Jump,
    KnockOut,
    Land(i16),
}

/// The frame ceiling of each state's animation.
pub open spec fn frame_ceiling(kind: StateKind) -> u8 {
    match kind {
        StateKind::Idle => IDLE_FRAMES,
        StateKind::Running => RUNNING_FRAMES,
        StateKind::Sliding => SLIDING_FRAMES,
        StateKind::Jumping => JUMPING_FRAMES,
        StateKind::Falling => FALLING_FRAMES,
        StateKind::KnockedOut => FALLING_FRAMES,
    }
}

/// An event a state of kind `kind` can take without leaving representable
/// coordinates: only a landing that the state acts on is bounded, from below,
/// so that the character and any later jump stay inside `i16`.
pub open spec fn event_in_range(kind: StateKind, event: Event) -> bool {
    match event {
        Event::Land(h) => match kind {
            StateKind::Running | StateKind::Sliding | StateKind::Jumping => h >= LOWEST_LANDING,
            StateKind::KnockedOut => h >= LOWEST_RESTING_LANDING,
            _ => true,
        },
        _ => true,
    }
}

impl RedHatBoyContext {
    /// Bounds that every state keeps.
    pub open spec fn physics_ok(self) -> bool {
        &&& JUMP_SPEED <= self.velocity.y <= FALLING_TERMINAL_SPEED
        &&& (self.velocity.x == 0 || self.velocity.x == RUNNING_SPEED)
        &&& self.position.x == STARTING_POINT
        &&& self.position.y <= HIGHEST_POSITION
        &&& self.position.y - rise(self.velocity.y as int) >= i16::MIN
    }

    /// The invariant of a context held in a state of kind `kind`.
    pub open spec fn wf_in(self, kind: StateKind) -> bool {
        &&& self.physics_ok()
        &&& self.frame <= frame_ceiling(kind)
        &&& match kind {
            StateKind::Idle => self.velocity.x == 0 && self.can_jump(),
            StateKind::Running | StateKind::Sliding => self.can_jump(),
            _ => true,
        }
    }

    /// A jump from here keeps every later position representable.
    pub open spec fn can_jump(self) -> bool {
        self.position.y - rise(self.velocity.y as int) >= i16::MIN + JUMP_RISE
    }

    /// One tick of physics and animation with the given frame ceiling.
    pub open spec fn ticked(self, frame_count: u8) -> RedHatBoyContext {
        let vy = if self.velocity.y + GRAVITY >= FALLING_TERMINAL_SPEED {
            FALLING_TERMINAL_SPEED as int
        } else {
            self.velocity.y + GRAVITY
        };
        let frame = if self.frame < frame_count {
            self.frame + 1
        } else {
            0
        };
        let y = if self.position.y + vy > FLOOR {
            FLOOR as int
        } else {
            self.position.y + vy
        };
        RedHatBoyContext {
            frame: frame as u8,
            position: Point { x: self.position.x, y: y as i16 },
            velocity: Point { x: self.velocity.x, y: vy as i16 },
            jump_sound_pending: self.jump_sound_pending,
        }
    }

    /// Standing on a surface whose top is at `height`.
    pub open spec fn landed(self, height: i16) -> RedHatBoyContext {
        RedHatBoyContext {
            position: Point { x: self.position.x, y: (height - PLAYER_HEIGHT) as i16 },
            velocity: Point { x: self.velocity.x, y: 0 },
            ..self
        }
    }

    pub open spec fn frame_reset(self) -> RedHatBoyContext {
        RedHatBoyContext { frame: 0, ..self }
    }

    pub open spec fn stopped(self) -> RedHatBoyContext {
        RedHatBoyContext { velocity: Point { x: 0, y: self.velocity.y }, ..self }
    }

    pub open spec fn running_right(self) -> RedHatBoyContext {
        RedHatBoyContext {
            velocity: Point { x: (self.velocity.x + RUNNING_SPEED) as i16, y: self.velocity.y },
            ..self
        }
    }

    pub open spec fn jumped(self) -> RedHatBoyContext {
        RedHatBoyContext {
            frame: 0,
            velocity: Point { x: self.velocity.x, y: JUMP_SPEED },
            jump_sound_pending: true,
            ..self
        }
    }

    /// One tick stays representable: gravity on the vertical velocity, then
    /// the move by the clamped velocity.
    pub open spec fn tick_fits(self) -> bool {
        let vy = if self.velocity.y + GRAVITY >= FALLING_TERMINAL_SPEED {
            FALLING_TERMINAL_SPEED as int
        } else {
            self.velocity.y + GRAVITY
        };
        &&& self.velocity.y + GRAVITY <= i16::MAX
        &&& i16::MIN <= self.position.y + vy <= i16::MAX
    }

    /// A context within the bounds every state keeps can take a tick.
    pub proof fn lemma_physics_tick_fits(self)
        requires
            self.physics_ok(),
        ensures
            self.tick_fits(),
    {
        lemma_rise_bounds(self.velocity.y as int);
        lemma_rise_nonneg(self.velocity.y + 1);
    }

    fn update(self, frame_count: u8) -> (r: Self)
        requires
            self.tick_fits(),
        ensures
            r == self.ticked(frame_count),
            self.physics_ok() ==> r.physics_ok(),
            self.physics_ok() && self.can_jump() ==> r.can_jump(),
    {
        proof {
            if self.physics_ok() {
                lemma_rise_bounds(self.velocity.y as int);
                lemma_rise_nonneg(self.velocity.y + 1);
            }
        }
        let mut c = self;
        c.velocity.y = c.velocity.y + GRAVITY;
        if c.velocity.y >= FALLING_TERMINAL_SPEED {
            c.velocity.y = FALLING_TERMINAL_SPEED;
        }
        if c.frame < frame_count {
            c.frame = c.frame + 1;
        } else {
            c.frame = 0;
        }
        c.position.y = c.position.y + c.velocity.y;
        if c.position.y > FLOOR {
            c.position.y = FLOOR;
        }
        c
    }

    fn reset_frame(self) -> (r: Self)
        ensures
            r == self.frame_reset(),
    {
        let mut c = self;
        c.frame = 0;
        c
    }

    fn run_right(self) -> (r: Self)
        requires
            self.velocity.x == 0,
        ensures
            r == self.running_right(),
    {
        let mut c = self;
        c.velocity.x = c.velocity.x + RUNNING_SPEED;
        c
    }

    fn set_vertical_velocity(self, y: i16) -> (r: Self)
        ensures
            r == (RedHatBoyContext { velocity: Point { x: self.velocity.x, y }, ..self }),
    {
        let mut c = self;
        c.velocity.y = y;
        c
    }

    fn stop(self) -> (r: Self)
        ensures
            r == self.stopped(),
    {
        let mut c = self;
        c.velocity.x = 0;
        c
    }

    fn set_on(self, height: i16) -> (r: Self)
        requires
            height >= LOWEST_RESTING_LANDING,
        ensures
            r == self.landed(height),
    {
        let mut c = self;
        c.position.y = height - PLAYER_HEIGHT;
        c.velocity.y = 0;
        c
    }

    fn fix_frame(self, frame: u8) -> (r: Self)
        ensures
            r == (RedHatBoyContext { frame, ..self }),
    {
        let mut c = self;
        c.frame = frame;
        c
    }

    fn play_jump_sound(self) -> (r: Self)
        ensures
            r == (RedHatBoyContext { jump_sound_pending: true, ..self }),
    {
        let mut c = self;
        c.jump_sound_pending = true;
        c
    }
}

/// What one event does to a state of kind `kind` with context `c`:
/// the transition table of the character, with every other pair a no-op.
pub open spec fn step(kind: StateKind, c: RedHatBoyContext, event: Event) -> (StateKind, RedHatBoyContext) {
    match (kind, event) {
        (StateKind::Idle, Event::Run) => (StateKind::Running, c.frame_reset().running_right()),
        (StateKind::Running, Event::Slide) => (StateKind::Sliding, c.frame_reset()),
        (StateKind::Running, Event::Jump) => (StateKind::Jumping, c.jumped()),
        (StateKind::Running, Event::KnockOut)
        | (StateKind::Jumping, Event::KnockOut)
        | (StateKind::Sliding, Event::KnockOut) => (StateKind::Falling, c.frame_reset().stopped()),
        (StateKind::Running, Event::Land(h)) => (StateKind::Running, c.landed(h)),
        (StateKind::Sliding, Event::Land(h)) => (StateKind::Sliding, c.landed(h)),
        (StateKind::KnockedOut, Event::Land(h)) => (StateKind::KnockedOut, c.landed(h)),
        (StateKind::Jumping, Event::Land(h)) => (StateKind::Running, c.frame_reset().landed(h)),
        (_, Event::Update) => tick(kind, c),
        _ => (kind, c),
    }
}

/// The per-state advance under `Update`.
pub open spec fn tick(kind: StateKind, c: RedHatBoyContext) -> (StateKind, RedHatBoyContext) {
    let n = c.ticked(frame_ceiling(kind));
    match kind {
        StateKind::Sliding => if n.frame >= SLIDING_FRAMES {
            (StateKind::Running, n.frame_reset())
        } else {
            (StateKind::Sliding, n)
        },
        StateKind::Jumping => if n.position.y >= FLOOR {
            (StateKind::Running, n.frame_reset().landed(CANVAS_HEIGHT))
        } else {
            (StateKind::Jumping, n)
        },
        StateKind::Falling => if n.frame >= FALLING_FRAMES {
            (StateKind::KnockedOut, n)
        } else {
            (StateKind::Falling, n)
        },
        StateKind::KnockedOut => (StateKind::KnockedOut, RedHatBoyContext { frame: (FALLING_FRAMES - 1) as u8, ..n }),
        _ => (kind, n),
    }
}

/// The name of the animation each state shows.
pub open spec fn animation_name(kind: StateKind) -> Seq<char> {
    match kind {
        StateKind::Idle => "Idle"@,
        StateKind::Running => "Run"@,
        StateKind::Sliding => "Slide"@,
        StateKind::Jumping => "Jump"@,
        StateKind::Falling => "Dead"@,
        StateKind::KnockedOut => "Dead"@,
    }
}

/// The context the character starts the session with.
pub open spec fn starting_context() -> RedHatBoyContext {
    RedHatBoyContext {
        frame: 0,
        position: Point { x: STARTING_POINT, y: FLOOR },
        velocity: Point { x: 0, y: 0 },
        jump_sound_pending: false,
    }
}

#[derive(Clone, Copy, Debug)]
pub struct Idle;

#[derive(Clone, Copy, Debug)]
pub struct Running;

#[derive(Clone, Copy, Debug)]
pub struct Sliding;

#[derive(Clone, Copy, Debug)]
pub struct Jumping;

#[derive(Clone, Copy, Debug)]
pub struct Falling;

#[derive(Clone, Copy, Debug)]
pub struct KnockedOut;

/// The character in the state named by `S`; the context is reachable only through transitions.
#[derive(Clone, Copy, Debug)]
pub struct RedHatBoyState<S> {
    context: RedHatBoyContext,
    _state: S,
}

impl<S> View for RedHatBoyState<S> {
    type V = RedHatBoyContext;

    closed spec fn view(&self) -> RedHatBoyContext {
        self.context
    }
}

impl<S> RedHatBoyState<S> {
    pub fn context(&self) -> (r: &RedHatBoyContext)
        ensures
            *r == self@,
    {
        &self.context
    }

    fn sound_played(self) -> (r: Self)
        ensures
            r@ == (RedHatBoyContext { jump_sound_pending: false, ..self@ }),
    {
        RedHatBoyState {
            context: RedHatBoyContext { jump_sound_pending: false, ..self.context },
            _state: self._state,
        }
    }
}

impl RedHatBoyState<Idle> {
    pub fn new() -> (r: Self)
        ensures
            r@ == starting_context(),
            r@.wf_in(StateKind::Idle),
    {
        proof {
            reveal_with_fuel(rise, 2);
        }
        RedHatBoyState {
            context: RedHatBoyContext {
                frame: 0,
                position: Point { x: STARTING_POINT, y: FLOOR },
                velocity: Point { x: 0, y: 0 },
                jump_sound_pending: false,
            },
            _state: Idle,
        }
    }

    pub fn run(self) -> (r: RedHatBoyState<Running>)
        requires
            self@.wf_in(StateKind::Idle),
        ensures
            step(StateKind::Idle, self@, Event::Run) == (StateKind::Running, r@),
            r@.wf_in(StateKind::Running),
    {
        RedHatBoyState { context: self.context.reset_frame().run_right(), _state: Running }
    }

    pub fn frame_name(&self) -> (r: &'static str)
        ensures
            r@ == animation_name(StateKind::Idle),
    {
        "Idle"
    }

    pub fn update(self) -> (r: Self)
        requires
            self@.wf_in(StateKind::Idle),
        ensures
            step(StateKind::Idle, self@, Event::Update) == (StateKind::Idle, r@),
            r@.wf_in(StateKind::Idle),
    {
        proof {
            self@.lemma_physics_tick_fits();
        }
        RedHatBoyState { context: self.context.update(IDLE_FRAMES), _state: Idle }
    }
}

impl RedHatBoyState<Running> {
    pub fn frame_name(&self) -> (r: &'static str)
        ensures
            r@ == animation_name(StateKind::Running),
    {
        "Run"
    }

    pub fn update(self) -> (r: Self)
        requires
            self@.wf_in(StateKind::Running),
        ensures
            step(StateKind::Running, self@, Event::Update) == (StateKind::Running, r@),
            r@.wf_in(StateKind::Running),
    {
        proof {
            self@.lemma_physics_tick_fits();
        }
        RedHatBoyState { context: self.context.update(RUNNING_FRAMES), _state: Running }
    }

    pub fn slide(self) -> (r: RedHatBoyState<Sliding>)
        requires
            self@.wf_in(StateKind::Running),
        ensures
            step(StateKind::Running, self@, Event::Slide) == (StateKind::Sliding, r@),
            r@.wf_in(StateKind::Sliding),
    {
        RedHatBoyState { context: self.context.reset_frame(), _state: Sliding }
    }

    pub fn jump(self) -> (r: RedHatBoyState<Jumping>)
        requires
            self@.wf_in(StateKind::Running),
        ensures
            step(StateKind::Running, self@, Event::Jump) == (StateKind::Jumping, r@),
            r@.wf_in(StateKind::Jumping),
    {
        proof {
            lemma_rise_bounds(self@.velocity.y as int);
            lemma_rise_le_jump(JUMP_SPEED as int);
        }
        let c = self.context.set_vertical_velocity(JUMP_SPEED).reset_frame().play_jump_sound();
        RedHatBoyState { context: c, _state: Jumping }
    }

    pub fn knock_out(self) -> (r: RedHatBoyState<Falling>)
        requires
            self@.wf_in(StateKind::Running),
        ensures
            step(StateKind::Running, self@, Event::KnockOut) == (StateKind::Falling, r@),
            r@.wf_in(StateKind::Falling),
    {
        RedHatBoyState { context: self.context.reset_frame().stop(), _state: Falling }
    }

    pub fn land_on(self, position: i16) -> (r: Self)
        requires
            self@.wf_in(StateKind::Running),
            position >= LOWEST_LANDING,
        ensures
            step(StateKind::Running, self@, Event::Land(position)) == (StateKind::Running, r@),
            r@.wf_in(StateKind::Running),
    {
        proof {
            reveal_with_fuel(rise, 2);
        }
        RedHatBoyState { context: self.context.set_on(position), _state: Running }
    }
}

/// What an update of a sliding character gives.
pub enum SlidingEndState {
    Complete(RedHatBoyState<Running>),
    Sliding(RedHatBoyState<Sliding>),
}

impl RedHatBoyState<Sliding> {
    pub fn frame_name(&self) -> (r: &'static str)
        ensures
            r@ == animation_name(StateKind::Sliding),
    {
        "Slide"
    }

    pub fn update(self) -> (r: SlidingEndState)
        requires
            self@.wf_in(StateKind::Sliding),
        ensures
            match r {
                SlidingEndState::Complete(s) => step(StateKind::Sliding, self@, Event::Update)
                    == (StateKind::Running, s@) && s@.wf_in(StateKind::Running),
                SlidingEndState::Sliding(s) => step(StateKind::Sliding, self@, Event::Update)
                    == (StateKind::Sliding, s@) && s@.wf_in(StateKind::Sliding),
            },
    {
        proof {
            self@.lemma_physics_tick_fits();
        }
        let c = self.context.update(SLIDING_FRAMES);
        let next = RedHatBoyState { context: c, _state: Sliding };
        if c.frame >= SLIDING_FRAMES {
            SlidingEndState::Complete(next.stand())
        } else {
            SlidingEndState::Sliding(next)
        }
    }

    fn stand(self) -> (r: RedHatBoyState<Running>)
        ensures
            r@ == self@.frame_reset(),
    {
        RedHatBoyState { context: self.context.reset_frame(), _state: Running }
    }

    pub fn knock_out(self) -> (r: RedHatBoyState<Falling>)
        requires
            self@.wf_in(StateKind::Sliding),
        ensures
            step(StateKind::Sliding, self@, Event::KnockOut) == (StateKind::Falling, r@),
            r@.wf_in(StateKind::Falling),
    {
        RedHatBoyState { context: self.context.reset_frame().stop(), _state: Falling }
    }

    pub fn land_on(self, position: i16) -> (r: Self)
        requires
            self@.wf_in(StateKind::Sliding),
            position >= LOWEST_LANDING,
        ensures
            step(StateKind::Sliding, self@, Event::Land(position)) == (StateKind::Sliding, r@),
            r@.wf_in(StateKind::Sliding),
    {
        proof {
            reveal_with_fuel(rise, 2);
        }
        RedHatBoyState { context: self.context.set_on(position), _state: Sliding }
    }
}

/// What an update of a jumping character gives.
pub enum JumpingEndState {
    Complete(RedHatBoyState<Running>),
    Jumping(RedHatBoyState<Jumping>),
}

impl RedHatBoyState<Jumping> {
    pub fn frame_name(&self) -> (r: &'static str)
        ensures
            r@ == animation_name(StateKind::Jumping),
    {
        "Jump"
    }

    pub fn update(self) -> (r: JumpingEndState)
        requires
            self@.wf_in(StateKind::Jumping),
        ensures
            match r {
                JumpingEndState::Complete(s) => step(StateKind::Jumping, self@, Event::Update)
                    == (StateKind::Running, s@) && s@.wf_in(StateKind::Running),
                JumpingEndState::Jumping(s) => step(StateKind::Jumping, self@, Event::Update)
                    == (StateKind::Jumping, s@) && s@.wf_in(StateKind::Jumping),
            },
    {
        proof {
            self@.lemma_physics_tick_fits();
        }
        let c = self.context.update(JUMPING_FRAMES);
        let next = RedHatBoyState { context: c, _state: Jumping };
        if c.position.y >= FLOOR {
            JumpingEndState::Complete(next.land_on(CANVAS_HEIGHT))
        } else {
            JumpingEndState::Jumping(next)
        }
    }

    pub fn land_on(self, position: i16) -> (r: RedHatBoyState<Running>)
        requires
            self@.physics_ok(),
            position >= LOWEST_LANDING,
        ensures
            step(StateKind::Jumping, self@, Event::Land(position)) == (StateKind::Running, r@),
            r@.wf_in(StateKind::Running),
    {
        proof {
            reveal_with_fuel(rise, 2);
        }
        RedHatBoyState { context: self.context.reset_frame().set_on(position), _state: Running }
    }

    pub fn knock_out(self) -> (r: RedHatBoyState<Falling>)
        requires
            self@.wf_in(StateKind::Jumping),
        ensures
            step(StateKind::Jumping, self@, Event::KnockOut) == (StateKind::Falling, r@),
            r@.wf_in(StateKind::Falling),
    {
        RedHatBoyState { context: self.context.reset_frame().stop(), _state: Falling }
    }
}

/// What an update of a falling character gives.
pub enum FallingEndState {
    KnockedOut(RedHatBoyState<KnockedOut>),
    Falling(RedHatBoyState<Falling>),
}

impl RedHatBoyState<Falling> {
    pub fn frame_name(&self) -> (r: &'static str)
        ensures
            r@ == animation_name(StateKind::Falling),
    {
        "Dead"
    }

    fn down(self) -> (r: RedHatBoyState<KnockedOut>)
        ensures
            r@ == self@,
    {
        RedHatBoyState { context: self.context, _state: KnockedOut }
    }

    pub fn update(self) -> (r: FallingEndState)
        requires
            self@.wf_in(StateKind::Falling),
        ensures
            match r {
                FallingEndState::KnockedOut(s) => step(StateKind::Falling, self@, Event::Update)
                    == (StateKind::KnockedOut, s@) && s@.wf_in(StateKind::KnockedOut),
                FallingEndState::Falling(s) => step(StateKind::Falling, self@, Event::Update)
                    == (StateKind::Falling, s@) && s@.wf_in(StateKind::Falling),
            },
    {
        proof {
            self@.lemma_physics_tick_fits();
        }
        let c = self.context.update(FALLING_FRAMES);
        let next = RedHatBoyState { context: c, _state: Falling };
        if c.frame >= FALLING_FRAMES {
            FallingEndState::KnockedOut(next.down())
        } else {
            FallingEndState::Falling(next)
        }
    }
}

impl RedHatBoyState<KnockedOut> {
    pub fn frame_name(&self) -> (r: &'static str)
        ensures
            r@ == animation_name(StateKind::KnockedOut),
    {
        "Dead"
    }

    pub fn update(self) -> (r: Self)
        requires
            self@.wf_in(StateKind::KnockedOut),
        ensures
            step(StateKind::KnockedOut, self@, Event::Update) == (StateKind::KnockedOut, r@),
            r@.wf_in(StateKind::KnockedOut),
    {
        proof {
            self@.lemma_physics_tick_fits();
        }
        let c = self.context.update(FALLING_FRAMES).fix_frame(FALLING_FRAMES - 1);
        RedHatBoyState { context: c, _state: KnockedOut }
    }

    pub fn land_on(self, position: i16) -> (r: Self)
        requires
            self@.wf_in(StateKind::KnockedOut),
            position >= LOWEST_RESTING_LANDING,
        ensures
            step(StateKind::KnockedOut, self@, Event::Land(position)) == (StateKind::KnockedOut, r@),
            r@.wf_in(StateKind::KnockedOut),
    {
        proof {
            reveal_with_fuel(rise, 2);
        }
        RedHatBoyState { context: self.context.set_on(position), _state: KnockedOut }
    }
}

/// The character's state machine: one variant per state, each holding the shared context.
#[derive(Clone, Copy, Debug)]
pub enum RedHatBoyStateMachine {
    Idle(RedHatBoyState<Idle>),
    Running(RedHatBoyState<Running>),
    Sliding(RedHatBoyState<Sliding>),
    Jumping(RedHatBoyState<Jumping>),
    Falling(RedHatBoyState<Falling>),
    KnockedOut(RedHatBoyState<KnockedOut>),
}

impl RedHatBoyStateMachine {
    pub open spec fn kind(&self) -> StateKind {
        match self {
            RedHatBoyStateMachine::Idle(_) => StateKind::Idle,
            RedHatBoyStateMachine::Running(_) => StateKind::Running,
            RedHatBoyStateMachine::Sliding(_) => StateKind::Sliding,
            RedHatBoyStateMachine::Jumping(_) => StateKind::Jumping,
            RedHatBoyStateMachine::Falling(_) => StateKind::Falling,
            RedHatBoyStateMachine::KnockedOut(_) => StateKind::KnockedOut,
        }
    }

    pub open spec fn ctx(&self) -> RedHatBoyContext {
        match self {
            RedHatBoyStateMachine::Idle(s) => s@,
            RedHatBoyStateMachine::Running(s) => s@,
            RedHatBoyStateMachine::Sliding(s) => s@,
            RedHatBoyStateMachine::Jumping(s) => s@,
            RedHatBoyStateMachine::Falling(s) => s@,
            RedHatBoyStateMachine::KnockedOut(s) => s@,
        }
    }

    pub open spec fn wf(&self) -> bool {
        self.ctx().wf_in(self.kind())
    }

    /// The character at the start of a session: idle at the starting point.
    pub fn new() -> (r: Self)
        ensures
            r.kind() == StateKind::Idle,
            r.ctx() == starting_context(),
            r.wf(),
    {
        RedHatBoyStateMachine::Idle(RedHatBoyState::new())
    }

    pub fn state_kind(&self) -> (r: StateKind)
        ensures
            r == self.kind(),
    {
        match self {
            RedHatBoyStateMachine::Idle(_) => StateKind::Idle,
            RedHatBoyStateMachine::Running(_) => StateKind::Running,
            RedHatBoyStateMachine::Sliding(_) => StateKind::Sliding,
            RedHatBoyStateMachine::Jumping(_) => StateKind::Jumping,
            RedHatBoyStateMachine::Falling(_) => StateKind::Falling,
            RedHatBoyStateMachine::KnockedOut(_) => StateKind::KnockedOut,
        }
    }

    /// Applies one event; pairs outside the transition table leave the state unchanged.
    pub fn transition(self, event: Event) -> (r: Self)
        requires
            self.wf(),
            event_in_range(self.kind(), event),
        ensures
            (r.kind(), r.ctx()) == step(self.kind(), self.ctx(), event),
            r.wf(),
    {
        match (self, event) {
            (RedHatBoyStateMachine::Idle(state), Event::Run) => RedHatBoyStateMachine::Running(state.run()),
            (RedHatBoyStateMachine::Running(state), Event::Slide) => RedHatBoyStateMachine::Sliding(state.slide()),
            (RedHatBoyStateMachine::Running(state), Event::Jump) => RedHatBoyStateMachine::Jumping(state.jump()),
            (RedHatBoyStateMachine::Idle(state), Event::Update) => RedHatBoyStateMachine::Idle(state.update()),
            (RedHatBoyStateMachine::Running(state), Event::Update) => RedHatBoyStateMachine::Running(state.update()),
            (RedHatBoyStateMachine::Sliding(state), Event::Update) => match state.update() {
                SlidingEndState::Complete(s) => RedHatBoyStateMachine::Running(s),
                SlidingEndState::Sliding(s) => RedHatBoyStateMachine::Sliding(s),
            },
            (RedHatBoyStateMachine::Jumping(state), Event::Update) => match state.update() {
                JumpingEndState::Complete(s) => RedHatBoyStateMachine::Running(s),
                JumpingEndState::Jumping(s) => RedHatBoyStateMachine::Jumping(s),
            },
            (RedHatBoyStateMachine::Falling(state), Event::Update) => match state.update() {
                FallingEndState::KnockedOut(s) => RedHatBoyStateMachine::KnockedOut(s),
                FallingEndState::Falling(s) => RedHatBoyStateMachine::Falling(s),
            },
            (RedHatBoyStateMachine::KnockedOut(state), Event::Update) => RedHatBoyStateMachine::KnockedOut(state.update()),
            (RedHatBoyStateMachine::Running(state), Event::KnockOut) => RedHatBoyStateMachine::Falling(state.knock_out()),
            (RedHatBoyStateMachine::Jumping(state), Event::KnockOut) => RedHatBoyStateMachine::Falling(state.knock_out()),
            (RedHatBoyStateMachine::Sliding(state), Event::KnockOut) => RedHatBoyStateMachine::Falling(state.knock_out()),
            (RedHatBoyStateMachine::Jumping(state), Event::Land(y)) => RedHatBoyStateMachine::Running(state.land_on(y)),
            (RedHatBoyStateMachine::Running(state), Event::Land(y)) => RedHatBoyStateMachine::Running(state.land_on(y)),
            (RedHatBoyStateMachine::Sliding(state), Event::Land(y)) => RedHatBoyStateMachine::Sliding(state.land_on(y)),
            (RedHatBoyStateMachine::KnockedOut(state), Event::Land(y)) => RedHatBoyStateMachine::KnockedOut(state.land_on(y)),
            _ => self,
        }
    }

    pub fn frame_name(&self) -> (r: &'static str)
        ensures
            r@ == animation_name(self.kind()),
    {
        match self {
            RedHatBoyStateMachine::Idle(state) => state.frame_name(),
            RedHatBoyStateMachine::Running(state) => state.frame_name(),
            RedHatBoyStateMachine::Sliding(state) => state.frame_name(),
            RedHatBoyStateMachine::Jumping(state) => state.frame_name(),
            RedHatBoyStateMachine::Falling(state) => state.frame_name(),
            RedHatBoyStateMachine::KnockedOut(state) => state.frame_name(),
        }
    }

    pub fn context(&self) -> (r: &RedHatBoyContext)
        ensures
            *r == self.ctx(),
    {
        match self {
            RedHatBoyStateMachine::Idle(state) => state.context(),
            RedHatBoyStateMachine::Running(state) => state.context(),
            RedHatBoyStateMachine::Sliding(state) => state.context(),
            RedHatBoyStateMachine::Jumping(state) => state.context(),
            RedHatBoyStateMachine::Falling(state) => state.context(),
            RedHatBoyStateMachine::KnockedOut(state) => state.context(),
        }
    }

    /// The same state with the pending jump sound marked as played.
    pub fn sound_played(self) -> (r: Self)
        requires
            self.wf(),
        ensures
            r.kind() == self.kind(),
            r.ctx() == (RedHatBoyContext { jump_sound_pending: false, ..self.ctx() }),
            r.wf(),
    {
        match self {
            RedHatBoyStateMachine::Idle(s) => RedHatBoyStateMachine::Idle(s.sound_played()),
            RedHatBoyStateMachine::Running(s) => RedHatBoyStateMachine::Running(s.sound_played()),
            RedHatBoyStateMachine::Sliding(s) => RedHatBoyStateMachine::Sliding(s.sound_played()),
            RedHatBoyStateMachine::Jumping(s) => RedHatBoyStateMachine::Jumping(s.sound_played()),
            RedHatBoyStateMachine::Falling(s) => RedHatBoyStateMachine::Falling(s.sound_played()),
            RedHatBoyStateMachine::KnockedOut(s) => RedHatBoyStateMachine::KnockedOut(s.sound_played()),
        }
    }

    pub fn update(self) -> (r: Self)
        requires
            self.wf(),
        ensures
            (r.kind(), r.ctx()) == step(self.kind(), self.ctx(), Event::Update),
            r.wf(),
    {
        self.transition(Event::Update)
    }
}

/// The (state, event) pairs of the transition table.
pub open spec fn listed(kind: StateKind, event: Event) -> bool {
    match (kind, event) {
        (StateKind::Idle, Event::Run) => true,
        (StateKind::Running, Event::Slide) => true,
        (StateKind::Running, Event::Jump) => true,
        (StateKind::Running, Event::KnockOut) => true,
        (StateKind::Jumping, Event::KnockOut) => true,
        (StateKind::Sliding, Event::KnockOut) => true,
        (StateKind::Running, Event::Land(_)) => true,
        (StateKind::Sliding, Event::Land(_)) => true,
        (StateKind::Jumping, Event::Land(_)) => true,
        (StateKind::KnockedOut, Event::Land(_)) => true,
        (_, Event::Update) => true,
        _ => false,
    }
}

/// The states a listed pair may lead to.
pub open spec fn allowed_target(kind: StateKind, event: Event, target: StateKind) -> bool {
    match (kind, event) {
        (StateKind::Idle, Event::Run) => target == StateKind::Running,
        (StateKind::Running, Event::Slide) => target == StateKind::Sliding,
        (StateKind::Running, Event::Jump) => target == StateKind::Jumping,
        (_, Event::KnockOut) => target == StateKind::Falling,
        (StateKind::Jumping, Event::Land(_)) => target == StateKind::Running,
        (_, Event::Land(_)) => target == kind,
        (StateKind::Sliding, Event::Update) => target == StateKind::Sliding || target == StateKind::Running,
        (StateKind::Jumping, Event::Update) => target == StateKind::Jumping || target == StateKind::Running,
        (StateKind::Falling, Event::Update) => target == StateKind::Falling || target == StateKind::KnockedOut,
        _ => target == kind,
    }
}

/// Every event leads where the transition table says, and a pair outside
/// the table leaves the state, context included, unchanged.
pub proof fn lemma_transitions_follow_table(kind: StateKind, c: RedHatBoyContext, event: Event)
    ensures
        listed(kind, event) ==> allowed_target(kind, event, step(kind, c, event).0),
        !listed(kind, event) ==> step(kind, c, event) == (kind, c),
{
}

/// The pose after `n` updates.
pub open spec fn updates(kind: StateKind, c: RedHatBoyContext, n: nat) -> (StateKind, RedHatBoyContext)
    decreases n,
{
    if n == 0 {
        (kind, c)
    } else {
        let p = updates(kind, c, (n - 1) as nat);
        step(p.0, p.1, Event::Update)
    }
}

pub open spec fn min_int(a: int, b: int) -> int {
    if a < b { a } else { b }
}

/// Gravity: from rest, `n` updates give a vertical velocity of
/// `min(n * GRAVITY, FALLING_TERMINAL_SPEED)` in every state that does not
/// land by itself (all but `Jumping`).
pub proof fn lemma_gravity_accumulates(kind: StateKind, c: RedHatBoyContext, n: nat)
    requires
        kind != StateKind::Jumping,
        c.velocity.y == 0,
    ensures
        updates(kind, c, n).0 != StateKind::Jumping,
        updates(kind, c, n).1.velocity.y == min_int(n * GRAVITY, FALLING_TERMINAL_SPEED as int),
    decreases n,
{
    if n > 0 {
        lemma_gravity_accumulates(kind, c, (n - 1) as nat);
    }
}

/// Landing puts the character on the surface and stops its vertical motion,
/// whatever its vertical velocity was.
pub proof fn lemma_landing_snaps(kind: StateKind, c: RedHatBoyContext, height: i16)
    requires
        kind == StateKind::Jumping || kind == StateKind::Running || kind == StateKind::Sliding
            || kind == StateKind::KnockedOut,
        height >= LOWEST_RESTING_LANDING,
    ensures
        step(kind, c, Event::Land(height)).1.velocity.y == 0,
        step(kind, c, Event::Land(height)).1.position.y == height - PLAYER_HEIGHT,
{
}

/// `KnockedOut` is final under updates: the state stays, and the frame is
/// pinned to the last picture.
pub proof fn lemma_knocked_out_absorbs(c: RedHatBoyContext, n: nat)
    ensures
        updates(StateKind::KnockedOut, c, n).0 == StateKind::KnockedOut,
        n > 0 ==> updates(StateKind::KnockedOut, c, n).1.frame == FALLING_FRAMES - 1,
    decreases n,
{
    if n > 0 {
        lemma_knocked_out_absorbs(c, (n - 1) as nat);
    }
}

/// A slide entered with the frame reset lasts exactly `SLIDING_FRAMES`
/// updates: before that the character is sliding at frame `k`, then it runs
/// again from frame 0.
pub proof fn lemma_slide_duration(c: RedHatBoyContext, k: nat)
    requires
        c.frame == 0,
        k <= SLIDING_FRAMES,
    ensures
        k < SLIDING_FRAMES ==> updates(StateKind::Sliding, c, k).0 == StateKind::Sliding
            && updates(StateKind::Sliding, c, k).1.frame == k,
        k == SLIDING_FRAMES ==> updates(StateKind::Sliding, c, k).0 == StateKind::Running
            && updates(StateKind::Sliding, c, k).1.frame == 0,
    decreases k,
{
    if k > 0 {
        lemma_slide_duration(c, (k - 1) as nat);
    }
}

/// Every event the machine takes keeps the state's invariant.
pub proof fn lemma_step_keeps_wf(kind: StateKind, c: RedHatBoyContext, event: Event)
    requires
        c.wf_in(kind),
        event_in_range(kind, event),
    ensures
        step(kind, c, event).1.wf_in(step(kind, c, event).0),
{
    lemma_rise_bounds(c.velocity.y as int);
    lemma_rise_nonneg(c.velocity.y + 1);
    lemma_rise_le_jump(JUMP_SPEED as int);
    reveal_with_fuel(rise, 2);
}

} // verus!
