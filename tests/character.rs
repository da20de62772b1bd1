use walk_the_dog::character::{
    Event, RedHatBoyState, RedHatBoyStateMachine, StateKind, CANVAS_HEIGHT, FALLING_FRAMES,
    FALLING_TERMINAL_SPEED, FLOOR, GRAVITY, JUMP_SPEED, PLAYER_HEIGHT, RUNNING_SPEED,
    SLIDING_FRAMES, STARTING_POINT,
};

fn run(m: RedHatBoyStateMachine, events: &[Event]) -> RedHatBoyStateMachine {
    let mut m = m;
    for e in events {
        m = m.transition(*e);
    }
    m
}

fn updates(m: RedHatBoyStateMachine, n: usize) -> RedHatBoyStateMachine {
    let mut m = m;
    for _ in 0..n {
        m = m.update();
    }
    m
}

fn in_state(kind: StateKind) -> RedHatBoyStateMachine {
    let idle = RedHatBoyStateMachine::new();
    match kind {
        StateKind::Idle => idle,
        StateKind::Running => run(idle, &[Event::Run]),
        StateKind::Sliding => run(idle, &[Event::Run, Event::Slide]),
        StateKind::Jumping => run(idle, &[Event::Run, Event::Jump]),
        StateKind::Falling => run(idle, &[Event::Run, Event::KnockOut]),
        StateKind::KnockedOut => updates(run(idle, &[Event::Run, Event::KnockOut]), 29),
    }
}

const KINDS: [StateKind; 6] = [
    StateKind::Idle,
    StateKind::Running,
    StateKind::Sliding,
    StateKind::Jumping,
    StateKind::Falling,
    StateKind::KnockedOut,
];

fn is_listed(kind: StateKind, event: Event) -> bool {
    match (kind, event) {
        (_, Event::Update) => true,
        (StateKind::Idle, Event::Run) => true,
        (StateKind::Running, Event::Slide | Event::Jump | Event::KnockOut | Event::Land(_)) => true,
        (StateKind::Sliding, Event::KnockOut | Event::Land(_)) => true,
        (StateKind::Jumping, Event::KnockOut | Event::Land(_)) => true,
        (StateKind::KnockedOut, Event::Land(_)) => true,
        _ => false,
    }
}

#[test]
fn unlisted_pairs_are_no_ops() {
    let events = [
        Event::Run,
        Event::Slide,
        Event::Update,
        Event::Jump,
        Event::KnockOut,
        Event::Land(400),
    ];
    let mut unlisted = 0;
    for kind in KINDS {
        let m = in_state(kind);
        assert_eq!(m.state_kind(), kind);
        for e in events {
            if !is_listed(kind, e) {
                unlisted += 1;
                let after = m.transition(e);
                assert_eq!(after.state_kind(), kind);
                assert_eq!(*after.context(), *m.context());
            }
        }
    }
    assert_eq!(unlisted, 20);
}

#[test]
fn listed_pairs_reach_their_targets() {
    let m = in_state(StateKind::Idle).transition(Event::Run);
    assert_eq!(m.state_kind(), StateKind::Running);
    assert_eq!(m.context().velocity.x, RUNNING_SPEED);
    assert_eq!(m.context().frame, 0);

    let running = updates(in_state(StateKind::Running), 5);
    let sliding = running.transition(Event::Slide);
    assert_eq!(sliding.state_kind(), StateKind::Sliding);
    assert_eq!(sliding.context().frame, 0);

    let jumping = running.transition(Event::Jump);
    assert_eq!(jumping.state_kind(), StateKind::Jumping);
    assert_eq!(jumping.context().velocity.y, JUMP_SPEED);
    assert_eq!(jumping.context().frame, 0);
    assert!(jumping.context().jump_sound_pending);

    for kind in [StateKind::Running, StateKind::Sliding, StateKind::Jumping] {
        let falling = in_state(kind).transition(Event::KnockOut);
        assert_eq!(falling.state_kind(), StateKind::Falling);
        assert_eq!(falling.context().velocity.x, 0);
        assert_eq!(falling.context().frame, 0);
    }

    let landed = in_state(StateKind::Jumping).transition(Event::Land(300));
    assert_eq!(landed.state_kind(), StateKind::Running);
}

#[test]
fn starting_context() {
    let m = RedHatBoyStateMachine::new();
    assert_eq!(m.state_kind(), StateKind::Idle);
    let c = *m.context();
    assert_eq!(c.frame, 0);
    assert_eq!(c.position.x, STARTING_POINT);
    assert_eq!(c.position.y, FLOOR);
    assert_eq!(c.velocity.x, 0);
    assert_eq!(c.velocity.y, 0);
    assert!(!c.jump_sound_pending);
    assert_eq!(m.frame_name(), "Idle");
}

#[test]
fn gravity_accumulates_until_terminal_speed() {
    for n in 0..40i16 {
        let m = updates(RedHatBoyStateMachine::new(), n as usize);
        assert_eq!(m.context().velocity.y, (n * GRAVITY).min(FALLING_TERMINAL_SPEED));
        assert_eq!(m.context().position.y, FLOOR);
    }
}

#[test]
fn landing_zeroes_velocity_and_snaps_height() {
    let falling_fast = updates(in_state(StateKind::Running), 25);
    assert_eq!(falling_fast.context().velocity.y, FALLING_TERMINAL_SPEED);
    let landed = falling_fast.transition(Event::Land(420));
    assert_eq!(landed.context().velocity.y, 0);
    assert_eq!(landed.context().position.y, 420 - PLAYER_HEIGHT);
    assert_eq!(landed.state_kind(), StateKind::Running);

    let rising = updates(in_state(StateKind::Jumping), 3);
    assert!(rising.context().velocity.y < 0);
    let landed = rising.transition(Event::Land(375));
    assert_eq!(landed.context().velocity.y, 0);
    assert_eq!(landed.context().position.y, 375 - PLAYER_HEIGHT);
    assert_eq!(landed.state_kind(), StateKind::Running);
    assert_eq!(landed.context().frame, 0);

    let ko = in_state(StateKind::KnockedOut).transition(Event::Land(500));
    assert_eq!(ko.state_kind(), StateKind::KnockedOut);
    assert_eq!(ko.context().position.y, 500 - PLAYER_HEIGHT);
    assert_eq!(ko.context().velocity.y, 0);
}

#[test]
fn knocked_out_is_absorbing() {
    let falling = in_state(StateKind::Falling);
    let mut m = falling;
    for i in 1..=28 {
        m = m.update();
        assert_eq!(m.state_kind(), StateKind::Falling, "tick {}", i);
    }
    m = m.update();
    assert_eq!(m.state_kind(), StateKind::KnockedOut);
    for _ in 0..100 {
        m = m.update();
        assert_eq!(m.state_kind(), StateKind::KnockedOut);
        assert_eq!(m.context().frame, FALLING_FRAMES - 1);
        for e in [Event::Run, Event::Slide, Event::Jump, Event::KnockOut] {
            assert_eq!(m.transition(e).state_kind(), StateKind::KnockedOut);
        }
    }
    assert_eq!(m.frame_name(), "Dead");
}

#[test]
fn slide_lasts_sliding_frames_ticks() {
    let mut m = in_state(StateKind::Sliding);
    for k in 1..SLIDING_FRAMES {
        m = m.update();
        assert_eq!(m.state_kind(), StateKind::Sliding);
        assert_eq!(m.context().frame, k);
    }
    m = m.update();
    assert_eq!(m.state_kind(), StateKind::Running);
    assert_eq!(m.context().frame, 0);
}

#[test]
fn jump_lands_on_the_floor() {
    let mut m = in_state(StateKind::Jumping);
    let mut ticks = 0;
    while m.state_kind() == StateKind::Jumping {
        m = m.update();
        ticks += 1;
        assert!(ticks < 100);
    }
    assert_eq!(m.state_kind(), StateKind::Running);
    assert_eq!(m.context().position.y, CANVAS_HEIGHT - PLAYER_HEIGHT);
    assert_eq!(m.context().velocity.y, 0);
    assert_eq!(m.context().frame, 0);
    assert_eq!(ticks, 50);
}

#[test]
fn run_then_updates_keeps_one_running_increment() {
    let mut m = RedHatBoyStateMachine::new().transition(Event::Run);
    for _ in 0..30 {
        m = m.update();
    }
    assert_eq!(m.state_kind(), StateKind::Running);
    assert_eq!(m.context().velocity.x, RUNNING_SPEED);
    let again = m.transition(Event::Run);
    assert_eq!(again.state_kind(), StateKind::Running);
    assert_eq!(*again.context(), *m.context());
    assert_eq!(m.frame_name(), "Run");
}

#[test]
fn running_frames_wrap() {
    let mut m = in_state(StateKind::Running);
    for _ in 0..23 {
        m = m.update();
    }
    assert_eq!(m.context().frame, 23);
    m = m.update();
    assert_eq!(m.context().frame, 0);
}

#[test]
fn typestate_methods() {
    let idle = RedHatBoyState::new();
    assert_eq!(idle.frame_name(), "Idle");
    let running = idle.run();
    assert_eq!(running.context().velocity.x, RUNNING_SPEED);
    let jumping = running.jump();
    assert_eq!(jumping.frame_name(), "Jump");
    assert_eq!(jumping.context().velocity.y, JUMP_SPEED);
    let falling = jumping.knock_out();
    assert_eq!(falling.frame_name(), "Dead");
    assert_eq!(falling.context().velocity.x, 0);
}

#[test]
fn jump_sound_is_reported_once() {
    let m = in_state(StateKind::Jumping);
    assert!(m.context().jump_sound_pending);
    let played = m.sound_played();
    assert!(!played.context().jump_sound_pending);
    assert_eq!(played.state_kind(), StateKind::Jumping);
}

#[test]
fn landing_is_ignored_at_any_height_where_it_does_not_apply() {
    for kind in [StateKind::Idle, StateKind::Falling] {
        let m = in_state(kind);
        for h in [i16::MIN, -1, 0, i16::MAX] {
            let after = m.transition(Event::Land(h));
            assert_eq!(after.state_kind(), kind);
            assert_eq!(*after.context(), *m.context());
        }
    }
}

#[test]
fn knocked_out_lands_low() {
    let m = in_state(StateKind::KnockedOut).transition(Event::Land(i16::MIN + PLAYER_HEIGHT));
    assert_eq!(m.context().position.y, i16::MIN);
    assert_eq!(m.context().velocity.y, 0);
}
