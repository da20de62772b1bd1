use walk_the_dog::character::{StateKind, FLOOR, PLAYER_HEIGHT, RUNNING_SPEED};
use walk_the_dog::engine::{GameLoop, FRAME_SIZE};
use walk_the_dog::geometry::{Point, Rect};
use walk_the_dog::input::{process_input, KeyPress, KeyState};
use walk_the_dog::red_hat_boy::RedHatBoy;
use walk_the_dog::segment::{
    platform_and_stone, rightmost, stone_and_platform, Barrier, Image, Obstacle, Platform, Size,
};
use walk_the_dog::sprite::{frame_file_name, Cell, Sheet, SheetRect};
use walk_the_dog::walk::{Assets, GameError, Walk, WalkTheDog, TIMELINE_MINIMUM};

fn cell(w: i16, h: i16) -> Cell {
    Cell {
        frame: SheetRect { x: 0, y: 0, w, h },
        sprite_source_size: SheetRect { x: 0, y: 0, w, h },
    }
}

fn character_sheet() -> Sheet {
    let mut frames = Vec::new();
    for (name, count) in [("Idle", 10), ("Run", 8), ("Slide", 5), ("Jump", 12), ("Dead", 10)] {
        for i in 1..=count {
            frames.push((format!("{} ({}).png", name, i), cell(100, 100)));
        }
    }
    Sheet { frames }
}

fn tiles_sheet() -> Sheet {
    Sheet {
        frames: vec![
            ("13.png".to_string(), cell(128, 93)),
            ("14.png".to_string(), cell(128, 93)),
            ("15.png".to_string(), cell(128, 93)),
        ],
    }
}

fn keys(held: &[&str]) -> KeyState {
    let mut k = KeyState::new();
    for code in held {
        k.set_pressed(code);
    }
    k
}

fn new_walk() -> Walk {
    Walk::new(
        character_sheet(),
        Size { width: 1200, height: 600 },
        Size { width: 90, height: 54 },
        tiles_sheet(),
    )
}

#[test]
fn rect_edges_and_intersection() {
    let a = Rect::new_from_x_y(0, 0, 10, 10);
    assert_eq!(a.right(), 10);
    assert_eq!(a.bottom(), 10);
    assert!(a.intersects(&Rect::new_from_x_y(5, 5, 10, 10)));
    assert!(!a.intersects(&Rect::new_from_x_y(10, 0, 10, 10)));
    assert!(!a.intersects(&Rect::new_from_x_y(0, 10, 10, 10)));
    assert!(!a.intersects(&Rect::new_from_x_y(-10, 0, 10, 10)));
    let mut b = a;
    b.set_x(-3);
    assert_eq!(b.x(), -3);
    assert_eq!(b.right(), 7);
}

#[test]
fn frame_names_follow_the_atlas_convention() {
    assert_eq!(frame_file_name("Run", 0), "Run (1).png");
    assert_eq!(frame_file_name("Run", 2), "Run (1).png");
    assert_eq!(frame_file_name("Run", 3), "Run (2).png");
    assert_eq!(frame_file_name("Jump", 35), "Jump (12).png");
    assert_eq!(frame_file_name("Idle", 29), "Idle (10).png");
}

#[test]
fn sheet_lookup_takes_the_last_entry() {
    let sheet = Sheet {
        frames: vec![("a".to_string(), cell(1, 1)), ("b".to_string(), cell(2, 2)), ("a".to_string(), cell(3, 3))],
    };
    assert_eq!(sheet.cell(&"a".to_string()), Some(cell(3, 3)));
    assert_eq!(sheet.cell(&"b".to_string()), Some(cell(2, 2)));
    assert_eq!(sheet.cell(&"c".to_string()), None);
}

#[test]
fn a_missing_picture_has_no_boxes() {
    let mut sheet = character_sheet();
    sheet.frames.retain(|(name, _)| name != "Idle (1).png");
    let boy = RedHatBoy::new(sheet);
    assert_eq!(boy.frame_name(), "Idle (1).png");
    assert_eq!(boy.current_sprite(), None);
    assert_eq!(boy.destination_box(), None);
    assert_eq!(boy.bounding_box(), None);
}

#[test]
fn an_unrepresentable_sprite_box_is_absent() {
    let mut sheet = character_sheet();
    sheet.frames[0].1.sprite_source_size.x = i16::MIN;
    let boy = RedHatBoy::new(sheet);
    assert_eq!(boy.current_sprite().map(|c| c.sprite_source_size.x), Some(i16::MIN));
    assert_eq!(boy.destination_box(), None);
    let mut sheet = character_sheet();
    sheet.frames[0].1.frame.w = i16::MIN;
    let boy = RedHatBoy::new(sheet);
    assert!(boy.destination_box().is_some());
    assert_eq!(boy.bounding_box(), None);
}

#[test]
fn a_character_without_a_hit_box_meets_nothing() {
    let mut sheet = character_sheet();
    sheet.frames.retain(|(name, _)| !name.starts_with("Run"));
    let mut boy = RedHatBoy::new(sheet);
    boy.run_right();
    let near = Obstacle::Barrier(Barrier::new(Image::new(Point { x: 0, y: 546 }, Size { width: 90, height: 54 })));
    near.check_intersection(&mut boy);
    assert_eq!(boy.state_kind(), StateKind::Running);
}

#[test]
fn boy_sprite_and_hit_box() {
    let boy = RedHatBoy::new(character_sheet());
    assert_eq!(boy.frame_name(), "Idle (1).png");
    assert_eq!(boy.current_sprite(), Some(cell(100, 100)));
    let d = boy.destination_box();
    assert_eq!(d, Some(Rect::new_from_x_y(-20, FLOOR, 100, 100)));
    let hit = boy.bounding_box();
    assert_eq!(hit, Some(Rect::new_from_x_y(-2, FLOOR + 14, 72, 86)));
}

#[test]
fn segments_place_their_obstacles() {
    let stone = Size { width: 90, height: 54 };
    let s = stone_and_platform(stone, &tiles_sheet(), 100);
    assert_eq!(s.len(), 2);
    match &s[0] {
        Obstacle::Barrier(b) => {
            assert_eq!(b.image.position, Point { x: 250, y: 546 });
            assert_eq!(b.image.bounding_box, Rect::new_from_x_y(250, 546, 90, 54));
        }
        _ => panic!("expected a barrier first"),
    }
    match &s[1] {
        Obstacle::Platform(p) => {
            assert_eq!(p.position, Point { x: 470, y: 420 });
            assert_eq!(
                p.bounding_boxes,
                vec![
                    Rect::new_from_x_y(470, 420, 60, 54),
                    Rect::new_from_x_y(530, 420, 264, 93),
                    Rect::new_from_x_y(794, 420, 60, 54),
                ]
            );
            assert_eq!(p.sprites.len(), 3);
        }
        _ => panic!("expected a platform second"),
    }
    assert_eq!(rightmost(&s), 854);

    let t = platform_and_stone(stone, &tiles_sheet(), 0);
    assert_eq!(t[0].right(), 150 + 384);
    assert_eq!(t[1].right(), 370 + 90);
    assert_eq!(rightmost(&t), 534);
    assert_eq!(rightmost(&Vec::new()), 0);
}

#[test]
fn platform_skips_missing_sprites() {
    let names = vec!["13.png".to_string(), "nope.png".to_string(), "15.png".to_string()];
    let p = Platform::new(&tiles_sheet(), Point { x: 10, y: 20 }, &names, &vec![Rect::new_from_x_y(1, 2, 3, 4)]);
    assert_eq!(p.sprites.len(), 2);
    assert_eq!(p.bounding_boxes, vec![Rect::new_from_x_y(11, 22, 3, 4)]);
}

#[test]
fn moving_an_obstacle_moves_every_box() {
    let mut s = stone_and_platform(Size { width: 90, height: 54 }, &tiles_sheet(), 0);
    let before = s[1].right();
    s[1].move_horizontally(-4);
    assert_eq!(s[1].right(), before - 4);
    match &s[1] {
        Obstacle::Platform(p) => {
            assert_eq!(p.position.x, 366);
            assert_eq!(p.bounding_boxes[0].x(), 366);
            assert_eq!(p.bounding_boxes[2].x(), 366 + 324);
        }
        _ => panic!(),
    }
}

/// A jumping character on the way down, with vertical velocity 5.
fn descending_boy() -> RedHatBoy {
    let mut boy = RedHatBoy::new(character_sheet());
    boy.run_right();
    boy.jump();
    for _ in 0..30 {
        boy.update();
    }
    assert_eq!(boy.state_kind(), StateKind::Jumping);
    assert_eq!(boy.velocity_y(), 5);
    boy
}

#[test]
fn descending_onto_a_platform_lands() {
    let mut boy = descending_boy();
    let y = boy.pos_y();
    let top = y + 56;
    let names = vec!["13.png".to_string()];
    let platform = Obstacle::Platform(Platform::new(
        &tiles_sheet(),
        Point { x: 0, y: top },
        &names,
        &vec![Rect::new_from_x_y(0, 0, 60, 54), Rect::new_from_x_y(60, 0, 264, 93)],
    ));
    platform.check_intersection(&mut boy);
    assert_eq!(boy.state_kind(), StateKind::Running);
    assert_eq!(boy.pos_y(), top - PLAYER_HEIGHT);
    assert_eq!(boy.velocity_y(), 0);
}

#[test]
fn meeting_a_platform_at_equal_height_knocks_out() {
    let mut boy = descending_boy();
    let y = boy.pos_y();
    let names = vec!["13.png".to_string()];
    let platform = Obstacle::Platform(Platform::new(
        &tiles_sheet(),
        Point { x: 0, y },
        &names,
        &vec![Rect::new_from_x_y(0, 0, 60, 54)],
    ));
    platform.check_intersection(&mut boy);
    assert_eq!(boy.state_kind(), StateKind::Falling);
    assert_eq!(boy.walking_speed(), 0);
}

#[test]
fn barrier_knocks_out_and_misses_cleanly() {
    let mut boy = RedHatBoy::new(character_sheet());
    boy.run_right();
    let far = Obstacle::Barrier(Barrier::new(Image::new(Point { x: 500, y: 546 }, Size { width: 90, height: 54 })));
    far.check_intersection(&mut boy);
    assert_eq!(boy.state_kind(), StateKind::Running);
    let near = Obstacle::Barrier(Barrier::new(Image::new(Point { x: 0, y: 546 }, Size { width: 90, height: 54 })));
    near.check_intersection(&mut boy);
    assert_eq!(boy.state_kind(), StateKind::Falling);
}

#[test]
fn a_new_walk_starts_with_one_segment() {
    let walk = new_walk();
    assert_eq!(walk.obstacles.len(), 2);
    assert_eq!(walk.timeline, rightmost(&walk.obstacles));
    assert_eq!(walk.timeline, 754);
    assert_eq!(walk.boy.state_kind(), StateKind::Idle);
    assert_eq!(walk.first_background.position, Point { x: 0, y: 0 });
    assert_eq!(walk.second_background.position, Point { x: 1200, y: 0 });
}

#[test]
fn step_generates_a_segment_below_the_minimum() {
    let mut walk = new_walk();
    assert!(walk.timeline < TIMELINE_MINIMUM);
    walk.step(&KeyState::new(), 1);
    assert_eq!(walk.obstacles.len(), 4);
    let added: Vec<i16> = walk.obstacles[2..].iter().map(|o| o.right()).collect();
    assert_eq!(walk.timeline, *added.iter().max().unwrap());
    assert_eq!(walk.timeline, 754 + 20 + 150 + 384);
    match &walk.obstacles[2] {
        Obstacle::Platform(p) => assert_eq!(p.position, Point { x: 924, y: 375 }),
        _ => panic!("layout 1 starts with a platform"),
    }
}

#[test]
fn step_scrolls_the_timeline_above_the_minimum() {
    let mut walk = new_walk();
    let held = keys(&["ArrowRight"]);
    walk.step(&held, 0);
    assert!(walk.timeline >= TIMELINE_MINIMUM);
    let t = walk.timeline;
    walk.step(&held, 0);
    assert_eq!(walk.timeline, t - RUNNING_SPEED);
    assert_eq!(walk.obstacles.len(), 4);
}

fn barrier_at(x: i16, y: i16) -> Obstacle {
    Obstacle::Barrier(Barrier::new(Image::new(Point { x, y }, Size { width: 90, height: 54 })))
}

#[test]
fn obstacles_past_the_left_edge_are_culled() {
    let mut walk = new_walk();
    walk.obstacles = vec![barrier_at(-88, 0), barrier_at(2000, 0)];
    walk.timeline = 2090;
    let held = keys(&["ArrowRight"]);
    walk.step(&held, 0);
    assert_eq!(walk.obstacles.len(), 2);
    assert_eq!(walk.obstacles[0].right(), -2);
    walk.step(&held, 0);
    assert_eq!(walk.obstacles.len(), 1);
    assert_eq!(walk.obstacles[0].right(), 2090 - 8);
    assert_eq!(walk.timeline, 2090 - 8);
    assert_eq!(walk.boy.state_kind(), StateKind::Running);
}

#[test]
fn backgrounds_wrap_around() {
    let mut walk = Walk::new(
        character_sheet(),
        Size { width: 8, height: 600 },
        Size { width: 90, height: 54 },
        tiles_sheet(),
    );
    let held = keys(&["ArrowRight"]);
    for _ in 0..3 {
        walk.step(&held, 0);
    }
    assert_eq!(walk.first_background.position.x, 4);
    assert_eq!(walk.second_background.position.x, -4);
    assert_eq!(walk.first_background.bounding_box.position.x, 4);
}

#[test]
fn update_draws_one_of_the_two_layouts() {
    for _ in 0..20 {
        let mut walk = new_walk();
        walk.update(&KeyState::new());
        assert_eq!(walk.obstacles.len(), 4);
        let first_new = &walk.obstacles[2];
        match first_new {
            Obstacle::Barrier(b) => assert_eq!(b.image.position, Point { x: 924, y: 546 }),
            Obstacle::Platform(p) => assert_eq!(p.position, Point { x: 924, y: 375 }),
        }
    }
}

#[test]
fn key_snapshot() {
    let mut k = KeyState::new();
    assert!(!k.is_pressed("Space"));
    k.set_pressed("Space");
    k.set_pressed("Space");
    assert!(k.is_pressed("Space"));
    k.set_released("Space");
    assert!(!k.is_pressed("Space"));
    process_input(
        &mut k,
        &vec![
            KeyPress::KeyDown("ArrowUp".to_string()),
            KeyPress::KeyDown("ArrowDown".to_string()),
            KeyPress::KeyUp("ArrowUp".to_string()),
        ],
    );
    assert!(!k.is_pressed("ArrowUp"));
    assert!(k.is_pressed("ArrowDown"));
}

#[test]
fn held_keys_drive_the_character() {
    let mut walk = new_walk();
    walk.step(&keys(&["ArrowRight"]), 0);
    assert_eq!(walk.boy.state_kind(), StateKind::Running);
    walk.step(&keys(&["ArrowDown"]), 0);
    assert_eq!(walk.boy.state_kind(), StateKind::Sliding);
    let mut walk = new_walk();
    walk.step(&keys(&["ArrowRight", "Space"]), 0);
    assert_eq!(walk.boy.state_kind(), StateKind::Jumping);
    assert!(walk.boy.take_jump_sound());
    assert!(!walk.boy.take_jump_sound());
}

fn assets() -> Assets {
    Assets {
        character_sheet: character_sheet(),
        background: Size { width: 1200, height: 600 },
        stone: Size { width: 90, height: 54 },
        obstacle_sheet: tiles_sheet(),
    }
}

#[test]
fn sessions_start_once() {
    let game = WalkTheDog::new();
    assert!(matches!(game, WalkTheDog::Loading));
    let loaded = game.initialize(assets()).ok().unwrap();
    assert!(matches!(loaded, WalkTheDog::Loaded(_)));
    assert!(matches!(loaded.initialize(assets()), Err(GameError::AlreadyInitialized)));
}

#[test]
fn a_session_starts_whatever_the_atlases_hold() {
    let mut a = assets();
    a.character_sheet.frames.clear();
    a.obstacle_sheet.frames.clear();
    a.background = Size { width: 600, height: 600 };
    let game = WalkTheDog::new().initialize(a).ok().unwrap();
    match game {
        WalkTheDog::Loaded(walk) => {
            assert_eq!(walk.boy.state_kind(), StateKind::Idle);
            assert_eq!(walk.boy.current_sprite(), None);
            assert_eq!(walk.obstacles.len(), 2);
            assert_eq!(walk.timeline, 754);
            assert_eq!(walk.second_background.position, Point { x: 600, y: 0 });
        }
        WalkTheDog::Loading => panic!("the session should start"),
    }
}

#[test]
fn fixed_step_counts() {
    let mut game_loop = GameLoop::new(999_000);
    let steps: Vec<u64> = [1_000_000u64, 1_008_000, 1_016_000, 1_050_000]
        .iter()
        .map(|t| game_loop.advance(*t))
        .collect();
    assert_eq!(steps, vec![0, 0, 1, 2]);
    assert!(game_loop.accumulated_delta <= FRAME_SIZE);
    assert_eq!(game_loop.last_frame, 1_050_000);
}

#[test]
fn fixed_steps_advance_the_frame_counter() {
    let mut game = WalkTheDog::new().initialize(assets()).ok().unwrap();
    let mut game_loop = GameLoop::new(999_000);
    let held = KeyState::new();
    let frame_of = |g: &WalkTheDog| match g {
        WalkTheDog::Loaded(w) => w.boy.context().frame,
        WalkTheDog::Loading => panic!(),
    };
    let mut expected = 0u8;
    for (t, want) in [(1_000_000u64, 0u64), (1_008_000, 0), (1_016_000, 1), (1_050_000, 2)] {
        let steps = game_loop.frame(t, &mut game, &held);
        assert_eq!(steps, want);
        expected += steps as u8;
        assert_eq!(frame_of(&game), expected);
    }
}

#[test]
fn loading_game_ignores_updates() {
    let mut game = WalkTheDog::new();
    game.update(&KeyState::new());
    assert!(matches!(game, WalkTheDog::Loading));
    let mut game_loop = GameLoop::new(0);
    assert_eq!(game_loop.frame(100_000, &mut game, &KeyState::new()), 5);
    assert!(matches!(game, WalkTheDog::Loading));
}

#[test]
fn landing_event_from_the_walk() {
    let mut boy = RedHatBoy::new(character_sheet());
    boy.run_right();
    boy.land_on(420);
    assert_eq!(boy.pos_y(), 420 - PLAYER_HEIGHT);
    boy.knock_out();
    assert_eq!(boy.state_kind(), StateKind::Falling);
}

#[test]
fn platform_sprites_are_laid_out_left_to_right() {
    let names = vec!["13.png".to_string(), "14.png".to_string(), "15.png".to_string()];
    let mut sheet = tiles_sheet();
    sheet.frames[1].1 = cell(64, 93);
    let p = Platform::new(&sheet, Point { x: 10, y: 20 }, &names, &vec![Rect::new_from_x_y(0, 0, 3, 4)]);
    let placed = p.sprite_placements();
    assert_eq!(placed.len(), 3);
    assert_eq!(placed[0], (Rect::new_from_x_y(0, 0, 128, 93), Rect::new_from_x_y(10, 20, 128, 93)));
    assert_eq!(placed[1].1, Rect::new_from_x_y(138, 20, 64, 93));
    assert_eq!(placed[2].1, Rect::new_from_x_y(202, 20, 128, 93));

    let mut wide = tiles_sheet();
    wide.frames[0].1 = cell(i16::MAX, 93);
    let p = Platform::new(&wide, Point { x: 10, y: 20 }, &names, &vec![Rect::new_from_x_y(0, 0, 3, 4)]);
    assert_eq!(p.sprite_placements().len(), 1);
}

#[test]
fn obstacles_move_either_way() {
    let mut s = stone_and_platform(Size { width: 90, height: 54 }, &tiles_sheet(), 0);
    s[0].move_horizontally(100);
    assert_eq!(s[0].right(), 340);
    s[1].move_horizontally(-754);
    assert_eq!(s[1].right(), 0);
}

#[test]
fn generating_above_the_minimum_appends_a_segment() {
    let mut walk = new_walk();
    walk.timeline = 5000;
    walk.generate_next_segment(0);
    assert_eq!(walk.obstacles.len(), 4);
    assert_eq!(walk.timeline, 5000 + 20 + 754);
    assert_eq!(walk.obstacles[2].right(), 5000 + 20 + 150 + 90);
}

#[test]
fn a_quiet_step_is_one_update() {
    let mut walk = new_walk();
    let before = walk.boy.context();
    walk.step(&KeyState::new(), 0);
    let after = walk.boy.context();
    assert_eq!(after.frame, before.frame + 1);
    assert_eq!(after.velocity.x, before.velocity.x);
    assert_eq!(walk.boy.state_kind(), StateKind::Idle);
}

#[test]
fn segments_accept_any_representable_offset() {
    let stone = Size { width: 90, height: 54 };
    let far_left = stone_and_platform(stone, &tiles_sheet(), -30000);
    assert_eq!(rightmost(&far_left), -30000 + 754);
    assert_eq!(far_left[0].right(), -30000 + 150 + 90);

    let small = Size { width: 100, height: 54 };
    let offset = i16::MAX - 534;
    let near_right = platform_and_stone(small, &tiles_sheet(), offset);
    assert_eq!(near_right[0].right(), i16::MAX);
    assert_eq!(near_right[1].right(), offset + 370 + 100);
    assert_eq!(rightmost(&near_right), i16::MAX);
}

#[test]
fn obstacles_move_far_within_i16() {
    let mut s = stone_and_platform(Size { width: 90, height: 54 }, &tiles_sheet(), 0);
    s[1].move_horizontally(-20000);
    assert_eq!(s[1].right(), 754 - 20000);
    s[1].move_horizontally(20000);
    s[1].move_horizontally(i16::MAX - 754);
    assert_eq!(s[1].right(), i16::MAX);
}

#[test]
fn meeting_an_obstacle_without_a_picture_is_flagged() {
    let mut walk = new_walk();
    let mut sheet = character_sheet();
    sheet.frames.retain(|(name, _)| !name.starts_with("Run"));
    walk.boy = RedHatBoy::new(sheet);
    assert!(!walk.missing_frame);
    walk.step(&KeyState::new(), 0);
    assert!(!walk.missing_frame);
    walk.step(&keys(&["ArrowRight"]), 0);
    assert!(walk.missing_frame);
    assert_eq!(walk.boy.state_kind(), StateKind::Running);
}
