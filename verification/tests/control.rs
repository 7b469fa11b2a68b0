use tetris::block::{shape_of, BlockKind, Turn};
use tetris::control::{apply, intent_of_key, Action, Event, Intent, Key};
use tetris::field::{new_empty, Field, FIELD_HEIGHT, FIELD_WIDTH};
use tetris::game::{is_collision, is_in_range, try_rotate, Game, Position};

fn border_holds(field: &Field) -> bool {
    (0..FIELD_HEIGHT).all(|y| {
        (0..FIELD_WIDTH).all(|x| {
            let cell = field[y][x];
            if x == 0 || x == FIELD_WIDTH - 1 || y == FIELD_HEIGHT - 1 {
                cell == 1
            } else {
                cell == 0 || (2..=8).contains(&cell)
            }
        })
    })
}

fn piece_fits(game: &Game) -> bool {
    is_in_range(&game.pos, &game.shape) && !is_collision(&game.field, &game.pos, &game.shape)
}

fn same(a: &Game, b: &Game) -> bool {
    a.field == b.field
        && a.pos == b.pos
        && a.block == b.block
        && a.shape == b.shape
        && a.over == b.over
}

fn next_number(state: &mut u64) -> u64 {
    *state = state
        .wrapping_mul(6364136223846793005)
        .wrapping_add(1442695040888963407);
    *state >> 33
}

fn event_of(n: u64) -> Event {
    match n % 7 {
        0 => Event::Tick,
        1 => Event::Input(Intent::MoveLeft),
        2 => Event::Input(Intent::MoveRight),
        3 => Event::Input(Intent::SoftDrop),
        4 => Event::Input(Intent::HardDrop),
        5 => Event::Input(Intent::RotateLeft),
        _ => Event::Input(Intent::RotateRight),
    }
}

#[test]
fn keys_stand_for_intents() {
    assert_eq!(intent_of_key(Key::Left), Some(Intent::MoveLeft));
    assert_eq!(intent_of_key(Key::Right), Some(Intent::MoveRight));
    assert_eq!(intent_of_key(Key::Down), Some(Intent::SoftDrop));
    assert_eq!(intent_of_key(Key::Up), Some(Intent::HardDrop));
    assert_eq!(intent_of_key(Key::Char('a')), Some(Intent::RotateLeft));
    assert_eq!(intent_of_key(Key::Char('d')), Some(Intent::RotateRight));
    assert_eq!(intent_of_key(Key::Char('q')), Some(Intent::Quit));
}

#[test]
fn other_keys_stand_for_nothing() {
    assert_eq!(intent_of_key(Key::Other), None);
    for c in ['A', 'D', 'Q', 'w', 's', ' ', '\n', '0'] {
        assert_eq!(intent_of_key(Key::Char(c)), None);
    }
}

#[test]
fn a_tick_moves_the_piece_down() {
    let mut game = Game::start(BlockKind::T);
    assert_eq!(apply(&mut game, Event::Tick, BlockKind::I), Action::Render);
    assert_eq!(game.pos, Position { x: 4, y: 1 });
    assert_eq!(game.block, BlockKind::T);
}

#[test]
fn a_tick_lands_a_piece_on_the_floor() {
    let mut game = Game::start(BlockKind::T);
    game.pos = Position { x: 4, y: 17 };
    assert_eq!(apply(&mut game, Event::Tick, BlockKind::I), Action::Render);
    let mut expected = new_empty();
    expected[18][5] = 8;
    expected[19][4] = 8;
    expected[19][5] = 8;
    expected[19][6] = 8;
    assert_eq!(game.field, expected);
    assert_eq!(game.pos, Position::init());
    assert_eq!(game.block, BlockKind::I);
}

#[test]
fn the_players_soft_drop_does_not_land_the_piece() {
    let mut game = Game::start(BlockKind::T);
    game.pos = Position { x: 4, y: 16 };
    let soft = Event::Input(Intent::SoftDrop);
    assert_eq!(apply(&mut game, soft, BlockKind::I), Action::Render);
    assert_eq!(game.pos, Position { x: 4, y: 17 });
    let before = game;
    assert_eq!(apply(&mut game, soft, BlockKind::I), Action::Render);
    assert!(same(&game, &before));
}

#[test]
fn intents_move_and_turn_the_piece() {
    let mut game = Game::start(BlockKind::L);
    let l = shape_of(BlockKind::L);
    assert_eq!(
        apply(&mut game, Event::Input(Intent::MoveLeft), BlockKind::I),
        Action::Render
    );
    assert_eq!(game.pos, Position { x: 3, y: 0 });
    assert_eq!(
        apply(&mut game, Event::Input(Intent::MoveRight), BlockKind::I),
        Action::Render
    );
    assert_eq!(game.pos, Position { x: 4, y: 0 });
    assert_eq!(
        apply(&mut game, Event::Input(Intent::RotateLeft), BlockKind::I),
        Action::Render
    );
    assert_eq!(
        game.shape,
        [[0, 0, 0, 0], [0, 7, 7, 0], [0, 0, 7, 0], [0, 0, 7, 0]]
    );
    assert_eq!(
        apply(&mut game, Event::Input(Intent::RotateRight), BlockKind::I),
        Action::Render
    );
    assert_eq!(game.shape, l);
    assert_eq!(
        apply(&mut game, Event::Input(Intent::RotateRight), BlockKind::I),
        Action::Render
    );
    assert_eq!(
        game.shape,
        [[0, 7, 0, 0], [0, 7, 0, 0], [0, 7, 7, 0], [0, 0, 0, 0]]
    );
    assert_eq!(game.field, new_empty());
}

#[test]
fn a_hard_drop_intent_lands_the_piece() {
    let mut game = Game::start(BlockKind::O);
    assert_eq!(
        apply(&mut game, Event::Input(Intent::HardDrop), BlockKind::J),
        Action::Render
    );
    let mut expected = new_empty();
    expected[18][5] = 3;
    expected[18][6] = 3;
    expected[19][5] = 3;
    expected[19][6] = 3;
    assert_eq!(game.field, expected);
    assert_eq!(game.block, BlockKind::J);
}

#[test]
fn quit_changes_nothing() {
    let mut game = Game::start(BlockKind::O);
    let before = game;
    assert_eq!(
        apply(&mut game, Event::Input(Intent::Quit), BlockKind::J),
        Action::Quit
    );
    assert!(same(&game, &before));
}

#[test]
fn a_landing_without_room_to_spawn_is_reported() {
    let mut game = Game::start(BlockKind::O);
    game.field[3][5] = 2;
    assert_eq!(apply(&mut game, Event::Tick, BlockKind::J), Action::GameOver);
    assert!(game.over);
    let ended = game;
    for n in 0..7 {
        assert_eq!(apply(&mut game, event_of(n), BlockKind::I), Action::GameOver);
        assert!(same(&game, &ended));
    }
    assert_eq!(
        apply(&mut game, Event::Input(Intent::Quit), BlockKind::I),
        Action::Quit
    );
    assert!(same(&game, &ended));
}

#[test]
fn any_run_of_events_keeps_the_border_and_draws_once_per_event() {
    for seed in 0..20u64 {
        let mut numbers = seed;
        let mut game = Game::start(BlockKind::from_index((seed % 7) as usize));
        let mut renders = 0;
        let mut handed_in = 0;
        for _ in 0..3000 {
            let event = event_of(next_number(&mut numbers));
            let next = BlockKind::from_index((next_number(&mut numbers) % 7) as usize);
            let action = apply(&mut game, event, next);
            assert!(border_holds(&game.field));
            if action == Action::GameOver {
                assert!(game.over);
                break;
            }
            assert_eq!(action, Action::Render);
            assert!(!game.over);
            assert!(piece_fits(&game));
            assert!(game.is_well_formed());
            handed_in += 1;
            renders += 1;
        }
        assert_eq!(renders, handed_in);
        assert!(renders > 0);
    }
}

#[test]
fn a_turned_piece_stays_inside_the_field() {
    for kind_index in 0..7 {
        let kind = BlockKind::from_index(kind_index);
        for turns in 0..4 {
            for y in 0..FIELD_HEIGHT {
                for x in 0..FIELD_WIDTH {
                    let mut game = Game::start(kind);
                    for _ in 0..turns {
                        try_rotate(&mut game, Turn::Right);
                    }
                    game.pos = Position { x, y };
                    if !piece_fits(&game) {
                        continue;
                    }
                    for turn in [Turn::Left, Turn::Right] {
                        let mut turned = game;
                        try_rotate(&mut turned, turn);
                        assert!(piece_fits(&turned));
                    }
                }
            }
        }
    }
}
