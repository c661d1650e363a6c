use whack_a_mole::game::{Event, Game, GameAction, KeyCode, KeyEvent, KeyEventKind};

fn names(n: usize) -> Vec<String> {
    (0..n).map(|i| format!("Mole{i}")).collect()
}

fn press(c: char) -> Event {
    Event::Key(KeyEvent { code: KeyCode::Char(c), kind: KeyEventKind::Press })
}

fn assert_board_ok(game: &Game) {
    let holes = game.holes();
    let mut used = Vec::new();
    for m in game.moles() {
        if let Some(h) = m.hole_index() {
            assert!(h < holes.len());
            assert!(holes[h].occupied);
            assert!(!used.contains(&h), "two moles in hole {h}");
            used.push(h);
        }
    }
}

#[test]
fn new_game_defaults() {
    let game = Game::new(names(20));
    assert!(!game.exit());
    assert_eq!(game.tick_duration(), 50);
    assert_eq!(game.num_moles, 8);
    assert_eq!(game.num_holes, 8);
    assert_eq!(game.moles().len(), 8);
    assert_eq!(game.holes().len(), 8);
    assert_eq!(game.mole_names().len(), 20);
    assert!(game.moles().iter().all(|m| m.name() == "Ed" && m.hole_index().is_none()));
    assert!(game.holes().iter().all(|h| !h.occupied));
}

#[test]
fn init_names_and_places_every_mole() {
    let pool = names(20);
    let mut game = Game::new(pool.clone());
    game.init();
    assert_eq!(game.mole_names().len(), 12);
    for m in game.moles() {
        assert!(pool.iter().any(|n| n == m.name()));
        assert!(m.hole_index().is_some());
    }
    let given: Vec<&str> = game.moles().iter().map(|m| m.name()).collect();
    for (i, a) in given.iter().enumerate() {
        assert!(!given[..i].contains(a), "name {a} given twice");
        assert!(!game.mole_names().iter().any(|n| n == a));
    }
    assert!(game.holes().iter().all(|h| h.occupied));
    assert_board_ok(&game);
}

#[test]
fn second_round_keeps_moles_in_their_holes() {
    let mut game = Game::new(names(30));
    game.init();
    let before: Vec<Option<usize>> = game.moles().iter().map(|m| m.hole_index()).collect();
    game.init();
    let after: Vec<Option<usize>> = game.moles().iter().map(|m| m.hole_index()).collect();
    assert_eq!(before, after);
    assert_board_ok(&game);
}

#[test]
fn names_refill_from_the_pool() {
    let mut game = Game::new(names(3));
    let a = game.get_mole_name();
    let b = game.get_mole_name();
    assert_ne!(a, b);
    assert_eq!(game.mole_names().len(), 1);
    let c = game.get_mole_name();
    assert!(c != a && c != b);
    assert_eq!(game.mole_names().len(), 3);
}

#[test]
fn take_mole_name_removes_it() {
    let mut game = Game::new(names(4));
    let n = game.take_mole_name(1);
    assert_eq!(n, "Mole1");
    let left: Vec<&str> = game.mole_names().iter().map(|s| s.as_str()).collect();
    assert_eq!(left, vec!["Mole0", "Mole2", "Mole3"]);
}

#[test]
fn place_mole_occupies_the_hole() {
    let mut game = Game::new(names(4));
    game.place_mole(2, Some(5));
    assert_eq!(game.moles()[2].hole_index(), Some(5));
    assert!(game.holes()[5].occupied);
    assert_eq!(game.holes().iter().filter(|h| h.occupied).count(), 1);
    game.place_mole(3, None);
    assert_eq!(game.moles()[3].hole_index(), None);
}

#[test]
fn q_quits() {
    let mut game = Game::new(names(10));
    assert_eq!(game.handle_event(press('q')), GameAction::Shutdown);
    assert!(game.exit());
    let mut game = Game::new(names(10));
    assert_eq!(game.shutdown(), GameAction::Shutdown);
    assert!(game.exit());
}

#[test]
fn more_moles() {
    let mut game = Game::new(names(100));
    assert_eq!(game.handle_event(press(']')), GameAction::Continue);
    assert_eq!(game.num_moles, 9);
    assert_eq!(game.num_holes, 9);
    assert_eq!(game.moles().len(), 9);
    assert_eq!(game.holes().len(), 9);
    assert!(game.moles().iter().all(|m| m.hole_index().is_some()));
    assert_board_ok(&game);
}

#[test]
fn fewer_moles_keeps_the_board() {
    let mut game = Game::new(names(100));
    assert_eq!(game.handle_event(press('[')), GameAction::Continue);
    assert_eq!(game.num_moles, 7);
    assert_eq!(game.num_holes, 7);
    // the board is not rebuilt: the moles and holes stay as many as they were
    assert_eq!(game.moles().len(), 8);
    assert_eq!(game.holes().len(), 8);
    assert_board_ok(&game);
}

#[test]
fn bounds_on_the_number_of_moles() {
    let mut game = Game::new(names(1000));
    for _ in 0..10 {
        game.handle_event(press('['));
    }
    assert_eq!(game.num_moles, 5);
    assert_eq!(game.num_holes, 5);
    for _ in 0..200 {
        game.handle_event(press(']'));
    }
    assert_eq!(game.num_moles, 128);
    assert_eq!(game.num_holes, 128);
    assert_eq!(game.moles().len(), 128);
    assert_board_ok(&game);
}

#[test]
fn more_then_fewer() {
    let mut game = Game::new(names(100));
    game.handle_event(press(']'));
    game.handle_event(press('['));
    assert_eq!(game.num_moles, 8);
    assert_eq!(game.num_holes, 8);
}

#[test]
fn other_events_change_nothing() {
    let mut game = Game::new(names(10));
    let release = Event::Key(KeyEvent { code: KeyCode::Char('q'), kind: KeyEventKind::Release });
    let repeat = Event::Key(KeyEvent { code: KeyCode::Char(']'), kind: KeyEventKind::Repeat });
    assert_eq!(game.handle_event(release), GameAction::Continue);
    assert_eq!(game.handle_event(repeat), GameAction::Continue);
    assert_eq!(game.handle_event(Event::Other), GameAction::Continue);
    assert_eq!(game.handle_event(press('x')), GameAction::Continue);
    let other_key = Event::Key(KeyEvent { code: KeyCode::Other, kind: KeyEventKind::Press });
    assert_eq!(game.handle_event(other_key), GameAction::Continue);
    assert!(!game.exit());
    assert_eq!(game.num_moles, 8);
    assert!(game.moles().iter().all(|m| m.name() == "Ed"));
}

#[test]
fn can_handle_needs_names() {
    let game = Game::new(Vec::new());
    assert!(!game.can_handle(press(']')));
    assert!(!game.can_handle(press('[')));
    assert!(game.can_handle(press('q')));
    assert!(game.can_handle(Event::Other));
    let game = Game::new(names(1));
    assert!(game.can_handle(press(']')));
}

#[test]
fn drain_hands_out_nothing_new() {
    let mut game = Game::new(names(10));
    assert!(game.drain_panel_updates().is_empty());
}

#[test]
fn names_run_out_mid_round() {
    let pool = names(3);
    let mut game = Game::new(pool.clone());
    game.init();
    let given: Vec<String> = game.moles().iter().map(|m| m.name().to_string()).collect();
    // draws of three names each come in turn from a full pool, then one more run of two
    for chunk in [&given[0..3], &given[3..6]] {
        let mut sorted = chunk.to_vec();
        sorted.sort();
        assert_eq!(sorted, pool);
    }
    assert_ne!(given[6], given[7]);
    let left = game.mole_names();
    assert_eq!(left.len(), 1);
    assert!(left[0] != given[6] && left[0] != given[7]);
}

#[test]
fn consecutive_takes_give_every_name_once() {
    let pool = names(5);
    let mut game = Game::new(pool.clone());
    let mut drawn: Vec<String> = (0..5).map(|_| game.get_mole_name()).collect();
    drawn.sort();
    assert_eq!(drawn, pool);
    assert_eq!(game.mole_names().len(), 5);
}

#[test]
fn count_getters_match_fields() {
    let mut game = Game::new(names(50));
    assert_eq!(game.num_moles(), game.num_moles);
    assert_eq!(game.num_holes(), game.num_holes);
    game.handle_event(press(']'));
    assert_eq!(game.num_moles(), 9);
    assert_eq!(game.num_holes(), 9);
    let m = &game.moles()[0];
    assert_eq!(m.is_up(), m.is_up);
    assert_eq!(m.position(), (m.pos_x, m.pos_y));
}
