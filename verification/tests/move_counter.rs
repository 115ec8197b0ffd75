use state::MoveCounter;

#[test]
fn increment_a_lot() {
    let mut counter = MoveCounter::default();
    for _ in 0..1_000_000 {
        counter.increment(false);
    }
    assert_eq!(255u8, counter.get_fifty_move_rule_count());
}

#[test]
fn reset_undo() {
    let mut counter = MoveCounter::default();
    for _ in 0..10 {
        counter.reset_fifty_move_rule();
        for _ in 0..60 {
            counter.increment(false);
        }
    }
    for _ in 0..1_000_000 {
        counter.decrement();
    }
    assert_eq!(counter.get_fifty_move_rule_resets(), 1);
}

#[test]
fn new_counter_starts_at_move_one() {
    let counter = MoveCounter::new();
    assert_eq!(counter.get_fifty_move_rule_count(), 0);
    assert_eq!(counter.get_fifty_move_rule_resets(), 1);
    assert_eq!(counter.get_halfmove_count(), 0);
    assert_eq!(counter.get_fullmove_count(), 1);
}

#[test]
fn full_move_goes_up_on_even_plies() {
    let mut counter = MoveCounter::new();
    counter.increment(false);
    assert_eq!(counter.get_halfmove_count(), 1);
    assert_eq!(counter.get_fullmove_count(), 1);
    counter.increment(false);
    assert_eq!(counter.get_halfmove_count(), 2);
    assert_eq!(counter.get_fullmove_count(), 2);
    counter.increment(true);
    assert_eq!(counter.get_halfmove_count(), 3);
    assert_eq!(counter.get_fullmove_count(), 2);
    assert_eq!(counter.get_fifty_move_rule_count(), 0);
    assert_eq!(counter.get_fifty_move_rule_resets(), 2);
}

#[test]
fn decrement_takes_back_a_quiet_ply_and_a_reset() {
    let mut counter = MoveCounter::new();
    counter.increment(false);
    counter.increment(false);
    counter.increment(true);
    counter.increment(false);
    assert_eq!(counter.get_fifty_move_rule_count(), 1);
    counter.decrement();
    assert_eq!(counter.get_fifty_move_rule_count(), 0);
    assert_eq!(counter.get_fifty_move_rule_resets(), 2);
    counter.decrement();
    assert_eq!(counter.get_fifty_move_rule_count(), 2);
    assert_eq!(counter.get_fifty_move_rule_resets(), 1);
    assert_eq!(counter.get_halfmove_count(), 2);
}

#[test]
fn decrement_at_the_start_changes_nothing() {
    let mut counter = MoveCounter::new();
    counter.decrement();
    assert_eq!(counter.get_halfmove_count(), 0);
    assert_eq!(counter.get_fullmove_count(), 1);
    assert_eq!(counter.get_fifty_move_rule_count(), 0);
    assert_eq!(counter.get_fifty_move_rule_resets(), 1);
}

#[test]
fn decrement_undoes_one_increment() {
    let mut counter = MoveCounter::new();
    counter.increment(false);
    counter.decrement();
    assert_eq!(
        (
            counter.get_fifty_move_rule_count(),
            counter.get_halfmove_count(),
            counter.get_fullmove_count()
        ),
        (0, 0, 1)
    );
    for ply in 0..9u128 {
        let reset = ply % 3 == 0;
        let before = (
            counter.get_fifty_move_rule_count(),
            counter.get_fifty_move_rule_resets(),
            counter.get_halfmove_count(),
            counter.get_fullmove_count(),
        );
        assert_eq!(before.2, ply);
        assert_eq!(before.3, 1 + ply / 2);
        counter.increment(reset);
        counter.decrement();
        let after = (
            counter.get_fifty_move_rule_count(),
            counter.get_fifty_move_rule_resets(),
            counter.get_halfmove_count(),
            counter.get_fullmove_count(),
        );
        assert_eq!(before, after);
        counter.increment(reset);
    }
}

#[test]
fn decrements_walk_the_full_move_number_back() {
    let mut counter = MoveCounter::new();
    for _ in 0..4 {
        counter.increment(false);
    }
    assert_eq!((counter.get_halfmove_count(), counter.get_fullmove_count()), (4, 3));
    counter.decrement();
    assert_eq!((counter.get_halfmove_count(), counter.get_fullmove_count()), (3, 2));
    counter.decrement();
    assert_eq!((counter.get_halfmove_count(), counter.get_fullmove_count()), (2, 2));
    counter.decrement();
    assert_eq!((counter.get_halfmove_count(), counter.get_fullmove_count()), (1, 1));
    counter.decrement();
    assert_eq!((counter.get_halfmove_count(), counter.get_fullmove_count()), (0, 1));
}
