use mg_calr::tui::{Key, TuiState};

#[test]
fn navigation_is_bounded_and_refresh_is_explicit() {
    let mut state = TuiState::new();
    state.apply(Key::Down, 2);
    state.apply(Key::Down, 2);
    assert_eq!(state.selected(), 1);
    state.apply(Key::Up, 2);
    assert_eq!(state.selected(), 0);
    state.apply(Key::Refresh, 2);
    assert!(state.take_refresh_request());
    assert!(!state.take_refresh_request());
}

#[test]
fn quit_and_unknown_keys_have_deterministic_transitions() {
    let mut state = TuiState::new();
    state.apply(Key::Unknown, 0);
    assert_eq!(state.status(), "unknown key (use j/k, r, or q)");
    state.apply(Key::Quit, 0);
    assert!(state.should_quit());
}

#[test]
fn empty_render_is_stable() {
    let frame = TuiState::new().render(&[]);
    assert_eq!(
        frame,
        "mg-calr | todos\n────────────────────────────────────────\n  (no todos)\n────────────────────────────────────────\nj/k move  r refresh  q quit | ready\n"
    );
}

#[test]
fn key_parser_accepts_keyboard_aliases() {
    assert_eq!(Key::parse("j"), Key::Down);
    assert_eq!(Key::parse("k"), Key::Up);
    assert_eq!(Key::parse("r"), Key::Refresh);
    assert_eq!(Key::parse("q"), Key::Quit);
}

#[test]
fn selection_never_passes_the_last_item_and_resets_on_an_empty_list() {
    let mut state = TuiState::new();
    for _ in 0..10 {
        state.apply(Key::Down, 3);
    }
    assert_eq!(state.selected(), 2);
    state.complete_refresh(0);
    assert_eq!(state.selected(), 0);
    state.apply(Key::Up, 0);
    assert_eq!(state.selected(), 0);
}

#[test]
fn key_parser_trims_and_names_the_long_forms() {
    assert_eq!(Key::parse(" j "), Key::Down);
    assert_eq!(Key::parse("x"), Key::Unknown);
}

#[test]
fn the_default_shell_state_is_the_new_one() {
    let mut state = TuiState::default();
    assert_eq!(state.selected(), 0);
    assert!(!state.should_quit());
    assert!(!state.take_refresh_request());
    assert_eq!(state.status(), TuiState::new().status());
    assert!(state.render(&[]).ends_with("j/k move  r refresh  q quit | ready\n"));
}
