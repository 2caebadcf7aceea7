use dotman::demo::{
    kind_rank, DemoState, ReviewEntry, Seed, SeedItem, KEY_BACK, KEY_DISCARD, KEY_DOWN, KEY_ENTER, KEY_RUN,
    KEY_SAVE, KEY_SPACE, KEY_TAB, SCREEN_HISTORY, SCREEN_MAIN, SCREEN_PLAN, SCREEN_REPLAY,
    SCREEN_RESULT, SCREEN_REVIEW, SCREEN_RUN,
};

fn state() -> DemoState {
    DemoState {
        seed: Seed {
            items: vec![
                SeedItem {
                    name: "ghostty".into(),
                    layer: "terminal".into(),
                    action_count: 2,
                    selected: true,
                },
                SeedItem {
                    name: "fish".into(),
                    layer: "shell".into(),
                    action_count: 1,
                    selected: true,
                },
            ],
            review_entries: vec![ReviewEntry {
                item_index: 0,
                order: 0,
                kind: "install".into(),
                kind_icon: "".into(),
                severity: "run".into(),
                status: "missing".into(),
                detail: "install ghostty".into(),
            }],
        },
        saved_selection: vec![true, true],
        ..DemoState::default()
    }
}

#[test]
fn plan_selection_drives_review_counts() {
    let mut state = state();
    state.open_plan(0);
    state.move_plan(true, 1);
    state.toggle_current();
    assert_eq!(state.selected_counts(), (1, 1));
    assert!(state.dirty);
    state.input(KEY_RUN);
    assert_eq!(state.screen, SCREEN_REVIEW);
    assert_eq!(state.frame_screen(), "review");
}

#[test]
fn discard_restores_the_last_saved_selection() {
    let mut state = state();
    state.open_plan(0);
    state.move_plan(true, 1);
    state.toggle_current();
    assert!(!state.seed.items[0].selected);

    state.input(KEY_BACK);
    assert!(state.exit_pending);
    state.input(KEY_DISCARD);

    assert_eq!(state.screen, SCREEN_MAIN);
    assert!(state.seed.items[0].selected);
    assert!(!state.dirty);
}

#[test]
fn discard_restores_a_selection_saved_during_the_session() {
    let mut state = state();
    state.open_plan(0);
    state.move_plan(true, 1);
    state.toggle_current();
    state.input(KEY_SAVE);
    assert!(!state.seed.items[0].selected);

    state.toggle_current();
    state.input(KEY_BACK);
    state.input(KEY_DISCARD);

    assert!(!state.seed.items[0].selected);
    assert!(!state.dirty);
}

#[test]
fn core_flow_reaches_result() {
    let mut state = state();
    state.input(KEY_ENTER);
    state.input(KEY_RUN);
    state.input(KEY_RUN);
    for _ in 0..6 {
        state.tick();
    }
    assert_eq!(state.screen, SCREEN_RESULT);
    assert_eq!(state.frame_screen(), "result");
}

#[test]
fn abort_waits_for_a_tick_and_reaches_an_aborted_result() {
    let mut state = state();
    state.screen = SCREEN_RUN;
    state.run_step = 2;

    state.input(KEY_BACK);
    assert_eq!(state.screen, SCREEN_RUN);
    assert!(state.run_aborting);
    assert!(!state.run_aborted);

    state.tick();
    assert_eq!(state.screen, SCREEN_RESULT);
    assert!(!state.run_aborting);
    assert!(state.run_aborted);
    assert_eq!(state.run_step, 2);
}

#[test]
fn replay_selection_can_expand_and_move() {
    let mut state = state();
    state.screen = SCREEN_REPLAY;
    state.replay_count = 3;
    state.input(KEY_SPACE);
    assert!(state.replay_expanded);
    state.input(KEY_DOWN);
    assert_eq!(state.index, 1);
    assert!(!state.replay_expanded);
}

#[test]
fn run_log_filter_and_fold_are_interactive() {
    let mut state = state();
    state.screen = SCREEN_RUN;
    state.input(KEY_TAB);
    state.input(KEY_ENTER);
    assert_eq!(state.run_filter, 1);
    assert!(state.run_folded);
    assert_eq!(state.frame_screen(), "run");
}

#[test]
fn pointer_selects_and_activates_tui_rows() {
    let mut state = state();
    state.pointer(5, 9, 1);
    assert_eq!(state.index, 2);
    state.pointer(5, 9, 2);
    assert_eq!(state.screen, SCREEN_HISTORY);

    state.screen = SCREEN_PLAN;
    state.plan_row = 0;
    state.pointer(5, 3, 1);
    assert!(!state.seed.items[0].selected);
    assert!(state.dirty);

    state.screen = SCREEN_REPLAY;
    state.replay_count = 3;
    state.pointer(5, 5, 2);
    assert_eq!(state.index, 2);
    assert!(state.replay_expanded);

    state.screen = SCREEN_RUN;
    let h = state.height;
    state.pointer(20, h - 11, 1);
    state.pointer(20, h - 10, 1);
    assert_eq!(state.run_filter, 1);
    assert!(state.run_folded);
}

#[test]
fn toggling_a_layer_twice_restores_collapsed_layers() {
    let mut collapsed: Vec<String> = vec!["shell".to_string()];
    dotman::demo::toggle_layer(&mut collapsed, "terminal");
    assert_eq!(collapsed.len(), 2);
    dotman::demo::toggle_layer(&mut collapsed, "terminal");
    assert_eq!(collapsed, vec!["shell".to_string()]);
}

#[test]
fn list_offset_keeps_selection_visible() {
    assert_eq!(dotman::demo::list_offset(0, 10, 4), 0);
    assert_eq!(dotman::demo::list_offset(9, 10, 4), 6);
    assert_eq!(dotman::demo::list_offset(2, 3, 10), 0);
}

#[test]
fn result_counts_split_completed_entries() {
    let state = state();
    let (a, b, c) = dotman::demo::result_counts(&state.seed.review_entries, 1);
    assert_eq!(a + b + c, 1);
}

#[test]
fn review_orders_action_kinds() {
    let kinds = ["install", "link", "create", "shell", "clean", "other"];
    let ranks: Vec<usize> = kinds.iter().map(|k| kind_rank(k)).collect();
    assert_eq!(ranks, vec![0, 1, 2, 3, 4, 5]);
}
