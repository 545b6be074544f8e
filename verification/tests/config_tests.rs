use grandma_launcher::config::{
    default_admin_port, default_boot_delay, default_columns, default_resolution, default_title,
    GamesConfig, Settings, State,
};

#[test]
fn test_record_play_adds_to_front() {
    let mut state = State::default();
    state.record_play("galaga");
    state.record_play("pacman");
    assert_eq!(state.recently_played, vec!["pacman", "galaga"]);
}

#[test]
fn test_record_play_deduplicates() {
    let mut state = State::default();
    state.record_play("galaga");
    state.record_play("pacman");
    state.record_play("galaga");
    assert_eq!(state.recently_played, vec!["galaga", "pacman"]);
}

#[test]
fn test_record_play_truncates_at_5() {
    let mut state = State::default();
    for i in 0..7 {
        state.record_play(&format!("game{}", i));
    }
    assert_eq!(state.recently_played.len(), 5);
    assert_eq!(state.recently_played[0], "game6");
}

#[test]
fn record_play_twice_is_once() {
    let mut once = State::default();
    once.record_play("a");
    once.record_play("b");
    once.record_play("c");
    let mut twice = once.clone();
    once.record_play("a");
    twice.record_play("a");
    twice.record_play("a");
    assert_eq!(once.recently_played, twice.recently_played);
    assert_eq!(once.recently_played, vec!["a", "c", "b"]);
}

#[test]
fn record_play_keeps_order_of_others_and_limit() {
    let mut state = State {
        schema: 1,
        recently_played: vec!["a".into(), "b".into(), "c".into(), "d".into(), "e".into()],
    };
    state.record_play("c");
    assert_eq!(state.recently_played, vec!["c", "a", "b", "d", "e"]);
    state.record_play("z");
    assert_eq!(state.recently_played, vec!["z", "c", "a", "b", "d"]);
    assert_eq!(state.schema, 1);
}

#[test]
fn record_play_removes_every_copy() {
    let mut state = State {
        schema: 7,
        recently_played: vec!["x".into(), "y".into(), "x".into()],
    };
    state.record_play("x");
    assert_eq!(state.recently_played, vec!["x", "y"]);
    assert_eq!(state.schema, 7);
}

#[test]
fn defaults_match_documentation() {
    let s = Settings::default();
    assert_eq!(s.schema, 1);
    assert_eq!(s.title, "GAME TIME!");
    assert_eq!(s.boot_delay_seconds, 3);
    assert!(!s.admin_server);
    assert_eq!(s.admin_port, 8080);
    assert_eq!(s.columns, 3);
    assert_eq!(s.resolution.width, 1920);
    assert_eq!(s.resolution.height, 1080);
    assert_eq!(default_title(), "GAME TIME!");
    assert_eq!(default_boot_delay(), 3);
    assert_eq!(default_admin_port(), 8080);
    assert_eq!(default_columns(), 3);
    let r = default_resolution();
    assert_eq!((r.width, r.height), (1920, 1080));
    let st = State::default();
    assert_eq!(st.schema, 1);
    assert!(st.recently_played.is_empty());
}

#[test]
fn settings_schema_check() {
    let mut s = Settings::default();
    assert!(s.clone().checked().is_ok());
    s.schema = 2;
    assert_eq!(s.checked().unwrap_err(), "Unsupported settings schema version: 2");
}

#[test]
fn games_schema_check() {
    let ok = GamesConfig { schema: 1, games: vec![] };
    assert_eq!(ok.checked().unwrap().games.len(), 0);
    let bad = GamesConfig { schema: 4294967295, games: vec![] };
    assert_eq!(
        bad.checked().unwrap_err(),
        "Unsupported games config schema version: 4294967295"
    );
    let zero = GamesConfig { schema: 0, games: vec![] };
    assert_eq!(zero.checked().unwrap_err(), "Unsupported games config schema version: 0");
}
