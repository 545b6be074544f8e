use grandma_launcher::config::{GameEntry, GamesConfig};
use grandma_launcher::mister::{classify_write, fb_mode_command, partial_write_message, CommandWrite};
use grandma_launcher::paths::{join, GrandmaPaths};
use grandma_launcher::splash::{delay_ms, local_ip_from_fib_trie, splash_exit_code, splash_step, SplashStep};
use grandma_launcher::supervisor::{splash_outcome, BackoffAction, CrashBackoff, SplashOutcome};
use grandma_launcher::text::{decimal_string, starts_with, str_eq};
use grandma_launcher::validate::{keep_launchable, validate_games, validate_games_with};

#[test]
fn decimal_strings() {
    assert_eq!(decimal_string(0), "0");
    assert_eq!(decimal_string(7), "7");
    assert_eq!(decimal_string(1080), "1080");
    assert_eq!(decimal_string(u64::MAX), "18446744073709551615");
}

#[test]
fn string_helpers() {
    assert!(str_eq("abc", "abc"));
    assert!(!str_eq("abc", "abd"));
    assert!(!str_eq("abc", "ab"));
    assert!(starts_with("|-- 10.0.0.1", "|-- 10."));
    assert!(!starts_with("|--", "|-- 10."));
}

#[test]
fn joins() {
    assert_eq!(join("/a", "b"), "/a/b");
    assert_eq!(join("/a/", "b"), "/a/b");
    assert_eq!(join("", "b"), "b");
    assert_eq!(join("/a", "/etc/x"), "/etc/x");
}

#[test]
fn standard_paths() {
    let p = GrandmaPaths::mister();
    assert_eq!(p.base, "/media/fat/grandma_launcher");
    assert_eq!(p.games_json(), "/media/fat/grandma_launcher/games.json");
    assert_eq!(p.games_json_bak(), "/media/fat/grandma_launcher/games.json.bak");
    assert_eq!(p.settings_json(), "/media/fat/grandma_launcher/settings.json");
    assert_eq!(p.state_json(), "/media/fat/grandma_launcher/state.json");
    assert_eq!(p.log_file(), "/media/fat/grandma_launcher/grandma.log");
    assert_eq!(p.boxart_dir(), "/media/fat/grandma_launcher/assets/boxart");
    assert_eq!(p.placeholder_art(), "/media/fat/grandma_launcher/assets/placeholder.png");
    assert_eq!(p.font_file(), "/media/fat/grandma_launcher/assets/font.ttf");
    assert_eq!(GrandmaPaths::kill_switch(), "/media/fat/grandma_launcher.disabled");
    assert_eq!(GrandmaPaths::mister_cmd(), "/dev/MiSTer_cmd");
    assert_eq!(GrandmaPaths::arcade_dir(), "/media/fat/_Arcade");
    assert_eq!(p.bin_path("grandma-splash"), "/media/fat/grandma_launcher/bin/grandma-splash");
    assert_eq!(p.art_path("assets/boxart/x.png"), "/media/fat/grandma_launcher/assets/boxart/x.png");
    assert_eq!(p.art_path("/abs/x.png"), "/abs/x.png");
    let q = GrandmaPaths::new("rel/");
    assert_eq!(q.state_json(), "rel/state.json");
}

fn game(id: &str, launch: &str) -> GameEntry {
    GameEntry { id: id.into(), name: id.into(), system: "arcade".into(), launch: launch.into(), art: String::new() }
}

#[test]
fn validation_with_given_facts() {
    let cfg = GamesConfig { schema: 1, games: vec![game("a", "/x/a.mra"), game("b", "/x/b.mgl")] };
    let exts = vec![Some("mra".to_string()), Some("mgl".to_string())];
    assert_eq!(validate_games_with(&cfg, &exts, &vec![true, true]), Ok(()));
    assert_eq!(
        validate_games_with(&cfg, &exts, &vec![true, false]),
        Err("Launch file not found for b: /x/b.mgl".to_string())
    );
    let dup = GamesConfig { schema: 1, games: vec![game("a", "/x/a.zip"), game("a", "/x/a.mra")] };
    let exts2 = vec![Some("zip".to_string()), Some("mra".to_string())];
    assert_eq!(
        validate_games_with(&dup, &exts2, &vec![false, false]),
        Err("Invalid launch file extension for a: /x/a.zip".to_string())
    );
    let dup2 = GamesConfig { schema: 1, games: vec![game("a", "/x/a.mra"), game("a", "/x/a.mra")] };
    assert_eq!(
        validate_games_with(&dup2, &vec![Some("mra".into()), Some("mra".into())], &vec![true, true]),
        Err("Duplicate game ID: a".to_string())
    );
    let noext = GamesConfig { schema: 1, games: vec![game("c", "/x/c")] };
    assert_eq!(
        validate_games_with(&noext, &vec![None], &vec![true]),
        Err("Invalid launch file extension for c: /x/c".to_string())
    );
}

#[test]
fn validation_reads_extension_and_disk() {
    let missing = GamesConfig { schema: 1, games: vec![game("nope", "/nonexistent/grandma/Nope.mra")] };
    assert_eq!(
        validate_games(&missing),
        Err("Launch file not found for nope: /nonexistent/grandma/Nope.mra".to_string())
    );
    let ext = GamesConfig { schema: 1, games: vec![game("t", "/nonexistent/file.txt")] };
    assert_eq!(validate_games(&ext), Err("Invalid launch file extension for t: /nonexistent/file.txt".to_string()));
    let dotfile = GamesConfig { schema: 1, games: vec![game("d", "/nonexistent/.mra")] };
    assert_eq!(validate_games(&dotfile), Err("Invalid launch file extension for d: /nonexistent/.mra".to_string()));
    let dup = GamesConfig { schema: 1, games: vec![game("a", "/nonexistent/a.mgl"), game("a", "x")] };
    assert_eq!(validate_games(&dup), Err("Launch file not found for a: /nonexistent/a.mgl".to_string()));
    assert_eq!(validate_games(&GamesConfig { schema: 1, games: vec![] }), Ok(()));
}

#[test]
fn splash_outcomes() {
    assert_eq!(splash_outcome(Some(0)), SplashOutcome::Proceed);
    assert_eq!(splash_outcome(Some(1)), SplashOutcome::EscapeToMenu);
    assert_eq!(splash_outcome(Some(-1)), SplashOutcome::EscapeToMenu);
    assert_eq!(splash_outcome(None), SplashOutcome::StartFailed);
}

#[test]
fn crash_backoff_gives_up_after_three_fast_exits() {
    let mut b = CrashBackoff::new();
    assert_eq!(b.after_exit(100), BackoffAction::Backoff);
    assert_eq!(b.after_exit(1999), BackoffAction::Backoff);
    assert_eq!(b.after_exit(0), BackoffAction::GiveUp);
    assert_eq!(b.fast_failures(), 3);
}

#[test]
fn crash_backoff_resets_on_normal_exit() {
    let mut b = CrashBackoff::new();
    assert_eq!(b.after_exit(10), BackoffAction::Backoff);
    assert_eq!(b.after_exit(10), BackoffAction::Backoff);
    assert_eq!(b.after_exit(2000), BackoffAction::Relaunch);
    assert_eq!(b.fast_failures(), 0);
    assert_eq!(b.after_exit(10), BackoffAction::Backoff);
    assert_eq!(b.fast_failures(), 1);
}

#[test]
fn local_ip_lookup() {
    let table = "Main:\n  +-- 0.0.0.0/0 3 0 5\n     |-- 0.0.0.0\n        /0 universe UNICAST\n     +-- 192.168.1.0/24 2 0 2\n        |-- 192.168.1.42\n           /32 host LOCAL\n";
    assert_eq!(local_ip_from_fib_trie(table), "192.168.1.42");
    assert_eq!(local_ip_from_fib_trie("|-- 10.73.7.226\r\n|-- 192.168.0.1"), "10.73.7.226");
    assert_eq!(local_ip_from_fib_trie("|-- |-- 10.0.0.2"), "unknown");
    assert_eq!(local_ip_from_fib_trie("   |-- 10.1.2.3   \n"), "10.1.2.3");
    assert_eq!(local_ip_from_fib_trie("nothing here"), "unknown");
    assert_eq!(local_ip_from_fib_trie(""), "unknown");
}

#[test]
fn mister_commands() {
    assert_eq!(fb_mode_command(), "fb_cmd0 8888 1 1\n");
    assert_eq!(classify_write(-1, 10), CommandWrite::Failed);
    assert_eq!(classify_write(3, 10), CommandWrite::Partial);
    assert_eq!(classify_write(10, 10), CommandWrite::Complete);
    assert_eq!(partial_write_message(3, 10), "Partial write to MiSTer_cmd: 3 of 10 bytes");
}

#[test]
fn keep_launchable_keeps_present_games_in_order() {
    let games: Vec<GameEntry> = ["a", "b", "c", "d"]
        .iter()
        .map(|id| GameEntry {
            id: id.to_string(),
            name: id.to_uppercase(),
            system: "arcade".into(),
            launch: format!("/x/{}.mra", id),
            art: String::new(),
        })
        .collect();
    let kept = keep_launchable(games, &vec![true, false, true, false]);
    let ids: Vec<&str> = kept.iter().map(|g| g.id.as_str()).collect();
    assert_eq!(ids, vec!["a", "c"]);
    assert!(keep_launchable(vec![], &vec![]).is_empty());
}

#[test]
fn uinput_records() {
    let ev = grandma_launcher::uinput::input_event_record(0x0102_0304, -2, 1, 67, 1);
    assert_eq!(ev, vec![4, 3, 2, 1, 0xfe, 0xff, 0xff, 0xff, 1, 0, 67, 0, 1, 0, 0, 0]);
    let dev = grandma_launcher::uinput::uinput_device_record(b"grandma-kbd");
    assert_eq!(dev.len(), 1116);
    assert_eq!(&dev[..11], b"grandma-kbd");
    assert!(dev[11..].iter().all(|b| *b == 0));
}

#[test]
fn splash_countdown_steps() {
    assert_eq!(delay_ms(3), 3000);
    assert_eq!(splash_step(2999, 3000, 0), SplashStep::Wait);
    assert_eq!(splash_step(2999, 3000, 1), SplashStep::Escape);
    assert_eq!(splash_step(3000, 3000, 1), SplashStep::Proceed);
    assert_eq!(splash_step(0, 0, 0), SplashStep::Proceed);
    assert_eq!(splash_exit_code(SplashStep::Proceed), 0);
    assert_eq!(splash_exit_code(SplashStep::Escape), 1);
}

#[test]
fn local_ip_lines_and_whitespace() {
    assert_eq!(local_ip_from_fib_trie("x\n\u{3000}|-- 10.0.0.7\u{2003}\n"), "10.0.0.7");
    assert_eq!(local_ip_from_fib_trie("a\r\n\t|-- 192.168.4.2\r"), "192.168.4.2");
    assert_eq!(local_ip_from_fib_trie("\n\n"), "unknown");
}
