use rune_pause::codec::encode_settings;
use rune_pause::codec::parse_settings;
use rune_pause::config::TimerSettings;
use rune_pause::config::UiSettings;
use rune_pause::engine::Settings;
use rune_pause::idle::idle_seconds;
use rune_pause::store::Persist;
use rune_pause::store::default_settings;
use rune_pause::store::load_settings;
use rune_pause::store::save_settings_bytes;

fn sample() -> Settings {
    Settings {
        focus_minutes: 25,
        break_minutes: 5,
        micro_every: 4,
        micro_minutes: 2,
        hard_break: false,
        snooze_sec: 90,
    }
}

#[test]
fn save_then_load_round_trips_all_fields() {
    let s = sample();
    let bytes = save_settings_bytes(&s);
    let back = load_settings(Some(bytes));
    assert_eq!(back, s);
}

#[test]
fn round_trip_holds_for_extreme_values() {
    let s = Settings {
        focus_minutes: 0,
        break_minutes: u64::MAX,
        micro_every: 1,
        micro_minutes: 10_000_000_000,
        hard_break: true,
        snooze_sec: 0,
    };
    let bytes = encode_settings(&s);
    assert_eq!(parse_settings(&bytes), Some(s));
}

#[test]
fn encoding_is_the_documented_json_record() {
    let s = Settings {
        focus_minutes: 1,
        break_minutes: 2,
        micro_every: 3,
        micro_minutes: 4,
        hard_break: true,
        snooze_sec: 5,
    };
    let bytes = encode_settings(&s);
    let expected = "{\"focus_minutes\":1,\"break_minutes\":2,\"micro_every\":3,\"micro_minutes\":4,\"hard_break\":true,\"snooze_sec\":5}";
    assert_eq!(bytes, expected.as_bytes().to_vec());
}

#[test]
fn load_of_missing_file_is_the_default_record() {
    let s = load_settings(None);
    assert_eq!(s, default_settings());
    assert_eq!(s.focus_minutes, 50);
    assert_eq!(s.break_minutes, 10);
    assert_eq!(s.micro_every, 2);
    assert_eq!(s.micro_minutes, 2);
    assert!(s.hard_break);
    assert_eq!(s.snooze_sec, 60);
}

#[test]
fn load_of_corrupt_file_is_the_default_record() {
    let corrupt: Vec<Vec<u8>> = vec![
        b"".to_vec(),
        b"not json at all".to_vec(),
        b"{\"focus_minutes\":}".to_vec(),
        b"{\"focus_minutes\":12".to_vec(),
        b"{\"focus_minutes\":99999999999999999999999}".to_vec(),
        b"[1,2,3]".to_vec(),
    ];
    for bytes in corrupt {
        assert_eq!(load_settings(Some(bytes)), default_settings());
    }
}

#[test]
fn load_rejects_trailing_bytes() {
    let mut bytes = encode_settings(&sample());
    bytes.push(b' ');
    assert_eq!(parse_settings(&bytes), None);
    assert_eq!(load_settings(Some(bytes)), default_settings());
}

#[test]
fn persist_path_is_inside_its_directory() {
    let p = Persist::new("/home/someone/.config/rune-pause".to_string());
    assert_eq!(p.path(), "/home/someone/.config/rune-pause/settings.json");
}

#[test]
fn ui_settings_default_matches_documentation() {
    let u = UiSettings::default();
    assert_eq!(u.focus_min, 50);
    assert_eq!(u.break_min, 10);
    assert_eq!(u.micro_every, 2);
    assert_eq!(u.micro_min, 2);
    assert!(u.hard_break);
    assert_eq!(u.theme, "system");
    assert_eq!(u.obsidian_vault, None);
    assert!(u.enable_idle);
    assert_eq!(u.snooze_sec, 60);
    assert_eq!(u.idle_threshold_min, Some(5));
    assert_eq!(u.force_blocks, Some(vec![]));
    assert_eq!(u.webhook_url, None);
    assert_eq!(u.hotkeys.len(), 3);
    assert_eq!(u.hotkeys[0], ("start".to_string(), "CmdOrCtrl+Shift+P".to_string()));
    assert_eq!(u.hotkeys[1], ("stop".to_string(), "CmdOrCtrl+Shift+O".to_string()));
    assert_eq!(u.hotkeys[2], ("snooze".to_string(), "CmdOrCtrl+Shift+S".to_string()));
}

#[test]
fn ui_settings_project_to_cycle_settings() {
    let mut u = UiSettings::default();
    u.focus_min = 40;
    u.snooze_sec = 15;
    let s = u.to_cycle_settings();
    assert_eq!(s.focus_minutes, 40);
    assert_eq!(s.break_minutes, 10);
    assert_eq!(s.micro_every, 2);
    assert_eq!(s.micro_minutes, 2);
    assert!(s.hard_break);
    assert_eq!(s.snooze_sec, 15);
}

#[test]
fn timer_settings_convert_to_engine_settings() {
    let t = TimerSettings {
        focus_minutes: 30,
        break_minutes: 6,
        micro_every: 0,
        micro_minutes: 1,
        hard_break: false,
        snooze_sec: 45,
    };
    let s = t.as_settings();
    assert_eq!(s.focus_minutes, 30);
    assert_eq!(s.break_minutes, 6);
    assert_eq!(s.micro_every, 0);
    assert_eq!(s.micro_minutes, 1);
    assert!(!s.hard_break);
    assert_eq!(s.snooze_sec, 45);
}

#[test]
fn idle_seconds_reports_unknown_as_zero() {
    assert_eq!(idle_seconds(), 0);
}
