use sam::args::Args;
use sam::steam::{
    achievement_info, keep_waiting, key_of_bits, listed_names, names_failed,
    not_in_library, poll_interval_ms, store_outcome, OptStr, ProcessResult,
};

#[test]
fn title_falls_back_to_the_api_name() {
    let a = achievement_info("DEFEAT_MORPHA".to_string(), Some(true), 7, None, None, None);
    assert_eq!(a.display_name, "DEFEAT_MORPHA");
    let b = achievement_info("X".to_string(), None, 7, Some("   ".to_string()), None, None);
    assert_eq!(b.display_name, "X");
    let c = achievement_info("X".to_string(), None, 7, Some(" Nailed it ".to_string()), None, None);
    assert_eq!(c.display_name, " Nailed it ");
}

#[test]
fn attributes_become_fields() {
    let a = achievement_info(
        "K".to_string(),
        Some(true),
        0x42C8_0000,
        Some("Title".to_string()),
        Some("Do the thing".to_string()),
        Some(" 1 ".to_string()),
    );
    assert_eq!(a.api_name, "K");
    assert_eq!(a.description, "Do the thing");
    assert!(a.hidden);
    assert!(a.unlocked);
    assert_eq!(a.percentage_bits, 0x42C8_0000);
    assert_eq!(f32::from_bits(a.percentage_bits), 100.0);
}

#[test]
fn missing_attributes_have_defaults() {
    let a = achievement_info("K".to_string(), None, 1, None, None, Some("0".to_string()));
    assert_eq!(a.description, "");
    assert!(!a.hidden);
    assert!(!a.unlocked);
    let b = achievement_info("K".to_string(), Some(false), 1, None, None, Some("10".to_string()));
    assert!(!b.hidden);
}

#[test]
fn error_messages() {
    assert_eq!(not_in_library(367520), "App 367520 not in your library");
    assert_eq!(names_failed(70), "Failed to get achievement names for app 70");
}

#[test]
fn stored_writes_keep_their_results() {
    let results = vec![
        ProcessResult { name: "A".to_string(), success: true },
        ProcessResult { name: "B".to_string(), success: false },
    ];
    let r = store_outcome(results, true).unwrap();
    assert_eq!(r.len(), 2);
    assert_eq!(r[1].name, "B");
    assert!(!r[1].success);
}

#[test]
fn unstored_writes_are_an_error() {
    let results = vec![ProcessResult { name: "A".to_string(), success: true }];
    assert_eq!(store_outcome(results, false).unwrap_err(), "Failed to store stats to Steam");
}

#[test]
fn every_attribute_shape_gives_an_optional_string() {
    assert_eq!("abc".opt(), Some("abc".to_string()));
    assert_eq!("abc".to_string().opt(), Some("abc".to_string()));
    assert_eq!(Some("abc").opt(), Some("abc".to_string()));
    assert_eq!(None::<&str>.opt(), None);
    assert_eq!(Some("x".to_string()).opt(), Some("x".to_string()));
    assert_eq!(Ok::<&str, ()>("ok").opt(), Some("ok".to_string()));
    assert_eq!(Err::<&str, ()>(()).opt(), None);
    assert_eq!(Ok::<String, ()>("s".to_string()).opt(), Some("s".to_string()));
    assert_eq!(Err::<String, u8>(3).opt(), None);
}

#[test]
fn args_hold_an_optional_id() {
    let a = Args { id: Some(367520) };
    assert_eq!(a.id, Some(367520));
    assert_eq!(Args { id: None }.id, None);
}

#[test]
fn percentage_keys_order_as_the_numbers_do() {
    let values = [f32::NEG_INFINITY, -1.0f32, -0.5, 0.0, 0.5, 1.0, 10.0, 50.0, 100.0, f32::INFINITY];
    for w in values.windows(2) {
        assert!(key_of_bits(w[0].to_bits()) < key_of_bits(w[1].to_bits()));
    }
    assert_eq!(key_of_bits(0.0f32.to_bits()), 0x8000_0000);
    assert_eq!(key_of_bits((-0.0f32).to_bits()), 0x8000_0000);
    assert_eq!(key_of_bits(1.0f32.to_bits()), 0xBF80_0000);
    assert_eq!(key_of_bits((-1.0f32).to_bits()), 0x407F_FFFF);
}

#[test]
fn the_wait_for_percentages_ends_when_one_lands() {
    let zero = 0.0f32.to_bits();
    let some = 12.5f32.to_bits();
    assert!(keep_waiting(0, None));
    assert!(keep_waiting(1499, Some(zero)));
    assert!(keep_waiting(1499, Some((-0.0f32).to_bits())));
    assert!(!keep_waiting(1500, Some(zero)));
    assert!(!keep_waiting(40, Some(some)));
    assert!(!keep_waiting(40, Some(f32::INFINITY.to_bits())));
    assert!(keep_waiting(40, Some(f32::NAN.to_bits())));
    assert!(keep_waiting(40, Some((-3.0f32).to_bits())));
    assert_eq!(poll_interval_ms(), 40);
}

#[test]
fn a_game_without_names_fails_to_load() {
    let names = vec!["A".to_string()];
    assert_eq!(listed_names(7, true, Some(names.clone())), Ok(names));
    assert_eq!(listed_names(7, true, Some(Vec::new())), Ok(Vec::new()));
    assert_eq!(
        listed_names(7, true, None),
        Err("Failed to get achievement names for app 7".to_string())
    );
    assert_eq!(
        listed_names(7, false, Some(vec!["A".to_string()])),
        Err("Failed to get achievement names for app 7".to_string())
    );
}
