use sam::config::{Config, SortColumn, SortOrder};
use sam::gui::app::{
    applied_notice, apply_label, games_label, order_chip_label, pending_label, plural,
    removed_label, shows, sort_chip_label, sorted_by_column, Filter, Link, Row, Session,
};
use sam::gui::theme::{tier, tint_slot, Tier};
use sam::gui::widgets::{initials, shorten_to, Badge};
use sam::gui::worker::{applied, crash_message, note_refused, write_batches, Cmd, Msg};
use sam::library::Game;
use sam::steam::{achievement_info, AchievementInfo, ProcessResult};

/// The bit pattern of a percentage, as the program holds it.
fn bits(p: f32) -> u32 {
    p.to_bits()
}

fn game(app_id: u32, name: &str) -> Game {
    Game { app_id, name: name.to_string() }
}

fn info(api: &str, title: &str, unlocked: bool, percent: f32) -> AchievementInfo {
    achievement_info(
        api.to_string(),
        Some(unlocked),
        bits(percent),
        Some(title.to_string()),
        Some(format!("about {title}")),
        None,
    )
}

fn loaded_session() -> Session {
    let (mut s, cmd) = Session::new(Config::default(), vec![game(10, "Ten"), game(20, "Twenty")], Some(10));
    assert!(matches!(cmd, Some(Cmd::Load { app_id: 10 })));
    let cmd = s.take_message(Msg::Loaded {
        app_id: 10,
        achievements: vec![
            info("COMMON", "Common one", true, 80.0),
            info("RARE", "Rare one", false, 0.5),
            info("MID", "Middle", false, 20.0),
        ],
    });
    assert!(cmd.is_none());
    s
}

fn apis(s: &Session) -> Vec<String> {
    s.rows.iter().map(|r| r.api_name.clone()).collect()
}

#[test]
fn rarity_bands() {
    assert_eq!(tier(bits(0.0)), Tier::Legendary);
    assert_eq!(tier(bits(1.0)), Tier::Legendary);
    assert_eq!(tier(bits(1.01)), Tier::Epic);
    assert_eq!(tier(bits(10.0)), Tier::Epic);
    assert_eq!(tier(bits(10.5)), Tier::Rare);
    assert_eq!(tier(bits(25.0)), Tier::Rare);
    assert_eq!(tier(bits(50.0)), Tier::Uncommon);
    assert_eq!(tier(bits(50.1)), Tier::Common);
    assert_eq!(tier(bits(100.0)), Tier::Common);
    assert_eq!(Tier::Legendary.label(), "Legendary");
    assert_eq!(Tier::Epic.label(), "Epic");
    assert_eq!(Tier::Rare.label(), "Rare");
    assert_eq!(Tier::Uncommon.label(), "Uncommon");
    assert_eq!(Tier::Common.label(), "Common");
}

#[test]
fn tiles_keep_their_colour() {
    assert_eq!(tint_slot(0), 0);
    assert_eq!(tint_slot(367520), 367520 % 6);
    assert_eq!(tint_slot(11), 5);
}

#[test]
fn badges_and_initials() {
    assert_eq!(Badge::Unlocked.label(), "Unlocked");
    assert_eq!(Badge::Locked.label(), "Locked");
    assert_eq!(Badge::PendingUnlock.label(), "Pending unlock");
    assert_eq!(Badge::PendingReset.label(), "Pending reset");
    assert_eq!(Badge::Failed.label(), "Steam refused");
    assert_eq!(initials("Half-Life 2"), "H2");
    assert_eq!(initials("the witcher 3: wild hunt"), "TW");
    assert_eq!(initials("  portal  "), "P");
    assert_eq!(initials(""), "");
    assert_eq!(initials("straße"), "S");
}

#[test]
fn labels() {
    assert_eq!(plural(1), "");
    assert_eq!(plural(0), "s");
    assert_eq!(plural(2), "s");
    assert_eq!(Filter::All.label(), "All");
    assert_eq!(Filter::Locked.label(), "Locked");
    assert_eq!(Filter::Unlocked.label(), "Unlocked");
    assert_eq!(Link::Unknown.label(), "Waiting for Steam");
    assert_eq!(Link::Connected.label(), "Steam connected");
    assert_eq!(Link::Unavailable.label(), "Steam not responding");
    assert_eq!(apply_label(0), "Apply changes");
    assert_eq!(apply_label(1), "Apply 1 change");
    assert_eq!(apply_label(12), "Apply 12 changes");
    assert_eq!(pending_label(3), "3 pending");
    assert_eq!(games_label(1), "1 game");
    assert_eq!(games_label(0), "0 games");
    assert_eq!(sort_chip_label(SortColumn::Rarity), "Sort: Rarity");
    assert_eq!(order_chip_label(SortOrder::Ascending), "Asc");
    assert_eq!(order_chip_label(SortOrder::Descending), "Desc");
}

#[test]
fn notices_after_writes() {
    assert_eq!(applied_notice(0, 0), "Nothing to write");
    assert_eq!(applied_notice(1, 0), "Wrote 1 change");
    assert_eq!(applied_notice(2, 0), "Wrote 2 changes");
    assert_eq!(applied_notice(0, 1), "Steam refused 1 change");
    assert_eq!(applied_notice(0, 4), "Steam refused 4 changes");
    assert_eq!(applied_notice(3, 2), "Wrote 3 changes, Steam refused 2");
}

#[test]
fn worker_replies() {
    let mut failed = vec!["OLD".to_string()];
    note_refused(
        &mut failed,
        vec![
            ProcessResult { name: "A".to_string(), success: true },
            ProcessResult { name: "B".to_string(), success: false },
            ProcessResult { name: "C".to_string(), success: false },
        ],
    );
    assert_eq!(failed, vec!["OLD".to_string(), "B".to_string(), "C".to_string()]);
    match applied(7, 5, vec!["B".to_string()]) {
        Msg::Applied { app_id, written, failed } => {
            assert_eq!(app_id, 7);
            assert_eq!(written, 4);
            assert_eq!(failed, vec!["B".to_string()]);
        },
        _ => panic!("expected an Applied reply"),
    }
    assert_eq!(
        crash_message("reading achievements"),
        "Steam crashed while reading achievements. Make sure Steam is running and you are signed in, then try again."
    );
}

#[test]
fn start_up_opens_the_requested_game_and_lists_it() {
    let (s, cmd) = Session::new(Config::default(), vec![game(10, "Ten")], Some(367520));
    assert!(matches!(cmd, Some(Cmd::Load { app_id: 367520 })));
    assert_eq!(s.open, Some(367520));
    assert!(s.busy);
    assert_eq!(s.games, vec![game(367520, "App 367520"), game(10, "Ten")]);
    assert_eq!(s.link, Link::Unknown);
}

#[test]
fn start_up_falls_back_to_the_last_game() {
    let mut config = Config::default();
    config.last_app_id = Some(10);
    let (s, cmd) = Session::new(config, vec![game(10, "Ten")], None);
    assert!(matches!(cmd, Some(Cmd::Load { app_id: 10 })));
    assert_eq!(s.games, vec![game(10, "Ten")]);
    let (s, cmd) = Session::new(Config::default(), vec![game(10, "Ten")], None);
    assert!(cmd.is_none());
    assert_eq!(s.open, None);
    assert!(!s.busy);
}

#[test]
fn loading_sorts_rarest_first_and_remembers_counts() {
    let s = loaded_session();
    assert_eq!(apis(&s), vec!["RARE", "MID", "COMMON"]);
    assert_eq!(s.pending(), 0);
    assert_eq!(s.unlocked(), 1);
    assert!(!s.busy);
    assert_eq!(s.link, Link::Connected);
    assert_eq!(s.config.last_app_id, Some(10));
    let c = s.config.counts_for(10).unwrap();
    assert_eq!((c.unlocked, c.total), (1, 3));
    assert!(s.dirty);
    assert_eq!(s.rows[0].title, "Rare one");
    assert_eq!(s.rows[0].description, "about Rare one");
}

#[test]
fn hidden_achievements_say_so() {
    let (mut s, _) = Session::new(Config::default(), vec![], Some(1));
    s.take_message(Msg::Loaded {
        app_id: 1,
        achievements: vec![
            achievement_info("H".to_string(), Some(false), bits(5.0), None, Some(" ".to_string()), Some("1".to_string())),
            achievement_info("G".to_string(), Some(true), bits(6.0), None, None, Some("1".to_string())),
        ],
    });
    assert_eq!(s.rows[0].description, "Hidden until unlocked");
    assert_eq!(s.rows[1].description, "");
}

#[test]
fn stale_replies_change_nothing() {
    let mut s = loaded_session();
    let before = apis(&s);
    assert!(s.take_message(Msg::Loaded { app_id: 20, achievements: vec![] }).is_none());
    assert!(s.take_message(Msg::LoadFailed { app_id: 20, error: "x".to_string() }).is_none());
    assert!(s.take_message(Msg::Applied { app_id: 20, written: 1, failed: vec![] }).is_none());
    assert!(s.take_message(Msg::ApplyFailed { app_id: 20, error: "x".to_string() }).is_none());
    assert_eq!(apis(&s), before);
    assert_eq!(s.error, None);
    assert_eq!(s.link, Link::Connected);
}

#[test]
fn nothing_is_written_until_apply() {
    let mut s = loaded_session();
    assert!(s.apply().is_none());
    s.toggle(0); // RARE: locked -> unlock
    s.toggle(2); // COMMON: unlocked -> reset
    assert_eq!(s.pending(), 2);
    assert_eq!(s.rows[0].badge(), Badge::PendingUnlock);
    assert_eq!(s.rows[2].badge(), Badge::PendingReset);
    assert_eq!(s.rows[1].badge(), Badge::Locked);
    assert!(s.can_apply());
    match s.apply() {
        Some(Cmd::Apply { app_id, unlock, reset }) => {
            assert_eq!(app_id, 10);
            assert_eq!(unlock, vec!["RARE".to_string()]);
            assert_eq!(reset, vec!["COMMON".to_string()]);
        },
        _ => panic!("expected an Apply command"),
    }
    assert!(s.busy);
    assert!(!s.can_apply());
}

#[test]
fn after_writes_the_game_is_read_again_and_refusals_are_marked() {
    let mut s = loaded_session();
    s.toggle(0);
    s.toggle(1);
    s.apply();
    let cmd = s.take_message(Msg::Applied { app_id: 10, written: 1, failed: vec!["MID".to_string()] });
    assert!(matches!(cmd, Some(Cmd::Load { app_id: 10 })));
    assert_eq!(s.notice.as_deref(), Some("Wrote 1 change, Steam refused 1"));
    s.take_message(Msg::Loaded {
        app_id: 10,
        achievements: vec![
            info("COMMON", "Common one", true, 80.0),
            info("RARE", "Rare one", true, 0.5),
            info("MID", "Middle", false, 20.0),
        ],
    });
    assert_eq!(apis(&s), vec!["RARE", "MID", "COMMON"]);
    assert!(!s.rows[0].refused);
    assert!(s.rows[1].refused);
    assert_eq!(s.rows[1].badge(), Badge::Failed);
    assert_eq!(s.rows[0].badge(), Badge::Unlocked);
    s.toggle(1);
    assert!(!s.rows[1].refused);
}

#[test]
fn failures_are_reported() {
    let mut s = loaded_session();
    s.reload();
    assert!(s.busy);
    s.take_message(Msg::LoadFailed { app_id: 10, error: "App 10 not in your library".to_string() });
    assert!(s.rows.is_empty());
    assert!(!s.busy);
    assert_eq!(s.link, Link::Unavailable);
    assert_eq!(s.error.as_deref(), Some("App 10 not in your library"));
    let mut t = loaded_session();
    t.toggle(0);
    t.apply();
    assert_eq!(t.link, Link::Connected);
    t.take_message(Msg::ApplyFailed { app_id: 10, error: "Failed to store stats to Steam".to_string() });
    assert!(!t.busy);
    assert_eq!(t.link, Link::Unavailable);
    assert_eq!(t.link.label(), "Steam not responding");
    assert_eq!(t.error.as_deref(), Some("Failed to store stats to Steam"));
    assert_eq!(t.pending(), 1);
}

#[test]
fn discard_and_unlock_all_shown() {
    let mut s = loaded_session();
    s.toggle(0);
    s.toggle(2);
    s.discard();
    assert_eq!(s.pending(), 0);
    s.set_filter(Filter::Locked);
    assert!(shows(&s.rows[0], Filter::Locked));
    assert!(!shows(&s.rows[2], Filter::Locked));
    s.unlock_all_shown();
    let desired: Vec<bool> = s.rows.iter().map(|r| r.desired).collect();
    assert_eq!(desired, vec![true, true, true]);
    assert_eq!(s.pending(), 2);
    s.set_filter(Filter::Unlocked);
    s.discard();
    s.unlock_all_shown();
    assert_eq!(s.pending(), 0);
}

#[test]
fn sorting_by_each_column() {
    let mut s = loaded_session();
    s.cycle_sort();
    assert_eq!(s.config.sort_column, SortColumn::Name);
    assert_eq!(apis(&s), vec!["COMMON", "MID", "RARE"]);
    s.cycle_sort();
    assert_eq!(s.config.sort_column, SortColumn::State);
    assert_eq!(apis(&s), vec!["MID", "RARE", "COMMON"]);
    s.flip_order();
    assert_eq!(s.config.sort_order, SortOrder::Descending);
    assert_eq!(apis(&s), vec!["COMMON", "RARE", "MID"]);
    s.cycle_sort();
    assert_eq!(s.config.sort_column, SortColumn::Rarity);
    assert_eq!(apis(&s), vec!["COMMON", "MID", "RARE"]);
}

#[test]
fn search_ranks_games() {
    let (mut s, _) = Session::new(
        Config::default(),
        vec![game(620, "Portal 2"), game(70, "Half-Life"), game(400, "Portal")],
        None,
    );
    assert_eq!(s.visible_games(), vec![0, 1, 2]);
    s.query = "  PORTAL ".to_string();
    assert_eq!(s.visible_games(), vec![2, 0]);
    s.query = "70".to_string();
    assert_eq!(s.visible_games(), vec![1]);
    s.query = "zzz".to_string();
    assert_eq!(s.visible_games(), Vec::<usize>::new());
    s.query = "hl".to_string();
    assert_eq!(s.visible_games(), vec![1]);
}

#[test]
fn sidebar_and_header_texts() {
    let mut s = loaded_session();
    assert_eq!(s.game_subtitle(10, true), "1 / 3 unlocked");
    assert_eq!(s.game_subtitle(10, false), "1 / 3 last seen");
    assert_eq!(s.game_subtitle(20, false), "Not opened yet");
    assert_eq!(s.header_title(), "Ten");
    assert_eq!(s.header_subtitle(), "App ID 10 \u{b7} 1 of 3 achievements unlocked");
    assert!(s.empty_message().is_none());
    s.open_game(20);
    assert_eq!(s.game_subtitle(20, true), "Reading\u{2026}");
    assert_eq!(s.header_title(), "Twenty");
    assert_eq!(s.header_subtitle(), "App ID 20 \u{b7} reading\u{2026}");
    assert_eq!(
        s.empty_message(),
        Some(("Reading achievements", "Steam is answering. This takes a moment the first time."))
    );
    s.take_message(Msg::Loaded { app_id: 20, achievements: vec![] });
    assert_eq!(s.empty_message(), Some(("No achievements", "This game does not have any.")));
    assert_eq!(s.header_subtitle(), "App ID 20");
    let (e, _) = Session::new(Config::default(), vec![], None);
    assert_eq!(e.header_title(), "Sam");
    assert_eq!(e.header_subtitle(), "No game open");
    assert_eq!(
        e.empty_message(),
        Some(("Pick a game", "Choose one from the library on the left, or type an App ID."))
    );
    assert_eq!(e.empty_library_message(), "No installed games found. Use the App ID box below.");
    assert!(!e.can_refresh());
}

#[test]
fn opening_the_open_game_keeps_pending_changes() {
    let mut s = loaded_session();
    s.toggle(0);
    assert!(s.open_game(10).is_none());
    assert_eq!(s.pending(), 1);
    assert!(matches!(s.open_game(20), Some(Cmd::Load { app_id: 20 })));
    assert!(s.rows.is_empty());
    assert_eq!(s.config.last_app_id, Some(20));
}

#[test]
fn typed_app_ids() {
    let (mut s, _) = Session::new(Config::default(), vec![game(10, "Ten")], None);
    s.manual_id = "abc".to_string();
    assert!(s.submit_manual_id().is_none());
    assert_eq!(s.error.as_deref(), Some("An App ID is a number, for example 367520."));
    assert_eq!(s.manual_id, "abc");
    s.manual_id = " 42 ".to_string();
    assert!(matches!(s.submit_manual_id(), Some(Cmd::Load { app_id: 42 })));
    assert_eq!(s.manual_id, "");
    assert_eq!(s.open, Some(42));
    assert_eq!(s.error, None);
    assert_eq!(s.games, vec![game(42, "App 42"), game(10, "Ten")]);
    s.manual_id = "10".to_string();
    assert!(matches!(s.submit_manual_id(), Some(Cmd::Load { app_id: 10 })));
    assert_eq!(s.games.len(), 2);
}

#[test]
fn rows_report_pending_state() {
    let row = Row {
        api_name: "A".to_string(),
        title: "A".to_string(),
        description: String::new(),
        unlocked: false,
        desired: false,
        percentage_bits: bits(3.0),
        refused: false,
    };
    assert!(!row.pending());
    assert_eq!(row.badge(), Badge::Locked);
}

#[test]
fn removed_games_leave_the_sidebar() {
    let (mut s, _) = Session::new(
        Config::default(),
        vec![game(620, "Portal 2"), game(70, "Half-Life"), game(400, "Portal")],
        None,
    );
    s.remove_game(70);
    assert!(s.dirty);
    assert!(s.is_removed(70));
    assert!(!s.is_removed(620));
    assert_eq!(s.config.removed, vec![70]);
    assert_eq!(s.visible_games(), vec![0, 2]);
    s.query = "hl".to_string();
    assert_eq!(s.visible_games(), Vec::<usize>::new());
    s.query = "portal".to_string();
    assert_eq!(s.visible_games(), vec![2, 0]);
    s.remove_game(400);
    s.remove_game(400);
    assert_eq!(s.config.removed, vec![70, 400]);
    assert_eq!(s.visible_games(), vec![0]);
    assert_eq!(removed_label(s.config.removed.len()), "2 removed");
}

#[test]
fn the_removed_chip_shows_them_and_plus_restores_them() {
    let (mut s, _) = Session::new(
        Config::default(),
        vec![game(620, "Portal 2"), game(70, "Half-Life"), game(400, "Portal")],
        None,
    );
    s.remove_game(70);
    s.toggle_show_removed();
    assert!(s.show_removed);
    assert_eq!(s.visible_games(), vec![0, 1, 2]);
    s.dirty = false;
    s.restore_game(70);
    assert!(s.dirty);
    assert!(s.config.removed.is_empty());
    assert!(!s.show_removed);
    assert_eq!(s.visible_games(), vec![0, 1, 2]);
    s.dirty = false;
    s.restore_game(70);
    assert!(!s.dirty);
}

#[test]
fn removing_the_open_game_keeps_it_open() {
    let mut s = loaded_session();
    s.toggle(0);
    s.remove_game(10);
    assert_eq!(s.open, Some(10));
    assert_eq!(s.rows.len(), 3);
    assert_eq!(s.pending(), 1);
    assert_eq!(s.visible_games(), vec![1]);
}

#[test]
fn opening_by_app_id_restores_a_removed_game() {
    let mut config = Config::default();
    config.removed = vec![10, 20];
    let (mut s, _) = Session::new(config, vec![game(10, "Ten"), game(20, "Twenty")], None);
    assert!(!s.dirty);
    assert_eq!(s.visible_games(), Vec::<usize>::new());
    s.manual_id = "20".to_string();
    assert!(matches!(s.submit_manual_id(), Some(Cmd::Load { app_id: 20 })));
    assert_eq!(s.config.removed, vec![10]);
    assert!(s.dirty);
    assert_eq!(s.visible_games(), vec![1]);
}

#[test]
fn start_up_restores_a_requested_removed_game() {
    let mut config = Config::default();
    config.removed = vec![10, 20];
    let (s, _) = Session::new(config, vec![game(10, "Ten"), game(20, "Twenty")], Some(10));
    assert_eq!(s.config.removed, vec![20]);
    assert!(s.dirty);
    assert!(!s.show_removed);
    let mut config = Config::default();
    config.removed = vec![20];
    let (s, _) = Session::new(config, vec![game(10, "Ten"), game(20, "Twenty")], Some(10));
    assert_eq!(s.config.removed, vec![20]);
    assert!(!s.dirty);
}

#[test]
fn long_titles_are_cut_with_an_ellipsis() {
    assert_eq!(shorten_to("Portal", 6), "Portal");
    assert_eq!(shorten_to("Portal 2", 6), "Porta\u{2026}");
    assert_eq!(shorten_to("Hello, world", 7), "Hello\u{2026}");
    assert_eq!(shorten_to("Ab  , cd", 5), "Ab\u{2026}");
    assert_eq!(shorten_to("abc", 0), "\u{2026}");
    assert_eq!(shorten_to("", 0), "");
}

#[test]
fn writes_go_over_as_unlocks_then_resets() {
    let b = write_batches(vec!["A".to_string()], vec!["B".to_string(), "C".to_string()]);
    assert_eq!(
        b,
        vec![
            (vec!["A".to_string()], false),
            (vec!["B".to_string(), "C".to_string()], true),
        ]
    );
    let b = write_batches(Vec::new(), vec!["B".to_string()]);
    assert_eq!(b, vec![(vec!["B".to_string()], true)]);
    let b = write_batches(vec!["A".to_string()], Vec::new());
    assert_eq!(b, vec![(vec!["A".to_string()], false)]);
    assert!(write_batches(Vec::new(), Vec::new()).is_empty());
}

#[test]
fn nan_shares_are_common_and_negative_zero_is_legendary() {
    assert_eq!(tier(f32::NAN.to_bits()), Tier::Common);
    assert_eq!(tier(0xFFC0_0000), Tier::Common);
    assert_eq!(tier(0x7FC0_0001), Tier::Common);
    assert_eq!(tier((-0.0f32).to_bits()), Tier::Legendary);
    assert_eq!(tier((-5.0f32).to_bits()), Tier::Legendary);
    assert_eq!(tier(f32::INFINITY.to_bits()), Tier::Common);
}

fn share_row(api: &str, title: &str, share: f32) -> Row {
    Row {
        api_name: api.to_string(),
        title: title.to_string(),
        description: String::new(),
        unlocked: false,
        desired: false,
        percentage_bits: share.to_bits(),
        refused: false,
    }
}

#[test]
fn equal_shares_of_either_zero_keep_their_order() {
    let rows = vec![share_row("NEG", "Same", -0.0), share_row("POS", "Same", 0.0)];
    let up = sorted_by_column(&rows, SortColumn::Rarity, SortOrder::Ascending);
    let names: Vec<&str> = up.iter().map(|r| r.api_name.as_str()).collect();
    assert_eq!(names, vec!["NEG", "POS"]);
    let rows = vec![share_row("POS", "Same", 0.0), share_row("NEG", "Same", -0.0)];
    let up = sorted_by_column(&rows, SortColumn::Rarity, SortOrder::Ascending);
    let names: Vec<&str> = up.iter().map(|r| r.api_name.as_str()).collect();
    assert_eq!(names, vec!["POS", "NEG"]);
    let down = sorted_by_column(&rows, SortColumn::Rarity, SortOrder::Descending);
    let names: Vec<&str> = down.iter().map(|r| r.api_name.as_str()).collect();
    assert_eq!(names, vec!["NEG", "POS"]);
}

#[test]
fn rarity_sorts_by_share_then_title() {
    let rows = vec![
        share_row("C", "b", 5.0),
        share_row("A", "a", 50.0),
        share_row("B", "a", 5.0),
        share_row("D", "z", -1.0),
    ];
    let up = sorted_by_column(&rows, SortColumn::Rarity, SortOrder::Ascending);
    let names: Vec<&str> = up.iter().map(|r| r.api_name.as_str()).collect();
    assert_eq!(names, vec!["D", "B", "C", "A"]);
}
