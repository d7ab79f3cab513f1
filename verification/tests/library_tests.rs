use sam::library::{
    add_installed, game_from_manifest, is_manifest_file, is_not_a_game, key_value,
    library_paths, placeholder_name, sort_by_name, Game,
};

fn game(app_id: u32, name: &str) -> Game {
    Game { app_id, name: name.to_string() }
}

#[test]
fn key_value_reads_a_vdf_line() {
    assert_eq!(
        key_value("\t\t\"path\"\t\t\"D:\\\\Games\""),
        Some(("path".to_string(), "D:\\Games".to_string()))
    );
}

#[test]
fn key_value_lowers_the_key_only() {
    assert_eq!(
        key_value("\"AppID\"  \"SomeValue\""),
        Some(("appid".to_string(), "SomeValue".to_string()))
    );
}

#[test]
fn key_value_needs_three_quotes_and_a_key() {
    assert_eq!(key_value("\"name\""), None);
    assert_eq!(key_value("\"name\" \""), Some(("name".to_string(), String::new())));
    assert_eq!(key_value("\"\" \"x\""), None);
    assert_eq!(key_value("no quotes at all"), None);
    assert_eq!(key_value("{"), None);
}

#[test]
fn key_value_runs_an_unclosed_value_to_the_end() {
    assert_eq!(key_value("\"a\" \"b c"), Some(("a".to_string(), "b c".to_string())));
}

#[test]
fn key_value_undoes_backslashes_left_to_right() {
    // Three backslashes: the first two become one, the third stays.
    assert_eq!(
        key_value("\"k\" \"a\\\\\\b\""),
        Some(("k".to_string(), "a\\\\b".to_string()))
    );
}

#[test]
fn library_paths_lists_every_folder() {
    let text = "\"libraryfolders\"\r\n{\r\n\t\"0\"\r\n\t{\r\n\t\t\"path\"\t\t\"C:\\\\Program Files (x86)\\\\Steam\"\r\n\t\t\"label\"\t\t\"\"\r\n\t}\r\n\t\"1\"\r\n\t{\r\n\t\t\"PATH\"\t\t\"D:\\\\SteamLibrary\"\r\n\t}\r\n}\r\n";
    assert_eq!(
        library_paths(text),
        vec![
            "C:\\Program Files (x86)\\Steam".to_string(),
            "D:\\SteamLibrary".to_string()
        ]
    );
    assert_eq!(library_paths(""), Vec::<String>::new());
}

#[test]
fn manifest_gives_id_and_name() {
    let text = "\"AppState\"\n{\n\t\"appid\"\t\t\"367520\"\n\t\"Universe\"\t\t\"1\"\n\t\"name\"\t\t\"Hollow Knight\"\n\t\"StateFlags\"\t\t\"4\"\n}\n";
    assert_eq!(game_from_manifest(text), Some(game(367520, "Hollow Knight")));
}

#[test]
fn manifest_without_name_gets_a_placeholder() {
    let text = "\"AppState\"\r\n{\r\n\t\"appid\"\t\t\" 620 \"\r\n}\r\n";
    assert_eq!(game_from_manifest(text), Some(game(620, "App 620")));
}

#[test]
fn manifest_without_a_number_is_no_game() {
    assert_eq!(game_from_manifest("\"appid\" \"abc\"\n\"name\" \"X\""), None);
    assert_eq!(game_from_manifest("\"name\" \"X\""), None);
    assert_eq!(game_from_manifest(""), None);
    assert_eq!(game_from_manifest("\"appid\" \"4294967296\""), None);
}

#[test]
fn manifest_number_accepts_a_plus_sign() {
    assert_eq!(game_from_manifest("\"appid\" \"+70\"\n\"name\" \"Half-Life\""), Some(game(70, "Half-Life")));
    assert_eq!(game_from_manifest("\"appid\" \"4294967295\""), Some(game(4294967295, "App 4294967295")));
}

#[test]
fn manifest_stops_once_both_are_known() {
    let text = "\"appid\" \"10\"\n\"name\" \"First\"\n\"appid\" \"20\"\n\"name\" \"Second\"\n";
    assert_eq!(game_from_manifest(text), Some(game(10, "First")));
}

#[test]
fn manifest_reads_a_later_appid_over_an_earlier_one() {
    let text = "\"appid\" \"10\"\n\"appid\" \"oops\"\n\"appid\" \"30\"\n";
    assert_eq!(game_from_manifest(text), Some(game(30, "App 30")));
}

#[test]
fn manifest_file_names() {
    assert!(is_manifest_file("appmanifest_367520.acf"));
    assert!(!is_manifest_file("appmanifest_367520.acf.bak"));
    assert!(!is_manifest_file("libraryfolders.vdf"));
    assert!(!is_manifest_file("appmanifest_"));
}

#[test]
fn tools_are_not_games() {
    assert!(is_not_a_game(&game(228980, "Steamworks Common Redistributables")));
    assert!(is_not_a_game(&game(1493710, "Something")));
    assert!(is_not_a_game(&game(1, "Proton 8.0")));
    assert!(is_not_a_game(&game(2, "Steam Linux Runtime - Sniper")));
    assert!(!is_not_a_game(&game(3, "Portal")));
    assert!(!is_not_a_game(&game(4, "The Proton Game")));
}

#[test]
fn installed_list_skips_tools_and_duplicates() {
    let mut games = Vec::new();
    add_installed(&mut games, game(10, "Counter-Strike"));
    add_installed(&mut games, game(228980, "Steamworks Common Redistributables"));
    add_installed(&mut games, game(10, "Counter-Strike (copy)"));
    add_installed(&mut games, game(1628350, "Steam Linux Runtime 3.0 (sniper)"));
    add_installed(&mut games, game(20, "Team Fortress Classic"));
    assert_eq!(games, vec![game(10, "Counter-Strike"), game(20, "Team Fortress Classic")]);
}

#[test]
fn games_sort_by_name_ignoring_case_and_stably() {
    let sorted = sort_by_name(vec![
        game(1, "beta"),
        game(2, "Alpha"),
        game(3, "alpha"),
        game(4, "Ältere"),
        game(5, "ALPHA"),
    ]);
    let ids: Vec<u32> = sorted.iter().map(|g| g.app_id).collect();
    assert_eq!(ids, vec![2, 3, 5, 1, 4]);
    assert_eq!(sort_by_name(Vec::new()), Vec::<Game>::new());
}

#[test]
fn placeholder_names() {
    assert_eq!(placeholder_name(0), "App 0");
    assert_eq!(placeholder_name(367520), "App 367520");
}

#[test]
fn games_compare_by_id_and_name() {
    assert_eq!(game(1, "a"), game(1, "a"));
    assert_ne!(game(1, "a"), game(1, "b"));
    assert_ne!(game(1, "a"), game(2, "a"));
    assert_eq!(game(7, "x").clone(), game(7, "x"));
}
