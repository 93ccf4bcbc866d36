use autocracker::achievements::{icon_downloads, icon_file_name, to_achievements, to_stats, SchemaAchievement, SchemaStat};
use autocracker::command::{clean_word, drm_report, find_games, term_score, DrmEntry};
use autocracker::search::{calculate_bonus_score, find_by_appid, name_score, rank, search_games, Game, GameCache, SearchResult};
use autocracker::settings::{after_notice, app_data_or_default, settings_or_system, theme_from_flag, theme_name, AppData, Settings, Theme};

fn games(names: &[(&str, u32)]) -> Vec<Game> {
    names.iter().map(|(n, id)| Game { name: n.to_string(), appid: *id }).collect()
}

#[test]
fn bonus_for_exact_match() {
    // Lowered names equal; no excess length; a tenth of 100.
    assert_eq!(calculate_bonus_score("Portal", "portal", 100), 10010);
}

#[test]
fn bonus_tiers() {
    // Prefix: 5000, less 2 bytes of excess, plus 4.
    assert_eq!(calculate_bonus_score("Portal 2", "portal", 45), 5002);
    // Whole word inside: 2000 less 9, a tenth of -15 is -1.
    assert_eq!(calculate_bonus_score("The Portal Saga", "portal", -15), 1990);
    // A longer word with the query as prefix is still a prefix: 5000 less 1.
    assert_eq!(calculate_bonus_score("Portals", "portal", 0), 4999);
    // Contained, not as a whole word: 1000 less 10.
    assert_eq!(calculate_bonus_score("Aperture Portals", "portal", 0), 990);
    // Not contained, a shorter name gives a negative penalty.
    assert_eq!(calculate_bonus_score("Doom", "portal", 0), 2);
    // The penalty is capped at 500.
    let long = "x".repeat(700);
    assert_eq!(calculate_bonus_score(&long, "portal", 0), -500);
}

#[test]
fn ranking_is_stable_by_score() {
    let c = vec![
        SearchResult { score: 5, index: 0 },
        SearchResult { score: 9, index: 1 },
        SearchResult { score: 5, index: 2 },
        SearchResult { score: 7, index: 3 },
    ];
    let r = rank(&c);
    let idx: Vec<usize> = r.iter().map(|x| x.index).collect();
    assert_eq!(idx, vec![1, 3, 0, 2]);
}

#[test]
fn search_prefers_exact_title() {
    let list = games(&[("Portal 2", 620), ("Half-Life", 70), ("Portal", 400)]);
    let r = search_games(&list, "  portal ", None);
    assert_eq!(r.len(), 2);
    assert_eq!(r[0].appid, 400);
    assert_eq!(r[1].appid, 620);
    let limited = search_games(&list, "portal", Some(1));
    assert_eq!(limited.len(), 1);
    assert!(search_games(&list, " p ", None).is_empty());
    assert!(name_score("Half-Life", "portal").is_none());
}

#[test]
fn ordered_term_search() {
    let list = games(&[("Portal", 400), ("Portal 2", 620), ("Portal: Revolution (2)", 601)]);
    let r = find_games(&list, "Portal 2");
    let ids: Vec<u32> = r.iter().map(|g| g.appid).collect();
    assert_eq!(ids, vec![620, 601]);
    assert!(find_games(&list, "   ").is_empty());
    assert_eq!(term_score("Portal 2", "portal 2"), Some(10000 + 5000 - 8));
    assert_eq!(term_score("Portal", "portal 2"), None);
    assert_eq!(clean_word("(2)"), "2");
    assert_eq!(clean_word("::"), "");
    assert_eq!(clean_word("a:b"), "a:b");
}

#[test]
fn lookup_by_appid_and_cache() {
    let list = games(&[("A", 1), ("B", 2), ("B2", 2)]);
    assert_eq!(find_by_appid(&list, 2), Some(1));
    assert_eq!(find_by_appid(&list, 3), None);
    let mut cache = GameCache::new();
    let s = cache.stats();
    assert!(!s.cached);
    assert_eq!(s.status, "not_initialized");
    assert!(cache.populate(list));
    assert!(!cache.populate(games(&[("C", 3)])));
    let s = cache.stats();
    assert!(s.cached);
    assert_eq!(s.game_count, 3);
    assert_eq!(s.status, "ready");
}

#[test]
fn drm_reports() {
    assert_eq!(drm_report("10", &None), Err("No data for App ID 10".to_string()));
    let no_info = Some(DrmEntry { success: false, has_data: false, drm_notice: None });
    assert_eq!(drm_report("10", &no_info), Ok("No DRM information available".to_string()));
    let denuvo = Some(DrmEntry { success: true, has_data: true, drm_notice: Some("Uses DENUVO Anti-tamper".to_string()) });
    assert_eq!(drm_report("10", &denuvo), Ok("App ID 10 uses Denuvo DRM".to_string()));
    let other = Some(DrmEntry { success: true, has_data: true, drm_notice: Some("Requires account".to_string()) });
    assert_eq!(drm_report("10", &other), Ok("App ID 10 has DRM notice: Requires account".to_string()));
    let none = Some(DrmEntry { success: true, has_data: true, drm_notice: None });
    assert_eq!(drm_report("10", &none), Ok("App ID 10 has no DRM notice".to_string()));
}

#[test]
fn settings_choices() {
    assert_eq!(Settings::default().theme, Theme::Light);
    assert!(!AppData::default().passed_messageboxw);
    assert_eq!(theme_from_flag(Some(0)), Theme::Dark);
    assert_eq!(theme_from_flag(Some(1)), Theme::Light);
    assert_eq!(theme_from_flag(None), Theme::Light);
    assert_eq!(theme_name(Theme::Dark), "dark");
    assert_eq!(theme_name(Theme::Light), "light");
    assert_eq!(settings_or_system(None, Theme::Dark).theme, Theme::Dark);
    assert_eq!(settings_or_system(Some(Settings { theme: Theme::Light }), Theme::Dark).theme, Theme::Light);
    assert!(app_data_or_default(Some(AppData { passed_messageboxw: true })).passed_messageboxw);
    assert!(!app_data_or_default(None).passed_messageboxw);
    assert_eq!(after_notice(1), Some(AppData { passed_messageboxw: true }));
    assert_eq!(after_notice(2), None);
}

#[test]
fn schema_becomes_records() {
    let schema = vec![SchemaAchievement {
        name: "ACH_WIN".to_string(),
        display_name: "Winner".to_string(),
        hidden: 1,
        description: None,
        icon: "https://cdn.example/apps/480/abc.jpg".to_string(),
        icongray: "https://cdn.example/apps/480/def.jpg".to_string(),
        default_value: 0,
    }];
    let a = to_achievements(&schema);
    assert_eq!(a[0].description, "No description available");
    assert!(a[0].hidden);
    assert_eq!(a[0].icon_gray, "https://cdn.example/apps/480/def.jpg");
    let d = icon_downloads(&a);
    assert_eq!(d.len(), 2);
    assert_eq!(d[0].file_name, "abc.jpg");
    assert_eq!(d[1].file_name, "def.jpg");
    let stats = to_stats(&vec![SchemaStat { name: "kills".to_string(), default_value: 3, display_name: "Kills".to_string() }]);
    assert_eq!(stats[0].stat_type, "int");
    assert_eq!(stats[0].default, 3);
    assert_eq!(stats[0].global, 0);
    assert_eq!(icon_file_name("plain.jpg"), "plain.jpg");
    assert_eq!(icon_file_name("a/b/"), "");
}

#[test]
fn whitespace_words_and_trim() {
    assert_eq!(autocracker::text::split_words("  half\tlife \u{3000}2 "), vec!["half", "life", "2"]);
    assert!(autocracker::text::split_words(" \u{A0} ").is_empty());
    assert_eq!(autocracker::text::trim("\u{2003} Portal 2\n"), "Portal 2");
    assert_eq!(autocracker::text::trim("   "), "");
}
