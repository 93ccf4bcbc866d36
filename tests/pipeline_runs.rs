use autocracker::archive::{archive_entries, build_archive, normalize_separators, EntrySource};
use std::io::Read;
use autocracker::config::{
    appid_txt, depots_txt, dlc_ini, languages_txt, main_ini, overlay_ini, supported_languages, user_ini,
    DlcInfo,
};
use autocracker::pipeline::{
    cache_files, companion_name, first_missing, join_lines, library_name, library_summary,
    missing_dependency_message, run_summary, stage_at, stage_message, start_run, CrackRun, RunStart,
    RunStep, Stage,
};
use autocracker::progress::{ProgressBudget, STEPS_PER_TARGET};
use autocracker::scan::{scan_directory, FileEntry};
use autocracker::text::decimal;

fn entry(path: &str, dir: &str, name: &str, size: Option<u64>) -> FileEntry {
    FileEntry { path: path.to_string(), dir: dir.to_string(), name: name.to_string(), size }
}

#[test]
fn no_targets_is_informational() {
    let entries = vec![entry("g/a.exe", "g", "a.exe", Some(1)), entry("g/readme.txt", "g", "readme.txt", Some(2))];
    let scan = scan_directory(true, &entries);
    match start_run("g", &scan) {
        RunStart::NoTargets(e) => {
            assert_eq!(e.percent, 100);
            assert_eq!(e.message, "No Steam API DLLs found in game directory");
        },
        _ => panic!("expected no targets"),
    }
}

#[test]
fn invalid_directory_is_reported() {
    let scan = scan_directory(false, &Vec::new());
    match start_run("nowhere", &scan) {
        RunStart::Invalid(m) => assert_eq!(m, "Invalid game directory: nowhere"),
        _ => panic!("expected invalid"),
    }
}

#[test]
fn single_library_run_reaches_100() {
    let entries = vec![entry("g/steam_api.dll", "g", "steam_api.dll", Some(1))];
    let scan = scan_directory(true, &entries);
    let mut run = match start_run("g", &scan) {
        RunStart::Run(r) => r,
        _ => panic!("expected a run"),
    };
    let mut last = 0u32;
    let mut stages = Vec::new();
    loop {
        match run.next_step() {
            RunStep::Perform { target, stage } => {
                assert_eq!(target, 0);
                stages.push(stage);
                let e = run.complete_step();
                assert!(e.percent >= last);
                assert_eq!(e.message, stage_message(stage));
                last = e.percent;
            },
            RunStep::Done => break,
        }
    }
    assert_eq!(stages.len(), STEPS_PER_TARGET);
    assert_eq!(stages[0], Stage::ValidateSources);
    assert_eq!(stages[14], Stage::CreateArchive);
    assert_eq!(last, 100);
}

#[test]
fn two_library_progress_is_monotone() {
    let mut run = CrackRun::new(2);
    let mut seen = Vec::new();
    while let RunStep::Perform { target, .. } = run.next_step() {
        let e = run.complete_step();
        seen.push((target, e.percent));
    }
    assert_eq!(seen.len(), 30);
    assert_eq!(seen[0], (0, 51));
    assert_eq!(seen[14], (0, 75));
    assert_eq!(seen[15], (1, 76));
    assert_eq!(seen[29], (1, 100));
    assert!(seen.windows(2).all(|w| w[0].1 <= w[1].1));
}

#[test]
fn progress_budget_percentages() {
    let mut p = ProgressBudget::new(3);
    assert_eq!(p.percent(), 50);
    assert_eq!(p.advance(), 51);
    assert_eq!(stage_at(0), Stage::ValidateSources);
    assert_eq!(stage_message(Stage::WriteAppId), "Created steam_appid.txt");
}

#[test]
fn names_and_cache_files() {
    assert_eq!(library_name(true), "steam_api64.dll");
    assert_eq!(library_name(false), "steam_api.dll");
    assert_eq!(companion_name(true), "steamclient64.dll");
    assert_eq!(companion_name(false), "steamclient.dll");
    assert_eq!(
        cache_files(false),
        vec!["steam_api.dll", "steamclient.dll", "overlay_achievement_notification.wav", "Roboto-Medium.ttf"]
    );
    assert_eq!(first_missing(&vec![true, true, false, false]), Some(2));
    assert_eq!(first_missing(&vec![true, true]), None);
    assert_eq!(
        missing_dependency_message("steam_api.dll", "/c/steam_api.dll"),
        "steam_api.dll not found in cache: /c/steam_api.dll"
    );
}

#[test]
fn summaries_are_joined() {
    let a = library_summary("steam_api64.dll", "g/bin");
    assert_eq!(a, "Applied Goldberg to steam_api64.dll in g/bin");
    let b = library_summary("steam_api.dll", "g/x86");
    assert_eq!(join_lines(&vec![a.clone(), b]), "Applied Goldberg to steam_api64.dll in g/bin\nApplied Goldberg to steam_api.dll in g/x86");
    assert_eq!(join_lines(&Vec::new()), "");
    assert_eq!(join_lines(&vec![a.clone()]), a);
    assert_eq!(run_summary("u", "r"), "u\nr");
}

#[test]
fn archive_holds_every_metadata_file_once() {
    let files = vec!["configs.main.ini".to_string(), "sounds\\overlay.wav".to_string(), "images/a.jpg".to_string()];
    let e = archive_entries(Some("steam_api64.dll"), Some("steamclient64.dll"), &files);
    let names: Vec<&str> = e.iter().map(|x| x.name.as_str()).collect();
    assert_eq!(
        names,
        vec![
            "steam_api64.dll",
            "steamclient64.dll",
            "steam_settings/configs.main.ini",
            "steam_settings/sounds/overlay.wav",
            "steam_settings/images/a.jpg"
        ]
    );
    assert!(e[0].source == EntrySource::Library);
    assert!(e[1].source == EntrySource::Companion);
    assert!(e[3].source == EntrySource::Metadata(1));
    let only = archive_entries(None, None, &files);
    assert_eq!(only.len(), 3);
    assert_eq!(normalize_separators("a\\b\\c"), "a/b/c");
}

#[test]
fn config_files_have_fixed_text() {
    assert_eq!(main_ini(), "[main::stats]\nrecord_playtime=1\n");
    assert_eq!(
        user_ini(None),
        "[user::general]\naccount_name=Player\naccount_steamid=76561197960287930\nlanguage=english\n"
    );
    assert_eq!(
        user_ini(Some("german")),
        "[user::general]\naccount_name=Player\naccount_steamid=76561197960287930\nlanguage=german\n"
    );
    assert_eq!(
        overlay_ini(),
        "[overlay::general]\nenable_experimental_overlay=1\n[overlay::appearance]\nFont_Override=Roboto-Medium.ttf\n"
    );
    assert_eq!(appid_txt("480"), "480\n");
}

#[test]
fn dlc_list_skips_unnamed() {
    let dlcs = vec![
        DlcInfo { id: 1001, name: Some("Soundtrack".to_string()) },
        DlcInfo { id: 1002, name: None },
        DlcInfo { id: 7, name: Some("Art Book".to_string()) },
    ];
    assert_eq!(dlc_ini(&dlcs), "[app::dlcs]\nunlock_all=0\n1001=Soundtrack\n7=Art Book\n");
    assert_eq!(dlc_ini(&Vec::new()), "[app::dlcs]\nunlock_all=0\n");
}

#[test]
fn depots_and_languages() {
    assert_eq!(depots_txt(&vec!["481".to_string(), "482".to_string()]), "481\n482\n");
    assert_eq!(depots_txt(&Vec::new()), "");
    let langs = vec![
        ("english".to_string(), "1".to_string()),
        ("french".to_string(), "0".to_string()),
        ("german".to_string(), "TRUE".to_string()),
    ];
    assert_eq!(supported_languages(&langs), vec!["english", "german"]);
    assert_eq!(languages_txt(&langs), "english\ngerman\n");
    let none = vec![("french".to_string(), "false".to_string())];
    assert_eq!(languages_txt(&none), "english\n");
}

#[test]
fn decimal_digits() {
    assert_eq!(decimal(0), "0");
    assert_eq!(decimal(9), "9");
    assert_eq!(decimal(10), "10");
    assert_eq!(decimal(4294967295), "4294967295");
}

#[test]
fn archive_bytes_hold_each_entry() {
    let entries = vec![
        ("steam_api.dll".to_string(), vec![1u8, 2, 3, 4]),
        ("steam_settings/configs.main.ini".to_string(), main_ini().into_bytes()),
    ];
    let bytes = match build_archive(&entries) {
        Ok(b) => b,
        Err(_) => panic!("archive failed"),
    };
    let mut zip = zip::ZipArchive::new(std::io::Cursor::new(bytes)).unwrap();
    assert_eq!(zip.len(), 2);
    let mut first = zip.by_index(0).unwrap();
    assert_eq!(first.name(), "steam_api.dll");
    let mut data = Vec::new();
    first.read_to_end(&mut data).unwrap();
    assert_eq!(data, vec![1u8, 2, 3, 4]);
    drop(first);
    let mut second = zip.by_index(1).unwrap();
    assert_eq!(second.name(), "steam_settings/configs.main.ini");
    let mut text = String::new();
    second.read_to_string(&mut text).unwrap();
    assert_eq!(text, "[main::stats]\nrecord_playtime=1\n");
}

#[test]
fn archive_encoding_is_deterministic_and_rejects_duplicates() {
    let entries = vec![("a.txt".to_string(), b"hello".to_vec())];
    let a = build_archive(&entries).ok();
    let b = build_archive(&entries).ok();
    assert!(a.is_some());
    assert_eq!(a, b);
    let dup = vec![("a.txt".to_string(), Vec::new()), ("a.txt".to_string(), Vec::new())];
    assert!(build_archive(&dup).is_err());
    assert!(build_archive(&Vec::new()).is_ok());
}

#[test]
fn archive_rejects_overlong_names() {
    let long = "n".repeat(65536);
    assert!(build_archive(&vec![(long, Vec::new())]).is_err());
    let fits = "n".repeat(65535);
    assert!(build_archive(&vec![(fits, vec![1u8])]).is_ok());
    // Three bytes per character: 21845 characters are 65535 bytes.
    assert!(build_archive(&vec![("\u{20AC}".repeat(21845), Vec::new())]).is_ok());
    assert!(build_archive(&vec![("\u{20AC}".repeat(21846), Vec::new())]).is_err());
    assert!(autocracker::archive::name_fits("abc"));
}
