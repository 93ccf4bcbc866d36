use autocracker::interfaces::generate_steam_interfaces;
use autocracker::scan::{is_exe_file, scan_directory, FileEntry, ScanError};

fn entry(path: &str, dir: &str, name: &str, size: Option<u64>) -> FileEntry {
    FileEntry { path: path.to_string(), dir: dir.to_string(), name: name.to_string(), size }
}

#[test]
fn exe_extension_ignores_case() {
    assert!(is_exe_file("game/Bin/Launcher.EXE"));
    assert!(is_exe_file("x.exe"));
    assert!(!is_exe_file("game/.exe"));
    assert!(!is_exe_file("game.exe/readme"));
    assert!(!is_exe_file("game\\tool.dll"));
}

#[test]
fn exe_extension_ignores_trailing_separators_and_dots() {
    assert!(is_exe_file("g/x.exe/"));
    assert!(is_exe_file("g\\x.EXE\\"));
    assert!(is_exe_file("g/x.exe/."));
    assert!(is_exe_file("g/x.exe/./"));
    assert!(!is_exe_file("g/x.exe/.."));
    assert!(!is_exe_file("/"));
    assert!(!is_exe_file("."));
    assert!(!is_exe_file("g/.exe/"));
}

#[test]
fn scan_finds_libraries_and_largest_exe() {
    let entries = vec![
        entry("g/a.exe", "g", "a.exe", Some(10)),
        entry("g/bin/STEAM_API64.DLL", "g/bin", "STEAM_API64.DLL", Some(5)),
        entry("g/b.exe", "g", "b.exe", Some(30)),
        entry("g/c.exe", "g", "c.exe", Some(30)),
        entry("g/x86/steam_api.dll", "g/x86", "steam_api.dll", None),
    ];
    let rep = match scan_directory(true, &entries) {
        Ok(r) => r,
        Err(_) => panic!("scan failed"),
    };
    assert_eq!(rep.targets.len(), 2);
    assert_eq!(rep.targets[0].path, "g/bin/STEAM_API64.DLL");
    assert!(rep.targets[0].is_64bit);
    assert_eq!(rep.targets[1].dir, "g/x86");
    assert!(!rep.targets[1].is_64bit);
    assert_eq!(rep.largest_exe, Some(2));
}

#[test]
fn scan_without_libraries_reports_no_targets() {
    let entries = vec![entry("g/a.exe", "g", "a.exe", Some(10))];
    assert!(matches!(scan_directory(true, &entries), Err(ScanError::NoTargetsFound)));
    assert!(matches!(scan_directory(false, &entries), Err(ScanError::NotADirectory)));
}

#[test]
fn extraction_lists_matches_in_catalog_order() {
    let mut bytes: Vec<u8> = b"xxSteamUser021\0SteamClient017\xff\xfeSteamUser019 STEAMCONTROLLER_INTERFACE_VERSION".to_vec();
    bytes.push(0);
    let m = match generate_steam_interfaces(&bytes) {
        Ok(m) => m,
        Err(_) => panic!("extraction failed"),
    };
    assert_eq!(m.entries, vec!["SteamClient017", "STEAMCONTROLLER_INTERFACE_VERSION", "SteamUser021", "SteamUser019"]);
    assert_eq!(m.count(), 4);
    assert!(m.skipped.is_empty());
    assert_eq!(m.to_text(), "SteamClient017\nSTEAMCONTROLLER_INTERFACE_VERSION\nSteamUser021\nSteamUser019\n");
}

#[test]
fn extraction_is_deterministic() {
    let bytes: Vec<u8> = b"SteamFriends015 SteamUtils010 SteamFriends017".to_vec();
    let a = generate_steam_interfaces(&bytes).ok().map(|m| m.to_text());
    let b = generate_steam_interfaces(&bytes).ok().map(|m| m.to_text());
    assert_eq!(a, b);
    assert_eq!(a, Some("SteamFriends015\nSteamFriends017\nSteamUtils010\n".to_string()));
}

#[test]
fn extraction_of_empty_input_fails() {
    assert!(generate_steam_interfaces(&Vec::new()).is_err());
}

#[test]
fn extraction_of_text_without_signatures_is_empty() {
    let m = generate_steam_interfaces(&b"MZ\x90\x00nothing here".to_vec()).ok().unwrap();
    assert_eq!(m.count(), 0);
    assert_eq!(m.to_text(), "");
}

#[test]
fn extraction_drops_repeated_matches() {
    let bytes: Vec<u8> = b"SteamFriends017 SteamFriends017".to_vec();
    let m = generate_steam_interfaces(&bytes).ok().unwrap();
    assert_eq!(m.entries, vec!["SteamFriends017"]);
    assert_eq!(m.to_text(), "SteamFriends017\n");
    let mixed: Vec<u8> = b"SteamUser021 SteamClient017 SteamUser019 SteamUser021 SteamClient017".to_vec();
    let m = generate_steam_interfaces(&mixed).ok().unwrap();
    assert_eq!(m.entries, vec!["SteamClient017", "SteamUser021", "SteamUser019"]);
    assert_eq!(m.count(), 3);
}
