use pico_cover_gb::scanner::{game_code_from_header, Platform, RomInfo};

#[test]
fn from_extension_known() {
    assert_eq!(Platform::from_extension("gb"), Some(Platform::GB));
    assert_eq!(Platform::from_extension("gbc"), Some(Platform::GBC));
    assert_eq!(Platform::from_extension("gba"), Some(Platform::GBA));
}

#[test]
fn from_extension_ignores_case() {
    assert_eq!(Platform::from_extension("GB"), Some(Platform::GB));
    assert_eq!(Platform::from_extension("Gbc"), Some(Platform::GBC));
    assert_eq!(Platform::from_extension("gBA"), Some(Platform::GBA));
}

#[test]
fn from_extension_unknown() {
    assert_eq!(Platform::from_extension(""), None);
    assert_eq!(Platform::from_extension("g"), None);
    assert_eq!(Platform::from_extension("nds"), None);
    assert_eq!(Platform::from_extension("gbx"), None);
    assert_eq!(Platform::from_extension("gbaa"), None);
    assert_eq!(Platform::from_extension("zip"), None);
    assert_eq!(Platform::from_extension("gé"), None);
}

#[test]
fn folder_names() {
    assert_eq!(Platform::GB.folder_name(), "gb");
    assert_eq!(Platform::GBC.folder_name(), "gbc");
    assert_eq!(Platform::GBA.folder_name(), "gba");
}

#[test]
fn folder_name_round_trips_through_extension() {
    for p in [Platform::GB, Platform::GBC, Platform::GBA] {
        assert_eq!(Platform::from_extension(p.folder_name()), Some(p));
    }
}

#[test]
fn game_code_valid() {
    assert_eq!(game_code_from_header(b"BZMP"), Some("BZMP".to_string()));
    assert_eq!(game_code_from_header(b"A_9z"), Some("A_9z".to_string()));
}

#[test]
fn game_code_rejected() {
    assert_eq!(game_code_from_header(&[0, 0, 0, 0]), None);
    assert_eq!(game_code_from_header(b"AB-C"), None);
    assert_eq!(game_code_from_header(&[0x41, 0x42, 0xC3, 0xA9]), None);
    assert_eq!(game_code_from_header(b"AB C"), None);
}

#[test]
fn rom_info_gba_reads_code() {
    let rom = RomInfo::new("E:/Roms/game.gba".to_string(), Platform::GBA, "game".to_string(), Some(b"BPEE"));
    assert_eq!(rom.game_id, Some("BPEE".to_string()));
    assert_eq!(rom.file_stem, "game");
    assert_eq!(rom.path, "E:/Roms/game.gba");
    assert_eq!(rom.platform, Platform::GBA);
}

#[test]
fn rom_info_gba_without_code() {
    let short = RomInfo::new("a.gba".to_string(), Platform::GBA, "a".to_string(), None);
    assert_eq!(short.game_id, None);
    let bad = RomInfo::new("b.gba".to_string(), Platform::GBA, "b".to_string(), Some(&[0xff, 0, 1, 2]));
    assert_eq!(bad.game_id, None);
}

#[test]
fn rom_info_gb_has_no_code() {
    let rom = RomInfo::new("Tetris.gb".to_string(), Platform::GB, "Tetris".to_string(), Some(b"ABCD"));
    assert_eq!(rom.game_id, None);
}
