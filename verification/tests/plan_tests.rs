use pico_cover_gb::error::CoverError;
use pico_cover_gb::plan::{cover_filename, covers_dir, parse_regions, skip_existing};
use pico_cover_gb::scanner::{Platform, RomInfo};
use pico_cover_gb::Args;

#[test]
fn filename_gba_uses_game_code() {
    let rom = RomInfo::new("r/x.gba".to_string(), Platform::GBA, "x".to_string(), Some(b"BZMP"));
    assert_eq!(cover_filename(&rom).unwrap(), "BZMP.bmp");
}

#[test]
fn filename_gb_uses_stem() {
    let rom = RomInfo::new("r/Tetris.gb".to_string(), Platform::GB, "Tetris".to_string(), None);
    assert_eq!(cover_filename(&rom).unwrap(), "Tetris.bmp");
    let rom = RomInfo::new("r/Zelda DX.gbc".to_string(), Platform::GBC, "Zelda DX".to_string(), None);
    assert_eq!(cover_filename(&rom).unwrap(), "Zelda DX.bmp");
}

#[test]
fn filename_gba_without_code_is_error() {
    let rom = RomInfo::new("r/x.gba".to_string(), Platform::GBA, "x".to_string(), None);
    match cover_filename(&rom) {
        Err(e) => {
            assert!(matches!(e, CoverError::MissingGameId));
            assert_eq!(e.message(), "No GBA ID");
        }
        Ok(_) => panic!("expected an error"),
    }
}

#[test]
fn covers_dirs() {
    assert_eq!(covers_dir(Platform::GB), vec!["_pico", "covers", "gb"]);
    assert_eq!(covers_dir(Platform::GBC), vec!["_pico", "covers", "gbc"]);
    assert_eq!(covers_dir(Platform::GBA), vec!["_pico", "covers", "gba"]);
}

#[test]
fn skip_only_existing_without_overwrite() {
    assert!(skip_existing(false, true));
    assert!(!skip_existing(false, false));
    assert!(!skip_existing(true, true));
    assert!(!skip_existing(true, false));
}

#[test]
fn regions_default_list() {
    assert_eq!(parse_regions("EN,US,JP,EU"), vec!["EN", "US", "JP", "EU"]);
}

#[test]
fn regions_are_trimmed() {
    assert_eq!(parse_regions(" EN , US\t,\nJP "), vec!["EN", "US", "JP"]);
    assert_eq!(parse_regions("\u{3000}EU\u{A0}"), vec!["EU"]);
}

#[test]
fn regions_keep_empty_pieces() {
    assert_eq!(parse_regions(""), vec![""]);
    assert_eq!(parse_regions(","), vec!["", ""]);
    assert_eq!(parse_regions("EN,,US,"), vec!["EN", "", "US", ""]);
    assert_eq!(parse_regions("  "), vec![""]);
}

#[test]
fn regions_count_is_commas_plus_one() {
    let list = "a, b ,c,,d";
    assert_eq!(parse_regions(list).len(), list.matches(',').count() + 1);
}

#[test]
fn regions_match_std_split_trim() {
    for list in ["EN,US", " x ,y ", "a\u{2003}b, c", ""] {
        let expected: Vec<String> = list.split(',').map(|s| s.trim().to_string()).collect();
        assert_eq!(parse_regions(list), expected);
    }
}

#[test]
fn worker_count_default() {
    let mut args = Args {
        cli: true,
        root: ".".to_string(),
        overwrite: false,
        regions: "EN,US,JP,EU".to_string(),
        threads: None,
        format: "bmp".to_string(),
    };
    assert_eq!(args.worker_count(8), 8);
    args.threads = Some(3);
    assert_eq!(args.worker_count(8), 3);
}
