use pico_cover_gb::scanner::Platform;
use pico_cover_gb::utils::{
    build_output_path, detect_drives, extract_game_code, get_default_url_templates, libretro_system_name,
    sanitize_for_libretro, windows_drive_roots, DriveCandidate,
};

#[test]
fn drive_roots_a_to_z() {
    let roots = windows_drive_roots();
    assert_eq!(roots.len(), 26);
    assert_eq!(roots[0], "A:\\");
    assert_eq!(roots[4], "E:\\");
    assert_eq!(roots[25], "Z:\\");
}

#[test]
fn detect_drives_keeps_pico_drives_in_order() {
    let cands = vec![
        DriveCandidate { path: "C:\\".to_string(), exists: true, has_pico_dir: false },
        DriveCandidate { path: "D:\\".to_string(), exists: false, has_pico_dir: false },
        DriveCandidate { path: "E:\\".to_string(), exists: true, has_pico_dir: true },
        DriveCandidate { path: "F:\\".to_string(), exists: false, has_pico_dir: true },
        DriveCandidate { path: "G:\\".to_string(), exists: true, has_pico_dir: true },
    ];
    let drives = detect_drives(&cands);
    assert_eq!(drives.len(), 2);
    assert_eq!(drives[0].path, "E:\\");
    assert!(drives[0].has_pico);
    assert_eq!(drives[1].path, "G:\\");
    assert!(drives[1].has_pico);
}

#[test]
fn detect_drives_none() {
    assert!(detect_drives(&[]).is_empty());
}

#[test]
fn game_code_only_for_gba() {
    assert_eq!(extract_game_code(Platform::GBA, Some(b"AXVE")), Some("AXVE".to_string()));
    assert_eq!(extract_game_code(Platform::GBA, None), None);
    assert_eq!(extract_game_code(Platform::GBA, Some(b"AX E")), None);
    assert_eq!(extract_game_code(Platform::GB, Some(b"AXVE")), None);
    assert_eq!(extract_game_code(Platform::GBC, None), None);
}

#[test]
fn url_templates() {
    assert_eq!(
        get_default_url_templates(Platform::GBA),
        vec![
            "https://art.gametdb.com/gba/cover/{region}/{id}.png".to_string(),
            "https://art.gametdb.com/gba/cover/{region}/{id}.jpg".to_string(),
        ]
    );
    let libretro = vec!["http://thumbnails.libretro.com/{system}/Named_Boxarts/{name}.png".to_string()];
    assert_eq!(get_default_url_templates(Platform::GB), libretro);
    assert_eq!(get_default_url_templates(Platform::GBC), libretro);
}

#[test]
fn system_names() {
    assert_eq!(libretro_system_name(Platform::GB), "Nintendo - Game Boy");
    assert_eq!(libretro_system_name(Platform::GBC), "Nintendo - Game Boy Color");
    assert_eq!(libretro_system_name(Platform::GBA), "Nintendo - Game Boy Advance");
}

#[test]
fn output_path_components() {
    assert_eq!(
        build_output_path("E:\\", Platform::GBA, "BZMP", "bmp"),
        vec!["E:\\", "_pico", "covers", "gba", "BZMP.bmp"]
    );
    assert_eq!(
        build_output_path("/media/sd", Platform::GBC, "Pokemon Gold", "png"),
        vec!["/media/sd", "_pico", "covers", "gbc", "Pokemon Gold.png"]
    );
}

#[test]
fn sanitize_examples() {
    assert_eq!(sanitize_for_libretro("Super Mario Land"), "Super_Mario_Land");
    assert_eq!(sanitize_for_libretro("Pokemon - Red (USA)"), "Pokemon_-_Red_USA");
    assert_eq!(sanitize_for_libretro("Pokémon Gold"), "Pokmon_Gold");
    assert_eq!(sanitize_for_libretro(""), "");
    assert_eq!(sanitize_for_libretro("a.b!c"), "abc");
}

#[test]
fn sanitize_is_idempotent() {
    for name in ["Legend of Zelda, The - Link's Awakening DX (USA)", "  x  ", "ß-é_1"] {
        let once = sanitize_for_libretro(name);
        assert_eq!(sanitize_for_libretro(&once), once);
    }
}
