use pico_cover_gb::downloader::{cover_url, libretro_cover_url};
use pico_cover_gb::scanner::{Platform, RomInfo};

#[test]
fn libretro_url_joins_parts() {
    assert_eq!(
        libretro_cover_url("SYS", "NAME"),
        "http://thumbnails.libretro.com/SYS/Named_Boxarts/NAME.png"
    );
}

#[test]
fn cover_url_encodes_system_and_stem() {
    let rom = RomInfo::new(
        "/media/sd/Tetris (World).gb".to_string(),
        Platform::GB,
        "Tetris (World)".to_string(),
        None,
    );
    assert_eq!(
        cover_url(&rom),
        "http://thumbnails.libretro.com/Nintendo%20-%20Game%20Boy/Named_Boxarts/Tetris%20%28World%29.png"
    );
}

#[test]
fn cover_url_uses_stem_for_gba_and_encodes_utf8() {
    let rom = RomInfo::new(
        "x.gba".to_string(),
        Platform::GBA,
        "Pokémon_Emerald~v1.0".to_string(),
        Some(b"BPEE"),
    );
    assert_eq!(
        cover_url(&rom),
        "http://thumbnails.libretro.com/Nintendo%20-%20Game%20Boy%20Advance/Named_Boxarts/Pok%C3%A9mon_Emerald~v1.0.png"
    );
}

#[test]
fn cover_url_gbc_system() {
    let rom = RomInfo::new("a.gbc".to_string(), Platform::GBC, "a/b".to_string(), None);
    assert_eq!(
        cover_url(&rom),
        "http://thumbnails.libretro.com/Nintendo%20-%20Game%20Boy%20Color/Named_Boxarts/a%2Fb.png"
    );
}
