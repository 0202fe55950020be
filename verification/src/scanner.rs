//! ROM platforms, the cover folder each one uses, and what a scan records
//! about one ROM file.

use vstd::prelude::*;

use crate::text::push_char;

verus! {

/// The handheld a ROM file is for.
#[derive(Debug, Clone, Copy, PartialEq, Eq, Structural)]
pub enum Platform {
    GB,
    GBC,
    GBA,
}

/// Byte offset of the four-character game code in a GBA ROM header.
pub const GBA_GAME_CODE_OFFSET: u64 = 0xAC;

/// Length in bytes of the GBA game code.
pub const GBA_GAME_CODE_LEN: usize = 4;

/// `c` with ASCII capitals turned into small letters.
pub open spec fn ascii_lower(c: char) -> char {
    if 'A' <= c <= 'Z' {
        ((c as int) + 32) as char
    } else {
        c
    }
}

/// The platform a file extension (without the dot) names, compared without
/// regard to case. Only ASCII letters can lower-case to the letters of the
/// three known extensions, so ASCII case folding decides the match.
pub open spec fn platform_for_extension(ext: Seq<char>) -> Option<Platform> {
    let e = ext.map_values(|c: char| ascii_lower(c));
    if e =~= seq!['g', 'b'] {
        Some(Platform::GB)
    } else if e =~= seq!['g', 'b', 'c'] {
        Some(Platform::GBC)
    } else if e =~= seq!['g', 'b', 'a'] {
        Some(Platform::GBA)
    } else {
        None
    }
}

/// The name of the folder under `_pico/covers/` that holds a platform's covers.
pub open spec fn folder_name_of(p: Platform) -> Seq<char> {
    match p {
        Platform::GB => seq!['g', 'b'],
        Platform::GBC => seq!['g', 'b', 'c'],
        Platform::GBA => seq!['g', 'b', 'a'],
    }
}

/// `c` lower-cases (ASCII) to `lower`, whose capital is `upper`.
fn is_letter(c: char, lower: char, upper: char) -> (r: bool)
    requires
        'a' <= lower <= 'z',
        upper as int == lower as int - 32,
    ensures
        r == (ascii_lower(c) == lower),
{
    c == lower || c == upper
}

impl Platform {
    /// The platform a ROM file extension names ("gb", "gbc" or "gba", in any case).
    pub fn from_extension(ext: &str) -> (r: Option<Self>)
        ensures
            r == platform_for_extension(ext@),
    {
        let cs = crate::text::chars_of(ext);
        let ghost e = ext@.map_values(|c: char| ascii_lower(c));
        let n = cs.len();
        if n < 2 || n > 3 {
            assert(!(e =~= seq!['g', 'b']) && !(e =~= seq!['g', 'b', 'c']) && !(e =~= seq!['g', 'b', 'a'])) by {
                assert(e.len() == n);
            }
            return None;
        }
        let g = is_letter(cs[0], 'g', 'G');
        let b = is_letter(cs[1], 'b', 'B');
        assert(e[0] == ascii_lower(ext@[0]) && e[1] == ascii_lower(ext@[1]));
        if !(g && b) {
            assert(e[0] != 'g' || e[1] != 'b');
            return None;
        }
        if n == 2 {
            assert(e =~= seq!['g', 'b']);
            return Some(Platform::GB);
        }
        assert(e[2] == ascii_lower(ext@[2]));
        if is_letter(cs[2], 'c', 'C') {
            assert(e =~= seq!['g', 'b', 'c']);
            Some(Platform::GBC)
        } else if is_letter(cs[2], 'a', 'A') {
            assert(e =~= seq!['g', 'b', 'a']);
            Some(Platform::GBA)
        } else {
            assert(!(e =~= seq!['g', 'b', 'c']) && !(e =~= seq!['g', 'b', 'a']));
            None
        }
    }

    /// The folder under `_pico/covers/` for this platform's covers.
    pub fn folder_name(&self) -> (r: &'static str)
        ensures
            r@ == folder_name_of(*self),
    {
        match self {
            Platform::GB => {
                proof {
                    reveal_strlit("gb");
                }
                "gb"
            },
            Platform::GBC => {
                proof {
                    reveal_strlit("gbc");
                }
                "gbc"
            },
            Platform::GBA => {
                proof {
                    reveal_strlit("gba");
                }
                "gba"
            },
        }
    }
}

/// What a scan records about one ROM file.
#[derive(Debug, Clone)]
pub struct RomInfo {
    /// The file's path, as the scan found it.
    pub path: String,
    pub platform: Platform,
    /// The game code from the header, for GBA ROMs whose header holds one.
    pub game_id: Option<String>,
    /// The file name without its extension.
    pub file_stem: String,
}

/// A byte that may appear in a game code: an ASCII letter or digit, or `_`.
pub open spec fn is_game_code_byte(b: u8) -> bool {
    (48 <= b <= 57) || (65 <= b <= 90) || (97 <= b <= 122) || b == 95
}

/// The game code that header bytes spell, if every byte is allowed in one:
/// each byte read as the character it encodes.
pub open spec fn game_code_of(header: Seq<u8>) -> Option<Seq<char>> {
    if forall|i: int| 0 <= i < header.len() ==> is_game_code_byte(#[trigger] header[i]) {
        Some(header.map_values(|b: u8| b as char))
    } else {
        None
    }
}

fn game_code_byte(b: u8) -> (r: bool)
    ensures
        r == is_game_code_byte(b),
{
    (b >= 48 && b <= 57) || (b >= 65 && b <= 90) || (b >= 97 && b <= 122) || b == 95
}

/// The game code that the code bytes of a GBA header spell, or `None` when
/// a byte is not an ASCII letter, digit or `_`.
pub fn game_code_from_header(header: &[u8]) -> (r: Option<String>)
    ensures
        r is Some <==> game_code_of(header@) is Some,
        r matches Some(s) ==> s@ == game_code_of(header@)->0,
{
    let n = header.len();
    let mut i: usize = 0;
    while i < n
        invariant
            n == header@.len(),
            i <= n,
            forall|j: int| 0 <= j < i ==> is_game_code_byte(#[trigger] header@[j]),
        decreases n - i,
    {
        if !game_code_byte(header[i]) {
            return None;
        }
        i = i + 1;
    }
    let mut code = String::new();
    let mut k: usize = 0;
    while k < n
        invariant
            n == header@.len(),
            k <= n,
            code@ =~= header@.take(k as int).map_values(|b: u8| b as char),
        decreases n - k,
    {
        let c = header[k] as char;
        push_char(&mut code, c);
        assert(header@.take(k + 1).map_values(|b: u8| b as char) =~= header@.take(k as int).map_values(
            |b: u8| b as char,
        ).push(c));
        k = k + 1;
    }
    assert(header@.take(n as int) =~= header@);
    Some(code)
}

impl RomInfo {
    /// The record of a ROM file: for a GBA ROM the game code is taken from
    /// the header bytes read at `GBA_GAME_CODE_OFFSET` (`None` when they
    /// could not be read); other platforms carry no game code.
    pub fn new(path: String, platform: Platform, file_stem: String, header: Option<&[u8]>) -> (r: RomInfo)
        ensures
            r.path == path,
            r.platform == platform,
            r.file_stem == file_stem,
            r.game_id is Some <==> (platform == Platform::GBA && header is Some && game_code_of(
                header->0@,
            ) is Some),
            r.game_id matches Some(id) ==> id@ == game_code_of(header->0@)->0,
    {
        let game_id = match platform {
            Platform::GBA => match header {
                Some(h) => game_code_from_header(h),
                None => None,
            },
            _ => None,
        };
        RomInfo { path, platform, game_id, file_stem }
    }
}

/// The folder a platform's covers go to, read as an extension, names that
/// platform again.
pub proof fn lemma_folder_name_is_extension(p: Platform)
    ensures
        platform_for_extension(folder_name_of(p)) == Some(p),
{
    let f = folder_name_of(p);
    assert(f.map_values(|c: char| ascii_lower(c)) =~= f);
}

/// Extensions are recognised without regard to ASCII case.
pub proof fn lemma_extension_case_insensitive(ext: Seq<char>, other: Seq<char>)
    requires
        ext.len() == other.len(),
        forall|i: int| 0 <= i < ext.len() ==> ascii_lower(#[trigger] ext[i]) == ascii_lower(other[i]),
    ensures
        platform_for_extension(ext) == platform_for_extension(other),
{
    assert(ext.map_values(|c: char| ascii_lower(c)) =~= other.map_values(|c: char| ascii_lower(c)));
}

/// Case folding turns each ASCII capital into its small letter (code point
/// plus 32) and leaves every other character as it is.
pub proof fn lemma_ascii_lower(c: char)
    ensures
        'A' <= c <= 'Z' ==> ascii_lower(c) as int == c as int + 32,
        !('A' <= c <= 'Z') ==> ascii_lower(c) == c,
{
}

/// The extensions recognised, character by character: `g`/`G`, `b`/`B`
/// names Game Boy; followed by `c`/`C` Game Boy Color; followed by `a`/`A`
/// Game Boy Advance; nothing else names a platform.
pub proof fn lemma_extension_letters(e: Seq<char>)
    ensures
        platform_for_extension(e) == Some(Platform::GB) <==> (e.len() == 2 && (e[0] == 'g' || e[0]
            == 'G') && (e[1] == 'b' || e[1] == 'B')),
        platform_for_extension(e) == Some(Platform::GBC) <==> (e.len() == 3 && (e[0] == 'g' || e[0]
            == 'G') && (e[1] == 'b' || e[1] == 'B') && (e[2] == 'c' || e[2] == 'C')),
        platform_for_extension(e) == Some(Platform::GBA) <==> (e.len() == 3 && (e[0] == 'g' || e[0]
            == 'G') && (e[1] == 'b' || e[1] == 'B') && (e[2] == 'a' || e[2] == 'A')),
{
    let l = e.map_values(|c: char| ascii_lower(c));
    if e.len() == 2 {
        assert((l =~= seq!['g', 'b']) <==> (l[0] == 'g' && l[1] == 'b'));
        assert(l[0] == ascii_lower(e[0]) && l[1] == ascii_lower(e[1]));
    }
    if e.len() == 3 {
        assert((l =~= seq!['g', 'b', 'c']) <==> (l[0] == 'g' && l[1] == 'b' && l[2] == 'c'));
        assert((l =~= seq!['g', 'b', 'a']) <==> (l[0] == 'g' && l[1] == 'b' && l[2] == 'a'));
        assert(l[0] == ascii_lower(e[0]) && l[1] == ascii_lower(e[1]) && l[2] == ascii_lower(e[2]));
    }
    if e.len() != 2 {
        assert(!(l =~= seq!['g', 'b'])) by {
            assert(l.len() == e.len());
        }
    }
    if e.len() != 3 {
        assert(!(l =~= seq!['g', 'b', 'c']) && !(l =~= seq!['g', 'b', 'a'])) by {
            assert(l.len() == e.len());
        }
    }
}

} // verus!
