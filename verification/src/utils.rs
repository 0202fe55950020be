//! Drive detection, cover naming and placement, and the cover sources.

use vstd::prelude::*;

use crate::scanner::{folder_name_of, game_code_from_header, game_code_of, Platform};
use crate::text::{chars_of, owned, push_char};

verus! {

/// A drive that holds a `_pico` folder.
#[derive(Clone, Debug)]
pub struct DriveInfo {
    pub path: String,
    pub has_pico: bool,
}

/// What was observed of one candidate drive root: whether it exists and
/// whether it holds a `_pico` directory.
#[derive(Clone, Debug)]
pub struct DriveCandidate {
    pub path: String,
    pub exists: bool,
    pub has_pico_dir: bool,
}

/// The paths of the candidates that exist and hold a `_pico` directory, in order.
pub open spec fn pico_drive_paths(cands: Seq<DriveCandidate>) -> Seq<Seq<char>>
    decreases cands.len(),
{
    if cands.len() == 0 {
        seq![]
    } else {
        let rest = pico_drive_paths(cands.drop_last());
        let c = cands.last();
        if c.exists && c.has_pico_dir {
            rest.push(c.path@)
        } else {
            rest
        }
    }
}

/// The drive roots `A:\` to `Z:\` that are probed on Windows.
pub open spec fn windows_root(i: int) -> Seq<char> {
    seq![(('A' as int) + i) as char, ':', '\\']
}

/// The roots `A:\` to `Z:\`, in order.
pub fn windows_drive_roots() -> (r: Vec<String>)
    ensures
        r@.len() == 26,
        forall|i: int| 0 <= i < 26 ==> #[trigger] r@[i]@ == windows_root(i),
{
    let mut roots: Vec<String> = Vec::new();
    let mut letter: u8 = 65;
    while letter <= 90
        invariant
            65 <= letter <= 91,
            roots@.len() == letter - 65,
            forall|i: int| 0 <= i < roots@.len() ==> #[trigger] roots@[i]@ == windows_root(i),
        decreases 91 - letter,
    {
        let mut root = String::new();
        push_char(&mut root, letter as char);
        push_char(&mut root, ':');
        push_char(&mut root, '\\');
        assert(root@ =~= windows_root(letter - 65));
        roots.push(root);
        letter = letter + 1;
    }
    roots
}

/// The drives among `candidates` that exist and hold a `_pico` folder, in
/// the order given; each is reported with `has_pico` set.
pub fn detect_drives(candidates: &[DriveCandidate]) -> (r: Vec<DriveInfo>)
    ensures
        r@.len() == pico_drive_paths(candidates@).len(),
        forall|i: int| 0 <= i < r@.len() ==> (#[trigger] r@[i]).path@ == pico_drive_paths(candidates@)[i]
            && r@[i].has_pico,
{
    let mut drives: Vec<DriveInfo> = Vec::new();
    let n = candidates.len();
    let mut i: usize = 0;
    while i < n
        invariant
            n == candidates@.len(),
            i <= n,
            drives@.len() == pico_drive_paths(candidates@.take(i as int)).len(),
            forall|j: int| 0 <= j < drives@.len() ==> (#[trigger] drives@[j]).path@ == pico_drive_paths(
                candidates@.take(i as int),
            )[j] && drives@[j].has_pico,
        decreases n - i,
    {
        assert(candidates@.take(i + 1).drop_last() =~= candidates@.take(i as int));
        let c = &candidates[i];
        if c.exists && c.has_pico_dir {
            drives.push(DriveInfo { path: c.path.clone(), has_pico: true });
        }
        i = i + 1;
    }
    assert(candidates@.take(n as int) =~= candidates@);
    drives
}

/// The game code of a ROM, for platforms whose covers are named by one:
/// GBA covers are named by the header's game code, read from `header` (the
/// bytes at `GBA_GAME_CODE_OFFSET`, or `None` when the file ends first);
/// other platforms have none.
pub fn extract_game_code(platform: Platform, header: Option<&[u8]>) -> (r: Option<String>)
    ensures
        r is Some <==> (platform == Platform::GBA && header is Some && game_code_of(header->0@) is Some),
        r matches Some(s) ==> s@ == game_code_of(header->0@)->0,
{
    match platform {
        Platform::GBA => match header {
            Some(h) => game_code_from_header(h),
            None => None,
        },
        _ => None,
    }
}

/// The cover URL templates tried for a platform.
pub open spec fn default_url_templates(p: Platform) -> Seq<Seq<char>> {
    match p {
        Platform::GBA => seq![
            "https://art.gametdb.com/gba/cover/{region}/{id}.png"@,
            "https://art.gametdb.com/gba/cover/{region}/{id}.jpg"@,
        ],
        _ => seq!["http://thumbnails.libretro.com/{system}/Named_Boxarts/{name}.png"@],
    }
}

/// The cover URL templates tried for a platform: GameTDB by game code for
/// GBA, the Libretro thumbnail server by name otherwise.
pub fn get_default_url_templates(platform: Platform) -> (r: Vec<String>)
    ensures
        r@.len() == default_url_templates(platform).len(),
        forall|i: int| 0 <= i < r@.len() ==> #[trigger] r@[i]@ == default_url_templates(platform)[i],
{
    match platform {
        Platform::GBA => {
            let mut v: Vec<String> = Vec::new();
            v.push(owned("https://art.gametdb.com/gba/cover/{region}/{id}.png"));
            v.push(owned("https://art.gametdb.com/gba/cover/{region}/{id}.jpg"));
            v
        },
        _ => {
            let mut v: Vec<String> = Vec::new();
            v.push(owned("http://thumbnails.libretro.com/{system}/Named_Boxarts/{name}.png"));
            v
        },
    }
}

/// The Libretro thumbnail system name of a platform.
pub open spec fn system_name_of(p: Platform) -> Seq<char> {
    match p {
        Platform::GB => "Nintendo - Game Boy"@,
        Platform::GBC => "Nintendo - Game Boy Color"@,
        Platform::GBA => "Nintendo - Game Boy Advance"@,
    }
}

/// The Libretro thumbnail system name of a platform.
pub fn libretro_system_name(platform: Platform) -> (r: &'static str)
    ensures
        r@ == system_name_of(platform),
{
    match platform {
        Platform::GB => "Nintendo - Game Boy",
        Platform::GBC => "Nintendo - Game Boy Color",
        Platform::GBA => "Nintendo - Game Boy Advance",
    }
}

/// The components of the path a cover is written to, starting at `output_base`:
/// `output_base/_pico/covers/<folder>/<identifier>.<format>`.
pub open spec fn output_path_of(
    output_base: Seq<char>,
    platform: Platform,
    game_identifier: Seq<char>,
    format: Seq<char>,
) -> Seq<Seq<char>> {
    seq![
        output_base,
        "_pico"@,
        "covers"@,
        folder_name_of(platform),
        game_identifier + seq!['.'] + format,
    ]
}

/// The path a cover is written to, as its components in order (the first is
/// `output_base`): `output_base/_pico/covers/<folder>/<identifier>.<format>`.
pub fn build_output_path(
    output_base: &str,
    platform: Platform,
    game_identifier: &str,
    format: &str,
) -> (r: Vec<String>)
    ensures
        r@.len() == 5,
        forall|i: int| 0 <= i < 5 ==> #[trigger] r@[i]@ == output_path_of(
            output_base@,
            platform,
            game_identifier@,
            format@,
        )[i],
{
    let folder = platform.folder_name();
    let mut filename = owned(game_identifier);
    push_char(&mut filename, '.');
    filename.append(format);
    let mut parts: Vec<String> = Vec::new();
    parts.push(owned(output_base));
    parts.push(owned("_pico"));
    parts.push(owned("covers"));
    parts.push(owned(folder));
    parts.push(filename);
    parts
}

/// A character kept in a Libretro name: an ASCII letter or digit, `_` or `-`.
pub open spec fn is_libretro_char(c: char) -> bool {
    ('0' <= c <= '9') || ('A' <= c <= 'Z') || ('a' <= c <= 'z') || c == '_' || c == '-'
}

/// `name` with spaces turned into underscores and every character that is
/// not an ASCII letter, digit, `_` or `-` removed.
pub open spec fn sanitized(name: Seq<char>) -> Seq<char>
    decreases name.len(),
{
    if name.len() == 0 {
        seq![]
    } else {
        let c = if name.last() == ' ' {
            '_'
        } else {
            name.last()
        };
        let rest = sanitized(name.drop_last());
        if is_libretro_char(c) {
            rest.push(c)
        } else {
            rest
        }
    }
}

fn libretro_char(c: char) -> (r: bool)
    ensures
        r == is_libretro_char(c),
{
    (c >= '0' && c <= '9') || (c >= 'A' && c <= 'Z') || (c >= 'a' && c <= 'z') || c == '_' || c == '-'
}

/// `name` with spaces turned into underscores and every character that is
/// not an ASCII letter, digit, `_` or `-` removed.
pub fn sanitize_for_libretro(name: &str) -> (r: String)
    ensures
        r@ == sanitized(name@),
{
    let cs = chars_of(name);
    let n = cs.len();
    let mut out = String::new();
    let mut i: usize = 0;
    while i < n
        invariant
            n == cs@.len(),
            cs@ == name@,
            i <= n,
            out@ == sanitized(name@.take(i as int)),
        decreases n - i,
    {
        assert(name@.take(i + 1).drop_last() =~= name@.take(i as int));
        let c = if cs[i] == ' ' {
            '_'
        } else {
            cs[i]
        };
        if libretro_char(c) {
            push_char(&mut out, c);
        }
        i = i + 1;
    }
    assert(name@.take(n as int) =~= name@);
    out
}

/// Every character of a sanitized name is one that sanitizing keeps, and
/// sanitizing never lengthens a name.
pub proof fn lemma_sanitized_chars(name: Seq<char>)
    ensures
        forall|i: int| 0 <= i < sanitized(name).len() ==> is_libretro_char(#[trigger] sanitized(name)[i]),
        sanitized(name).len() <= name.len(),
    decreases name.len(),
{
    if name.len() > 0 {
        lemma_sanitized_chars(name.drop_last());
    }
}

/// A name of only kept characters is left as it is.
pub proof fn lemma_sanitized_keeps_clean(name: Seq<char>)
    requires
        forall|i: int| 0 <= i < name.len() ==> is_libretro_char(#[trigger] name[i]),
    ensures
        sanitized(name) == name,
    decreases name.len(),
{
    if name.len() > 0 {
        assert(is_libretro_char(name[name.len() - 1]));
        lemma_sanitized_keeps_clean(name.drop_last());
        assert(name.drop_last().push(name.last()) =~= name);
    }
}

/// Sanitizing twice gives what sanitizing once gives.
pub proof fn lemma_sanitize_idempotent(name: Seq<char>)
    ensures
        sanitized(sanitized(name)) == sanitized(name),
{
    lemma_sanitized_chars(name);
    lemma_sanitized_keeps_clean(sanitized(name));
}

/// An ASCII letter or digit, `_` or `-`, written out by character ranges.
pub open spec fn ascii_word_char(c: char) -> bool {
    ('0' <= c <= '9') || ('a' <= c <= 'z') || ('A' <= c <= 'Z') || c == '_' || c == '-'
}

/// What sanitizing does to one more character: a space adds an underscore,
/// an ASCII letter, digit, `_` or `-` is kept, and any other character
/// (an apostrophe, punctuation, non-ASCII letters) adds nothing. With the
/// empty name giving the empty name, this fixes the result for every name.
pub proof fn lemma_sanitize_step(name: Seq<char>, c: char)
    ensures
        sanitized(seq![]) == Seq::<char>::empty(),
        c == ' ' ==> sanitized(name.push(c)) == sanitized(name).push('_'),
        c != ' ' && ascii_word_char(c) ==> sanitized(name.push(c)) == sanitized(name).push(c),
        c != ' ' && !ascii_word_char(c) ==> sanitized(name.push(c)) == sanitized(name),
{
    assert(name.push(c).drop_last() =~= name);
    assert(sanitized(seq![]) =~= Seq::<char>::empty());
}

/// A sanitized name holds only ASCII letters, digits, `_` and `-`, has the
/// same length as the name when every character is kept or a space, and is
/// never longer than the name.
pub proof fn lemma_sanitize_output(name: Seq<char>)
    ensures
        forall|i: int| 0 <= i < sanitized(name).len() ==> ascii_word_char(#[trigger] sanitized(name)[i]),
        sanitized(name).len() <= name.len(),
        (forall|i: int| 0 <= i < name.len() ==> ascii_word_char(#[trigger] name[i]) || name[i] == ' ')
            ==> sanitized(name).len() == name.len(),
    decreases name.len(),
{
    if name.len() > 0 {
        let t = name.drop_last();
        lemma_sanitize_output(t);
        assert(t.push(name.last()) =~= name);
        lemma_sanitize_step(t, name.last());
        if forall|i: int| 0 <= i < name.len() ==> ascii_word_char(#[trigger] name[i]) || name[i] == ' ' {
            assert forall|i: int| 0 <= i < t.len() implies ascii_word_char(#[trigger] t[i]) || t[i] == ' ' by {
                assert(t[i] == name[i]);
            }
            assert(ascii_word_char(name[name.len() - 1]) || name[name.len() - 1] == ' ');
        }
    }
}

/// The cover path for every platform: the base, `_pico`, `covers`, the
/// platform's own folder (`gb` for Game Boy, `gbc` for Game Boy Color, `gba`
/// for Game Boy Advance) and `<identifier>.<format>`; the folder read as an
/// extension names the platform again.
pub proof fn lemma_output_path_layout(base: Seq<char>, p: Platform, id: Seq<char>, fmt: Seq<char>)
    ensures
        output_path_of(base, p, id, fmt).len() == 5,
        output_path_of(base, p, id, fmt)[0] == base,
        output_path_of(base, p, id, fmt)[1] == seq!['_', 'p', 'i', 'c', 'o'],
        output_path_of(base, p, id, fmt)[2] == seq!['c', 'o', 'v', 'e', 'r', 's'],
        p == Platform::GB ==> output_path_of(base, p, id, fmt)[3] == seq!['g', 'b'],
        p == Platform::GBC ==> output_path_of(base, p, id, fmt)[3] == seq!['g', 'b', 'c'],
        p == Platform::GBA ==> output_path_of(base, p, id, fmt)[3] == seq!['g', 'b', 'a'],
        crate::scanner::platform_for_extension(output_path_of(base, p, id, fmt)[3]) == Some(p),
        output_path_of(base, p, id, fmt)[4] == id + seq!['.'] + fmt,
{
    reveal_strlit("_pico");
    reveal_strlit("covers");
    assert("_pico"@ =~= seq!['_', 'p', 'i', 'c', 'o']);
    assert("covers"@ =~= seq!['c', 'o', 'v', 'e', 'r', 's']);
    crate::scanner::lemma_folder_name_is_extension(p);
}

} // verus!
