//! The decisions taken for each ROM before a cover is fetched: what the
//! cover file is called, which folder it goes to, whether an existing cover
//! is kept, and how the region list given by the user is read.

use vstd::prelude::*;

use crate::error::CoverError;
use crate::scanner::{folder_name_of, Platform, RomInfo};
use crate::text::{chars_of, owned, push_char};

verus! {

/// The file name of a ROM's cover: `<game code>.bmp` for GBA ROMs, whose
/// launcher looks covers up by game code, and `<file stem>.bmp` otherwise.
pub open spec fn cover_filename_of(rom: RomInfo) -> Option<Seq<char>> {
    match rom.platform {
        Platform::GBA => match rom.game_id {
            Some(id) => Some(id@ + ".bmp"@),
            None => None,
        },
        _ => Some(rom.file_stem@ + ".bmp"@),
    }
}

/// The file name of a ROM's cover: `<game code>.bmp` for a GBA ROM (an
/// error when its header gave no game code) and `<file stem>.bmp` for the
/// other platforms.
pub fn cover_filename(rom: &RomInfo) -> (r: Result<String, CoverError>)
    ensures
        r is Ok <==> cover_filename_of(*rom) is Some,
        r matches Ok(name) ==> name@ == cover_filename_of(*rom)->0,
        r matches Err(e) ==> e is MissingGameId,
{
    match rom.platform {
        Platform::GBA => match &rom.game_id {
            Some(id) => {
                let mut name = id.clone();
                name.append(".bmp");
                Ok(name)
            },
            None => Err(CoverError::MissingGameId),
        },
        _ => {
            let mut name = rom.file_stem.clone();
            name.append(".bmp");
            Ok(name)
        },
    }
}

/// The folder, relative to the drive root, that a platform's covers are
/// written to: `_pico/covers/gb`, `_pico/covers/gbc` or `_pico/covers/gba`.
pub fn covers_dir(platform: Platform) -> (r: Vec<String>)
    ensures
        r@.len() == 3,
        r@[0]@ == "_pico"@,
        r@[1]@ == "covers"@,
        r@[2]@ == folder_name_of(platform),
{
    let mut parts: Vec<String> = Vec::new();
    parts.push(owned("_pico"));
    parts.push(owned("covers"));
    parts.push(owned(platform.folder_name()));
    parts
}

/// Whether the cover is left alone: it already exists and overwriting was
/// not asked for.
pub fn skip_existing(overwrite: bool, exists: bool) -> (r: bool)
    ensures
        r == (!overwrite && exists),
{
    !overwrite && exists
}

/// A character Unicode classes as white space (the `White_Space` property),
/// which is what trimming removes.
pub open spec fn is_white_space(c: char) -> bool {
    ('\t' <= c <= '\r') || c == ' ' || c == '\u{85}' || c == '\u{A0}' || c == '\u{1680}' || (
    '\u{2000}' <= c <= '\u{200A}') || c == '\u{2028}' || c == '\u{2029}' || c == '\u{202F}' || c
        == '\u{205F}' || c == '\u{3000}'
}

fn white_space(c: char) -> (r: bool)
    ensures
        r == is_white_space(c),
{
    (c >= '\t' && c <= '\r') || c == ' ' || c == '\u{85}' || c == '\u{A0}' || c == '\u{1680}' || (c
        >= '\u{2000}' && c <= '\u{200A}') || c == '\u{2028}' || c == '\u{2029}' || c == '\u{202F}'
        || c == '\u{205F}' || c == '\u{3000}'
}

/// `s` without its leading white space.
pub open spec fn trim_start(s: Seq<char>) -> Seq<char>
    decreases s.len(),
{
    if s.len() > 0 && is_white_space(s[0]) {
        trim_start(s.drop_first())
    } else {
        s
    }
}

/// `s` without its trailing white space.
pub open spec fn trim_end(s: Seq<char>) -> Seq<char>
    decreases s.len(),
{
    if s.len() > 0 && is_white_space(s.last()) {
        trim_end(s.drop_last())
    } else {
        s
    }
}

/// `s` without leading and trailing white space.
pub open spec fn trimmed(s: Seq<char>) -> Seq<char> {
    trim_end(trim_start(s))
}

/// The pieces of `s` between commas, in order (one more than there are commas).
pub open spec fn split_commas(s: Seq<char>) -> Seq<Seq<char>>
    decreases s.len(),
{
    if s.len() == 0 {
        seq![seq![]]
    } else {
        let parts = split_commas(s.drop_last());
        if s.last() == ',' {
            parts.push(seq![])
        } else {
            parts.update(parts.len() - 1, parts.last().push(s.last()))
        }
    }
}

/// The regions named in a comma-separated list, each trimmed.
pub open spec fn regions_of(s: Seq<char>) -> Seq<Seq<char>> {
    split_commas(s).map_values(|p: Seq<char>| trimmed(p))
}

proof fn lemma_split_commas_nonempty(s: Seq<char>)
    ensures
        split_commas(s).len() >= 1,
    decreases s.len(),
{
    if s.len() > 0 {
        lemma_split_commas_nonempty(s.drop_last());
    }
}

proof fn lemma_trim_start_at(s: Seq<char>, lo: int)
    requires
        0 <= lo <= s.len(),
        forall|j: int| 0 <= j < lo ==> is_white_space(#[trigger] s[j]),
        lo < s.len() ==> !is_white_space(s[lo]),
    ensures
        trim_start(s) == s.subrange(lo, s.len() as int),
    decreases lo,
{
    if lo == 0 {
        assert(s.subrange(0, s.len() as int) =~= s);
    } else {
        assert(is_white_space(s[0]));
        let t = s.drop_first();
        assert forall|j: int| 0 <= j < lo - 1 implies is_white_space(#[trigger] t[j]) by {
            assert(t[j] == s[j + 1]);
        }
        lemma_trim_start_at(t, lo - 1);
        assert(t.subrange(lo - 1, t.len() as int) =~= s.subrange(lo, s.len() as int));
    }
}

proof fn lemma_trim_end_at(s: Seq<char>, hi: int)
    requires
        0 <= hi <= s.len(),
        forall|j: int| hi <= j < s.len() ==> is_white_space(#[trigger] s[j]),
        hi > 0 ==> !is_white_space(s[hi - 1]),
    ensures
        trim_end(s) == s.subrange(0, hi),
    decreases s.len() - hi,
{
    if hi == s.len() {
        assert(s.subrange(0, hi) =~= s);
    } else {
        assert(is_white_space(s.last()));
        let t = s.drop_last();
        lemma_trim_end_at(t, hi);
        assert(t.subrange(0, hi) =~= s.subrange(0, hi));
    }
}

/// The characters of `cs` without leading and trailing white space.
fn trim_chars(cs: &Vec<char>) -> (r: String)
    ensures
        r@ == trimmed(cs@),
{
    let n = cs.len();
    let mut lo: usize = 0;
    while lo < n && white_space(cs[lo])
        invariant
            n == cs@.len(),
            lo <= n,
            forall|j: int| 0 <= j < lo ==> is_white_space(#[trigger] cs@[j]),
        decreases n - lo,
    {
        lo = lo + 1;
    }
    proof {
        lemma_trim_start_at(cs@, lo as int);
    }
    let ghost t = cs@.subrange(lo as int, n as int);
    let mut hi: usize = n;
    while hi > lo && white_space(cs[hi - 1])
        invariant
            n == cs@.len(),
            lo <= hi <= n,
            forall|j: int| hi <= j < n ==> is_white_space(#[trigger] cs@[j]),
        decreases hi,
    {
        hi = hi - 1;
    }
    proof {
        assert forall|j: int| (hi - lo) <= j < t.len() implies is_white_space(#[trigger] t[j]) by {
            assert(t[j] == cs@[j + lo]);
        }
        if hi > lo {
            assert(t[hi - lo - 1] == cs@[hi - 1]);
        }
        lemma_trim_end_at(t, hi - lo);
        assert(t.subrange(0, hi - lo) =~= cs@.subrange(lo as int, hi as int));
    }
    let mut out = String::new();
    let mut k = lo;
    while k < hi
        invariant
            n == cs@.len(),
            lo <= k <= hi <= n,
            out@ =~= cs@.subrange(lo as int, k as int),
        decreases hi - k,
    {
        push_char(&mut out, cs[k]);
        k = k + 1;
    }
    out
}

/// The regions named in a comma-separated list such as `"EN, US,JP"`:
/// the list split at every comma, each piece trimmed of white space.
pub fn parse_regions(list: &str) -> (r: Vec<String>)
    ensures
        r@.len() == regions_of(list@).len(),
        forall|i: int| 0 <= i < r@.len() ==> #[trigger] r@[i]@ == regions_of(list@)[i],
{
    let cs = chars_of(list);
    let n = cs.len();
    let mut out: Vec<String> = Vec::new();
    let mut current: Vec<char> = Vec::new();
    let ghost mut done: Seq<Seq<char>> = seq![];
    let mut i: usize = 0;
    while i < n
        invariant
            n == cs@.len(),
            cs@ == list@,
            i <= n,
            split_commas(list@.take(i as int)) == done.push(current@),
            out@.len() == done.len(),
            forall|j: int| 0 <= j < out@.len() ==> #[trigger] out@[j]@ == trimmed(done[j]),
        decreases n - i,
    {
        let c = cs[i];
        assert(list@.take(i + 1).drop_last() =~= list@.take(i as int));
        assert(list@.take(i + 1).last() == c);
        if c == ',' {
            let piece = trim_chars(&current);
            out.push(piece);
            proof {
                done = done.push(current@);
            }
            current = Vec::new();
            assert(split_commas(list@.take(i + 1)) =~= done.push(current@));
        } else {
            current.push(c);
            assert(split_commas(list@.take(i + 1)) =~= done.push(current@));
        }
        i = i + 1;
    }
    let last = trim_chars(&current);
    out.push(last);
    proof {
        assert(list@.take(n as int) =~= list@);
        done = done.push(current@);
        assert(regions_of(list@).len() == done.len());
    }
    out
}

/// A list without commas names one region, the whole list trimmed.
pub proof fn lemma_regions_without_comma(s: Seq<char>)
    requires
        forall|i: int| 0 <= i < s.len() ==> #[trigger] s[i] != ',',
    ensures
        regions_of(s) == seq![trimmed(s)],
{
    lemma_split_without_comma(s);
    assert(regions_of(s) =~= seq![trimmed(s)]);
}

proof fn lemma_split_without_comma(s: Seq<char>)
    requires
        forall|i: int| 0 <= i < s.len() ==> #[trigger] s[i] != ',',
    ensures
        split_commas(s) == seq![s],
    decreases s.len(),
{
    if s.len() == 0 {
        assert(s =~= Seq::<char>::empty());
        assert(split_commas(s) =~= seq![s]);
    } else {
        let t = s.drop_last();
        assert forall|i: int| 0 <= i < t.len() implies #[trigger] t[i] != ',' by {
            assert(t[i] == s[i]);
        }
        lemma_split_without_comma(t);
        assert(s[s.len() - 1] != ',');
        assert(t.push(s.last()) =~= s);
        assert(split_commas(s).len() == 1);
        assert(split_commas(s)[0] == s);
        assert(split_commas(s) =~= seq![s]);
    }
}

/// There is one region more than there are commas in the list.
pub proof fn lemma_region_count(s: Seq<char>)
    ensures
        regions_of(s).len() == s.filter(|c: char| c == ',').len() + 1,
    decreases s.len(),
{
    reveal_with_fuel(Seq::filter, 1);
    if s.len() > 0 {
        lemma_region_count(s.drop_last());
        lemma_split_commas_nonempty(s.drop_last());
    }
}

/// Every region read from a list has no white space at either end.
pub proof fn lemma_regions_trimmed(s: Seq<char>, i: int)
    requires
        0 <= i < regions_of(s).len(),
    ensures
        regions_of(s)[i].len() > 0 ==> !is_white_space(regions_of(s)[i][0]) && !is_white_space(
            regions_of(s)[i].last(),
        ),
{
    let p = split_commas(s)[i];
    lemma_trim_start_no_white(p);
    lemma_trim_end_no_white(trim_start(p));
}

proof fn lemma_trim_start_no_white(s: Seq<char>)
    ensures
        trim_start(s).len() > 0 ==> !is_white_space(trim_start(s)[0]),
        trim_start(s).len() <= s.len(),
        forall|j: int| 0 <= j < trim_start(s).len() ==> #[trigger] trim_start(s)[j] == s[j + s.len() - trim_start(s).len()],
    decreases s.len(),
{
    if s.len() > 0 && is_white_space(s[0]) {
        lemma_trim_start_no_white(s.drop_first());
    }
}

proof fn lemma_trim_end_no_white(s: Seq<char>)
    ensures
        trim_end(s).len() > 0 ==> !is_white_space(trim_end(s).last()) && trim_end(s)[0] == s[0],
    decreases s.len(),
{
    if s.len() > 0 && is_white_space(s.last()) {
        lemma_trim_end_no_white(s.drop_last());
    }
}

} // verus!
