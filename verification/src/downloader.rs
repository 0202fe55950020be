//! Where a ROM's cover is fetched from.

use vstd::prelude::*;
use vstd::utf8::encode_utf8;

use crate::scanner::RomInfo;
use crate::text::owned;
use crate::utils::{libretro_system_name, system_name_of};

verus! {

/// A byte left as it is by percent-encoding: an ASCII letter or digit, or
/// one of `-`, `.`, `_`, `~`.
pub open spec fn is_unreserved(b: u8) -> bool {
    (48 <= b <= 57) || (65 <= b <= 90) || (97 <= b <= 122) || b == 45 || b == 46 || b == 95 || b
        == 126
}

/// The upper-case hexadecimal digit for `d < 16`.
pub open spec fn hex_digit(d: u8) -> char {
    if d < 10 {
        (48 + d) as char
    } else {
        (55 + d) as char
    }
}

/// One byte, percent-encoded.
pub open spec fn percent_encode_byte(b: u8) -> Seq<char> {
    if is_unreserved(b) {
        seq![b as char]
    } else {
        seq!['%', hex_digit(b / 16), hex_digit(b % 16)]
    }
}

/// Bytes percent-encoded one by one.
pub open spec fn percent_encoded(bytes: Seq<u8>) -> Seq<char>
    decreases bytes.len(),
{
    if bytes.len() == 0 {
        seq![]
    } else {
        percent_encoded(bytes.drop_last()) + percent_encode_byte(bytes.last())
    }
}

/// `s` percent-encoded for use in a URL path.
///
/// Trusted: `urlencoding::encode` percent-encodes every byte of the UTF-8
/// form of `s` except ASCII letters, digits and `-`, `.`, `_`, `~`, writing
/// `%` and two upper-case hex digits for each, as its source shows.
#[verifier::external_body]
fn url_encode(s: &str) -> (r: String)
    ensures
        r@ == percent_encoded(encode_utf8(s@)),
{
    urlencoding::encode(s).into_owned()
}

/// The Libretro box-art URL for a system and a name, both already encoded.
pub open spec fn libretro_url(system: Seq<char>, name: Seq<char>) -> Seq<char> {
    "http://thumbnails.libretro.com/"@ + system + "/Named_Boxarts/"@ + name + ".png"@
}

/// The Libretro box-art URL for an encoded system name and an encoded
/// game name.
pub fn libretro_cover_url(encoded_system: &str, encoded_name: &str) -> (r: String)
    ensures
        r@ == libretro_url(encoded_system@, encoded_name@),
{
    let mut url = owned("http://thumbnails.libretro.com/");
    url.append(encoded_system);
    url.append("/Named_Boxarts/");
    url.append(encoded_name);
    url.append(".png");
    url
}

/// The URL a ROM's cover is downloaded from: the Libretro box art named
/// by the ROM's file name exactly as it stands, under its platform's system
/// name, both percent-encoded.
pub fn cover_url(rom: &RomInfo) -> (r: String)
    ensures
        r@ == libretro_url(
            percent_encoded(encode_utf8(system_name_of(rom.platform))),
            percent_encoded(encode_utf8(rom.file_stem@)),
        ),
{
    let system = url_encode(libretro_system_name(rom.platform));
    let name = url_encode(rom.file_stem.as_str());
    libretro_cover_url(system.as_str(), name.as_str())
}

/// Percent-encoding yields only unreserved characters, `%` and hex digits,
/// so an encoded name never holds a `/` or a space.
pub proof fn lemma_percent_encoded_safe(bytes: Seq<u8>)
    ensures
        forall|i: int| 0 <= i < percent_encoded(bytes).len() ==> {
            let c = #[trigger] percent_encoded(bytes)[i];
            c != '/' && c != ' '
        },
    decreases bytes.len(),
{
    if bytes.len() > 0 {
        lemma_percent_encoded_safe(bytes.drop_last());
        let prev = percent_encoded(bytes.drop_last());
        let last = percent_encode_byte(bytes.last());
        assert forall|i: int| 0 <= i < percent_encoded(bytes).len() implies {
            let c = #[trigger] percent_encoded(bytes)[i];
            c != '/' && c != ' '
        } by {
            if i >= prev.len() {
                let b = bytes.last();
                assert(percent_encoded(bytes)[i] == last[i - prev.len()]);
                if !is_unreserved(b) {
                    assert(b / 16 < 16 && b % 16 < 16);
                }
            } else {
                assert(percent_encoded(bytes)[i] == prev[i]);
            }
        }
    }
}

} // verus!
