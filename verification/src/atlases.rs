//! Tileset atlas registry: the entries the in-game tileset picker lists.
//! Two atlases are embedded; any further 256 x 256 PNG found next to the
//! game joins them under a key derived from its file stem, unless an
//! earlier entry already holds that key.

use std::path::PathBuf;

use vstd::prelude::*;
use vstd::string::*;

use crate::text::{ascii_lower, owned, str_eq, to_ascii_lowercase};

verus! {

#[verifier::external_type_specification]
#[verifier::external_body]
pub struct ExPathBuf(PathBuf);

/// Key of the atlas selected by default.
pub const DEFAULT_KEY: &'static str = "cp437";

/// Width and height, in pixels, an atlas file must have.
pub const REQUIRED_DIM: u32 = 256;

/// Where an atlas's PNG bytes come from.
pub enum AtlasSource {
    Embedded(&'static [u8]),
    File(PathBuf),
}

/// One selectable atlas.
pub struct AtlasEntry {
    pub key: String,
    pub display_name: String,
    pub source: AtlasSource,
}

/// Key of an atlas file stem: lowercased, with a trailing `_16x16`
/// removed, so that `Aesomatica_16x16` and `cp437_16x16` meet the
/// embedded entries' keys instead of duplicating them.
pub open spec fn atlas_key(stem: Seq<char>) -> Seq<char> {
    let lower = stem.map_values(|c: char| ascii_lower(c));
    if lower.len() >= 6 && lower.subrange(lower.len() - 6, lower.len() as int) == "_16x16"@ {
        lower.subrange(0, lower.len() - 6)
    } else {
        lower
    }
}

pub fn atlas_key_from_stem(stem: &str) -> (r: String)
    ensures
        r@ == atlas_key(stem@),
{
    let lower = to_ascii_lowercase(stem);
    let l = lower.as_str();
    let n = l.unicode_len();
    if n >= 6 {
        let tail = l.substring_char(n - 6, n);
        if str_eq(tail, "_16x16") {
            return owned(l.substring_char(0, n - 6));
        }
    }
    lower
}

/// Some entry already holds `key`.
pub open spec fn key_taken_spec(entries: Seq<AtlasEntry>, key: Seq<char>) -> bool {
    exists|i: int| 0 <= i < entries.len() && #[trigger] entries[i].key@ == key
}

/// Whether an entry already holds `key`: a file atlas with that key is
/// skipped.
pub fn key_taken(entries: &Vec<AtlasEntry>, key: &str) -> (r: bool)
    ensures
        r == key_taken_spec(entries@, key@),
{
    let mut i: usize = 0;
    while i < entries.len()
        invariant
            i <= entries@.len(),
            forall|j: int| 0 <= j < i ==> #[trigger] entries@[j].key@ != key@,
        decreases entries@.len() - i,
    {
        if str_eq(entries[i].key.as_str(), key) {
            return true;
        }
        i = i + 1;
    }
    false
}

/// Whether image dimensions qualify a PNG as an atlas.
pub fn has_atlas_dims(dims: (u32, u32)) -> (r: bool)
    ensures
        r == (dims.0 == REQUIRED_DIM && dims.1 == REQUIRED_DIM),
{
    dims.0 == REQUIRED_DIM && dims.1 == REQUIRED_DIM
}

/// The two embedded atlases, in picker order.
pub fn embedded_entries(cp437_png: &'static [u8], aesomatica_png: &'static [u8]) -> (r: Vec<AtlasEntry>)
    ensures
        r@.len() == 2,
        r@[0].key@ == "cp437"@,
        r@[0].display_name@ == "cp437"@,
        r@[0].source == AtlasSource::Embedded(cp437_png),
        r@[1].key@ == "aesomatica"@,
        r@[1].display_name@ == "aesomatica"@,
        r@[1].source == AtlasSource::Embedded(aesomatica_png),
{
    let mut v: Vec<AtlasEntry> = Vec::new();
    v.push(
        AtlasEntry {
            key: owned("cp437"),
            display_name: owned("cp437"),
            source: AtlasSource::Embedded(cp437_png),
        },
    );
    v.push(
        AtlasEntry {
            key: owned("aesomatica"),
            display_name: owned("aesomatica"),
            source: AtlasSource::Embedded(aesomatica_png),
        },
    );
    v
}

/// Offer a PNG file found on disk: its stem gives the key; the file is
/// added, keeping its stem as display name, when the key is free and the
/// image is 256 x 256. Returns whether it was added.
pub fn offer_file(entries: &mut Vec<AtlasEntry>, stem: &str, path: PathBuf, dims: (u32, u32)) -> (r: bool)
    ensures
        r == (!key_taken_spec(old(entries)@, atlas_key(stem@)) && dims.0 == REQUIRED_DIM && dims.1
            == REQUIRED_DIM),
        r ==> final(entries)@.len() == old(entries)@.len() + 1 && final(entries)@.subrange(
            0,
            old(entries)@.len() as int,
        ) == old(entries)@ && final(entries)@.last().key@ == atlas_key(stem@)
            && final(entries)@.last().display_name@ == stem@ && final(entries)@.last().source
            == AtlasSource::File(path),
        !r ==> final(entries)@ == old(entries)@,
{
    let key = atlas_key_from_stem(stem);
    if key_taken(entries, key.as_str()) || !has_atlas_dims(dims) {
        return false;
    }
    let ghost before = entries@;
    entries.push(AtlasEntry { key, display_name: owned(stem), source: AtlasSource::File(path) });
    assert(entries@.subrange(0, before.len() as int) =~= before);
    true
}

} // verus!
