use std::path::PathBuf;

use holyland::atlases::{
    atlas_key_from_stem, embedded_entries, has_atlas_dims, key_taken, offer_file, AtlasSource,
    DEFAULT_KEY,
};

static CP: [u8; 3] = [1, 2, 3];
static AE: [u8; 2] = [4, 5];

#[test]
fn stem_keys_are_lowercased_and_lose_the_size_suffix() {
    assert_eq!(atlas_key_from_stem("Aesomatica_16x16"), "aesomatica");
    assert_eq!(atlas_key_from_stem("cp437_16x16"), "cp437");
    assert_eq!(atlas_key_from_stem("Curses_12x12"), "curses_12x12");
    assert_eq!(atlas_key_from_stem("_16x16"), "");
    // Only ASCII letters are lowered.
    assert_eq!(atlas_key_from_stem("\u{c9}T\u{c9}"), "\u{c9}t\u{c9}");
}

#[test]
fn embedded_defaults_come_first() {
    let entries = embedded_entries(&CP, &AE);
    assert_eq!(entries.len(), 2);
    assert_eq!(entries[0].key, DEFAULT_KEY);
    assert_eq!(entries[1].key, "aesomatica");
    assert!(matches!(entries[0].source, AtlasSource::Embedded(b) if b == &CP));
}

#[test]
fn files_join_only_with_a_free_key_and_atlas_dims() {
    let mut entries = embedded_entries(&CP, &AE);
    assert!(key_taken(&entries, "cp437"));
    assert!(!key_taken(&entries, "curses"));
    assert!(!offer_file(&mut entries, "CP437_16x16", PathBuf::from("a/CP437_16x16.png"), (256, 256)));
    assert!(!offer_file(&mut entries, "curses", PathBuf::from("a/curses.png"), (128, 256)));
    assert_eq!(entries.len(), 2);
    assert!(offer_file(&mut entries, "Curses", PathBuf::from("a/Curses.png"), (256, 256)));
    assert_eq!(entries.len(), 3);
    assert_eq!(entries[2].key, "curses");
    assert_eq!(entries[2].display_name, "Curses");
    assert!(matches!(&entries[2].source, AtlasSource::File(p) if p == &PathBuf::from("a/Curses.png")));
    assert!(has_atlas_dims((256, 256)));
    assert!(!has_atlas_dims((256, 255)));
}
