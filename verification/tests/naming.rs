use trombinoscope::cache::cache_file_name;
use trombinoscope::crop::CropRectangle;
use trombinoscope::text::{
    archive_entry_kept, caption_from_filename, normalize_unicode, sanitize_filename,
    u64_to_dec_string,
};

#[test]
fn decimal_rendering() {
    assert_eq!(u64_to_dec_string(0), "0");
    assert_eq!(u64_to_dec_string(7), "7");
    assert_eq!(u64_to_dec_string(12_034), "12034");
    assert_eq!(u64_to_dec_string(u64::MAX), "18446744073709551615");
}

#[test]
fn sanitize_replaces_double_quotes() {
    assert_eq!(sanitize_filename(&String::from("a\"b\"")), "a_b_");
    assert_eq!(sanitize_filename(&String::from("plain.png")), "plain.png");
    assert_eq!(sanitize_filename(&String::from("")), "");
}

#[test]
fn cache_name_spells_out_the_transform() {
    let crop = CropRectangle {
        x: 500,
        y: 0,
        width: 3000,
        height: 3000,
    };
    assert_eq!(
        cache_file_name(&String::from("img\"1.png"), &crop, Some(300)),
        "img_1.png-cropped(500,0,3000,3000)-dpi(300).jpg"
    );
    assert_eq!(
        cache_file_name(&String::from("img.png"), &crop, None),
        "img.png-cropped(500,0,3000,3000)-dpi(native).jpg"
    );
}

#[test]
fn nfc_composes_diacritics() {
    // "e" followed by a combining acute accent becomes the single
    // precomposed character.
    let decomposed = String::from("Cafe\u{0301}");
    assert_eq!(normalize_unicode(&decomposed), "Caf\u{00e9}");
    // Already-composed text passes through unchanged.
    assert_eq!(normalize_unicode(&String::from("Caf\u{00e9}")), "Caf\u{00e9}");
}

#[test]
fn caption_between_first_underscore_and_following_dot() {
    assert_eq!(
        caption_from_filename(&String::from("PJ_Alice.png")),
        Some(String::from("Alice"))
    );
    // The prefix may contain dots, the caption may contain underscores.
    assert_eq!(
        caption_from_filename(&String::from("a.b_c_d.e")),
        Some(String::from("c_d"))
    );
}

#[test]
fn names_without_the_caption_shape_yield_nothing() {
    // No underscore at all.
    assert_eq!(caption_from_filename(&String::from("Alice.png")), None);
    // Empty prefix.
    assert_eq!(caption_from_filename(&String::from("_Alice.png")), None);
    // Empty caption.
    assert_eq!(caption_from_filename(&String::from("PJ_.png")), None);
    // No extension after the dot.
    assert_eq!(caption_from_filename(&String::from("PJ_Alice.")), None);
    // No dot after the underscore.
    assert_eq!(caption_from_filename(&String::from("PJ_Alice")), None);
}

#[test]
fn archive_filter_keeps_real_files_only() {
    let f = String::from("photos/PJ_Alice.png");
    let n = String::from("PJ_Alice.png");
    assert!(archive_entry_kept(&f, &n, false, true));
    // Directory entries are skipped.
    assert!(!archive_entry_kept(&f, &n, true, true));
    // Entries whose path escapes the archive root are skipped.
    assert!(!archive_entry_kept(&f, &n, false, false));
    // macOS resource forks are skipped.
    assert!(!archive_entry_kept(
        &String::from("__MACOSX/._PJ_Alice.png"),
        &String::from("._PJ_Alice.png"),
        false,
        true
    ));
    // Finder metadata is skipped.
    assert!(!archive_entry_kept(
        &String::from("photos/.DS_Store"),
        &String::from(".DS_Store"),
        false,
        true
    ));
}

#[test]
fn near_miss_metadata_prefix_is_kept() {
    // Only the exact eight-character prefix marks a resource fork.
    assert!(archive_entry_kept(
        &String::from("__MACOS/PJ_Alice.png"),
        &String::from("PJ_Alice.png"),
        false,
        true
    ));
    assert!(archive_entry_kept(
        &String::from("MACOSX__/PJ_Alice.png"),
        &String::from("PJ_Alice.png"),
        false,
        true
    ));
}

#[test]
fn cache_name_of_an_uncentered_crop() {
    let crop = CropRectangle {
        x: 1,
        y: 2,
        width: 3,
        height: 4,
    };
    assert_eq!(
        cache_file_name(&String::from("img"), &crop, None),
        "img-cropped(1,2,3,4)-dpi(native).jpg"
    );
}
