use taskpanel::cache::{build_entry, WindowCache};
use taskpanel::icon::{blend_icon, decode_icon, select_icon_block, unpack_argb, IconBlock, ICON_EDGE};
use taskpanel::title::{
    contains_infix, is_denylisted, matches_denylist, sanitize_title, title_from_properties,
};

#[test]
fn bidi_mark_is_stripped() {
    assert_eq!(sanitize_title("A\u{200E}B"), "AB");
}

#[test]
fn controls_and_format_marks_are_stripped() {
    assert_eq!(sanitize_title("\u{feff}x\ty\u{85}\u{202B}z\u{2068}\u{7f}"), "xyz");
    assert_eq!(sanitize_title("plain title"), "plain title");
}

#[test]
fn utf8_title_preferred_over_legacy() {
    let t = title_from_properties(&Some(b"Editor".to_vec()), &Some(b"legacy".to_vec()));
    assert_eq!(t, "Editor");
}

#[test]
fn legacy_title_used_when_utf8_missing_or_empty() {
    assert_eq!(title_from_properties(&Some(Vec::new()), &Some(b"xterm".to_vec())), "xterm");
    assert_eq!(title_from_properties(&None, &Some(b"xterm".to_vec())), "xterm");
    assert_eq!(title_from_properties(&None, &None), "");
}

#[test]
fn invalid_bytes_are_replaced() {
    assert_eq!(title_from_properties(&Some(vec![b'a', 0xff, b'b']), &None), "a\u{fffd}b");
}

#[test]
fn denylist_is_case_insensitive() {
    assert!(is_denylisted("Conky (host)"));
    assert!(is_denylisted("TINT2 panel"));
    assert!(is_denylisted("plank"));
    assert!(!is_denylisted("Firefox"));
    assert!(!matches_denylist("CONKY"));
    assert!(matches_denylist("conky"));
    assert!(contains_infix("abcabd", "abd"));
    assert!(!contains_infix("ab", "abc"));
    assert!(contains_infix("", ""));
}

fn block(w: u32, h: u32, px: u32) -> Vec<u32> {
    let mut v = vec![w, h];
    v.extend(std::iter::repeat(px).take((w * h) as usize));
    v
}

#[test]
fn smallest_sufficient_block_is_chosen() {
    let mut d = block(16, 16, 1);
    d.extend(block(48, 48, 2));
    d.extend(block(32, 32, 3));
    d.extend(block(64, 64, 4));
    let b = select_icon_block(&d, 24).unwrap();
    assert_eq!(b.width, 32);
    assert_eq!(d[b.start], 3);
}

#[test]
fn widest_block_when_none_is_large_enough() {
    let mut d = block(8, 8, 1);
    d.extend(block(16, 16, 2));
    d.extend(block(12, 12, 3));
    assert_eq!(select_icon_block(&d, 24), Some(IconBlock { start: 68, width: 16, height: 16 }));
}

#[test]
fn truncated_block_stops_the_scan() {
    let mut d = block(16, 16, 1);
    d.extend(vec![64, 64, 5, 5, 5]);
    assert_eq!(select_icon_block(&d, 24).unwrap().width, 16);
    assert_eq!(select_icon_block(&vec![64, 64, 1], 24), None);
    assert_eq!(decode_icon(&Vec::new()), None);
}

#[test]
fn argb_unpacks_to_rgba() {
    let d = vec![0, 0x80112233, 0xff445566];
    assert_eq!(unpack_argb(&d, 1, 2), vec![0x11, 0x22, 0x33, 0x80, 0x44, 0x55, 0x66, 0xff]);
}

#[test]
fn single_block_decodes_to_icon_size_keeping_corner_alpha() {
    let mut d = vec![32u32, 32];
    for y in 0..32u32 {
        for x in 0..32u32 {
            let a: u32 = match (x < 16, y < 16) {
                (true, true) => 10,
                (false, true) => 80,
                (true, false) => 160,
                (false, false) => 250,
            };
            d.push((a << 24) | 0x00808080);
        }
    }
    let icon = decode_icon(&d).unwrap();
    let e = ICON_EDGE as usize;
    assert_eq!(icon.len(), e * e * 4);
    let alpha = |x: usize, y: usize| icon[(y * e + x) * 4 + 3] as i32;
    assert!((alpha(0, 0) - 10).abs() <= 2);
    assert!((alpha(e - 1, 0) - 80).abs() <= 2);
    assert!((alpha(0, e - 1) - 160).abs() <= 2);
    assert!((alpha(e - 1, e - 1) - 250).abs() <= 2);
}

#[test]
fn block_of_icon_size_is_kept_as_is() {
    let d = block(24, 24, 0x7f010203);
    let icon = decode_icon(&d).unwrap();
    assert_eq!(&icon[0..4], &[1, 2, 3, 0x7f]);
}

#[test]
fn icon_blends_over_background() {
    let px = vec![255, 0, 0, 255, 0, 255, 0, 0, 200, 100, 50, 128];
    let out = blend_icon(&px, 0x000000);
    assert_eq!(&out[0..4], &[0, 0, 255, 255]);
    assert_eq!(&out[4..8], &[0, 0, 0, 255]);
    // (50 * 128) / 255, (100 * 128) / 255, (200 * 128) / 255
    assert_eq!(&out[8..12], &[25, 50, 100, 255]);
    let out = blend_icon(&px[4..8].to_vec(), 0xffffff);
    assert_eq!(out, vec![255, 255, 255, 255]);
}

#[test]
fn invalidation_removes_only_that_entry() {
    let mut c = WindowCache::new();
    c.insert(1, build_entry(&Some(b"one".to_vec()), &None, &None));
    c.insert(2, build_entry(&Some(b"two".to_vec()), &None, &None));
    assert!(c.invalidate(1));
    assert!(!c.contains(1));
    assert!(c.contains(2));
    assert_eq!(c.get(2).unwrap().title, "two");
    assert!(!c.invalidate(1));
    assert_eq!(c.len(), 1);
}

#[test]
fn entry_without_icon_property_has_no_icon() {
    let e = build_entry(&None, &Some(b"a\x01b".to_vec()), &None);
    assert_eq!(e.title, "ab");
    assert!(e.icon.is_none());
    let e = build_entry(&None, &None, &Some(block(32, 32, 0xff000000)));
    assert_eq!(e.icon.unwrap().len(), 24 * 24 * 4);
}
