use taskpanel::layout::{ideal_width, layout, shows_icon, text_area, Candidate, Cell};
use taskpanel::text::{apply_fit, blend_coverage, choose_fit, new_raster, shorten_to_fit, Fit};

fn cands(text_widths: &[u32]) -> Vec<Candidate> {
    text_widths
        .iter()
        .enumerate()
        .map(|(i, &t)| Candidate { handle: 100 + i as u32, text_width: t })
        .collect()
}

#[test]
fn compressed_layout_shares_width_evenly() {
    // ideal width 24 + 152 + 24 = 200 each, 600 in all
    let cs = cands(&[152, 152, 152]);
    assert!(cs.iter().all(|c| ideal_width(c.text_width) == 200));
    let cells = layout(&cs, 0, None, 500);
    let xs: Vec<u32> = cells.iter().map(|c| c.draw_x).collect();
    let ws: Vec<u32> = cells.iter().map(|c| c.draw_width).collect();
    assert_eq!(xs, vec![0, 166, 332]);
    assert_eq!(ws, vec![166, 166, 166]);
}

#[test]
fn natural_layout_keeps_ideal_widths() {
    // ideal width 24 + 52 + 24 = 100 each, 300 in all
    let cs = cands(&[52, 52, 52]);
    let cells = layout(&cs, 0, None, 500);
    let xs: Vec<u32> = cells.iter().map(|c| c.draw_x).collect();
    let ws: Vec<u32> = cells.iter().map(|c| c.draw_width).collect();
    assert_eq!(xs, vec![0, 100, 200]);
    assert_eq!(ws, vec![100, 100, 100]);
}

#[test]
fn layout_never_overflows() {
    for avail in [0u32, 1, 7, 99, 250, 499, 500, 1000] {
        for n in 0..12usize {
            let cs = cands(&vec![300u32; n]);
            let cells = layout(&cs, 0, None, avail);
            let total: u64 = cells.iter().map(|c| c.draw_width as u64).sum();
            assert!(total <= avail as u64);
        }
    }
}

#[test]
fn layout_marks_active_and_hovered() {
    let cs = cands(&[10, 10, 10]);
    let cells = layout(&cs, 101, Some(102), 1000);
    assert_eq!(
        cells[1],
        Cell { handle: 101, draw_x: 58, draw_width: 58, is_active: true, is_hovered: false }
    );
    assert!(cells[2].is_hovered && !cells[2].is_active);
    assert!(!cells[0].is_hovered && !cells[0].is_active);
}

#[test]
fn empty_candidate_list_gives_empty_layout() {
    assert!(layout(&Vec::new(), 0, None, 500).is_empty());
}

#[test]
fn ideal_width_is_clamped() {
    assert_eq!(ideal_width(0), 48);
    assert_eq!(ideal_width(201), 249);
    assert_eq!(ideal_width(202), 250);
    assert_eq!(ideal_width(u32::MAX), 250);
}

#[test]
fn narrow_cells_skip_icon_and_text() {
    assert!(shows_icon(30));
    assert!(!shows_icon(29));
    assert_eq!(text_area(52), None);
    assert_eq!(text_area(53), Some(11));
    assert_eq!(text_area(166), Some(124));
}

#[test]
fn whole_title_kept_when_it_fits() {
    // "abc": widths of "...", "a...", "ab...", "abc..."
    let ws = vec![9, 15, 21, 27];
    assert_eq!(choose_fit(18, &ws, 18), Fit::Whole);
    assert_eq!(shorten_to_fit("abc", 18, &ws, 18), "abc");
}

#[test]
fn title_shortened_to_longest_fitting_prefix() {
    let ws = vec![9, 15, 21, 27];
    assert_eq!(choose_fit(18, &ws, 17), Fit::Prefix(1));
    assert_eq!(shorten_to_fit("abc", 18, &ws, 17), "a...");
    assert_eq!(shorten_to_fit("abc", 25, &ws, 21), "ab...");
}

#[test]
fn bare_ellipsis_or_nothing() {
    let ws = vec![9, 15, 21, 27];
    assert_eq!(shorten_to_fit("abc", 18, &ws, 10), "...");
    assert_eq!(shorten_to_fit("abc", 18, &ws, 8), "");
    assert_eq!(choose_fit(18, &ws, 8), Fit::Nothing);
}

#[test]
fn shortened_titles_never_exceed_width() {
    let ws = vec![9, 15, 21, 27, 33, 38];
    for max in 0..60u32 {
        let fit = choose_fit(35, &ws, max);
        let w = match fit {
            Fit::Whole => 35,
            Fit::Prefix(k) => ws[k],
            Fit::Ellipsis => ws[0],
            Fit::Nothing => 0,
        };
        assert!(w <= max);
        assert_eq!(fit == Fit::Whole, 35 <= max);
    }
}

#[test]
fn fit_keeps_whole_characters() {
    assert_eq!(apply_fit("héllo", Fit::Prefix(2)), "hé...");
    assert_eq!(apply_fit("héllo", Fit::Whole), "héllo");
    assert_eq!(apply_fit("héllo", Fit::Nothing), "");
}

#[test]
fn raster_starts_as_background() {
    let r = new_raster(3, 2, 0x112233);
    assert_eq!(r.len(), 24);
    assert_eq!(&r[0..4], &[0x33, 0x22, 0x11, 0xff]);
    assert_eq!(&r[20..24], &[0x33, 0x22, 0x11, 0xff]);
}

#[test]
fn coverage_blends_against_background() {
    let mut r = new_raster(2, 2, 0x000000);
    blend_coverage(&mut r, 2, 2, 1, 1, 256, 0xffffff);
    assert_eq!(&r[12..16], &[0xff, 0xff, 0xff, 0xff]);
    blend_coverage(&mut r, 2, 2, 0, 0, 128, 0xc86400);
    // blue 0, green 0x64 * 128 / 256, red 0xc8 * 128 / 256
    assert_eq!(&r[0..4], &[0x00, 0x32, 0x64, 0xff]);
    let before = r.clone();
    blend_coverage(&mut r, 2, 2, 2, 0, 256, 0xffffff);
    blend_coverage(&mut r, 2, 2, -1, 0, 256, 0xffffff);
    assert_eq!(r, before);
}
