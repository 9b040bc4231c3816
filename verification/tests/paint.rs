use vwi::models::UiConfig;
use vwi::overlay_paint::{
    after_index_number, after_key_badge, empty_state_rows, shown_icon_size, title_left,
    centered_left, centered_top, checked_scrollbar_geometry, key_badge, row_center, row_top, row_visible, scrollbar_geometry,
    scrollbar_needed, Rect, ScrollbarGeometry,
};

#[test]
fn scrollbar_is_needed_only_when_capped_and_overflowing() {
    let capped = UiConfig { max_height: 200, ..UiConfig::default() };
    assert!(scrollbar_needed(&capped, 352, 200));
    assert!(!scrollbar_needed(&capped, 200, 200));
    assert!(!scrollbar_needed(&UiConfig::default(), 352, 200));
}

#[test]
fn scrollbar_geometry_values() {
    // Client 560 wide, 200 high, content 352, padding 16.
    let g = scrollbar_geometry(560, 16, 200, 352, 0);
    assert_eq!(
        g,
        ScrollbarGeometry {
            track: Rect { left: 550, top: 16, right: 556, bottom: 184 },
            thumb: Rect { left: 550, top: 16, right: 556, bottom: 16 + 95 },
        }
    );
    // Scrolled to the end: the thumb touches the bottom of the track.
    let end = scrollbar_geometry(560, 16, 200, 352, 152);
    assert_eq!(end.thumb.bottom, 184);
    let mid = scrollbar_geometry(560, 16, 200, 352, 76);
    assert_eq!(mid.thumb.top, 16 + 76 * 73 / 152);
}

#[test]
fn thumb_has_a_minimum_height() {
    let g = scrollbar_geometry(560, 16, 200, 100_000, 0);
    assert_eq!(g.thumb.bottom - g.thumb.top, 20);
}

#[test]
fn thumb_stays_in_track() {
    for offset in 0..=152 {
        let g = scrollbar_geometry(560, 16, 200, 352, offset);
        assert!(g.track.top <= g.thumb.top && g.thumb.bottom <= g.track.bottom);
    }
}

#[test]
fn rows() {
    let u = UiConfig::default();
    assert_eq!(row_top(0, &u, 0), Some(16));
    assert_eq!(row_top(3, &u, 40), Some(16 + 96 - 40));
    assert_eq!(row_visible(-31, 32, 200), Some(true));
    assert_eq!(row_visible(-32, 32, 200), Some(false));
    assert_eq!(row_visible(199, 32, 200), Some(true));
    assert_eq!(row_visible(200, 32, 200), Some(false));
    assert_eq!(row_center(16, 32), Some(32));
    assert_eq!(centered_top(32, 14), Some(25));
    assert_eq!(centered_top(32, 15), Some(25));
    assert_eq!(centered_top(-5, 3), Some(-6));
}

#[test]
fn row_geometry_overflow_is_reported() {
    let u = UiConfig::default();
    assert_eq!(row_top(100_000_000, &u, 0), None);
    assert_eq!(row_top(0, &u, i32::MIN), None);
    assert_eq!(row_visible(i32::MAX, 1, 200), None);
    assert_eq!(row_center(i32::MAX, 32), None);
    assert_eq!(centered_top(i32::MIN, 4), None);
}

#[test]
fn empty_state_text_is_centred() {
    let client = Rect { left: 0, top: 0, right: 560, bottom: 64 };
    assert_eq!(centered_left(client, 200), Some(180));
    assert_eq!(centered_left(client, 561), Some(0));
    assert_eq!(centered_left(client, 563), Some(-1));
    assert_eq!(centered_left(Rect { left: i32::MIN, top: 0, right: 1, bottom: 0 }, 0), None);
}

#[test]
fn key_badge_layout() {
    let (r, tx, ty) = key_badge(24, 32, 9, 18).unwrap();
    assert_eq!(r, Rect { left: 24, top: 19, right: 24 + 21, bottom: 19 + 26 });
    assert_eq!((tx, ty), (30, 23));
    assert_eq!(key_badge(i32::MAX - 5, 32, 9, 18), None);
}

#[test]
fn scrollbar_overflow_is_reported() {
    assert_eq!(checked_scrollbar_geometry(560, 16, 200, 352, 76), Some(scrollbar_geometry(560, 16, 200, 352, 76)));
    assert_eq!(checked_scrollbar_geometry(i32::MIN, 16, 200, 352, 0), None);
    assert_eq!(checked_scrollbar_geometry(560, 16, 100_000, 200_000, 0), None);
}

#[test]
fn empty_state_rows_around_the_middle() {
    assert_eq!(empty_state_rows(64, 32), Some((0, 32)));
    assert_eq!(empty_state_rows(65, 32), Some((0, 32)));
    assert_eq!(empty_state_rows(-3, 32), Some((-33, -1)));
    assert_eq!(empty_state_rows(0, i32::MIN), None);
}

#[test]
fn horizontal_positions() {
    assert_eq!(after_index_number(24, 20), Some(66));
    assert_eq!(after_index_number(i32::MAX, 1), None);
    assert_eq!(after_key_badge(45), Some(67));
    assert_eq!(after_key_badge(i32::MAX), None);
    assert_eq!(title_left(67, 14), Some(89));
    assert_eq!(title_left(67, 0), Some(67));
    assert_eq!(title_left(i32::MAX, 0), Some(i32::MAX));
    assert_eq!(title_left(i32::MAX, 1), None);
    assert_eq!(shown_icon_size(&UiConfig::default()), 14);
    assert_eq!(shown_icon_size(&UiConfig { icon_size: -5, ..UiConfig::default() }), 0);
}

#[test]
fn thumb_moves_from_top_to_bottom() {
    let mut last = i32::MIN;
    for offset in 0..=152 {
        let g = scrollbar_geometry(560, 16, 200, 352, offset);
        assert!(g.thumb.top >= last);
        last = g.thumb.top;
    }
    assert_eq!(scrollbar_geometry(560, 16, 200, 352, 0).thumb.top, 16);
    assert_eq!(scrollbar_geometry(560, 16, 200, 352, 152).thumb.bottom, 184);
}
