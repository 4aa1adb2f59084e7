use beadwall::events::{ImageUploadedEvent, ImageVotedEvent, WallEvent, WeekAdvancedEvent};
use beadwall::log::EventLog;
use beadwall::views::{
    check_previews_drawable, checked_png_data_url, current_image_listing, image_listing, png_data_url,
    render_wall_preview, render_wall_preview_for_week, wall_stats, week_history,
};
use beadwall::wall::{get_cached_wall_path, get_default_tile_pattern, TOTAL_HEIGHT, TOTAL_WIDTH};

fn s(x: &str) -> String {
    x.to_string()
}

fn image(id: &str, week: u32, len: usize) -> WallEvent {
    WallEvent::ImageUploaded(ImageUploadedEvent {
        event_id: s(id),
        week,
        target_x: 2,
        target_y: 3,
        filename: format!("{}.bmp", id),
        pixel_data: vec![0; len],
        uploaded_at: s("when"),
    })
}

fn week_event(from: u32, applied: (i32, i32), winner: Option<&str>, next: (i32, i32)) -> WallEvent {
    WallEvent::WeekAdvanced(WeekAdvancedEvent {
        event_id: s("w"),
        from_week: from,
        to_week: from + 1,
        applied_x: applied.0,
        applied_y: applied.1,
        winning_image_event_id: winner.map(|w| s(w)),
        next_target_x: next.0,
        next_target_y: next.1,
        applied_at: s("at"),
    })
}

#[test]
fn wall_dimensions() {
    assert_eq!(TOTAL_WIDTH, 810);
    assert_eq!(TOTAL_HEIGHT, 360);
}

#[test]
fn rendered_wall_draws_plates_row_by_row() {
    let mut wall = get_default_tile_pattern();
    let px = wall.render_pixels();
    assert_eq!(px.len(), 810 * 360 * 3);
    assert!(px.iter().all(|b| *b == 255));
    // a plate of distinct rows at (1, 1): row r of the plate is all r
    let mut design = Vec::new();
    for r in 0..30u8 {
        design.extend(std::iter::repeat(r).take(90));
    }
    wall.place(1, 1, &design);
    let px = wall.render_pixels();
    // bead (30, 30) is row 0 of plate (1, 1); bead (59, 45) is row 15
    let o = (30 * 810 + 30) * 3;
    assert_eq!(&px[o..o + 3], &[0, 0, 0]);
    let o = (45 * 810 + 59) * 3;
    assert_eq!(&px[o..o + 3], &[15, 15, 15]);
    // bead (60, 30) is on plate (2, 1): white
    let o = (30 * 810 + 60) * 3;
    assert_eq!(&px[o..o + 3], &[255, 255, 255]);
}

#[test]
fn short_designs_leave_missing_rows_white() {
    let log = EventLog::from_events(vec![
        image("half", 1, 90 * 15),
        week_event(0, (-1, -1), None, (0, 0)),
        week_event(1, (0, 0), Some("half"), (1, 1)),
    ]);
    let wall = beadwall::log::get_wall_tiles(&log);
    let px = wall.render_pixels();
    // row 0 of plate (0,0) comes from the design (all zero)
    assert_eq!(&px[0..3], &[0, 0, 0]);
    // row 20 of plate (0,0) is past the design's data: white
    let o = 20 * 810 * 3;
    assert_eq!(&px[o..o + 3], &[255, 255, 255]);
}

#[test]
fn wall_png_is_a_png() {
    let log = EventLog::new();
    let png = render_wall_preview(&log).unwrap();
    assert_eq!(&png[0..8], &[137, 80, 78, 71, 13, 10, 26, 10]);
    let png0 = render_wall_preview_for_week(&log, 0).unwrap();
    assert_eq!(png, png0);
}

#[test]
fn data_url_is_base64_of_bytes() {
    assert_eq!(png_data_url(&[]), "data:image/png;base64,");
    assert_eq!(png_data_url(b"Man"), "data:image/png;base64,TWFu");
    assert_eq!(png_data_url(b"Ma"), "data:image/png;base64,TWE=");
    assert_eq!(png_data_url(&[0xff, 0xfe, 0x00, 0x3e]), "data:image/png;base64,//4APg==");
    assert_eq!(checked_png_data_url(b"M"), Some(s("data:image/png;base64,TQ==")));
}

#[test]
fn listing_counts_votes_and_draws_previews() {
    let log = EventLog::from_events(vec![
        image("a", 0, 2700),
        image("b", 1, 2700),
        image("c", 0, 0),
        WallEvent::ImageVoted(ImageVotedEvent { event_id: s("v"), image_event_id: s("a"), voted_at: s("t") }),
        WallEvent::ImageVoted(ImageVotedEvent { event_id: s("v"), image_event_id: s("a"), voted_at: s("t") }),
    ]);
    assert!(check_previews_drawable(&log, 0));
    let l = image_listing(&log, 0);
    assert_eq!(l.len(), 2);
    assert_eq!((l[0].id.as_str(), l[0].votes, l[0].plate_x, l[0].plate_y), ("a", 2, 2, 3));
    assert_eq!(l[0].filename, "a.bmp");
    assert_eq!(&l[0].preview_png[1..4], b"PNG");
    assert_eq!((l[1].id.as_str(), l[1].votes), ("c", 0));
    assert!(l[1].preview_png.is_empty());
}

#[test]
fn current_listing_is_the_listing_of_the_current_week() {
    let log = EventLog::from_events(vec![
        image("a", 0, 2700),
        week_event(0, (-1, -1), None, (1, 1)),
        image("b", 1, 2700),
        image("c", 1, 2700),
    ]);
    let now = current_image_listing(&log);
    let week1 = image_listing(&log, 1);
    assert_eq!(now.len(), 2);
    assert_eq!((now[0].id.as_str(), now[1].id.as_str()), ("b", "c"));
    assert_eq!(now.len(), week1.len());
    for (x, y) in now.iter().zip(week1.iter()) {
        assert_eq!(x.id, y.id);
        assert_eq!(x.votes, y.votes);
        assert_eq!(x.preview_png, y.preview_png);
    }
}

#[test]
fn short_designs_cannot_be_previewed() {
    let log = EventLog::from_events(vec![image("a", 0, 10)]);
    assert!(!check_previews_drawable(&log, 0));
}

#[test]
fn history_lists_every_week() {
    let log = EventLog::from_events(vec![
        week_event(0, (-1, -1), None, (1, 1)),
        image("a", 1, 2700),
        week_event(1, (1, 1), Some("a"), (2, 2)),
        week_event(2, (2, 2), Some("gone"), (3, 3)),
    ]);
    let h = week_history(&log);
    assert_eq!(h.len(), 3);
    assert_eq!((h[0].week, h[0].target_x, h[0].applied), (1, 1, None));
    assert_eq!(h[1].applied, Some((1, 1)));
    assert_eq!(h[1].winning_image_filename, Some(s("a.bmp")));
    assert_eq!(h[2].winning_image_id, Some(s("gone")));
    assert_eq!(h[2].winning_image_filename, None);
    assert_eq!(h[2].applied_at, "at");
}

#[test]
fn stats_count_votes_and_designs() {
    let log = EventLog::from_events(vec![
        week_event(0, (-1, -1), None, (1, 1)),
        image("a", 1, 2700),
        image("b", 0, 2700),
        WallEvent::ImageVoted(ImageVotedEvent { event_id: s("v"), image_event_id: s("b"), voted_at: s("t") }),
    ]);
    let st = wall_stats(&log);
    assert_eq!(st.week, 1);
    assert_eq!(st.current_target, Some((1, 1)));
    assert_eq!(st.total_image_votes, 1);
    assert_eq!(st.total_coordinate_votes, 0);
    assert_eq!(st.total_images, 1);
}

#[test]
fn cache_path() {
    assert_eq!(get_cached_wall_path(), "./cache/wall.png");
}
