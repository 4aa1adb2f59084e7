use beadwall::events::{
    CoordinateVoteRequest, CoordinateVotedEvent, ImageUploadedEvent, ImageVotedEvent,
    UiClickRequest, VoteRequest, WallEvent, WeekAdvancedEvent,
};
use beadwall::log::{
    find_image, get_coordinate_votes_for_week, get_current_target, get_current_week,
    get_current_week_images, get_latest_week_advanced, get_wall_tiles, get_wall_tiles_for_week,
    EventLog,
};
use beadwall::palette::{approved_color, color_distance_squared, find_closest_approved_color};
use beadwall::wall::{create_tile_from_color, get_default_tile_pattern};

fn s(x: &str) -> String {
    x.to_string()
}

fn image(id: &str, week: u32, fill: u8) -> WallEvent {
    WallEvent::ImageUploaded(ImageUploadedEvent {
        event_id: s(id),
        week,
        target_x: 1,
        target_y: 2,
        filename: format!("{}.bmp", id),
        pixel_data: vec![fill; 2700],
        uploaded_at: s("2024-01-01T00:00:00+00:00"),
    })
}

fn image_vote(image_id: &str) -> WallEvent {
    WallEvent::ImageVoted(ImageVotedEvent {
        event_id: s("v"),
        image_event_id: s(image_id),
        voted_at: s("t"),
    })
}

fn coord_vote(week: u32, x: i32, y: i32) -> WallEvent {
    WallEvent::CoordinateVoted(CoordinateVotedEvent {
        event_id: s("c"),
        week,
        x,
        y,
        voted_at: s("t"),
    })
}

fn week(from: u32, applied: (i32, i32), winner: Option<&str>, next: (i32, i32)) -> WallEvent {
    WallEvent::WeekAdvanced(WeekAdvancedEvent {
        event_id: s("w"),
        from_week: from,
        to_week: from + 1,
        applied_x: applied.0,
        applied_y: applied.1,
        winning_image_event_id: winner.map(|w| s(w)),
        next_target_x: next.0,
        next_target_y: next.1,
        applied_at: s("t"),
    })
}

#[test]
fn empty_history_is_week_zero_without_target() {
    let log = EventLog::new();
    assert_eq!(get_current_week(&log), 0);
    assert_eq!(get_current_target(&log), None);
    assert!(get_latest_week_advanced(&log).is_none());
}

#[test]
fn latest_week_event_decides_week_and_target() {
    let log = EventLog::from_events(vec![
        week(0, (-1, -1), None, (3, 4)),
        coord_vote(2, 5, 5),
        week(1, (3, 4), None, (7, 8)),
        WallEvent::Unrecognized,
    ]);
    assert_eq!(get_current_week(&log), 2);
    assert_eq!(get_current_target(&log), Some((7, 8)));
    assert_eq!(get_latest_week_advanced(&log).unwrap().from_week, 1);
}

#[test]
fn week_images_and_votes_are_filtered_by_week() {
    let log = EventLog::from_events(vec![
        image("a", 0, 1),
        image("b", 1, 2),
        image("c", 0, 3),
        coord_vote(1, 1, 1),
        coord_vote(2, 2, 2),
        coord_vote(1, 3, 3),
    ]);
    let imgs = get_current_week_images(&log, 0);
    assert_eq!(imgs.len(), 2);
    assert_eq!(imgs[0].event_id, "a");
    assert_eq!(imgs[1].event_id, "c");
    let votes = get_coordinate_votes_for_week(&log, 1);
    assert_eq!(votes.len(), 2);
    assert_eq!((votes[0].x, votes[1].x), (1, 3));
}

#[test]
fn find_image_takes_latest_with_id() {
    let log = EventLog::from_events(vec![image("a", 0, 1), image("a", 0, 9), image("b", 0, 2)]);
    assert_eq!(find_image(&log, &s("a")).unwrap().pixel_data[0], 9);
    assert!(find_image(&log, &s("zz")).is_none());
}

#[test]
fn closest_color_examples() {
    assert_eq!(find_closest_approved_color(250, 250, 250), (255, 255, 255));
    assert_eq!(find_closest_approved_color(10, 10, 10), (0, 0, 0));
    assert_eq!(find_closest_approved_color(250, 10, 10), (255, 0, 0));
    assert_eq!(find_closest_approved_color(140, 70, 20), (139, 69, 19));
    assert_eq!(find_closest_approved_color(255, 160, 0), (255, 165, 0));
    // every approved color is its own nearest color
    for i in 0..10 {
        let c = approved_color(i);
        assert_eq!(find_closest_approved_color(c.0, c.1, c.2), c);
    }
}

#[test]
fn color_distance_is_squared_euclidean() {
    assert_eq!(color_distance_squared(0, 0, 0, 255, 255, 255), 195075);
    assert_eq!(color_distance_squared(10, 20, 30, 13, 24, 30), 25);
}

#[test]
fn tile_from_color_fills_plate() {
    let t = create_tile_from_color(&[1, 2, 3]);
    assert_eq!(t.len(), 2700);
    assert_eq!(&t[0..6], &[1, 2, 3, 1, 2, 3]);
    assert_eq!(&t[2697..], &[1, 2, 3]);
    let w = create_tile_from_color(&[7]);
    assert!(w.iter().all(|b| *b == 255));
    let extra = create_tile_from_color(&[9, 8, 7, 6]);
    assert_eq!(&extra[0..3], &[9, 8, 7]);
}

#[test]
fn opening_wall_is_white() {
    let wall = get_default_tile_pattern();
    for y in 0..12 {
        for x in 0..27 {
            let t = wall.tile(x, y).unwrap();
            assert_eq!(t.len(), 2700);
            assert!(t.iter().all(|b| *b == 255));
        }
    }
    assert!(wall.tile(27, 0).is_none());
    assert!(wall.tile(0, -1).is_none());
}

#[test]
fn replay_applies_winning_designs() {
    let log = EventLog::from_events(vec![
        week(0, (-1, -1), None, (1, 2)),
        image("a", 1, 42),
        week(1, (1, 2), Some("a"), (3, 3)),
        image("b", 2, 77),
        week(2, (3, 3), Some("b"), (0, 0)),
    ]);
    let now = get_wall_tiles(&log);
    assert_eq!(now.tile(1, 2).unwrap()[0], 42);
    assert_eq!(now.tile(3, 3).unwrap()[0], 77);
    let week2 = get_wall_tiles_for_week(&log, 2);
    assert_eq!(week2.tile(1, 2).unwrap()[0], 42);
    // plate (3,3) is still white in week 2
    assert_eq!(&week2.tile(3, 3).unwrap()[0..3], &[255, 255, 255]);
    let week0 = get_wall_tiles_for_week(&log, 0);
    assert_eq!(&week0.tile(1, 2).unwrap()[0..3], &[255, 255, 255]);
}

#[test]
fn replay_skips_missing_or_off_wall_designs() {
    let log = EventLog::from_events(vec![
        week(0, (2, 2), Some("missing"), (1, 1)),
        image("a", 1, 5),
        week(1, (-1, -1), Some("a"), (1, 1)),
        week(2, (40, 0), Some("a"), (1, 1)),
    ]);
    let now = get_wall_tiles(&log);
    let default = get_default_tile_pattern();
    for y in 0..12 {
        for x in 0..27 {
            assert_eq!(now.tile(x, y), default.tile(x, y));
        }
    }
}

#[test]
fn request_types_are_plain_values() {
    let v = VoteRequest { image_id: s("a") };
    let c = CoordinateVoteRequest { x: 1, y: 2 };
    let u = UiClickRequest { click_type: s("cell"), x: Some(1), y: None, target: None };
    assert_eq!(v.image_id, "a");
    assert_eq!((c.x, c.y), (1, 2));
    assert_eq!(u.click_type, "cell");
}
