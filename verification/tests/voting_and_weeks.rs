use beadwall::actions::{
    coordinate_vote_event, image_exists, image_vote_event, new_ui_clicked_event,
    validate_coordinate_vote, VoteError,
};
use beadwall::events::{
    CoordinateVoteRequest, CoordinateVotedEvent, ImageUploadedEvent, ImageVotedEvent,
    UiClickRequest, VoteRequest, WallEvent, WeekAdvancedEvent,
};
use beadwall::log::{find_image, get_current_target, get_current_week, get_current_week_images, get_wall_tiles, EventLog};
use beadwall::voting::{
    coordinate_vote_summary, count_coordinate_votes, count_image_votes, most_voted_image,
    most_voted_plate, tally_coordinate_votes, tally_image_votes, CoordinateTally,
};
use beadwall::week::{advance_week_event, decide_week_advance, AdvanceError};

fn s(x: &str) -> String {
    x.to_string()
}

fn image(id: &str, week: u32) -> WallEvent {
    WallEvent::ImageUploaded(ImageUploadedEvent {
        event_id: s(id),
        week,
        target_x: 0,
        target_y: 0,
        filename: format!("{}.png", id),
        pixel_data: vec![7; 2700],
        uploaded_at: s("t"),
    })
}

fn image_vote(id: &str) -> WallEvent {
    WallEvent::ImageVoted(ImageVotedEvent { event_id: s("v"), image_event_id: s(id), voted_at: s("t") })
}

fn coord_vote(week: u32, x: i32, y: i32) -> WallEvent {
    WallEvent::CoordinateVoted(CoordinateVotedEvent { event_id: s("c"), week, x, y, voted_at: s("t") })
}

fn week_event(from: u32, applied: (i32, i32), winner: Option<&str>, next: (i32, i32)) -> WallEvent {
    WallEvent::WeekAdvanced(WeekAdvancedEvent {
        event_id: s("w"),
        from_week: from,
        to_week: from + 1,
        applied_x: applied.0,
        applied_y: applied.1,
        winning_image_event_id: winner.map(|w| s(w)),
        next_target_x: next.0,
        next_target_y: next.1,
        applied_at: s("t"),
    })
}

#[test]
fn coordinate_tally_counts_each_plate_once() {
    let log = EventLog::from_events(vec![
        coord_vote(1, 2, 3),
        coord_vote(1, 4, 4),
        coord_vote(2, 2, 3),
        coord_vote(1, 2, 3),
    ]);
    let t = tally_coordinate_votes(&log, 1);
    assert_eq!(t.len(), 2);
    assert_eq!((t[0].x, t[0].y, t[0].votes), (2, 3, 2));
    assert_eq!((t[1].x, t[1].y, t[1].votes), (4, 4, 1));
    assert_eq!(count_coordinate_votes(&log, 1, 2, 3), 2);
    assert_eq!(count_coordinate_votes(&log, 2, 2, 3), 1);
    assert_eq!(count_coordinate_votes(&log, 1, 9, 9), 0);
}

#[test]
fn summary_is_for_next_week_most_votes_first() {
    let log = EventLog::from_events(vec![
        coord_vote(1, 0, 0),
        coord_vote(1, 5, 5),
        coord_vote(1, 5, 5),
        coord_vote(1, 6, 6),
        coord_vote(1, 6, 6),
        coord_vote(1, 6, 6),
        coord_vote(0, 9, 9),
    ]);
    let sm = coordinate_vote_summary(&log);
    let got: Vec<(i32, i32, usize)> = sm.iter().map(|t| (t.x, t.y, t.votes)).collect();
    assert_eq!(got, vec![(6, 6, 3), (5, 5, 2), (0, 0, 1)]);
}

#[test]
fn most_voted_takes_first_of_equal() {
    let t = vec![
        CoordinateTally { x: 1, y: 1, votes: 2 },
        CoordinateTally { x: 2, y: 2, votes: 3 },
        CoordinateTally { x: 3, y: 3, votes: 3 },
    ];
    let w = most_voted_plate(&t).unwrap();
    assert_eq!((w.x, w.y), (2, 2));
    assert!(most_voted_plate(&vec![]).is_none());
}

#[test]
fn image_tally_only_counts_designs_of_the_week() {
    let log = EventLog::from_events(vec![
        image("old", 0),
        image("a", 1),
        image("b", 1),
        image_vote("old"),
        image_vote("b"),
        image_vote("a"),
        image_vote("b"),
        image_vote("ghost"),
    ]);
    let t = tally_image_votes(&log, 1);
    let got: Vec<(String, usize)> = t.iter().map(|e| (e.image_id.clone(), e.votes)).collect();
    assert_eq!(got, vec![(s("b"), 2), (s("a"), 1)]);
    assert_eq!(most_voted_image(&t), Some(s("b")));
    assert_eq!(count_image_votes(&log, &s("old")), 1);
    assert_eq!(count_image_votes(&log, &s("ghost")), 1);
}

#[test]
fn first_week_needs_a_plate_vote() {
    let log = EventLog::new();
    assert!(matches!(decide_week_advance(&log), Err(AdvanceError::NoCoordinateVotes)));
    let log = EventLog::from_events(vec![coord_vote(0, 1, 1)]);
    // votes for the current week do not count: only next week's
    assert!(matches!(decide_week_advance(&log), Err(AdvanceError::NoCoordinateVotes)));
}

#[test]
fn first_week_sets_a_target_and_applies_nothing() {
    let log = EventLog::from_events(vec![coord_vote(1, 4, 2), coord_vote(1, 4, 2), coord_vote(1, 3, 3)]);
    let o = decide_week_advance(&log).ok().unwrap();
    assert_eq!((o.from_week, o.to_week), (0, 1));
    assert_eq!((o.applied_x, o.applied_y), (-1, -1));
    assert_eq!(o.winning_image_event_id, None);
    assert_eq!((o.next_target_x, o.next_target_y), (4, 2));
}

#[test]
fn week_advance_places_winner_and_moves_on() {
    let mut log = EventLog::from_events(vec![
        coord_vote(1, 4, 2),
        week_event(0, (-1, -1), None, (4, 2)),
        image("a", 1),
        image("b", 1),
        image_vote("a"),
        image_vote("b"),
        image_vote("b"),
        coord_vote(2, 10, 11),
    ]);
    let e = advance_week_event(&log).ok().unwrap();
    assert_eq!((e.from_week, e.to_week), (1, 2));
    assert_eq!((e.applied_x, e.applied_y), (4, 2));
    assert_eq!(e.winning_image_event_id, Some(s("b")));
    assert_eq!((e.next_target_x, e.next_target_y), (10, 11));
    assert_eq!(e.event_id.len(), 36);
    log.append(WallEvent::WeekAdvanced(e));
    assert_eq!(get_current_week(&log), 2);
    assert_eq!(get_current_target(&log), Some((10, 11)));
    assert_eq!(get_wall_tiles(&log).tile(4, 2).unwrap(), &vec![7u8; 2700]);
}

#[test]
fn coordinate_votes_are_checked_and_for_next_week() {
    assert_eq!(validate_coordinate_vote(&CoordinateVoteRequest { x: 27, y: 0 }), Err(VoteError::CoordinateOutOfBounds));
    assert_eq!(validate_coordinate_vote(&CoordinateVoteRequest { x: 0, y: 12 }), Err(VoteError::CoordinateOutOfBounds));
    assert_eq!(validate_coordinate_vote(&CoordinateVoteRequest { x: 26, y: 11 }), Ok((26, 11)));
    let mut log = EventLog::from_events(vec![week_event(0, (-1, -1), None, (1, 1))]);
    let e = coordinate_vote_event(&log, &CoordinateVoteRequest { x: 3, y: 4 }).ok().unwrap();
    assert_eq!((e.week, e.x, e.y), (2, 3, 4));
    let before = count_coordinate_votes(&log, 2, 3, 4);
    log.append(WallEvent::CoordinateVoted(e));
    assert_eq!(count_coordinate_votes(&log, 2, 3, 4), before + 1);
}

#[test]
fn image_votes_need_an_existing_design() {
    let mut log = EventLog::from_events(vec![image("a", 0)]);
    assert!(image_exists(&log, &s("a")));
    assert!(!image_exists(&log, &s("b")));
    assert!(matches!(image_vote_event(&log, &VoteRequest { image_id: s("b") }), Err(VoteError::ImageNotFound)));
    let e = image_vote_event(&log, &VoteRequest { image_id: s("a") }).ok().unwrap();
    assert_eq!(e.image_event_id, "a");
    log.append(WallEvent::ImageVoted(e));
    assert_eq!(count_image_votes(&log, &s("a")), 1);
}

#[test]
fn ui_clicks_are_recorded_as_sent() {
    let e = new_ui_clicked_event(&UiClickRequest { click_type: s("cell"), x: Some(3), y: None, target: Some(s("wall")) });
    assert_eq!(e.click_type, "cell");
    assert_eq!((e.x, e.y), (Some(3), None));
    assert_eq!(e.target, Some(s("wall")));
    assert_eq!(e.event_id.len(), 36);
    assert!(e.clicked_at.len() >= 25);
    assert!(e.clicked_at.ends_with("+00:00"));
}

#[test]
fn an_upload_is_listed_last_and_found_by_id() {

    let mut log = EventLog::from_events(vec![image("a", 1), image("b", 2)]);
    log.append(image("c", 1));
    let imgs = get_current_week_images(&log, 1);
    let ids: Vec<&str> = imgs.iter().map(|e| e.event_id.as_str()).collect();
    assert_eq!(ids, vec!["a", "c"]);
    assert_eq!(find_image(&log, &s("c")).unwrap().week, 1);
}

#[test]
fn votes_and_clicks_leave_the_wall_alone() {
    let mut log = EventLog::from_events(vec![
        image("a", 1),
        week_event(0, (5, 5), Some("a"), (1, 1)),
    ]);
    let before = get_wall_tiles(&log);
    log.append(coord_vote(2, 3, 3));
    log.append(image_vote("a"));
    log.append(WallEvent::UiClicked(new_ui_clicked_event(&UiClickRequest {
        click_type: s("cell"),
        x: None,
        y: None,
        target: None,
    })));
    log.append(WallEvent::Unrecognized);
    let after = get_wall_tiles(&log);
    for y in 0..12 {
        for x in 0..27 {
            assert_eq!(before.tile(x, y), after.tile(x, y));
        }
    }
    assert_eq!(after.tile(5, 5).unwrap(), &vec![7u8; 2700]);
}
