//! Checking members' requests and making the events that record them.
use vstd::prelude::*;
use crate::events::{
    CoordinateVoteRequest, CoordinateVotedEvent, ImageVotedEvent, UiClickRequest, UiClickedEvent,
    VoteRequest, opt_text,
};
use crate::log::{EventLog, current_week, image_with_id, get_current_week, find_image};
use crate::codec::{new_event_id, now_rfc3339, is_utc_timestamp};

verus! {

/// Why a vote is refused.
#[derive(Clone, Copy, Debug, PartialEq, Eq)]
pub enum VoteError {
    /// The plate voted for is not on the wall.
    CoordinateOutOfBounds,
    /// No design has the id voted for.
    ImageNotFound,
}

/// The plate a plate vote is for, if it is on the wall.
pub fn validate_coordinate_vote(req: &CoordinateVoteRequest) -> (r: Result<(i32, i32), VoteError>)
    ensures
        r is Ok <==> req.x < 27 && req.y < 12,
        r matches Ok(c) ==> c.0 == req.x && c.1 == req.y,
        r matches Err(e) ==> e == VoteError::CoordinateOutOfBounds,
{
    if req.x >= 27 || req.y >= 12 {
        return Err(VoteError::CoordinateOutOfBounds);
    }
    Ok((req.x as i32, req.y as i32))
}

/// A vote, cast now, for plate `(x, y)` to be replaced in week `week`.
pub fn new_coordinate_voted_event(week: u32, x: i32, y: i32) -> (e: CoordinateVotedEvent)
    ensures
        e@.week == week,
        e@.x == x,
        e@.y == y,
        e@.event_id.len() == 36,
        is_utc_timestamp(e@.voted_at),
{
    CoordinateVotedEvent { event_id: new_event_id(), week, x, y, voted_at: now_rfc3339() }
}

/// The event for a plate vote: votes are for the week after the current
/// one, and only for plates on the wall.
pub fn coordinate_vote_event(log: &EventLog, req: &CoordinateVoteRequest) -> (r: Result<
    CoordinateVotedEvent,
    VoteError,
>)
    requires
        current_week(log@) < u32::MAX,
    ensures
        r is Ok <==> req.x < 27 && req.y < 12,
        r matches Err(e) ==> e == VoteError::CoordinateOutOfBounds,
        r matches Ok(e) ==> e@.week == current_week(log@) + 1 && e@.x == req.x && e@.y == req.y
            && e@.event_id.len() == 36 && is_utc_timestamp(e@.voted_at),
{
    let (x, y) = validate_coordinate_vote(req)?;
    let next_week = get_current_week(log) + 1;
    Ok(new_coordinate_voted_event(next_week, x, y))
}

/// Whether a design with event id `id` has been uploaded.
pub fn image_exists(log: &EventLog, id: &String) -> (found: bool)
    ensures
        found == image_with_id(log@, id@) is Some,
{
    find_image(log, id).is_some()
}

/// A vote, cast now, for the design with event id `image_id`.
pub fn new_image_voted_event(image_id: &String) -> (e: ImageVotedEvent)
    ensures
        e@.image_event_id == image_id@,
        e@.event_id.len() == 36,
        is_utc_timestamp(e@.voted_at),
{
    ImageVotedEvent { event_id: new_event_id(), image_event_id: image_id.clone(), voted_at: now_rfc3339() }
}

/// The event for a design vote, refused when no design has the id.
pub fn image_vote_event(log: &EventLog, req: &VoteRequest) -> (r: Result<ImageVotedEvent, VoteError>)
    ensures
        r is Ok <==> image_with_id(log@, req.image_id@) is Some,
        r matches Err(e) ==> e == VoteError::ImageNotFound,
        r matches Ok(e) ==> e@.image_event_id == req.image_id@ && e@.event_id.len() == 36
            && is_utc_timestamp(e@.voted_at),
{
    if !image_exists(log, &req.image_id) {
        return Err(VoteError::ImageNotFound);
    }
    Ok(new_image_voted_event(&req.image_id))
}

/// The record, made now, of a click reported by the web page.
pub fn new_ui_clicked_event(req: &UiClickRequest) -> (e: UiClickedEvent)
    ensures
        e@.click_type == req.click_type@,
        e@.x == req.x,
        e@.y == req.y,
        e@.target == opt_text(req.target),
        e@.event_id.len() == 36,
        is_utc_timestamp(e@.clicked_at),
{
    let target = match &req.target {
        Some(t) => Some(t.clone()),
        None => None,
    };
    UiClickedEvent {
        event_id: new_event_id(),
        click_type: req.click_type.clone(),
        x: req.x,
        y: req.y,
        target,
        clicked_at: now_rfc3339(),
    }
}

} // verus!
