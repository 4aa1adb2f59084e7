//! The end of a week: deciding the winning plate and design, and what the
//! end-of-week event does to the state of the wall.
use vstd::prelude::*;
use crate::events::{WeekAdvancedEvent, WallEventView, opt_text};
use crate::log::{EventLog, current_week, current_target, coordinate_votes_for_week, image_votes,
    get_current_week, get_current_target};
use crate::voting::{
    coordinate_vote_count, image_vote_count, is_week_image, count_coord, count_image,
    has_plate, has_image, tally_coordinate_votes,
    tally_image_votes, most_voted_plate, most_voted_image, lemma_most_voted_plate_wins,
    lemma_count_image_witness, ImageTally,
};
use crate::codec::{new_event_id, now_rfc3339, is_utc_timestamp};

verus! {

/// The plate the closing week's design goes on: the current target, or
/// `(-1, -1)` when there is none.
pub open spec fn applied_plate(log: Seq<WallEventView>) -> (i32, i32) {
    match current_target(log) {
        Some(t) => t,
        None => (-1i32, -1i32),
    }
}

/// Plate `(x, y)` has votes for week `week` and no plate has more.
pub open spec fn is_winning_plate(log: Seq<WallEventView>, week: u32, x: i32, y: i32) -> bool {
    &&& coordinate_vote_count(log, week, x, y) >= 1
    &&& forall|a: i32, b: i32|
        #[trigger] coordinate_vote_count(log, week, a, b) <= coordinate_vote_count(log, week, x, y)
}

/// `winner` is a design of week `week` with votes and no design of that
/// week has more; `None` when no design of that week has a vote.
pub open spec fn is_winning_image(log: Seq<WallEventView>, week: u32, winner: Option<Seq<char>>) -> bool {
    match winner {
        None => forall|id: Seq<char>| is_week_image(log, week, id) ==> #[trigger] image_vote_count(log, id) == 0,
        Some(w) => {
            &&& is_week_image(log, week, w)
            &&& image_vote_count(log, w) >= 1
            &&& forall|id: Seq<char>|
                is_week_image(log, week, id) ==> #[trigger] image_vote_count(log, id) <= image_vote_count(
                    log,
                    w,
                )
        },
    }
}

/// Whether an end of week with these fields is what the history `log`
/// decides: the week moves on by one, the design goes on the current
/// target, and the winners are as above.
pub open spec fn is_decided_advance(
    log: Seq<WallEventView>,
    from_week: u32,
    to_week: u32,
    applied: (i32, i32),
    winner: Option<Seq<char>>,
    next_target: (i32, i32),
) -> bool {
    &&& from_week == current_week(log)
    &&& to_week == current_week(log) + 1
    &&& applied == applied_plate(log)
    &&& is_winning_plate(log, to_week, next_target.0, next_target.1)
    &&& is_winning_image(log, from_week, winner)
}

/// The decisions made at the end of a week.
pub struct WeekOutcome {
    pub from_week: u32,
    pub to_week: u32,
    pub applied_x: i32,
    pub applied_y: i32,
    pub winning_image_event_id: Option<String>,
    pub next_target_x: i32,
    pub next_target_y: i32,
}

/// Why a week cannot end.
#[derive(Clone, Copy, Debug, PartialEq, Eq)]
pub enum AdvanceError {
    /// Nobody has voted for a plate to replace next week.
    NoCoordinateVotes,
}

/// Decides the end of the current week: the plate with the most votes for
/// next week becomes the target, and the design of this week with the most
/// votes (if any has votes) goes on the current target.  Among plates, or
/// designs, with equal votes the one voted for first wins.
pub fn decide_week_advance(log: &EventLog) -> (r: Result<WeekOutcome, AdvanceError>)
    requires
        current_week(log@) < u32::MAX,
    ensures
        r is Err <==> coordinate_votes_for_week(log@, (current_week(log@) + 1) as u32).len() == 0,
        r matches Ok(o) ==> is_decided_advance(
            log@,
            o.from_week,
            o.to_week,
            (o.applied_x, o.applied_y),
            opt_text(o.winning_image_event_id),
            (o.next_target_x, o.next_target_y),
        ),
{
    let current = get_current_week(log);
    let next_week = current + 1;
    let target = get_current_target(log);
    let plates = tally_coordinate_votes(log, next_week);
    let ghost vs = coordinate_votes_for_week(log@, next_week);
    let winner = match most_voted_plate(&plates) {
        Some(w) => w,
        None => {
            proof {
                if vs.len() > 0 {
                    assert(has_plate(plates@, vs[0].x, vs[0].y));
                }
            }
            return Err(AdvanceError::NoCoordinateVotes);
        },
    };
    proof {
        let k = choose|k: int|
            0 <= k < plates.len() && plates@[k] == winner && forall|q: int|
                0 <= q < k ==> (#[trigger] plates@[q]).votes < winner.votes;
        assert(plates@[k].votes == count_coord(vs, winner.x, winner.y));
        assert forall|a: i32, b: i32|
            #[trigger] coordinate_vote_count(log@, next_week, a, b) <= coordinate_vote_count(
                log@,
                next_week,
                winner.x,
                winner.y,
            ) by {
            lemma_most_voted_plate_wins(plates@, vs, winner, a, b);
        }
    }
    let images = tally_image_votes(log, current);
    let winning_image = most_voted_image(&images);
    proof {
        let tv = images@.map_values(|e: ImageTally| e@);
        let ivs = image_votes(log@);
        match &winning_image {
            None => {
                assert forall|id: Seq<char>| is_week_image(log@, current, id) implies #[trigger] image_vote_count(
                    log@,
                    id,
                ) == 0 by {
                    if count_image(ivs, id) > 0 {
                        lemma_count_image_witness(ivs, id);
                        let j = choose|j: int| 0 <= j < ivs.len() && (#[trigger] ivs[j]).image_event_id == id;
                        assert(has_image(tv, ivs[j].image_event_id));
                    }
                }
            },
            Some(w) => {
                let k = choose|k: int|
                    0 <= k < images.len() && images@[k].image_id@ == w@ && (forall|q: int|
                        0 <= q < images.len() ==> (#[trigger] images@[q]).votes <= images@[k].votes) && (
                    forall|q: int| 0 <= q < k ==> (#[trigger] images@[q]).votes < images@[k].votes);
                assert(tv[k] == images@[k]@);
                assert forall|id: Seq<char>| is_week_image(log@, current, id) implies #[trigger] image_vote_count(
                    log@,
                    id,
                ) <= image_vote_count(log@, w@) by {
                    if count_image(ivs, id) > 0 {
                        lemma_count_image_witness(ivs, id);
                        let j = choose|j: int| 0 <= j < ivs.len() && (#[trigger] ivs[j]).image_event_id == id;
                        assert(has_image(tv, ivs[j].image_event_id));
                        let q = choose|q: int| 0 <= q < tv.len() && (#[trigger] tv[q]).0 == id;
                        assert(tv[q] == images@[q]@);
                    }
                }
            },
        }
    }
    let (applied_x, applied_y) = match target {
        Some(t) => t,
        None => (-1, -1),
    };
    Ok(
        WeekOutcome {
            from_week: current,
            to_week: next_week,
            applied_x,
            applied_y,
            winning_image_event_id: winning_image,
            next_target_x: winner.x,
            next_target_y: winner.y,
        },
    )
}

/// The end-of-week event for the current week, with a fresh event id and
/// the current time.
pub fn advance_week_event(log: &EventLog) -> (r: Result<WeekAdvancedEvent, AdvanceError>)
    requires
        current_week(log@) < u32::MAX,
    ensures
        r is Err <==> coordinate_votes_for_week(log@, (current_week(log@) + 1) as u32).len() == 0,
        r matches Ok(e) ==> is_decided_advance(
            log@,
            e.from_week,
            e.to_week,
            (e.applied_x, e.applied_y),
            opt_text(e.winning_image_event_id),
            (e.next_target_x, e.next_target_y),
        ),
        r matches Ok(e) ==> e@.event_id.len() == 36 && is_utc_timestamp(e@.applied_at),
{
    let o = decide_week_advance(log)?;
    Ok(
        WeekAdvancedEvent {
            event_id: new_event_id(),
            from_week: o.from_week,
            to_week: o.to_week,
            applied_x: o.applied_x,
            applied_y: o.applied_y,
            winning_image_event_id: o.winning_image_event_id,
            next_target_x: o.next_target_x,
            next_target_y: o.next_target_y,
            applied_at: now_rfc3339(),
        },
    )
}

} // verus!
