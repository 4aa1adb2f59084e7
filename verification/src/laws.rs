//! Properties of the wall's history that hold across operations.
use vstd::prelude::*;
use crate::events::{WallEventView, WeekAdvancedView, ImageUploadedView};
use crate::log::{
    current_week, current_target, current_wall, wall_for_week, replay_walls, image_with_id,
    apply_week, coordinate_votes_for_week, image_votes, images_for_week, week_events,
    latest_week_advanced,
};
use crate::wall::{default_wall, in_grid, plate_index, solid_tile, rendered_wall, channel};
use crate::upload::{all_approved, pixel_at, absorbed, quantized, has_extension, bmp_ext, UploadView};
use crate::palette::{palette, is_approved, nearest_approved};
use crate::bmp::parsed_bmp;
use crate::codec::rgb8_decoding;
use crate::views::{WeekHistoryEntry, is_week_history};
use vstd::arithmetic::div_mod::{lemma_fundamental_div_mod_converse, lemma_fundamental_div_mod};
use crate::voting::{coordinate_vote_count, image_vote_count};
use crate::week::{is_decided_advance, is_winning_plate};

verus! {

/// Before anything has happened the wall is in week 0, has no target
/// plate, and shows the opening pattern.
pub proof fn lemma_empty_history()
    ensures
        current_week(Seq::<WallEventView>::empty()) == 0,
        current_target(Seq::<WallEventView>::empty()) is None,
        current_wall(Seq::<WallEventView>::empty()) == default_wall(),
{
}

/// An end-of-week event decides the week and the target plate.
pub proof fn lemma_week_event_sets_week(log: Seq<WallEventView>, e: WeekAdvancedView)
    ensures
        current_week(log.push(WallEventView::WeekAdvanced(e))) == e.to_week,
        current_target(log.push(WallEventView::WeekAdvanced(e))) == Some(
            (e.next_target_x, e.next_target_y),
        ),
{
    assert(log.push(WallEventView::WeekAdvanced(e)).drop_last() =~= log);
}

/// Any other event leaves the week and the target plate as they were.
pub proof fn lemma_other_events_keep_week(log: Seq<WallEventView>, ev: WallEventView)
    requires
        !(ev is WeekAdvanced),
    ensures
        current_week(log.push(ev)) == current_week(log),
        current_target(log.push(ev)) == current_target(log),
{
    assert(log.push(ev).drop_last() =~= log);
}

/// Ending a week as decided moves the wall to the next week, and the new
/// target is a plate with the most votes for that week.
pub proof fn lemma_advance_moves_to_next_week(log: Seq<WallEventView>, e: WeekAdvancedView)
    requires
        is_decided_advance(
            log,
            e.from_week,
            e.to_week,
            (e.applied_x, e.applied_y),
            e.winning_image_event_id,
            (e.next_target_x, e.next_target_y),
        ),
    ensures
        current_week(log.push(WallEventView::WeekAdvanced(e))) == current_week(log) + 1,
        current_target(log.push(WallEventView::WeekAdvanced(e))) == Some(
            (e.next_target_x, e.next_target_y),
        ),
        is_winning_plate(
            log,
            current_week(log.push(WallEventView::WeekAdvanced(e))),
            e.next_target_x,
            e.next_target_y,
        ),
{
    lemma_week_event_sets_week(log, e);
}

proof fn lemma_image_lookup_ignores_other_events(log: Seq<WallEventView>, ev: WallEventView, id: Seq<char>)
    requires
        !(ev is ImageUploaded),
    ensures
        image_with_id(log.push(ev), id) == image_with_id(log, id),
{
    assert(log.push(ev).drop_last() =~= log);
}

proof fn lemma_replay_same_images(
    events: Seq<WallEventView>,
    images1: Seq<WallEventView>,
    images2: Seq<WallEventView>,
    limit: Option<u32>,
)
    requires
        forall|id: Seq<char>| #[trigger] image_with_id(images1, id) == image_with_id(images2, id),
    ensures
        replay_walls(events, images1, limit) == replay_walls(events, images2, limit),
    decreases events.len(),
{
    if events.len() > 0 {
        lemma_replay_same_images(events.drop_last(), images1, images2, limit);
        match events.last() {
            WallEventView::WeekAdvanced(e) => {
                match e.winning_image_event_id {
                    Some(id) => {
                        assert(image_with_id(images1, id) == image_with_id(images2, id));
                    },
                    None => {},
                }
            },
            _ => {},
        }
    }
}

/// Ending a week puts the winning design on the plate it was meant for and
/// leaves every other plate as it was: the wall afterwards is the wall
/// before with that end of week applied.
pub proof fn lemma_advance_applies_winner(log: Seq<WallEventView>, e: WeekAdvancedView)
    ensures
        current_wall(log.push(WallEventView::WeekAdvanced(e))) == apply_week(current_wall(log), e, log),
        in_grid(e.applied_x as int, e.applied_y as int) ==> match e.winning_image_event_id {
            Some(id) => match image_with_id(log, id) {
                Some(img) => current_wall(log.push(WallEventView::WeekAdvanced(e)))[plate_index(
                    e.applied_x as int,
                    e.applied_y as int,
                )] == img.pixel_data,
                None => current_wall(log.push(WallEventView::WeekAdvanced(e))) == current_wall(log),
            },
            None => current_wall(log.push(WallEventView::WeekAdvanced(e))) == current_wall(log),
        },
        !in_grid(e.applied_x as int, e.applied_y as int) ==> current_wall(
            log.push(WallEventView::WeekAdvanced(e)),
        ) == current_wall(log),
{
    let ev = WallEventView::WeekAdvanced(e);
    let new = log.push(ev);
    assert forall|id: Seq<char>| #[trigger] image_with_id(new, id) == image_with_id(log, id) by {
        lemma_image_lookup_ignores_other_events(log, ev, id);
    }
    assert(new.drop_last() =~= log);
    lemma_replay_same_images(log, new, log, None);
    lemma_replay_wall_len(log, log, None);
}

proof fn lemma_replay_wall_len(events: Seq<WallEventView>, images: Seq<WallEventView>, limit: Option<u32>)
    ensures
        replay_walls(events, images, limit).len() == 324,
    decreases events.len(),
{
    if events.len() > 0 {
        lemma_replay_wall_len(events.drop_last(), images, limit);
    }
}

/// The wall as it stands now is the wall of the latest possible week.
pub proof fn lemma_current_wall_is_last_week(log: Seq<WallEventView>)
    ensures
        current_wall(log) == wall_for_week(log, u32::MAX),
{
    lemma_replay_no_limit(log, log);
}

proof fn lemma_replay_no_limit(events: Seq<WallEventView>, images: Seq<WallEventView>)
    ensures
        replay_walls(events, images, None) == replay_walls(events, images, Some(u32::MAX)),
    decreases events.len(),
{
    if events.len() > 0 {
        lemma_replay_no_limit(events.drop_last(), images);
    }
}

/// A week's wall only reflects the weeks up to it: events after the end
/// of the history that move to a later week leave it unchanged.
pub proof fn lemma_later_weeks_do_not_change_earlier_walls(
    log: Seq<WallEventView>,
    e: WeekAdvancedView,
    week: u32,
)
    requires
        e.to_week > week,
    ensures
        wall_for_week(log.push(WallEventView::WeekAdvanced(e)), week) == wall_for_week(log, week),
{
    let ev = WallEventView::WeekAdvanced(e);
    let new = log.push(ev);
    assert forall|id: Seq<char>| #[trigger] image_with_id(new, id) == image_with_id(log, id) by {
        lemma_image_lookup_ignores_other_events(log, ev, id);
    }
    assert(new.drop_last() =~= log);
    lemma_replay_same_images(log, new, log, Some(week));
}

/// A plate vote adds one to the count of the plate and week it is for,
/// and changes no other count; other events change no plate count.
pub proof fn lemma_coordinate_vote_recorded(
    log: Seq<WallEventView>,
    ev: WallEventView,
    week: u32,
    x: i32,
    y: i32,
)
    ensures
        coordinate_vote_count(log.push(ev), week, x, y) == coordinate_vote_count(log, week, x, y)
            + match ev {
            WallEventView::CoordinateVoted(v) => if v.week == week && v.x == x && v.y == y {
                1nat
            } else {
                0nat
            },
            _ => 0nat,
        },
{
    let new = log.push(ev);
    assert(new.drop_last() =~= log);
    match ev {
        WallEventView::CoordinateVoted(v) => {
            if v.week == week {
                let vs = coordinate_votes_for_week(new, week);
                assert(vs.drop_last() =~= coordinate_votes_for_week(log, week));
            }
        },
        _ => {},
    }
}

/// A design vote adds one to the count of the design it names, and changes
/// no other count; other events change no design count.
pub proof fn lemma_image_vote_recorded(log: Seq<WallEventView>, ev: WallEventView, id: Seq<char>)
    ensures
        image_vote_count(log.push(ev), id) == image_vote_count(log, id) + match ev {
            WallEventView::ImageVoted(v) => if v.image_event_id == id {
                1nat
            } else {
                0nat
            },
            _ => 0nat,
        },
{
    let new = log.push(ev);
    assert(new.drop_last() =~= log);
    match ev {
        WallEventView::ImageVoted(v) => {
            let vs = image_votes(new);
            assert(vs.drop_last() =~= image_votes(log));
        },
        _ => {},
    }
}

/// An uploaded design is listed among the designs of its week, after those
/// uploaded before it, and is the design found under its id.
pub proof fn lemma_upload_is_listed(log: Seq<WallEventView>, img: ImageUploadedView)
    ensures
        images_for_week(log.push(WallEventView::ImageUploaded(img)), img.week) == images_for_week(
            log,
            img.week,
        ).push(img),
        image_with_id(log.push(WallEventView::ImageUploaded(img)), img.event_id) == Some(img),
{
    assert(log.push(WallEventView::ImageUploaded(img)).drop_last() =~= log);
}

/// Events other than uploads and ends of week leave every view of the wall
/// unchanged.
pub proof fn lemma_other_events_keep_wall(log: Seq<WallEventView>, ev: WallEventView, week: u32)
    requires
        !(ev is WeekAdvanced),
        !(ev is ImageUploaded),
    ensures
        current_wall(log.push(ev)) == current_wall(log),
        wall_for_week(log.push(ev), week) == wall_for_week(log, week),
{
    let new = log.push(ev);
    assert forall|id: Seq<char>| #[trigger] image_with_id(new, id) == image_with_id(log, id) by {
        lemma_image_lookup_ignores_other_events(log, ev, id);
    }
    assert(new.drop_last() =~= log);
    lemma_replay_same_images(log, new, log, None);
    lemma_replay_same_images(log, new, log, Some(week));
}

/// Every design uploaded in `log` is made only of approved colors.
pub open spec fn uploads_approved(log: Seq<WallEventView>) -> bool {
    forall|k: int|
        0 <= k < log.len() && (#[trigger] log[k]) is ImageUploaded ==> all_approved(
            log[k]->ImageUploaded_0.pixel_data,
        )
}

proof fn lemma_white_plate_approved()
    ensures
        all_approved(solid_tile(palette(0))),
{
    let t = solid_tile(palette(0));
    lemma_fundamental_div_mod_converse(2700, 3, 900, 0);
    assert forall|k: int| 0 <= k < t.len() / 3 implies is_approved(#[trigger] pixel_at(t, k)) by {
        lemma_fundamental_div_mod_converse(3 * k, 3, k, 0);
        lemma_fundamental_div_mod_converse(3 * k + 1, 3, k, 1);
        lemma_fundamental_div_mod_converse(3 * k + 2, 3, k, 2);
        assert(pixel_at(t, k) == palette(0));
    }
}

proof fn lemma_found_image_approved(log: Seq<WallEventView>, id: Seq<char>)
    requires
        uploads_approved(log),
    ensures
        image_with_id(log, id) matches Some(img) ==> all_approved(img.pixel_data),
    decreases log.len(),
{
    if log.len() > 0 {
        let rest = log.drop_last();
        assert forall|k: int| 0 <= k < rest.len() && (#[trigger] rest[k]) is ImageUploaded implies all_approved(
            rest[k]->ImageUploaded_0.pixel_data,
        ) by {
            assert(rest[k] == log[k]);
        }
        lemma_found_image_approved(rest, id);
        assert(log.last() == log[log.len() - 1]);
    }
}

proof fn lemma_replay_approved(events: Seq<WallEventView>, images: Seq<WallEventView>, limit: Option<u32>)
    requires
        uploads_approved(images),
    ensures
        replay_walls(events, images, limit).len() == 324,
        forall|p: int| 0 <= p < 324 ==> all_approved(#[trigger] replay_walls(events, images, limit)[p]),
    decreases events.len(),
{
    if events.len() == 0 {
        lemma_white_plate_approved();
    } else {
        lemma_replay_approved(events.drop_last(), images, limit);
        match events.last() {
            WallEventView::WeekAdvanced(e) => {
                match e.winning_image_event_id {
                    Some(id) => {
                        lemma_found_image_approved(images, id);
                    },
                    None => {},
                }
            },
            _ => {},
        }
    }
}

/// When every uploaded design is made of approved colors (as every design
/// accepted by `UploadState` is), the wall, now and in every week, shows
/// only approved colors.
pub proof fn lemma_wall_shows_approved_colors(log: Seq<WallEventView>, week: u32, p: int)
    requires
        uploads_approved(log),
        0 <= p < 324,
    ensures
        all_approved(current_wall(log)[p]),
        all_approved(wall_for_week(log, week)[p]),
{
    lemma_replay_approved(log, log, None);
    lemma_replay_approved(log, log, Some(week));
}

/// A week's wall reflects every end of week up to it: adding an end of
/// week that moves to a week at most `week` applies it to that week's
/// wall, just as it is applied to the current wall.
pub proof fn lemma_earlier_weeks_are_applied(log: Seq<WallEventView>, e: WeekAdvancedView, week: u32)
    requires
        e.to_week <= week,
    ensures
        wall_for_week(log.push(WallEventView::WeekAdvanced(e)), week) == apply_week(
            wall_for_week(log, week),
            e,
            log,
        ),
{
    let ev = WallEventView::WeekAdvanced(e);
    let new = log.push(ev);
    assert forall|id: Seq<char>| #[trigger] image_with_id(new, id) == image_with_id(log, id) by {
        lemma_image_lookup_ignores_other_events(log, ev, id);
    }
    assert(new.drop_last() =~= log);
    lemma_replay_same_images(log, new, log, Some(week));
}

proof fn lemma_replay_limit_reached(events: Seq<WallEventView>, images: Seq<WallEventView>, week: u32)
    requires
        forall|k: int|
            0 <= k < events.len() && (#[trigger] events[k]) is WeekAdvanced
                ==> events[k]->WeekAdvanced_0.to_week <= week,
    ensures
        replay_walls(events, images, Some(week)) == replay_walls(events, images, None),
    decreases events.len(),
{
    if events.len() > 0 {
        let rest = events.drop_last();
        assert forall|k: int|
            0 <= k < rest.len() && (#[trigger] rest[k]) is WeekAdvanced
                implies rest[k]->WeekAdvanced_0.to_week <= week by {
            assert(rest[k] == events[k]);
        }
        lemma_replay_limit_reached(rest, images, week);
        assert(events.last() == events[events.len() - 1]);
    }
}

/// Once every end of week in the history moved to a week at most `week`,
/// the wall of week `week` is the wall as it stands now.
pub proof fn lemma_week_wall_is_current_when_reached(log: Seq<WallEventView>, week: u32)
    requires
        forall|k: int|
            0 <= k < log.len() && (#[trigger] log[k]) is WeekAdvanced
                ==> log[k]->WeekAdvanced_0.to_week <= week,
    ensures
        wall_for_week(log, week) == current_wall(log),
{
    lemma_replay_limit_reached(log, log, week);
}

/// Bead `(x, y)` of the 810 x 360 wall image, channel `k`, is stored at
/// byte `(y * 810 + x) * 3 + k` and shows bead `(x % 30, y % 30)` of plate
/// `(x / 30, y / 30)`, unchanged and in place, when that plate's data holds
/// bead row `y % 30`; otherwise it is white.
pub proof fn lemma_rendered_bead(wall: Seq<Seq<u8>>, x: int, y: int, k: int)
    requires
        wall.len() == 324,
        0 <= x < 810,
        0 <= y < 360,
        0 <= k < 3,
    ensures
        rendered_wall(wall)[(y * 810 + x) * 3 + k] == if (y % 30) * 90 + 90 <= wall[plate_index(
            x / 30,
            y / 30,
        )].len() {
            wall[plate_index(x / 30, y / 30)][(y % 30) * 90 + (x % 30) * 3 + k]
        } else {
            255u8
        },
{
    let i = (y * 810 + x) * 3 + k;
    let b = 3 * x + k;
    assert(i == y * 2430 + b) by (nonlinear_arith)
        requires
            i == (y * 810 + x) * 3 + k,
            b == 3 * x + k,
    ;
    assert(0 <= y * 2430 <= 359 * 2430) by (nonlinear_arith)
        requires
            0 <= y < 360,
    ;
    lemma_fundamental_div_mod_converse(i, 2430, y, b);
    lemma_fundamental_div_mod(x, 30);
    let q = x / 30;
    let r = x % 30;
    assert(0 <= r < 30);
    assert(b == 90 * q + (3 * r + k));
    lemma_fundamental_div_mod_converse(b, 90, q, 3 * r + k);
}

/// Reading a BMP keeps what was gathered before and appends the file's
/// pixels in the order the file stores them, pixel `k` of the file moved
/// to its nearest approved color; width and height are the file's.
pub proof fn lemma_bmp_upload_keeps_pixel_order(s: UploadView, bytes: Seq<u8>, k: int, c: int)
    requires
        has_extension(s.filename, bmp_ext()),
        parsed_bmp(bytes) is Some,
        0 <= c < 3,
    ensures
        ({
            let (w, h, px) = parsed_bmp(bytes)->Some_0;
            let a = absorbed(s, bytes);
            &&& a.width == w
            &&& a.height == h
            &&& a.pixel_data.len() == s.pixel_data.len() + 3 * (px.len() / 3)
            &&& a.pixel_data.subrange(0, s.pixel_data.len() as int) == s.pixel_data
            &&& (0 <= k < px.len() / 3 ==> a.pixel_data[s.pixel_data.len() + 3 * k + c] == channel(
                nearest_approved(pixel_at(px, k)),
                c,
            ))
        }),
{
    let (w, h, px) = parsed_bmp(bytes)->Some_0;
    let a = absorbed(s, bytes);
    assert(a.pixel_data.subrange(0, s.pixel_data.len() as int) =~= s.pixel_data);
    if 0 <= k < px.len() / 3 {
        lemma_fundamental_div_mod_converse(3 * k + c, 3, k, c);
        assert((3 * k + c) < (px.len() / 3) * 3) by (nonlinear_arith)
            requires
                k < px.len() / 3,
                c < 3,
        ;
        assert(quantized(px)[3 * k + c] == channel(nearest_approved(pixel_at(px, k)), c));
    }
}

/// Reading a PNG keeps what was gathered before and appends the decoded
/// image's pixels in order, pixel `k` moved to its nearest approved color;
/// width and height are the image's.
pub proof fn lemma_png_upload_keeps_pixel_order(s: UploadView, bytes: Seq<u8>, k: int, c: int)
    requires
        !has_extension(s.filename, bmp_ext()),
        rgb8_decoding(bytes) matches Some((w, h, raw)) && raw.len() >= w * h * 3,
        0 <= c < 3,
    ensures
        ({
            let (w, h, raw) = rgb8_decoding(bytes)->Some_0;
            let a = absorbed(s, bytes);
            &&& a.width == w
            &&& a.height == h
            &&& a.pixel_data.len() == s.pixel_data.len() + 3 * (w * h)
            &&& a.pixel_data.subrange(0, s.pixel_data.len() as int) == s.pixel_data
            &&& (0 <= k < w * h ==> a.pixel_data[s.pixel_data.len() + 3 * k + c] == channel(
                nearest_approved(pixel_at(raw, k)),
                c,
            ))
        }),
{
    let (w, h, raw) = rgb8_decoding(bytes)->Some_0;
    let a = absorbed(s, bytes);
    let n: int = w * h;
    let t = raw.take(n * 3);
    assert(n >= 0) by (nonlinear_arith)
        requires
            n == w * h,
    ;
    assert(n * 3 == w * h * 3) by (nonlinear_arith)
        requires
            n == w * h,
    ;
    lemma_fundamental_div_mod_converse(n * 3, 3, n, 0);
    assert(t.len() == n * 3);
    assert(a.pixel_data.subrange(0, s.pixel_data.len() as int) =~= s.pixel_data);
    if 0 <= k < n {
        lemma_fundamental_div_mod_converse(3 * k + c, 3, k, c);
        assert(pixel_at(t, k) == pixel_at(raw, k));
        assert(quantized(t)[3 * k + c] == channel(nearest_approved(pixel_at(raw, k)), c));
    }
}

/// Only an upload for week `week` changes the designs of week `week`: any
/// other event, an end of week among them, leaves them as they were.
pub proof fn lemma_only_uploads_change_a_weeks_designs(
    log: Seq<WallEventView>,
    ev: WallEventView,
    week: u32,
)
    requires
        !(ev matches WallEventView::ImageUploaded(img) && img.week == week),
    ensures
        images_for_week(log.push(ev), week) == images_for_week(log, week),
{
    assert(log.push(ev).drop_last() =~= log);
}

/// Every design uploaded for week `week` stays among the designs of that
/// week, however the history has grown since.
pub proof fn lemma_uploads_stay_listed(log: Seq<WallEventView>, k: int, week: u32)
    requires
        0 <= k < log.len(),
        log[k] matches WallEventView::ImageUploaded(img) && img.week == week,
    ensures
        images_for_week(log, week).contains(log[k]->ImageUploaded_0),
    decreases log.len(),
{
    let img = log[k]->ImageUploaded_0;
    let rest = log.drop_last();
    if k == log.len() - 1 {
        assert(log.last() == log[k]);
        let l = images_for_week(log, week);
        assert(l[l.len() - 1] == img);
    } else {
        assert(rest[k] == log[k]);
        lemma_uploads_stay_listed(rest, k, week);
        let prev = images_for_week(rest, week);
        let j = choose|j: int| 0 <= j < prev.len() && prev[j] == img;
        let l = images_for_week(log, week);
        assert(l[j] == img);
    }
}

proof fn lemma_latest_is_last_week_event(log: Seq<WallEventView>)
    ensures
        latest_week_advanced(log) == if week_events(log).len() > 0 {
            Some(week_events(log).last())
        } else {
            None::<WeekAdvancedView>
        },
    decreases log.len(),
{
    if log.len() > 0 {
        lemma_latest_is_last_week_event(log.drop_last());
    }
}

/// The history ends with the week the wall is in now: once some week has
/// ended, the last entry shows the current week and the current target.
pub proof fn lemma_history_ends_at_current_week(r: Seq<WeekHistoryEntry>, log: Seq<WallEventView>)
    requires
        is_week_history(r, log),
        week_events(log).len() > 0,
    ensures
        r.last().week == current_week(log),
        current_target(log) == Some((r.last().target_x, r.last().target_y)),
{
    lemma_latest_is_last_week_event(log);
    assert(r.last() == r[r.len() - 1]);
}

} // verus!
