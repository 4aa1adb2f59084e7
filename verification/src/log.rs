//! The event log and what it says about the state of the wall.
use vstd::prelude::*;
use crate::events::{ImageVotedEvent, WallEvent, WallEventView, WeekAdvancedView, WeekAdvancedEvent, ImageUploadedView, ImageUploadedEvent, CoordinateVotedView, CoordinateVotedEvent, ImageVotedView};
use crate::wall::{Wall, default_wall, in_grid, plate_index, get_default_tile_pattern};

verus! {

/// The whole history of the wall, oldest event first.
pub struct EventLog {
    pub events: Vec<WallEvent>,
}

impl View for EventLog {
    type V = Seq<WallEventView>;

    open spec fn view(&self) -> Seq<WallEventView> {
        self.events@.map_values(|e: WallEvent| e@)
    }
}

impl EventLog {
    /// An empty history.
    pub fn new() -> (log: EventLog)
        ensures
            log@ == Seq::<WallEventView>::empty(),
    {
        let log = EventLog { events: Vec::new() };
        proof {
            assert(log@ =~= Seq::<WallEventView>::empty());
        }
        log
    }

    /// A history made of `events`, in order.
    pub fn from_events(events: Vec<WallEvent>) -> (log: EventLog)
        ensures
            log@ == events@.map_values(|e: WallEvent| e@),
    {
        EventLog { events }
    }

    /// Adds `event` at the end of the history.
    pub fn append(&mut self, event: WallEvent)
        ensures
            final(self)@ == old(self)@.push(event@),
    {
        self.events.push(event);
        proof {
            assert(self@ =~= old(self)@.push(event@));
        }
    }

    /// Number of events.
    pub fn len(&self) -> (n: usize)
        ensures
            n == self@.len(),
    {
        self.events.len()
    }
}

/// The most recent end-of-week event, if any.
pub open spec fn latest_week_advanced(log: Seq<WallEventView>) -> Option<WeekAdvancedView>
    decreases log.len(),
{
    if log.len() == 0 {
        None
    } else {
        match log.last() {
            WallEventView::WeekAdvanced(e) => Some(e),
            _ => latest_week_advanced(log.drop_last()),
        }
    }
}

/// The week the wall is in: the week the latest end-of-week event moved
/// to, or 0 before the first.
pub open spec fn current_week(log: Seq<WallEventView>) -> u32 {
    match latest_week_advanced(log) {
        Some(e) => e.to_week,
        None => 0,
    }
}

/// The plate being designed for this week, chosen by the latest end-of-week
/// event; `None` before the first.
pub open spec fn current_target(log: Seq<WallEventView>) -> Option<(i32, i32)> {
    match latest_week_advanced(log) {
        Some(e) => Some((e.next_target_x, e.next_target_y)),
        None => None,
    }
}

/// The designs uploaded in week `week`, oldest first.
pub open spec fn images_for_week(log: Seq<WallEventView>, week: u32) -> Seq<ImageUploadedView>
    decreases log.len(),
{
    if log.len() == 0 {
        Seq::empty()
    } else {
        let rest = images_for_week(log.drop_last(), week);
        match log.last() {
            WallEventView::ImageUploaded(e) => if e.week == week {
                rest.push(e)
            } else {
                rest
            },
            _ => rest,
        }
    }
}

/// All uploaded designs, oldest first.
pub open spec fn all_images(log: Seq<WallEventView>) -> Seq<ImageUploadedView>
    decreases log.len(),
{
    if log.len() == 0 {
        Seq::empty()
    } else {
        let rest = all_images(log.drop_last());
        match log.last() {
            WallEventView::ImageUploaded(e) => rest.push(e),
            _ => rest,
        }
    }
}

/// The plate votes cast for week `week`, oldest first.
pub open spec fn coordinate_votes_for_week(log: Seq<WallEventView>, week: u32) -> Seq<
    CoordinateVotedView,
>
    decreases log.len(),
{
    if log.len() == 0 {
        Seq::empty()
    } else {
        let rest = coordinate_votes_for_week(log.drop_last(), week);
        match log.last() {
            WallEventView::CoordinateVoted(e) => if e.week == week {
                rest.push(e)
            } else {
                rest
            },
            _ => rest,
        }
    }
}

/// All design votes, oldest first.
pub open spec fn image_votes(log: Seq<WallEventView>) -> Seq<ImageVotedView>
    decreases log.len(),
{
    if log.len() == 0 {
        Seq::empty()
    } else {
        let rest = image_votes(log.drop_last());
        match log.last() {
            WallEventView::ImageVoted(e) => rest.push(e),
            _ => rest,
        }
    }
}

/// All end-of-week events, oldest first.
pub open spec fn week_events(log: Seq<WallEventView>) -> Seq<WeekAdvancedView>
    decreases log.len(),
{
    if log.len() == 0 {
        Seq::empty()
    } else {
        let rest = week_events(log.drop_last());
        match log.last() {
            WallEventView::WeekAdvanced(e) => rest.push(e),
            _ => rest,
        }
    }
}

/// The design with event id `id`; when several share it, the latest.
pub open spec fn image_with_id(log: Seq<WallEventView>, id: Seq<char>) -> Option<ImageUploadedView>
    decreases log.len(),
{
    if log.len() == 0 {
        None
    } else {
        match log.last() {
            WallEventView::ImageUploaded(e) => if e.event_id == id {
                Some(e)
            } else {
                image_with_id(log.drop_last(), id)
            },
            _ => image_with_id(log.drop_last(), id),
        }
    }
}

/// The wall after the end of week `e`: when `e` applied to a plate on the
/// wall and its winning design is among `images`, that plate now holds the
/// design's pixels.
pub open spec fn apply_week(wall: Seq<Seq<u8>>, e: WeekAdvancedView, images: Seq<WallEventView>) -> Seq<
    Seq<u8>,
> {
    if in_grid(e.applied_x as int, e.applied_y as int) {
        match e.winning_image_event_id {
            Some(id) => match image_with_id(images, id) {
                Some(img) => wall.update(
                    plate_index(e.applied_x as int, e.applied_y as int),
                    img.pixel_data,
                ),
                None => wall,
            },
            None => wall,
        }
    } else {
        wall
    }
}

/// Whether end-of-week event `e` is within `limit` (no limit: all are).
pub open spec fn within_limit(e: WeekAdvancedView, limit: Option<u32>) -> bool {
    match limit {
        Some(w) => e.to_week <= w,
        None => true,
    }
}

/// The opening pattern with every end-of-week event of `events` within
/// `limit` applied in order, designs looked up in `images`.
pub open spec fn replay_walls(
    events: Seq<WallEventView>,
    images: Seq<WallEventView>,
    limit: Option<u32>,
) -> Seq<Seq<u8>>
    decreases events.len(),
{
    if events.len() == 0 {
        default_wall()
    } else {
        let before = replay_walls(events.drop_last(), images, limit);
        match events.last() {
            WallEventView::WeekAdvanced(e) => if within_limit(e, limit) {
                apply_week(before, e, images)
            } else {
                before
            },
            _ => before,
        }
    }
}

/// The wall as it stands now.
pub open spec fn current_wall(log: Seq<WallEventView>) -> Seq<Seq<u8>> {
    replay_walls(log, log, None)
}

/// The wall as it stood once week `week` had begun.
pub open spec fn wall_for_week(log: Seq<WallEventView>, week: u32) -> Seq<Seq<u8>> {
    replay_walls(log, log, Some(week))
}

proof fn lemma_take_step<A>(s: Seq<A>, i: int)
    requires
        0 <= i < s.len(),
    ensures
        s.take(i + 1).drop_last() == s.take(i),
        s.take(i + 1).last() == s[i],
        s.take(i + 1).len() == i + 1,
{
    assert(s.take(i + 1).drop_last() =~= s.take(i));
}

/// The latest end-of-week event of `log`.
pub fn get_latest_week_advanced(log: &EventLog) -> (res: Option<&WeekAdvancedEvent>)
    ensures
        res is Some <==> latest_week_advanced(log@) is Some,
        res matches Some(e) ==> latest_week_advanced(log@) == Some(e@),
{
    let mut i: usize = log.events.len();
    proof {
        assert(log@.take(log@.len() as int) =~= log@);
    }
    while i > 0
        invariant
            i <= log@.len(),
            log.events.len() == log@.len(),
            latest_week_advanced(log@) == latest_week_advanced(log@.take(i as int)),
        decreases i,
    {
        proof {
            lemma_take_step(log@, i - 1);
        }
        match &log.events[i - 1] {
            WallEvent::WeekAdvanced(e) => {
                return Some(e);
            },
            _ => {},
        }
        i = i - 1;
    }
    proof {
        assert(log@.take(0) =~= Seq::<WallEventView>::empty());
    }
    None
}

/// The week the wall is in (0 before the first end of week).
pub fn get_current_week(log: &EventLog) -> (week: u32)
    ensures
        week == current_week(log@),
{
    match get_latest_week_advanced(log) {
        Some(e) => e.to_week,
        None => 0,
    }
}

/// The plate being designed for this week, if one has been chosen.
pub fn get_current_target(log: &EventLog) -> (target: Option<(i32, i32)>)
    ensures
        target == current_target(log@),
{
    match get_latest_week_advanced(log) {
        Some(e) => Some((e.next_target_x, e.next_target_y)),
        None => None,
    }
}

/// The designs uploaded in week `week`, oldest first.
pub fn get_current_week_images(log: &EventLog, week: u32) -> (images: Vec<ImageUploadedEvent>)
    ensures
        images@.map_values(|e: ImageUploadedEvent| e@) == images_for_week(log@, week),
{
    let mut out: Vec<ImageUploadedEvent> = Vec::new();
    let mut i: usize = 0;
    while i < log.events.len()
        invariant
            i <= log@.len(),
            log.events.len() == log@.len(),
            out@.map_values(|e: ImageUploadedEvent| e@) == images_for_week(log@.take(i as int), week),
        decreases log@.len() - i,
    {
        proof {
            lemma_take_step(log@, i as int);
        }
        let ghost prev = out@.map_values(|e: ImageUploadedEvent| e@);
        match &log.events[i] {
            WallEvent::ImageUploaded(e) => {
                if e.week == week {
                    out.push(e.clone());
                    proof {
                        assert(out@.map_values(|e: ImageUploadedEvent| e@) =~= prev.push(e@));
                    }
                }
            },
            _ => {},
        }
        i = i + 1;
    }
    proof {
        assert(log@.take(log@.len() as int) =~= log@);
    }
    out
}

/// The plate votes cast for week `week`, oldest first.
pub fn get_coordinate_votes_for_week(log: &EventLog, week: u32) -> (votes: Vec<CoordinateVotedEvent>)
    ensures
        votes@.map_values(|e: CoordinateVotedEvent| e@) == coordinate_votes_for_week(log@, week),
{
    let mut out: Vec<CoordinateVotedEvent> = Vec::new();
    let mut i: usize = 0;
    while i < log.events.len()
        invariant
            i <= log@.len(),
            log.events.len() == log@.len(),
            out@.map_values(|e: CoordinateVotedEvent| e@) == coordinate_votes_for_week(
                log@.take(i as int),
                week,
            ),
        decreases log@.len() - i,
    {
        proof {
            lemma_take_step(log@, i as int);
        }
        let ghost prev = out@.map_values(|e: CoordinateVotedEvent| e@);
        match &log.events[i] {
            WallEvent::CoordinateVoted(e) => {
                if e.week == week {
                    out.push(e.clone());
                    proof {
                        assert(out@.map_values(|e: CoordinateVotedEvent| e@) =~= prev.push(e@));
                    }
                }
            },
            _ => {},
        }
        i = i + 1;
    }
    proof {
        assert(log@.take(log@.len() as int) =~= log@);
    }
    out
}

/// The design with event id `id` (the latest, when several share it).
pub fn find_image<'a>(log: &'a EventLog, id: &String) -> (res: Option<&'a ImageUploadedEvent>)
    ensures
        res is Some <==> image_with_id(log@, id@) is Some,
        res matches Some(e) ==> image_with_id(log@, id@) == Some(e@),
{
    let mut i: usize = log.events.len();
    proof {
        assert(log@.take(log@.len() as int) =~= log@);
    }
    while i > 0
        invariant
            i <= log@.len(),
            log.events.len() == log@.len(),
            image_with_id(log@, id@) == image_with_id(log@.take(i as int), id@),
        decreases i,
    {
        proof {
            lemma_take_step(log@, i - 1);
        }
        match &log.events[i - 1] {
            WallEvent::ImageUploaded(e) => {
                if e.event_id == *id {
                    return Some(e);
                }
            },
            _ => {},
        }
        i = i - 1;
    }
    proof {
        assert(log@.take(0) =~= Seq::<WallEventView>::empty());
    }
    None
}

fn replay_onto_default(log: &EventLog, limit: Option<u32>) -> (wall: Wall)
    ensures
        wall.well_formed(),
        wall@ == replay_walls(log@, log@, limit),
{
    let mut wall = get_default_tile_pattern();
    let mut i: usize = 0;
    while i < log.events.len()
        invariant
            i <= log@.len(),
            log.events.len() == log@.len(),
            wall@ == replay_walls(log@.take(i as int), log@, limit),
            wall.well_formed(),
        decreases log@.len() - i,
    {
        proof {
            lemma_take_step(log@, i as int);
        }
        match &log.events[i] {
            WallEvent::WeekAdvanced(e) => {
                let counts = match limit {
                    Some(w) => e.to_week <= w,
                    None => true,
                };
                if counts && e.applied_x >= 0 && e.applied_y >= 0 {
                    match &e.winning_image_event_id {
                        Some(id) => {
                            match find_image(log, id) {
                                Some(img) => {
                                    wall.place(e.applied_x, e.applied_y, &img.pixel_data);
                                },
                                None => {},
                            }
                        },
                        None => {},
                    }
                }
            },
            _ => {},
        }
        i = i + 1;
    }
    proof {
        assert(log@.take(log@.len() as int) =~= log@);
    }
    wall
}

/// The wall as it stands now: the opening pattern with every end of week
/// applied in order.
pub fn get_wall_tiles(log: &EventLog) -> (wall: Wall)
    ensures
        wall.well_formed(),
        wall@ == current_wall(log@),
{
    replay_onto_default(log, None)
}

/// The wall as it stood in week `target_week`: only the ends of week that
/// moved to a week at most `target_week` are applied.
pub fn get_wall_tiles_for_week(log: &EventLog, target_week: u32) -> (wall: Wall)
    ensures
        wall.well_formed(),
        wall@ == wall_for_week(log@, target_week),
{
    replay_onto_default(log, Some(target_week))
}

/// All design votes, oldest first.
pub fn get_image_votes(log: &EventLog) -> (votes: Vec<ImageVotedEvent>)
    ensures
        votes@.map_values(|e: ImageVotedEvent| e@) == image_votes(log@),
{
    let mut out: Vec<ImageVotedEvent> = Vec::new();
    let mut i: usize = 0;
    while i < log.events.len()
        invariant
            i <= log@.len(),
            log.events.len() == log@.len(),
            out@.map_values(|e: ImageVotedEvent| e@) == image_votes(log@.take(i as int)),
        decreases log@.len() - i,
    {
        proof {
            lemma_take_step(log@, i as int);
        }
        let ghost prev = out@.map_values(|e: ImageVotedEvent| e@);
        match &log.events[i] {
            WallEvent::ImageVoted(e) => {
                out.push(e.clone());
                proof {
                    assert(out@.map_values(|e: ImageVotedEvent| e@) =~= prev.push(e@));
                }
            },
            _ => {},
        }
        i = i + 1;
    }
    proof {
        assert(log@.take(log@.len() as int) =~= log@);
    }
    out
}

} // verus!
