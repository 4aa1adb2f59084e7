//! The events that make up the wall's history, and the requests that
//! members send.
use vstd::prelude::*;

verus! {

/// The text of an optional string.
pub open spec fn opt_text(o: Option<String>) -> Option<Seq<char>> {
    match o {
        Some(s) => Some(s@),
        None => None,
    }
}

fn clone_opt_string(o: &Option<String>) -> (r: Option<String>)
    ensures
        opt_text(r) == opt_text(*o),
{
    match o {
        Some(s) => Some(s.clone()),
        None => None,
    }
}

/// A plate design proposed for the current target plate.
pub struct ImageUploadedEvent {
    pub event_id: String,
    pub week: u32,
    pub target_x: i32,
    pub target_y: i32,
    pub filename: String,
    pub pixel_data: Vec<u8>,
    pub uploaded_at: String,
}

/// The value of an `ImageUploadedEvent`.
pub ghost struct ImageUploadedView {
    pub event_id: Seq<char>,
    pub week: u32,
    pub target_x: i32,
    pub target_y: i32,
    pub filename: Seq<char>,
    pub pixel_data: Seq<u8>,
    pub uploaded_at: Seq<char>,
}

impl View for ImageUploadedEvent {
    type V = ImageUploadedView;

    open spec fn view(&self) -> ImageUploadedView {
        ImageUploadedView {
            event_id: self.event_id@,
            week: self.week,
            target_x: self.target_x,
            target_y: self.target_y,
            filename: self.filename@,
            pixel_data: self.pixel_data@,
            uploaded_at: self.uploaded_at@,
        }
    }
}

impl Clone for ImageUploadedEvent {
    fn clone(&self) -> (r: Self)
        ensures
            r@ == self@,
    {
        let pixel_data = self.pixel_data.clone();
        proof {
            assert(pixel_data@ =~= self.pixel_data@);
        }
        ImageUploadedEvent {
            event_id: self.event_id.clone(),
            week: self.week,
            target_x: self.target_x,
            target_y: self.target_y,
            filename: self.filename.clone(),
            pixel_data,
            uploaded_at: self.uploaded_at.clone(),
        }
    }
}

/// A vote for a proposed plate design.
pub struct ImageVotedEvent {
    pub event_id: String,
    pub image_event_id: String,
    pub voted_at: String,
}

/// The value of an `ImageVotedEvent`.
pub ghost struct ImageVotedView {
    pub event_id: Seq<char>,
    pub image_event_id: Seq<char>,
    pub voted_at: Seq<char>,
}

impl View for ImageVotedEvent {
    type V = ImageVotedView;

    open spec fn view(&self) -> ImageVotedView {
        ImageVotedView {
            event_id: self.event_id@,
            image_event_id: self.image_event_id@,
            voted_at: self.voted_at@,
        }
    }
}

impl Clone for ImageVotedEvent {
    fn clone(&self) -> (r: Self)
        ensures
            r@ == self@,
    {
        ImageVotedEvent {
            event_id: self.event_id.clone(),
            image_event_id: self.image_event_id.clone(),
            voted_at: self.voted_at.clone(),
        }
    }
}

/// A vote for the plate to replace in week `week`.
pub struct CoordinateVotedEvent {
    pub event_id: String,
    pub week: u32,
    pub x: i32,
    pub y: i32,
    pub voted_at: String,
}

/// The value of a `CoordinateVotedEvent`.
pub ghost struct CoordinateVotedView {
    pub event_id: Seq<char>,
    pub week: u32,
    pub x: i32,
    pub y: i32,
    pub voted_at: Seq<char>,
}

impl View for CoordinateVotedEvent {
    type V = CoordinateVotedView;

    open spec fn view(&self) -> CoordinateVotedView {
        CoordinateVotedView {
            event_id: self.event_id@,
            week: self.week,
            x: self.x,
            y: self.y,
            voted_at: self.voted_at@,
        }
    }
}

impl Clone for CoordinateVotedEvent {
    fn clone(&self) -> (r: Self)
        ensures
            r@ == self@,
    {
        CoordinateVotedEvent {
            event_id: self.event_id.clone(),
            week: self.week,
            x: self.x,
            y: self.y,
            voted_at: self.voted_at.clone(),
        }
    }
}

/// The end of week `from_week`: the winning design (if any) went onto the
/// plate at `(applied_x, applied_y)` (`(-1, -1)` when there was no target),
/// and `(next_target_x, next_target_y)` became the plate to design for.
pub struct WeekAdvancedEvent {
    pub event_id: String,
    pub from_week: u32,
    pub to_week: u32,
    pub applied_x: i32,
    pub applied_y: i32,
    pub winning_image_event_id: Option<String>,
    pub next_target_x: i32,
    pub next_target_y: i32,
    pub applied_at: String,
}

/// The value of a `WeekAdvancedEvent`.
pub ghost struct WeekAdvancedView {
    pub event_id: Seq<char>,
    pub from_week: u32,
    pub to_week: u32,
    pub applied_x: i32,
    pub applied_y: i32,
    pub winning_image_event_id: Option<Seq<char>>,
    pub next_target_x: i32,
    pub next_target_y: i32,
    pub applied_at: Seq<char>,
}

impl View for WeekAdvancedEvent {
    type V = WeekAdvancedView;

    open spec fn view(&self) -> WeekAdvancedView {
        WeekAdvancedView {
            event_id: self.event_id@,
            from_week: self.from_week,
            to_week: self.to_week,
            applied_x: self.applied_x,
            applied_y: self.applied_y,
            winning_image_event_id: opt_text(self.winning_image_event_id),
            next_target_x: self.next_target_x,
            next_target_y: self.next_target_y,
            applied_at: self.applied_at@,
        }
    }
}

impl Clone for WeekAdvancedEvent {
    fn clone(&self) -> (r: Self)
        ensures
            r@ == self@,
    {
        WeekAdvancedEvent {
            event_id: self.event_id.clone(),
            from_week: self.from_week,
            to_week: self.to_week,
            applied_x: self.applied_x,
            applied_y: self.applied_y,
            winning_image_event_id: clone_opt_string(&self.winning_image_event_id),
            next_target_x: self.next_target_x,
            next_target_y: self.next_target_y,
            applied_at: self.applied_at.clone(),
        }
    }
}

/// A click in the web page, kept for the record.
pub struct UiClickedEvent {
    pub event_id: String,
    pub click_type: String,
    pub x: Option<i32>,
    pub y: Option<i32>,
    pub target: Option<String>,
    pub clicked_at: String,
}

/// The value of a `UiClickedEvent`.
pub ghost struct UiClickedView {
    pub event_id: Seq<char>,
    pub click_type: Seq<char>,
    pub x: Option<i32>,
    pub y: Option<i32>,
    pub target: Option<Seq<char>>,
    pub clicked_at: Seq<char>,
}

impl View for UiClickedEvent {
    type V = UiClickedView;

    open spec fn view(&self) -> UiClickedView {
        UiClickedView {
            event_id: self.event_id@,
            click_type: self.click_type@,
            x: self.x,
            y: self.y,
            target: opt_text(self.target),
            clicked_at: self.clicked_at@,
        }
    }
}

impl Clone for UiClickedEvent {
    fn clone(&self) -> (r: Self)
        ensures
            r@ == self@,
    {
        UiClickedEvent {
            event_id: self.event_id.clone(),
            click_type: self.click_type.clone(),
            x: self.x,
            y: self.y,
            target: clone_opt_string(&self.target),
            clicked_at: self.clicked_at.clone(),
        }
    }
}

/// A request to vote for a proposed design.
pub struct VoteRequest {
    pub image_id: String,
}

/// A request to vote for the plate to replace next week.
pub struct CoordinateVoteRequest {
    pub x: u32,
    pub y: u32,
}

/// A click reported by the web page.
pub struct UiClickRequest {
    pub click_type: String,
    pub x: Option<i32>,
    pub y: Option<i32>,
    pub target: Option<String>,
}

/// One entry of the event log.  Entries of a type this library does not
/// know are kept as `Unrecognized`: no view of the wall reads them.
pub enum WallEvent {
    ImageUploaded(ImageUploadedEvent),
    ImageVoted(ImageVotedEvent),
    CoordinateVoted(CoordinateVotedEvent),
    WeekAdvanced(WeekAdvancedEvent),
    UiClicked(UiClickedEvent),
    Unrecognized,
}

/// The value of a `WallEvent`.
pub ghost enum WallEventView {
    ImageUploaded(ImageUploadedView),
    ImageVoted(ImageVotedView),
    CoordinateVoted(CoordinateVotedView),
    WeekAdvanced(WeekAdvancedView),
    UiClicked(UiClickedView),
    Unrecognized,
}

impl View for WallEvent {
    type V = WallEventView;

    open spec fn view(&self) -> WallEventView {
        match self {
            WallEvent::ImageUploaded(e) => WallEventView::ImageUploaded(e@),
            WallEvent::ImageVoted(e) => WallEventView::ImageVoted(e@),
            WallEvent::CoordinateVoted(e) => WallEventView::CoordinateVoted(e@),
            WallEvent::WeekAdvanced(e) => WallEventView::WeekAdvanced(e@),
            WallEvent::UiClicked(e) => WallEventView::UiClicked(e@),
            WallEvent::Unrecognized => WallEventView::Unrecognized,
        }
    }
}

impl Clone for WallEvent {
    fn clone(&self) -> (r: Self)
        ensures
            r@ == self@,
    {
        match self {
            WallEvent::ImageUploaded(e) => WallEvent::ImageUploaded(e.clone()),
            WallEvent::ImageVoted(e) => WallEvent::ImageVoted(e.clone()),
            WallEvent::CoordinateVoted(e) => WallEvent::CoordinateVoted(e.clone()),
            WallEvent::WeekAdvanced(e) => WallEvent::WeekAdvanced(e.clone()),
            WallEvent::UiClicked(e) => WallEvent::UiClicked(e.clone()),
            WallEvent::Unrecognized => WallEvent::Unrecognized,
        }
    }
}

} // verus!
