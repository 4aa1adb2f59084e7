//! What the web page shows: the wall as an image, the designs with their
//! votes, the history of weeks and a few totals.
use vstd::prelude::*;
use vstd::arithmetic::div_mod::lemma_fundamental_div_mod_converse;
use crate::events::{ImageUploadedEvent, WeekAdvancedView, WallEventView, opt_text};
use crate::log::{
    EventLog, current_wall, wall_for_week, current_week, current_target, images_for_week,
    image_votes, coordinate_votes_for_week, week_events, image_with_id, get_wall_tiles,
    get_wall_tiles_for_week, get_current_week, get_current_target, get_current_week_images,
    get_image_votes, get_coordinate_votes_for_week, find_image,
};
use crate::wall::{Wall, rendered_wall};
use crate::voting::{image_vote_count, count_image_votes};
use crate::codec::{png_encoding, encode_png, base64_encode, base64_standard, base64_fits};

verus! {

/// The PNG image of a wall (810 x 360 beads) and whether encoding succeeded.
pub open spec fn wall_png(wall: Seq<Seq<u8>>) -> (Seq<u8>, bool) {
    png_encoding(810, 360, rendered_wall(wall))
}

/// The wall as a PNG image; `None` when the encoder reports a failure.
pub fn render_wall_png(wall: &Wall) -> (r: Option<Vec<u8>>)
    requires
        wall.well_formed(),
    ensures
        match r {
            Some(p) => wall_png(wall@).1 && p@ == wall_png(wall@).0,
            None => !wall_png(wall@).1,
        },
{
    let pixels = wall.render_pixels();
    let (png, ok) = encode_png(810, 360, pixels);
    if ok {
        Some(png)
    } else {
        None
    }
}

/// The wall as it stands now, as a PNG image.
pub fn render_wall_preview(log: &EventLog) -> (r: Option<Vec<u8>>)
    ensures
        match r {
            Some(p) => wall_png(current_wall(log@)).1 && p@ == wall_png(current_wall(log@)).0,
            None => !wall_png(current_wall(log@)).1,
        },
{
    let wall = get_wall_tiles(log);
    render_wall_png(&wall)
}

/// The wall as it stood in week `week`, as a PNG image.
pub fn render_wall_preview_for_week(log: &EventLog, week: u32) -> (r: Option<Vec<u8>>)
    ensures
        match r {
            Some(p) => wall_png(wall_for_week(log@, week)).1 && p@ == wall_png(
                wall_for_week(log@, week),
            ).0,
            None => !wall_png(wall_for_week(log@, week)).1,
        },
{
    let wall = get_wall_tiles_for_week(log, week);
    render_wall_png(&wall)
}

/// Whether a preview can be drawn from these pixels: there are none, or the
/// size is empty, or there are enough for the whole image.
pub open spec fn preview_drawable(pixel_data: Seq<u8>, width: u32, height: u32) -> bool {
    pixel_data.len() == 0 || width == 0 || height == 0 || width * height * 3 <= pixel_data.len()
}

/// The preview of a design: empty when there are no pixels or the size is
/// empty, else the PNG bytes the encoder wrote (even if it reported failure).
pub open spec fn preview_png(pixel_data: Seq<u8>, width: u32, height: u32) -> Seq<u8> {
    if pixel_data.len() == 0 || width == 0 || height == 0 {
        Seq::empty()
    } else {
        png_encoding(width, height, pixel_data).0
    }
}

/// A PNG preview of RGB pixel data of the given size.
pub fn create_image_preview(pixel_data: &[u8], width: u32, height: u32) -> (r: Vec<u8>)
    requires
        preview_drawable(pixel_data@, width, height),
    ensures
        r@ == preview_png(pixel_data@, width, height),
{
    if pixel_data.len() == 0 || width == 0 || height == 0 {
        return Vec::new();
    }
    let mut copy: Vec<u8> = Vec::new();
    let mut i: usize = 0;
    while i < pixel_data.len()
        invariant
            i <= pixel_data.len(),
            copy@ == pixel_data@.take(i as int),
        decreases pixel_data.len() - i,
    {
        copy.push(pixel_data[i]);
        i = i + 1;
        proof {
            assert(copy@ =~= pixel_data@.take(i as int));
        }
    }
    proof {
        assert(copy@ =~= pixel_data@);
    }
    let (png, _ok) = encode_png(width, height, copy);
    png
}

/// `data:image/png;base64,` followed by the Base64 text of `png`.
pub fn png_data_url(png: &[u8]) -> (url: String)
    requires
        base64_fits(png@.len() as int),
    ensures
        url@ == "data:image/png;base64,"@ + base64_standard(png@),
{
    let mut url = "data:image/png;base64,".to_owned();
    let encoded = base64_encode(png);
    url.append(encoded.as_str());
    url
}

/// `png_data_url` when the Base64 text fits in memory, `None` otherwise.
pub fn checked_png_data_url(png: &[u8]) -> (url: Option<String>)
    ensures
        url is Some <==> base64_fits(png@.len() as int),
        url matches Some(u) ==> u@ == "data:image/png;base64,"@ + base64_standard(png@),
{
    let n = png.len();
    let q: usize = n / 3 + if n % 3 > 0 {
        1
    } else {
        0
    };
    proof {
        let r: int = if n % 3 > 0 { (n % 3) as int - 1 } else { 2 };
        lemma_fundamental_div_mod_converse(n as int + 2, 3, q as int, r);
        lemma_fundamental_div_mod_converse(usize::MAX as int, 4, (usize::MAX / 4) as int, (usize::MAX % 4) as int);
    }
    if q <= usize::MAX / 4 {
        Some(png_data_url(png))
    } else {
        None
    }
}

/// A design as listed on the page.
pub struct ImageListing {
    pub id: String,
    pub filename: String,
    pub plate_x: i32,
    pub plate_y: i32,
    pub votes: usize,
    pub uploaded_at: String,
    pub preview_png: Vec<u8>,
}

/// Whether every design of week `week` can be drawn as a plate preview.
pub open spec fn previews_drawable(log: Seq<WallEventView>, week: u32) -> bool {
    forall|k: int|
        0 <= k < images_for_week(log, week).len() ==> preview_drawable(
            (#[trigger] images_for_week(log, week)[k]).pixel_data,
            30,
            30,
        )
}

/// Whether `l` lists design `img` of history `log`.
pub open spec fn lists_image(l: ImageListing, img: crate::events::ImageUploadedView, log: Seq<WallEventView>) -> bool {
    &&& l.id@ == img.event_id
    &&& l.filename@ == img.filename
    &&& l.plate_x == img.target_x
    &&& l.plate_y == img.target_y
    &&& l.votes == image_vote_count(log, img.event_id)
    &&& l.uploaded_at@ == img.uploaded_at
    &&& l.preview_png@ == preview_png(img.pixel_data, 30, 30)
}

/// Whether `check_previews_drawable` would let every preview be drawn.
pub fn check_previews_drawable(log: &EventLog, week: u32) -> (ok: bool)
    ensures
        ok == previews_drawable(log@, week),
{
    let images = get_current_week_images(log, week);
    let ghost ims = images_for_week(log@, week);
    let mut k: usize = 0;
    while k < images.len()
        invariant
            images@.map_values(|e: ImageUploadedEvent| e@) == ims,
            ims == images_for_week(log@, week),
            k <= images.len(),
            forall|q: int| 0 <= q < k ==> preview_drawable((#[trigger] ims[q]).pixel_data, 30, 30),
        decreases images.len() - k,
    {
        let n = images[k].pixel_data.len();
        assert(ims[k as int].pixel_data == images@[k as int].pixel_data@);
        if !(n == 0 || 2700 <= n) {
            assert(!preview_drawable(images_for_week(log@, week)[k as int].pixel_data, 30, 30));
            return false;
        }
        k = k + 1;
    }
    true
}

/// Whether `r` lists the designs of week `week` of history `log`: one
/// entry per design, oldest first, each with its votes and preview.
pub open spec fn is_image_listing(r: Seq<ImageListing>, log: Seq<WallEventView>, week: u32) -> bool {
    &&& r.len() == images_for_week(log, week).len()
    &&& forall|k: int| 0 <= k < r.len() ==> lists_image(#[trigger] r[k], images_for_week(log, week)[k], log)
}

/// The designs of week `week`, oldest first, with their votes and previews.
pub fn image_listing(log: &EventLog, week: u32) -> (r: Vec<ImageListing>)
    requires
        previews_drawable(log@, week),
    ensures
        is_image_listing(r@, log@, week),
{
    let images = get_current_week_images(log, week);
    let ghost ims = images_for_week(log@, week);
    let mut out: Vec<ImageListing> = Vec::new();
    let mut k: usize = 0;
    while k < images.len()
        invariant
            images@.map_values(|e: ImageUploadedEvent| e@) == ims,
            ims == images_for_week(log@, week),
            previews_drawable(log@, week),
            k <= images.len(),
            out.len() == k,
            forall|q: int| 0 <= q < k ==> lists_image(#[trigger] out@[q], ims[q], log@),
        decreases images.len() - k,
    {
        let img = &images[k];
        assert(ims[k as int] == img@);
        let votes = count_image_votes(log, &img.event_id);
        let preview = create_image_preview(img.pixel_data.as_slice(), 30, 30);
        out.push(
            ImageListing {
                id: img.event_id.clone(),
                filename: img.filename.clone(),
                plate_x: img.target_x,
                plate_y: img.target_y,
                votes,
                uploaded_at: img.uploaded_at.clone(),
                preview_png: preview,
            },
        );
        k = k + 1;
    }
    out
}

/// The designs of the current week: the same listing `image_listing` gives
/// for the week the history is in.
pub fn current_image_listing(log: &EventLog) -> (r: Vec<ImageListing>)
    requires
        previews_drawable(log@, current_week(log@)),
    ensures
        is_image_listing(r@, log@, current_week(log@)),
{
    let week = get_current_week(log);
    image_listing(log, week)
}

/// One past week as shown in the history.
pub struct WeekHistoryEntry {
    pub week: u32,
    pub target_x: i32,
    pub target_y: i32,
    pub applied: Option<(i32, i32)>,
    pub winning_image_id: Option<String>,
    pub winning_image_filename: Option<String>,
    pub applied_at: String,
}

/// Whether `h` shows end of week `e` of history `log`: the week it began,
/// its target, the plate it applied to (when it had one), the winning
/// design and that design's file name (when the design is in the history).
pub open spec fn shows_week(h: WeekHistoryEntry, e: WeekAdvancedView, log: Seq<WallEventView>) -> bool {
    &&& h.week == e.to_week
    &&& h.target_x == e.next_target_x
    &&& h.target_y == e.next_target_y
    &&& h.applied == if e.applied_x >= 0 {
        Some((e.applied_x, e.applied_y))
    } else {
        None
    }
    &&& opt_text(h.winning_image_id) == e.winning_image_event_id
    &&& opt_text(h.winning_image_filename) == match e.winning_image_event_id {
        Some(id) => match image_with_id(log, id) {
            Some(img) => Some(img.filename),
            None => None,
        },
        None => None,
    }
    &&& h.applied_at@ == e.applied_at
}

/// Whether `r` is the history of `log`: one entry per end of week, oldest
/// first, each showing its end of week.
pub open spec fn is_week_history(r: Seq<WeekHistoryEntry>, log: Seq<WallEventView>) -> bool {
    &&& r.len() == week_events(log).len()
    &&& forall|k: int| 0 <= k < r.len() ==> shows_week(#[trigger] r[k], week_events(log)[k], log)
}

/// Every end of week so far, oldest first.
pub fn week_history(log: &EventLog) -> (r: Vec<WeekHistoryEntry>)
    ensures
        r.len() == week_events(log@).len(),
        forall|k: int| 0 <= k < r.len() ==> shows_week(#[trigger] r@[k], week_events(log@)[k], log@),
        is_week_history(r@, log@),
{
    let mut out: Vec<WeekHistoryEntry> = Vec::new();
    let mut i: usize = 0;
    while i < log.events.len()
        invariant
            i <= log@.len(),
            log.events.len() == log@.len(),
            out.len() == week_events(log@.take(i as int)).len(),
            forall|k: int| 0 <= k < out.len() ==> shows_week(#[trigger] out@[k], week_events(log@.take(i as int))[k], log@),
        decreases log@.len() - i,
    {
        proof {
            assert(log@.take(i + 1).drop_last() =~= log@.take(i as int));
        }
        match &log.events[i] {
            crate::events::WallEvent::WeekAdvanced(e) => {
                let applied = if e.applied_x >= 0 {
                    Some((e.applied_x, e.applied_y))
                } else {
                    None
                };
                let (winning_image_id, winning_image_filename) = match &e.winning_image_event_id {
                    Some(id) => {
                        let name = match find_image(log, id) {
                            Some(img) => Some(img.filename.clone()),
                            None => None,
                        };
                        (Some(id.clone()), name)
                    },
                    None => (None, None),
                };
                out.push(
                    WeekHistoryEntry {
                        week: e.to_week,
                        target_x: e.next_target_x,
                        target_y: e.next_target_y,
                        applied,
                        winning_image_id,
                        winning_image_filename,
                        applied_at: e.applied_at.clone(),
                    },
                );
            },
            _ => {},
        }
        i = i + 1;
    }
    proof {
        assert(log@.take(log@.len() as int) =~= log@);
    }
    out
}

/// The totals shown at the top of the page.
pub struct WallStats {
    pub week: u32,
    pub current_target: Option<(i32, i32)>,
    pub total_image_votes: usize,
    pub total_coordinate_votes: usize,
    pub total_images: usize,
}

/// The current week and target, the number of design votes ever cast, of
/// plate votes for next week, and of designs uploaded this week.
pub fn wall_stats(log: &EventLog) -> (s: WallStats)
    requires
        current_week(log@) < u32::MAX,
    ensures
        s.week == current_week(log@),
        s.current_target == current_target(log@),
        s.total_image_votes == image_votes(log@).len(),
        s.total_coordinate_votes == coordinate_votes_for_week(log@, (current_week(log@) + 1) as u32).len(),
        s.total_images == images_for_week(log@, current_week(log@)).len(),
{
    let week = get_current_week(log);
    let current_target = get_current_target(log);
    let image_votes = get_image_votes(log);
    let coordinate_votes = get_coordinate_votes_for_week(log, week + 1);
    let images = get_current_week_images(log, week);
    WallStats {
        week,
        current_target,
        total_image_votes: image_votes.len(),
        total_coordinate_votes: coordinate_votes.len(),
        total_images: images.len(),
    }
}

} // verus!
