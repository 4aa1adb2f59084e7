use beadwall::bmp::{bmp_is_supported, parse_bmp};
use beadwall::events::{CoordinateVotedEvent, ImageUploadedEvent, ImageVotedEvent, WallEvent};
use beadwall::upload::{is_bmp_filename, is_png_filename, new_image_uploaded_event, UploadError, UploadState};
use beadwall::views::create_image_preview;

/// A 24-bit BMP of `w` x `h` pixels; pixel (x, y) of the stored rows has
/// blue = x, green = y, red = 200.
fn bmp(w: u32, h: u32) -> Vec<u8> {
    let stride = ((w * 3 + 3) / 4 * 4) as usize;
    let mut d = vec![0u8; 54];
    d[0] = b'B';
    d[1] = b'M';
    d[10..14].copy_from_slice(&54u32.to_le_bytes());
    d[18..22].copy_from_slice(&w.to_le_bytes());
    d[22..26].copy_from_slice(&h.to_le_bytes());
    d[28..30].copy_from_slice(&24u16.to_le_bytes());
    for y in 0..h {
        let mut row = vec![0u8; stride];
        for x in 0..w {
            let o = (x * 3) as usize;
            row[o] = x as u8;
            row[o + 1] = y as u8;
            row[o + 2] = 200;
        }
        d.extend_from_slice(&row);
    }
    d
}

#[test]
fn parse_bmp_reads_rows_as_rgb() {
    let data = bmp(2, 2);
    let (w, h, px) = parse_bmp(&data).unwrap();
    assert_eq!((w, h), (2, 2));
    // rows are padded to 8 bytes; pixels come out red, green, blue
    assert_eq!(px, vec![200, 0, 0, 200, 0, 1, 200, 1, 0, 200, 1, 1]);
}

#[test]
fn parse_bmp_rejects_short_or_other_depth() {
    assert!(parse_bmp(&[0u8; 53]).is_none());
    let mut data = bmp(1, 1);
    data[28] = 32;
    assert!(parse_bmp(&data).is_none());
}

#[test]
fn parse_bmp_drops_pixels_past_end() {
    let mut data = bmp(3, 2);
    // keep the first row (12 bytes with padding) and one pixel of the second
    data.truncate(54 + 12 + 3);
    let (w, h, px) = parse_bmp(&data).unwrap();
    assert_eq!((w, h), (3, 2));
    assert_eq!(px.len(), 4 * 3);
    assert_eq!(&px[9..12], &[200, 1, 0]);
}

#[test]
fn unsupported_bmp_headers_are_detected() {
    let mut data = bmp(1, 1);
    assert!(bmp_is_supported(&data));
    data[10..14].copy_from_slice(&1000u32.to_le_bytes());
    assert!(!bmp_is_supported(&data));
    let mut wide = bmp(1, 1);
    wide[18..22].copy_from_slice(&0x6000_0000u32.to_le_bytes());
    assert!(!bmp_is_supported(&wide));
    assert!(bmp_is_supported(&[0u8; 10]));
}

#[test]
fn zero_height_bmp_of_any_width_gives_no_pixels() {
    let mut data = bmp(1, 1);
    data[18..22].copy_from_slice(&0xffff_ffffu32.to_le_bytes());
    data[22..26].copy_from_slice(&0u32.to_le_bytes());
    assert!(bmp_is_supported(&data));
    let (w, h, px) = parse_bmp(&data).unwrap();
    assert_eq!((w, h), (0xffff_ffff, 0));
    assert!(px.is_empty());
}

#[test]
fn file_names_are_matched_without_case() {
    assert!(is_bmp_filename(&"plate.BMP".to_string()));
    assert!(is_bmp_filename(&"a.bMp".to_string()));
    assert!(!is_bmp_filename(&"a.bmpx".to_string()));
    assert!(is_png_filename(&"x.PnG".to_string()));
    assert!(!is_png_filename(&"png".to_string()));
    assert!(is_png_filename(&"bild-röd.png".to_string()));
}

#[test]
fn bmp_upload_is_quantized_and_accepted() {
    let mut st = UploadState::new();
    assert!(!st.begin_field(None));
    assert!(st.begin_field(Some("plate.bmp".to_string())));
    let data = bmp(30, 30);
    st.absorb_file(&data);
    assert_eq!(st.width, 30);
    assert_eq!(st.pixel_data.len(), 2700);
    // (200, y, x) is nearest to red for small x and y
    assert_eq!(&st.pixel_data[0..3], &[255, 0, 0]);
    assert_eq!(st.finish(Some((4, 5))).ok(), Some((4, 5)));
    let e: ImageUploadedEvent = new_image_uploaded_event(st, 3, (4, 5));
    assert_eq!(e.week, 3);
    assert_eq!((e.target_x, e.target_y), (4, 5));
    assert_eq!(e.filename, "plate.bmp");
    assert_eq!(e.event_id.len(), 36);
    assert_eq!(e.pixel_data.len(), 2700);
    assert!(e.uploaded_at.len() >= 25);
    assert!(e.uploaded_at.ends_with("+00:00"));
}

#[test]
fn upload_errors_in_order() {
    let st = UploadState::new();
    assert!(matches!(st.finish(Some((0, 0))), Err(UploadError::NoFilename)));

    let mut st = UploadState::new();
    assert!(!st.begin_field(Some("notes.txt".to_string())));
    match st.finish(Some((0, 0))) {
        Err(UploadError::NotAnImage { filename }) => assert_eq!(filename, "notes.txt"),
        _ => panic!("expected NotAnImage"),
    }

    let mut st = UploadState::new();
    assert!(st.begin_field(Some("broken.png".to_string())));
    st.absorb_file(&[1, 2, 3, 4]);
    match st.finish(Some((0, 0))) {
        Err(UploadError::Unreadable { filename }) => assert_eq!(filename, "broken.png"),
        _ => panic!("expected Unreadable"),
    }

    let mut st = UploadState::new();
    assert!(st.begin_field(Some("small.bmp".to_string())));
    st.absorb_file(&bmp(2, 2));
    assert!(matches!(st.finish(Some((0, 0))), Err(UploadError::WrongSize { width: 2, height: 2 })));

    let mut st = UploadState::new();
    assert!(st.begin_field(Some("tall.bmp".to_string())));
    st.absorb_file(&bmp(30, 20));
    assert!(matches!(st.finish(Some((0, 0))), Err(UploadError::WrongSize { width: 30, height: 20 })));

    // 30 wide and 900 pixels read, but the header says 31 rows
    let mut short = bmp(30, 31);
    short.truncate(54 + 30 * 92);
    let mut st = UploadState::new();
    assert!(st.begin_field(Some("short.bmp".to_string())));
    st.absorb_file(&short);
    assert_eq!(st.pixel_data.len(), 2700);
    assert!(matches!(st.finish(Some((0, 0))), Err(UploadError::WrongSize { width: 30, height: 31 })));

    let mut st = UploadState::new();
    assert!(st.begin_field(Some("ok.bmp".to_string())));
    st.absorb_file(&bmp(30, 30));
    assert!(matches!(st.finish(None), Err(UploadError::NoTarget)));
}

#[test]
fn png_upload_round_trips_through_encoder() {
    // a 30 x 30 plate, all light green (an approved color)
    let mut px = Vec::new();
    for _ in 0..900 {
        px.extend_from_slice(&[144, 238, 144]);
    }
    let png = create_image_preview(&px, 30, 30);
    assert_eq!(&png[0..8], &[137, 80, 78, 71, 13, 10, 26, 10]);
    let mut st = UploadState::new();
    assert!(st.begin_field(Some("design.PNG".to_string())));
    st.absorb_file(&png);
    assert_eq!(st.width, 30);
    assert_eq!(st.pixel_data, px);
}

#[test]
fn preview_of_empty_pixels_is_empty() {
    assert!(create_image_preview(&[], 30, 30).is_empty());
    assert!(create_image_preview(&[1, 2, 3], 0, 30).is_empty());
}

#[test]
fn placed_uploads_keep_the_wall_in_approved_colors() {
    let mut st = UploadState::new();
    assert!(st.begin_field(Some("plate.bmp".to_string())));
    st.absorb_file(&bmp(30, 30));
    let target = st.finish(Some((2, 2))).ok().unwrap();
    let e = new_image_uploaded_event(st, 1, target);
    let id = e.event_id.clone();
    let mut log = beadwall::log::EventLog::new();
    log.append(WallEvent::CoordinateVoted(CoordinateVotedEvent {
        event_id: "c".to_string(),
        week: 1,
        x: 2,
        y: 2,
        voted_at: "t".to_string(),
    }));
    log.append(WallEvent::WeekAdvanced(beadwall::week::advance_week_event(&log).ok().unwrap()));
    log.append(WallEvent::ImageUploaded(e));
    log.append(WallEvent::ImageVoted(ImageVotedEvent {
        event_id: "v".to_string(),
        image_event_id: id.clone(),
        voted_at: "t".to_string(),
    }));
    log.append(WallEvent::CoordinateVoted(CoordinateVotedEvent {
        event_id: "c".to_string(),
        week: 2,
        x: 0,
        y: 0,
        voted_at: "t".to_string(),
    }));
    let adv = beadwall::week::advance_week_event(&log).ok().unwrap();
    assert_eq!(adv.winning_image_event_id, Some(id));
    log.append(WallEvent::WeekAdvanced(adv));
    let px = beadwall::log::get_wall_tiles(&log).render_pixels();
    let approved: Vec<(u8, u8, u8)> = (0..10).map(beadwall::palette::approved_color).collect();
    for c in px.chunks(3) {
        assert!(approved.contains(&(c[0], c[1], c[2])));
    }
    // the placed plate is not all white: its design is red
    let o = (60 * 810 + 60) * 3;
    assert_eq!(&px[o..o + 3], &[255, 0, 0]);
}
