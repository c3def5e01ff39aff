use capture_scheduler::codec::{decode_config, encode_config};
use capture_scheduler::config::{Config, ScheduleTime};
use capture_scheduler::geometry::{PhysRect, Rect};
use capture_scheduler::pipeline::{
    clamp_to_frame, crop_raster, filename_for, prepare_capture, CropRect, Raster,
};
use capture_scheduler::schedule::{poll_schedule, ClockTime, TriggerState};

fn chars(s: &str) -> Vec<char> {
    s.chars().collect()
}

fn text(v: &[char]) -> String {
    v.iter().collect()
}

fn clock(hour: u32, minute: u32, second: u32) -> ClockTime {
    ClockTime { year: 2024, month: 1, day: 2, hour, minute, second, epoch_seconds: 1_704_164_400 }
}

/// A frame whose byte at flat index `i` is `i % 251`, RGBA, row-major.
fn frame(width: u32, height: u32) -> Raster {
    let n = (width * height * 4) as usize;
    let pixels: Vec<u8> = (0..n).map(|i| (i % 251) as u8).collect();
    Raster { pixels, width, height }
}

#[test]
fn default_config_round_trips() {
    let config = Config::default();
    let doc = encode_config(&config);
    let back = decode_config(&doc).expect("the encoded document must decode");
    assert_eq!(back, config);
    // and the document is stable across a second pass
    let doc2 = encode_config(&back);
    assert_eq!(doc2, doc);
    assert_eq!(decode_config(&doc2).expect("still decodes"), config);
}

#[test]
fn full_config_round_trips() {
    let config = Config {
        capture_area: Some(Rect { x: -17, y: 4, width: 200, height: 150, scale_milli: 1250 }),
        schedule_times: vec![
            ScheduleTime { hour: 9, minute: 0, second: 0 },
            ScheduleTime { hour: 23, minute: 59, second: 59 },
        ],
        save_directory: chars("/tmp/caps und Bilder"),
        base_filename: Some(chars("출석-shot")),
    };
    let doc = encode_config(&config);
    assert_eq!(decode_config(&doc).expect("decodes"), config);
}

#[test]
fn malformed_documents_are_rejected() {
    assert_eq!(decode_config(&chars("")), None);
    assert_eq!(decode_config(&chars("2")), None);
    assert_eq!(decode_config(&chars("0")), None); // truncated after the area tag
    // a decoded document with trailing garbage is rejected
    let mut doc = encode_config(&Config::default());
    doc.push('x');
    assert_eq!(decode_config(&doc), None);
}

#[test]
fn clamp_keeps_inside_window_and_clips_overhang() {
    // fully inside
    let c = clamp_to_frame(&PhysRect { x: 10, y: 10, width: 200, height: 150 }, 640, 480);
    assert_eq!(c, CropRect { x: 10, y: 10, width: 200, height: 150 });
    // hanging over the right/bottom edge
    let c = clamp_to_frame(&PhysRect { x: 600, y: 470, width: 200, height: 150 }, 640, 480);
    assert_eq!(c, CropRect { x: 600, y: 470, width: 40, height: 10 });
    // starting left/above the frame
    let c = clamp_to_frame(&PhysRect { x: -5, y: -3, width: 10, height: 6 }, 640, 480);
    assert_eq!(c, CropRect { x: 0, y: 0, width: 5, height: 3 });
    // entirely outside: an empty window
    let c = clamp_to_frame(&PhysRect { x: 700, y: 0, width: 10, height: 6 }, 640, 480);
    assert_eq!(c, CropRect { x: 640, y: 0, width: 0, height: 6 });
}

#[test]
fn crop_copies_the_window_exactly() {
    let f = frame(4, 3);
    let out = crop_raster(&f, &CropRect { x: 1, y: 1, width: 2, height: 2 });
    let mut expected: Vec<u8> = Vec::new();
    for row in 1..3u32 {
        for col in 1..3u32 {
            let base = ((row * 4 + col) * 4) as usize;
            expected.extend_from_slice(&f.pixels[base..base + 4]);
        }
    }
    assert_eq!(out, expected);
}

#[test]
fn filename_uses_base_or_default_prefix() {
    let t = clock(3, 4, 5);
    assert_eq!(text(&filename_for(&None, &t)), "capture_20240102_030405.jpg");
    assert_eq!(
        text(&filename_for(&Some(chars("shot")), &t)),
        "shot_20240102_030405.jpg"
    );
    // an empty configured prefix falls back to the default
    assert_eq!(text(&filename_for(&Some(chars("")), &t)), "capture_20240102_030405.jpg");
}

#[test]
fn prepare_capture_writes_one_jpeg_for_the_scenario() {
    // the configured 200x150 region at (10,10), scale factor 1.0
    let config = Config {
        capture_area: Some(Rect { x: 10, y: 10, width: 200, height: 150, scale_milli: 1000 }),
        schedule_times: vec![ScheduleTime { hour: 9, minute: 0, second: 0 }],
        save_directory: chars("/tmp/caps"),
        base_filename: None,
    };
    let f = frame(640, 480);
    let out = prepare_capture(&config, &f, &clock(9, 0, 0)).expect("capture succeeds");
    assert_eq!(text(&out.filename), "capture_20240102_090000.jpg");
    // the bytes are a JPEG stream, not the raw crop handed back
    assert!(out.bytes.len() > 4);
    assert_eq!(&out.bytes[0..2], &[0xff, 0xd8]); // start-of-image marker
    assert_eq!(&out.bytes[out.bytes.len() - 2..], &[0xff, 0xd9]); // end-of-image marker
    let crop = crop_raster(&f, &CropRect { x: 10, y: 10, width: 200, height: 150 });
    assert_ne!(out.bytes, crop);
}

#[test]
fn scheduled_capture_fires_once_per_matching_second() {
    let config = Config {
        capture_area: Some(Rect { x: 10, y: 10, width: 200, height: 150, scale_milli: 1000 }),
        schedule_times: vec![ScheduleTime { hour: 9, minute: 0, second: 0 }],
        save_directory: chars("/tmp/caps"),
        base_filename: None,
    };
    let f = frame(640, 480);
    let mut st = TriggerState::new();
    let nine = clock(9, 0, 0);
    let mut files: Vec<String> = Vec::new();
    for _ in 0..2 {
        // two polls within the same wall-clock second
        if poll_schedule(&mut st, &nine, &config.schedule_times).is_some() {
            let out = prepare_capture(&config, &f, &nine).expect("capture succeeds");
            files.push(text(&out.filename));
        }
    }
    assert_eq!(files, vec!["capture_20240102_090000.jpg".to_string()]);
}

#[test]
fn prepare_capture_without_area_produces_nothing() {
    let config = Config {
        capture_area: None,
        schedule_times: vec![ScheduleTime { hour: 9, minute: 0, second: 0 }],
        save_directory: chars("/tmp/caps"),
        base_filename: None,
    };
    let f = frame(64, 48);
    for _ in 0..3 {
        assert!(prepare_capture(&config, &f, &clock(9, 0, 0)).is_none());
    }
}

#[test]
fn prepare_capture_empty_clamped_window_fails_quietly() {
    // the stored rectangle lies entirely right of the frame
    let config = Config {
        capture_area: Some(Rect { x: 1000, y: 0, width: 10, height: 10, scale_milli: 1000 }),
        schedule_times: Vec::new(),
        save_directory: chars("/tmp/caps"),
        base_filename: None,
    };
    let f = frame(64, 48);
    assert!(prepare_capture(&config, &f, &clock(9, 0, 0)).is_none());
}
