use anpr::color::ColorPath;
use anpr::error::AnprError;
use anpr::geometry::{crosses_segment, AnprImage, Point, Rect, Segment, Size};
use anpr::options::AnprOptions;
use anpr::session::{Detection, Session, SessionConfig, SessionError};

fn frame(width: i32, height: i32) -> AnprImage {
    AnprImage { ptr: 0x4000, width, height, channels: 3 }
}

fn config(max_frames: u32, min_hits: u32, max_misses: u32, capacity: usize) -> SessionConfig {
    SessionConfig {
        max_frames,
        min_frames_with_plate: min_hits,
        frames_without_plate: max_misses,
        max_plates_in_mem: capacity,
    }
}

fn det(text: &str, x: i32, y: i32) -> Detection {
    Detection { rect: Rect { x, y, width: 20, height: 10 }, text: text.to_string() }
}

fn texts(r: &[Detection]) -> Vec<String> {
    r.iter().map(|d| d.text.clone()).collect()
}

fn open(cfg: SessionConfig) -> Session {
    Session::new(&frame(640, 480), &AnprOptions::default(), cfg).ok().unwrap()
}

#[test]
fn session_binds_first_frame_geometry_and_colour_path() {
    let s = open(config(10, 3, 5, 8));
    assert_eq!(s.size(), Size { width: 640, height: 480 });
    assert_eq!(s.color_path(), ColorPath::ConvertToGrayscale);
    assert_eq!(s.crossings(), (0, 0));
    assert!(!s.is_closed());
    let full = Session::new(&frame(640, 480), &AnprOptions::default().with_type_number(911), config(10, 3, 5, 8));
    assert_eq!(full.ok().unwrap().color_path(), ColorPath::Original);
}

#[test]
fn session_refuses_bad_setup() {
    let o = AnprOptions::default();
    assert_eq!(Session::new(&frame(640, 480), &o, config(0, 3, 5, 8)).err(), Some(SessionError::InvalidConfig));
    assert_eq!(Session::new(&frame(640, 480), &o, config(10, 0, 5, 8)).err(), Some(SessionError::InvalidConfig));
    assert_eq!(Session::new(&frame(640, 480), &o, config(10, 3, 0, 8)).err(), Some(SessionError::InvalidConfig));
    assert_eq!(Session::new(&frame(0, 480), &o, config(10, 3, 5, 8)).err(), Some(SessionError::EmptyFrame));
}

#[test]
fn session_rejects_frame_of_other_geometry() {
    let mut s = open(config(10, 1, 5, 8));
    let r = s.add_frame(&frame(320, 240), 0, &vec![det("A1", 0, 0)]);
    assert_eq!(
        r,
        Err(SessionError::GeometryMismatch {
            expected: Size { width: 640, height: 480 },
            found: Size { width: 320, height: 240 },
        })
    );
    // nothing was remembered from the refused frame
    let r = s.add_frame(&frame(640, 480), 0, &vec![]).unwrap();
    assert!(r.is_empty());
}

#[test]
fn plate_in_ten_frames_commits_at_third_and_stays() {
    let mut s = open(config(10, 3, 5, 8));
    for k in 1..=10 {
        let r = s.add_frame(&frame(640, 480), 0, &vec![det("A777AA", 100, 100)]).unwrap();
        if k < 3 {
            assert!(r.is_empty(), "committed too early at frame {}", k);
        } else {
            assert_eq!(texts(&r), vec!["A777AA".to_string()], "frame {}", k);
            assert_eq!(r[0].rect, Rect { x: 100, y: 100, width: 20, height: 10 });
        }
    }
}

#[test]
fn commit_happens_exactly_at_threshold() {
    let mut s = open(config(10, 4, 5, 8));
    for k in 1..=4 {
        let r = s.add_frame(&frame(640, 480), 0, &vec![det("B1", 5, 5)]).unwrap();
        assert_eq!(r.is_empty(), k < 4);
    }
}

#[test]
fn absent_plate_is_evicted_after_frames_without_plate() {
    let mut s = open(config(10, 1, 3, 8));
    let r = s.add_frame(&frame(640, 480), 0, &vec![det("C2", 5, 5)]).unwrap();
    assert_eq!(texts(&r), vec!["C2".to_string()]);
    // two misses: still remembered and committed
    for _ in 0..2 {
        let r = s.add_frame(&frame(640, 480), 0, &vec![]).unwrap();
        assert_eq!(texts(&r), vec!["C2".to_string()]);
    }
    // third miss: evicted
    let r = s.add_frame(&frame(640, 480), 0, &vec![]).unwrap();
    assert!(r.is_empty());
}

#[test]
fn memory_capacity_bounds_remembered_candidates() {
    let mut s = open(config(10, 1, 5, 2));
    let r = s
        .add_frame(&frame(640, 480), 0, &vec![det("P1", 0, 0), det("P2", 0, 0), det("P3", 0, 0), det("P1", 9, 9)])
        .unwrap();
    assert_eq!(texts(&r), vec!["P1".to_string(), "P2".to_string()]);
    assert_eq!(r[0].rect.x, 0);
}

#[test]
fn empty_texts_are_not_candidates() {
    let mut s = open(config(10, 1, 5, 4));
    let r = s.add_frame(&frame(640, 480), 0, &vec![det("", 0, 0)]).unwrap();
    assert!(r.is_empty());
}

#[test]
fn engine_error_is_reported_and_session_keeps_running() {
    let mut s = open(config(10, 2, 2, 4));
    assert!(s.add_frame(&frame(640, 480), 0, &vec![det("D4", 0, 0)]).unwrap().is_empty());
    let r = s.add_frame(&frame(640, 480), 1, &vec![det("D4", 0, 0)]);
    assert_eq!(r, Err(SessionError::Engine(AnprError::Other(1))));
    let r = s.add_frame(&frame(640, 480), 0, &vec![det("D4", 0, 0)]).unwrap();
    assert_eq!(texts(&r), vec!["D4".to_string()]);
    let r = s.add_frame(&frame(640, 480), -2, &vec![]);
    assert_eq!(r, Err(SessionError::Engine(AnprError::ImageEmpty)));
}

#[test]
fn close_is_idempotent_and_stops_frames() {
    let mut s = open(config(10, 1, 5, 4));
    assert!(s.close());
    assert!(!s.close());
    assert!(s.is_closed());
    assert_eq!(s.add_frame(&frame(640, 480), 0, &vec![]), Err(SessionError::Closed));
}

#[test]
fn crossing_test_on_segment() {
    let line = Segment { a: Point { x: 100, y: 0 }, b: Point { x: 100, y: 200 } };
    let left = Rect { x: 80, y: 50, width: 10, height: 10 };
    let right = Rect { x: 110, y: 50, width: 10, height: 10 };
    let below = Rect { x: 110, y: 300, width: 10, height: 10 };
    let below_left = Rect { x: 80, y: 300, width: 10, height: 10 };
    assert!(crosses_segment(&line, &left, &right));
    assert!(crosses_segment(&line, &right, &left));
    assert!(!crosses_segment(&line, &left, &left));
    assert!(!crosses_segment(&line, &below_left, &below));
}

#[test]
fn trajectory_crossing_line_n_times_counts_n() {
    let mut s = open(config(10, 1, 5, 4));
    let vertical = Segment { a: Point { x: 100, y: 0 }, b: Point { x: 100, y: 400 } };
    let horizontal = Segment { a: Point { x: 0, y: 300 }, b: Point { x: 50, y: 300 } };
    s.configure_lines(vertical, horizontal);
    // centres at x + 10: left, across (1), back (2), onto the line and on
    // across (3), back (4)
    let xs = [10, 40, 70, 120, 150, 130, 60, 90, 95, 160, 20, 30];
    for x in xs {
        s.add_frame(&frame(640, 480), 0, &vec![det("E5", x, 100)]).unwrap();
    }
    assert_eq!(s.crossings(), (4, 0));
    let xs2 = [200, 50, 200];
    for x in xs2 {
        s.add_frame(&frame(640, 480), 0, &vec![det("E5", x, 100)]).unwrap();
    }
    assert_eq!(s.crossings(), (7, 0));
}

#[test]
fn crossing_is_counted_once_on_landing_on_the_line() {
    let mut s = open(config(10, 1, 5, 4));
    let vertical = Segment { a: Point { x: 100, y: 0 }, b: Point { x: 100, y: 400 } };
    s.configure_lines(vertical, vertical);
    // centre x = 2*x + 20 halves: x = 90 puts the centre exactly on x = 100
    for x in [40, 90, 150] {
        s.add_frame(&frame(640, 480), 0, &vec![det("F6", x, 100)]).unwrap();
    }
    assert_eq!(s.crossings(), (1, 1));
}

#[test]
fn crossing_count_same_at_any_frame_rate() {
    let line = Segment { a: Point { x: 300, y: 0 }, b: Point { x: 300, y: 480 } };
    let run = |xs: &[i32]| {
        let mut s = open(config(10, 1, 5, 4));
        s.configure_lines(line, line);
        for &x in xs {
            s.add_frame(&frame(640, 480), 0, &vec![det("G7", x, 200)]).unwrap();
        }
        s.crossings().0
    };
    let dense: Vec<i32> = (0..=50).map(|i| i * 10).chain((0..=50).rev().map(|i| i * 10)).collect();
    let sparse = [0, 250, 500, 130, 0];
    assert_eq!(run(&dense), 2);
    assert_eq!(run(&sparse), 2);
}
