use anpr::color::{full_types, path_of_options, select_path, ColorPath};
use anpr::error::AnprError;
use anpr::exchange::{harvest, AllocProgress, AllocationError, ArrayAllocation, BufferArray, TEXT_CAPACITY};
use anpr::geometry::{AnprImage, Rect};
use anpr::options::{AnprOptions, EncodingError, ANPR_DETECTCOMPLEXMODE, DEFAULT_COEFFICIENT_BITS};
use anpr::recognizer::{engine_options, finish_recognition, plan_recognition, MAX_PLATES};

fn colour_image() -> AnprImage {
    AnprImage { ptr: 0x1000, width: 640, height: 480, channels: 3 }
}

fn text_buffer(s: &str) -> Vec<u8> {
    let mut b = vec![0u8; TEXT_CAPACITY];
    b[..s.len()].copy_from_slice(s.as_bytes());
    b
}

fn rect(x: i32) -> Rect {
    Rect { x, y: 10, width: 100, height: 30 }
}

/// Runs the allocation protocol; `grants` gives the address each buffer
/// allocation returns, in order.
fn allocate(n: usize, outer: usize, grants: &[usize]) -> Result<BufferArray, (Vec<usize>, usize, AllocationError)> {
    let mut state = match ArrayAllocation::begin(n, outer) {
        Err(e) => return Err((vec![], 0, e)),
        Ok(AllocProgress::Complete(a)) => return Ok(a),
        Ok(AllocProgress::NeedMore(s)) => s,
        Ok(AllocProgress::Failed(p, e)) => return Err((p.inner, p.outer, e)),
    };
    let mut k = 0;
    loop {
        match state.record(grants[k]) {
            AllocProgress::NeedMore(s) => state = s,
            AllocProgress::Complete(a) => return Ok(a),
            AllocProgress::Failed(p, e) => return Err((p.inner, p.outer, e)),
        }
        k += 1;
    }
}

#[test]
fn from_code_maps_every_status() {
    assert_eq!(AnprError::from_code(0), Ok(()));
    assert_eq!(AnprError::from_code(1), Err(AnprError::Other(1)));
    assert_eq!(AnprError::from_code(2), Err(AnprError::Other(2)));
    assert_eq!(AnprError::from_code(-2), Err(AnprError::ImageEmpty));
    assert_eq!(AnprError::from_code(-100), Err(AnprError::ErrorTypePlate));
    assert_eq!(AnprError::from_code(-101), Err(AnprError::ErrorTypeForColor));
    assert_eq!(AnprError::from_code(-7), Err(AnprError::Other(-7)));
}

#[test]
fn descriptions_name_each_kind() {
    assert_eq!(AnprError::ImageEmpty.description(), "IMAGE_EMPTY: The image is empty.");
    assert_eq!(
        AnprError::ErrorTypePlate.description(),
        "ERROR_TYPE_PLATE: Unsupported plate type for this configuration."
    );
    assert_eq!(
        AnprError::ErrorTypeForColor.description(),
        "ERROR_TYPE_FOR_COLOR: Mismatch between image type and plate type flag in ANPR_OPTIONS."
    );
    assert_eq!(AnprError::Other(1).description(), "No candidates detected for the license plate.");
    assert_eq!(AnprError::Other(2).description(), "No license plates found.");
    assert_eq!(AnprError::Other(42).description(), "Unknown error.");
}

#[test]
fn options_defaults() {
    let o = AnprOptions::default();
    assert_eq!(o.min_plate_size, 500);
    assert_eq!(o.max_plate_size, 50000);
    assert_eq!(o.detect_mode, ANPR_DETECTCOMPLEXMODE);
    assert_eq!(o.max_text_size, 20);
    assert_eq!(o.type_number, 104);
    assert_eq!(o.flags, 0);
    assert_eq!(o.custom, 0);
    assert_eq!(o.vers, "1.6.0");
    assert_eq!(f64::from_bits(o.alpha), 90.0);
    assert_eq!(o.beta, DEFAULT_COEFFICIENT_BITS);
    assert_eq!(f64::from_bits(o.gamma), 90.0);
    assert_eq!(o.max_threads, 1);
}

#[test]
fn options_setters_chain() {
    let o = AnprOptions::default()
        .with_min_plate_size(100)
        .with_max_plate_size(9000)
        .with_detect_mode(2)
        .with_max_text_size(12)
        .with_type_number(7)
        .with_flags(3)
        .with_custom(0xbeef)
        .with_alpha(1.5f64.to_bits())
        .with_beta(2.5f64.to_bits())
        .with_gamma(3.5f64.to_bits())
        .with_max_threads(4);
    assert_eq!(o.min_plate_size, 100);
    assert_eq!(o.max_plate_size, 9000);
    assert_eq!(o.detect_mode, 2);
    assert_eq!(o.max_text_size, 12);
    assert_eq!(o.type_number, 7);
    assert_eq!(o.flags, 3);
    assert_eq!(o.custom, 0xbeef);
    assert_eq!(f64::from_bits(o.alpha), 1.5);
    assert_eq!(f64::from_bits(o.beta), 2.5);
    assert_eq!(f64::from_bits(o.gamma), 3.5);
    assert_eq!(o.max_threads, 4);
    assert_eq!(o.vers, "1.6.0");
}

#[test]
fn version_setter_accepts_plain_text() {
    let o = AnprOptions::default().with_type_number(9).with_vers("2.0.1").unwrap();
    assert_eq!(o.vers, "2.0.1");
    assert_eq!(o.type_number, 9);
}

#[test]
fn version_setter_rejects_embedded_nul() {
    let r = AnprOptions::default().with_vers("1.\u{0}6");
    assert_eq!(r.err(), Some(EncodingError { position: 2 }));
}

#[test]
fn is_full_type_checks_membership() {
    let full = [4, 7, 9, 310, 311, 911];
    assert!(AnprOptions::default().with_type_number(310).is_full_type(&full));
    assert!(!AnprOptions::default().is_full_type(&full));
    assert!(!AnprOptions::default().with_type_number(4).is_full_type(&[]));
}

#[test]
fn full_types_choose_original_others_grayscale() {
    let full = full_types();
    assert_eq!(full, vec![4, 7, 9, 310, 311, 911]);
    for t in [4, 7, 9, 310, 311, 911] {
        assert_eq!(select_path(t, &full), ColorPath::Original);
        let o = AnprOptions::default().with_type_number(t);
        assert!(o.is_full_type(&full));
        assert_eq!(path_of_options(&o), ColorPath::Original);
    }
    for t in [0, 1, 5, 104, 312, 910, -4] {
        assert_eq!(select_path(t, &full), ColorPath::ConvertToGrayscale);
        let o = AnprOptions::default().with_type_number(t);
        assert!(!o.is_full_type(&full));
        assert_eq!(path_of_options(&o), ColorPath::ConvertToGrayscale);
    }
}

#[test]
fn allocation_failure_at_each_index_releases_exactly_those_before() {
    let n = 5;
    let addrs: Vec<usize> = (1..=n).map(|i| 0x100 * i).collect();
    for k in 0..n {
        let mut grants = addrs.clone();
        grants[k] = 0;
        let (freed, outer, e) = allocate(n, 0x9000, &grants).err().unwrap();
        assert_eq!(e, AllocationError::Inner { index: k });
        assert_eq!(freed.len(), k);
        assert_eq!(freed, addrs[..k].to_vec());
        assert_eq!(outer, 0x9000);
    }
}

#[test]
fn allocation_of_outer_array_failing_allocates_nothing() {
    let r = allocate(3, 0, &[1, 2, 3]);
    let (freed, _, e) = r.err().unwrap();
    assert_eq!(e, AllocationError::Outer);
    assert!(freed.is_empty());
}

#[test]
fn allocation_success_and_release_frees_everything() {
    let a = allocate(3, 0x9000, &[0x10, 0x20, 0x30]).ok().unwrap();
    assert_eq!(a.len(), 3);
    assert_eq!(a.slot(1), 0x20);
    assert_eq!(a.outer(), 0x9000);
    let plan = a.release();
    assert_eq!(plan.inner, vec![0x10, 0x20, 0x30]);
    assert_eq!(plan.outer, 0x9000);
}

#[test]
fn allocation_of_no_buffers_completes_at_once() {
    let a = allocate(0, 0x9000, &[]).ok().unwrap();
    assert_eq!(a.len(), 0);
    assert_eq!(a.release().inner, Vec::<usize>::new());
}

#[test]
fn harvest_reads_texts_before_nul_and_skips_bad_utf8() {
    let rects = vec![rect(1), rect(2), rect(3), rect(4)];
    let texts = vec![text_buffer("A123BC77"), vec![0xff, 0xfe, 0], text_buffer(""), text_buffer("X9")];
    let r = harvest(&rects, &texts, 4);
    assert_eq!(r.len(), 3);
    assert_eq!(r[0].text, "A123BC77");
    assert_eq!(r[0].rect, rect(1));
    assert_eq!(r[1].text, "");
    assert_eq!(r[1].rect, rect(3));
    assert_eq!(r[2].text, "X9");
    assert_eq!(r[2].rect, rect(4));
}

#[test]
fn harvest_keeps_within_count_and_buffers() {
    let rects = vec![rect(1), rect(2)];
    let texts = vec![text_buffer("AA"), text_buffer("BB")];
    assert_eq!(harvest(&rects, &texts, 1).len(), 1);
    assert_eq!(harvest(&rects, &texts, 0).len(), 0);
    assert_eq!(harvest(&rects, &texts, -3).len(), 0);
    assert_eq!(harvest(&rects, &texts, 50).len(), 2);
    let full = vec![b'Q'; TEXT_CAPACITY];
    let r = harvest(&vec![rect(5)], &vec![full], 1);
    assert_eq!(r[0].text, "Q".repeat(TEXT_CAPACITY));
}

#[test]
fn recognize_empty_image_is_image_empty() {
    let o = AnprOptions::default();
    let null = AnprImage { ptr: 0, width: 640, height: 480, channels: 3 };
    assert_eq!(plan_recognition(&null, &o).err(), Some(AnprError::ImageEmpty));
    let flat = AnprImage { ptr: 0x1000, width: 0, height: 480, channels: 3 };
    assert_eq!(plan_recognition(&flat, &o).err(), Some(AnprError::ImageEmpty));
    let buffers = allocate(2, 0x9000, &[0x10, 0x20]).ok().unwrap();
    let (r, plan) = finish_recognition(-2, 0, &vec![], &vec![], buffers);
    assert_eq!(r, Err(AnprError::ImageEmpty));
    assert_eq!(plan.inner, vec![0x10, 0x20]);
}

#[test]
fn recognize_type_104_on_colour_image_converts_to_grayscale() {
    let o = AnprOptions::default();
    let call = plan_recognition(&colour_image(), &o).ok().unwrap();
    assert_eq!(call.path, ColorPath::ConvertToGrayscale);
    assert_eq!(call.channels, 1);
    assert_eq!(call.depth, 8);
    assert_eq!(call.capacity, MAX_PLATES);
    assert_eq!(call.options.type_number, 104);
}

#[test]
fn recognize_full_type_keeps_colour_image() {
    let o = AnprOptions::default().with_type_number(7);
    let call = plan_recognition(&colour_image(), &o).ok().unwrap();
    assert_eq!(call.path, ColorPath::Original);
    assert_eq!(call.channels, 3);
}

#[test]
fn engine_options_carry_signature_and_fields() {
    let o = AnprOptions::default().with_flags(5).with_vers("1.7.2").unwrap();
    let e = engine_options(&o);
    assert_eq!((e.sign1, e.sign2, e.sign3), (b'i', b'a', b'1'));
    assert_eq!(e.flags, 5);
    assert_eq!(e.vers, "1.7.2");
    assert_eq!(e.min_plate_size, 500);
    assert_eq!(e.alpha, o.alpha);
}

#[test]
fn recognize_success_returns_plates_with_their_rectangles() {
    let buffers = allocate(3, 0x9000, &[0x10, 0x20, 0x30]).ok().unwrap();
    let rects = vec![rect(1), rect(2), rect(3)];
    let texts = vec![text_buffer("K555OO"), text_buffer("M001AA"), text_buffer("unused")];
    let (r, plan) = finish_recognition(0, 2, &rects, &texts, buffers);
    let plates = r.unwrap();
    assert_eq!(plates.len(), 2);
    assert_eq!(plates[0].text, "K555OO");
    assert_eq!(plates[0].rect, rect(1));
    assert_eq!(plates[1].text, "M001AA");
    assert_eq!(plates[1].rect, rect(2));
    assert_eq!(plan.inner, vec![0x10, 0x20, 0x30]);
    assert_eq!(plan.outer, 0x9000);
}

#[test]
fn recognize_never_reports_more_than_capacity() {
    let buffers = allocate(1, 0x9000, &[0x10]).ok().unwrap();
    let rects: Vec<Rect> = (0..MAX_PLATES as i32).map(rect).collect();
    let texts: Vec<Vec<u8>> = (0..MAX_PLATES).map(|i| text_buffer(&format!("P{}", i))).collect();
    let (r, _) = finish_recognition(0, 1000, &rects, &texts, buffers);
    let plates = r.unwrap();
    assert_eq!(plates.len(), MAX_PLATES);
    assert_eq!(plates[99].text, "P99");
}

#[test]
fn recognize_engine_errors_map_to_kinds() {
    for (code, kind) in [
        (1, AnprError::Other(1)),
        (2, AnprError::Other(2)),
        (-100, AnprError::ErrorTypePlate),
        (-101, AnprError::ErrorTypeForColor),
        (-55, AnprError::Other(-55)),
    ] {
        let buffers = allocate(1, 0x9000, &[0x10]).ok().unwrap();
        let (r, plan) = finish_recognition(code, 1, &vec![rect(1)], &vec![text_buffer("AB")], buffers);
        assert_eq!(r, Err(kind));
        assert_eq!(plan.inner, vec![0x10]);
    }
}
