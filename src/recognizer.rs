use vstd::prelude::*;
use crate::color::{full_type_seq, path_for, path_of_options, ColorPath};
use crate::error::{status_meaning, AnprError};
use crate::exchange::{entries_to_read, harvest, harvested, same_entries, BufferArray, ReleasePlan};
use crate::geometry::{AnprImage, Rect};
use crate::options::AnprOptions;
use crate::session::Detection;

verus! {

/// Most plates one engine call may report.
pub const MAX_PLATES: usize = 100;

/// The options record in the engine's layout: the three-byte signature tag
/// followed by the caller's options, field for field.
pub struct EngineOptions {
    pub sign1: u8,
    pub sign2: u8,
    pub sign3: u8,
    pub min_plate_size: i32,
    pub max_plate_size: i32,
    pub detect_mode: i32,
    pub max_text_size: i32,
    pub type_number: i32,
    pub flags: i32,
    pub custom: usize,
    pub vers: String,
    pub alpha: u64,
    pub beta: u64,
    pub gamma: u64,
    pub max_threads: i32,
}

/// `e` carries the signature tag "ia1" and every field of `o`.
pub open spec fn engine_copy(e: EngineOptions, o: AnprOptions) -> bool {
    &&& e.sign1 == 0x69u8 && e.sign2 == 0x61u8 && e.sign3 == 0x31u8
    &&& e.min_plate_size == o.min_plate_size
    &&& e.max_plate_size == o.max_plate_size
    &&& e.detect_mode == o.detect_mode
    &&& e.max_text_size == o.max_text_size
    &&& e.type_number == o.type_number
    &&& e.flags == o.flags
    &&& e.custom == o.custom
    &&& e.vers@ == o.vers@
    &&& e.alpha == o.alpha
    &&& e.beta == o.beta
    &&& e.gamma == o.gamma
    &&& e.max_threads == o.max_threads
}

/// Builds the engine's options record from the caller's options.
pub fn engine_options(o: &AnprOptions) -> (r: EngineOptions)
    ensures
        engine_copy(r, *o),
{
    EngineOptions {
        sign1: 0x69u8,
        sign2: 0x61u8,
        sign3: 0x31u8,
        min_plate_size: o.min_plate_size,
        max_plate_size: o.max_plate_size,
        detect_mode: o.detect_mode,
        max_text_size: o.max_text_size,
        type_number: o.type_number,
        flags: o.flags,
        custom: o.custom,
        vers: o.vers.clone(),
        alpha: o.alpha,
        beta: o.beta,
        gamma: o.gamma,
        max_threads: o.max_threads,
    }
}

/// What one engine call is to receive.
pub struct EngineCall {
    /// Whether the frame goes as captured or converted to grayscale first.
    pub path: ColorPath,
    /// Channels of the image the engine receives (one after conversion).
    pub channels: i32,
    /// Bits per channel of the image the engine receives.
    pub depth: i32,
    /// Most entries the engine may write.
    pub capacity: usize,
    pub options: EngineOptions,
}

/// Prepares a one-shot recognition: an empty image is refused at once;
/// otherwise the colour path is chosen from the plate type, and a type outside
/// the full-colour set sends an 8-bit single-channel image to the engine.
pub fn plan_recognition(image: &AnprImage, options: &AnprOptions) -> (r: Result<EngineCall, AnprError>)
    ensures
        image.spec_is_empty() ==> r == Err::<EngineCall, AnprError>(AnprError::ImageEmpty),
        !image.spec_is_empty() ==> (r matches Ok(c)
            && c.path == path_for(options.type_number, full_type_seq())
            && (c.path == ColorPath::ConvertToGrayscale ==> c.channels == 1 && c.depth == 8)
            && (c.path == ColorPath::Original ==> c.channels == image.channels && c.depth == 8)
            && c.capacity == MAX_PLATES
            && engine_copy(c.options, *options)),
{
    if image.is_empty() {
        return Err(AnprError::ImageEmpty);
    }
    let path = path_of_options(options);
    let channels = match path {
        ColorPath::Original => image.channels,
        ColorPath::ConvertToGrayscale => 1,
    };
    Ok(EngineCall { path, channels, depth: 8, capacity: MAX_PLATES, options: engine_options(options) })
}

/// Finishes a one-shot recognition from the engine's status, the count it
/// reported and the rectangles and text buffers it filled. On status zero the
/// decoded plates come back in the engine's order, never more than the
/// capacity; any other status maps onto its error kind. The buffer array is
/// released whatever the outcome.
pub fn finish_recognition(
    status: i32,
    count: i32,
    rects: &Vec<Rect>,
    texts: &Vec<Vec<u8>>,
    buffers: BufferArray,
) -> (r: (Result<Vec<Detection>, AnprError>, ReleasePlan))
    requires
        texts@.len() <= MAX_PLATES,
    ensures
        r.1.inner@ == buffers.spec_slots(),
        r.1.outer == buffers.spec_outer(),
        status == 0 ==> (r.0 matches Ok(v)
            && same_entries(v@, harvested(rects@, texts@, entries_to_read(count, rects@, texts@)))
            && v@.len() <= MAX_PLATES),
        status != 0 ==> (status_meaning(status) matches Err(e) && r.0 == Err::<Vec<Detection>, AnprError>(e)),
{
    let plan = buffers.release();
    match AnprError::from_code(status) {
        Ok(()) => (Ok(harvest(rects, texts, count)), plan),
        Err(e) => (Err(e), plan),
    }
}

} // verus!
