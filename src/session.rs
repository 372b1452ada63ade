use vstd::prelude::*;
use crate::color::{path_for, full_type_seq, path_of_options, ColorPath};
use crate::error::{status_meaning, AnprError};
use crate::geometry::{crosses, crosses_segment, AnprImage, Rect, Segment, Size};
use crate::options::AnprOptions;

verus! {

/// One entry of a detection result: a rectangle and the text read in it
/// (empty when the rectangle could not be read yet).
#[derive(Debug, Clone, PartialEq, Eq)]
pub struct Detection {
    pub rect: Rect,
    pub text: String,
}

/// Consensus parameters of a session.
#[derive(Debug, Clone, Copy, PartialEq, Eq, Structural)]
pub struct SessionConfig {
    /// Upper bound of the hit counter: votes older than this window do not add up.
    pub max_frames: u32,
    /// Hits after which a remembered candidate is committed.
    pub min_frames_with_plate: u32,
    /// Consecutive misses after which a remembered candidate is evicted.
    pub frames_without_plate: u32,
    /// Capacity of the candidate memory.
    pub max_plates_in_mem: usize,
}

impl SessionConfig {
    pub open spec fn wf(&self) -> bool {
        &&& self.max_frames >= 1
        &&& self.min_frames_with_plate >= 1
        &&& self.frames_without_plate >= 1
    }

    /// Whether the parameters can drive a session: every count is positive.
    pub fn is_valid(&self) -> (r: bool)
        ensures
            r == self.wf(),
    {
        self.max_frames >= 1 && self.min_frames_with_plate >= 1 && self.frames_without_plate >= 1
    }
}

/// Abstract state of one remembered candidate.
pub struct PlateTrack {
    pub text: Seq<char>,
    pub rect: Rect,
    pub hits: u32,
    pub misses: u32,
    pub committed: bool,
}

/// A candidate followed across frames.
#[derive(Debug)]
pub struct TrackedPlate {
    pub text: String,
    /// Where it was last seen.
    pub rect: Rect,
    /// Frames seen with it, up to the session's `max_frames`.
    pub hits: u32,
    /// Consecutive frames seen without it since its last hit.
    pub misses: u32,
    /// Whether it has reached the commit threshold.
    pub committed: bool,
}

impl View for TrackedPlate {
    type V = PlateTrack;

    open spec fn view(&self) -> PlateTrack {
        PlateTrack {
            text: self.text@,
            rect: self.rect,
            hits: self.hits,
            misses: self.misses,
            committed: self.committed,
        }
    }
}

pub open spec fn models(v: Seq<TrackedPlate>) -> Seq<PlateTrack> {
    v.map_values(|t: TrackedPlate| t@)
}

/// Index of the first detection among the first `n` whose text is `text`, or -1.
pub open spec fn match_index(dets: Seq<Detection>, text: Seq<char>, n: int) -> int
    decreases n,
{
    if n <= 0 {
        -1
    } else {
        let m = match_index(dets, text, n - 1);
        if m >= 0 {
            m
        } else if dets[n - 1].text@ == text {
            n - 1
        } else {
            -1
        }
    }
}

pub open spec fn first_match(dets: Seq<Detection>, text: Seq<char>) -> int {
    match_index(dets, text, dets.len() as int)
}

/// A remembered candidate seen again at detection `d`.
pub open spec fn hit_track(t: PlateTrack, d: Detection, cfg: SessionConfig) -> PlateTrack {
    let hits = if t.hits < cfg.max_frames { (t.hits + 1) as u32 } else { t.hits };
    PlateTrack {
        text: t.text,
        rect: d.rect,
        hits,
        misses: 0,
        committed: t.committed || hits >= cfg.min_frames_with_plate,
    }
}

/// Whether a candidate missed in this frame is evicted.
pub open spec fn evicted(t: PlateTrack, cfg: SessionConfig) -> bool {
    t.misses + 1 >= cfg.frames_without_plate
}

/// The first `n` remembered candidates after one frame: hits refreshed, misses
/// counted, evicted ones dropped, order kept.
pub open spec fn aged(tracks: Seq<PlateTrack>, dets: Seq<Detection>, cfg: SessionConfig, n: int) -> Seq<PlateTrack>
    decreases n,
{
    if n <= 0 {
        seq![]
    } else {
        let prev = aged(tracks, dets, cfg, n - 1);
        let t = tracks[n - 1];
        let m = first_match(dets, t.text);
        if m >= 0 {
            prev.push(hit_track(t, dets[m], cfg))
        } else if evicted(t, cfg) {
            prev
        } else {
            prev.push(PlateTrack { misses: (t.misses + 1) as u32, ..t })
        }
    }
}

pub open spec fn has_text(tracks: Seq<PlateTrack>, text: Seq<char>) -> bool {
    exists|i: int| 0 <= i < tracks.len() && tracks[i].text == text
}

/// A candidate seen for the first time.
pub open spec fn fresh_track(d: Detection, cfg: SessionConfig) -> PlateTrack {
    PlateTrack {
        text: d.text@,
        rect: d.rect,
        hits: 1,
        misses: 0,
        committed: 1 >= cfg.min_frames_with_plate,
    }
}

/// `tracks` with the first `n` detections admitted: a non-empty text that is
/// not remembered yet joins at the end while the memory has room.
pub open spec fn admitted(tracks: Seq<PlateTrack>, dets: Seq<Detection>, cfg: SessionConfig, n: int) -> Seq<PlateTrack>
    decreases n,
{
    if n <= 0 {
        tracks
    } else {
        let prev = admitted(tracks, dets, cfg, n - 1);
        let d = dets[n - 1];
        if d.text@.len() > 0 && !has_text(prev, d.text@) && prev.len() < cfg.max_plates_in_mem {
            prev.push(fresh_track(d, cfg))
        } else {
            prev
        }
    }
}

/// The remembered candidates after a frame with detections `dets`.
pub open spec fn next_tracks(tracks: Seq<PlateTrack>, dets: Seq<Detection>, cfg: SessionConfig) -> Seq<PlateTrack> {
    admitted(aged(tracks, dets, cfg, tracks.len() as int), dets, cfg, dets.len() as int)
}

/// How many of the first `n` remembered candidates cross `s` on their way to
/// this frame's matching detection.
pub open spec fn crossings_upto(tracks: Seq<PlateTrack>, dets: Seq<Detection>, s: Segment, n: int) -> nat
    decreases n,
{
    if n <= 0 {
        0
    } else {
        let m = first_match(dets, tracks[n - 1].text);
        crossings_upto(tracks, dets, s, n - 1) + if m >= 0 && crosses(s, tracks[n - 1].rect, dets[m].rect) {
            1nat
        } else {
            0nat
        }
    }
}

pub open spec fn frame_crossings(tracks: Seq<PlateTrack>, dets: Seq<Detection>, s: Segment) -> nat {
    crossings_upto(tracks, dets, s, tracks.len() as int)
}

/// `c + k`, held at `u64::MAX`.
pub open spec fn sat_add(c: u64, k: nat) -> u64 {
    if c + k > u64::MAX { u64::MAX } else { (c + k) as u64 }
}

/// The committed ones among the first `n` remembered candidates, in order.
pub open spec fn committed_upto(tracks: Seq<PlateTrack>, n: int) -> Seq<PlateTrack>
    decreases n,
{
    if n <= 0 {
        seq![]
    } else if tracks[n - 1].committed {
        committed_upto(tracks, n - 1).push(tracks[n - 1])
    } else {
        committed_upto(tracks, n - 1)
    }
}

pub open spec fn committed_of(tracks: Seq<PlateTrack>) -> Seq<PlateTrack> {
    committed_upto(tracks, tracks.len() as int)
}

/// The reported plates are exactly the given committed candidates.
pub open spec fn reports(r: Seq<Detection>, c: Seq<PlateTrack>) -> bool {
    &&& r.len() == c.len()
    &&& forall|i: int| 0 <= i < r.len() ==> r[i].text@ == c[i].text && r[i].rect == c[i].rect
}

/// Every remembered candidate respects the counters' bounds.
pub open spec fn tracks_bounded(tracks: Seq<PlateTrack>, cfg: SessionConfig) -> bool {
    &&& tracks.len() <= cfg.max_plates_in_mem
    &&& forall|i: int| 0 <= i < tracks.len() ==> 1 <= #[trigger] tracks[i].hits <= cfg.max_frames
        && tracks[i].misses < cfg.frames_without_plate
}

/// The detections a frame contributes: those reported with status zero, none otherwise.
pub open spec fn frame_dets(status: i32, dets: Seq<Detection>) -> Seq<Detection> {
    if status == 0 { dets } else { seq![] }
}

/// The crossing counters after a frame.
pub open spec fn next_counts(
    counts: (u64, u64),
    lines: Option<(Segment, Segment)>,
    tracks: Seq<PlateTrack>,
    dets: Seq<Detection>,
) -> (u64, u64) {
    match lines {
        None => counts,
        Some((a, b)) => (
            sat_add(counts.0, frame_crossings(tracks, dets, a)),
            sat_add(counts.1, frame_crossings(tracks, dets, b)),
        ),
    }
}

/// Once a match is found among the first `k` detections, looking further
/// finds the same one.
pub proof fn lemma_match_stable(dets: Seq<Detection>, text: Seq<char>, k: int, n: int)
    requires
        0 <= k <= n,
        match_index(dets, text, k) >= 0,
    ensures
        match_index(dets, text, n) == match_index(dets, text, k),
    decreases n - k,
{
    if n > k {
        lemma_match_stable(dets, text, k, n - 1);
    }
}

/// Index of the first detection whose text is `text`.
fn find_match(dets: &Vec<Detection>, text: &String) -> (r: Option<usize>)
    ensures
        match r {
            Some(m) => m == first_match(dets@, text@) && m < dets@.len(),
            None => first_match(dets@, text@) == -1,
        },
{
    let mut i: usize = 0;
    while i < dets.len()
        invariant
            i <= dets@.len(),
            match_index(dets@, text@, i as int) == -1,
        decreases dets@.len() - i,
    {
        if dets[i].text == *text {
            assert(match_index(dets@, text@, i as int + 1) == i);
            proof {
                lemma_match_stable(dets@, text@, i as int + 1, dets@.len() as int);
            }
            return Some(i);
        }
        i = i + 1;
    }
    None
}

/// Whether some remembered candidate carries `text`.
fn has_text_exec(tracks: &Vec<TrackedPlate>, text: &String) -> (r: bool)
    ensures
        r == has_text(models(tracks@), text@),
{
    let mut i: usize = 0;
    while i < tracks.len()
        invariant
            i <= tracks@.len(),
            forall|j: int| 0 <= j < i ==> tracks@[j].text@ != text@,
        decreases tracks@.len() - i,
    {
        if tracks[i].text == *text {
            assert(models(tracks@)[i as int].text == text@);
            return true;
        }
        i = i + 1;
    }
    assert forall|j: int| 0 <= j < models(tracks@).len() implies models(tracks@)[j].text != text@ by {
        assert(models(tracks@)[j] == tracks@[j]@);
    }
    false
}

/// `c + 1`, held at `u64::MAX`.
fn bump(c: u64) -> (r: u64)
    ensures
        r == sat_add(c, 1),
{
    if c < u64::MAX { c + 1 } else { c }
}

/// Refreshes, ages and evicts the remembered candidates for one frame, and
/// counts line crossings of those seen again.
fn age_tracks(
    tracks: &Vec<TrackedPlate>,
    dets: &Vec<Detection>,
    cfg: SessionConfig,
    lines: Option<(Segment, Segment)>,
    counts: (u64, u64),
) -> (r: (Vec<TrackedPlate>, (u64, u64)))
    requires
        cfg.wf(),
        tracks_bounded(models(tracks@), cfg),
    ensures
        models(r.0@) == aged(models(tracks@), dets@, cfg, tracks@.len() as int),
        r.0@.len() <= tracks@.len(),
        tracks_bounded(models(r.0@), cfg),
        r.1 == next_counts(counts, lines, models(tracks@), dets@),
{
    let ghost mt = models(tracks@);
    let mut out: Vec<TrackedPlate> = Vec::new();
    let mut c0: u64 = counts.0;
    let mut c1: u64 = counts.1;
    let mut i: usize = 0;
    while i < tracks.len()
        invariant
            mt == models(tracks@),
            cfg.wf(),
            tracks_bounded(mt, cfg),
            i <= tracks@.len(),
            out@.len() <= i,
            models(out@) == aged(mt, dets@, cfg, i as int),
            forall|j: int| 0 <= j < out@.len() ==> 1 <= #[trigger] out@[j].hits <= cfg.max_frames
                && out@[j].misses < cfg.frames_without_plate,
            match lines {
                None => c0 == counts.0 && c1 == counts.1,
                Some((a, b)) => c0 == sat_add(counts.0, crossings_upto(mt, dets@, a, i as int))
                    && c1 == sat_add(counts.1, crossings_upto(mt, dets@, b, i as int)),
            },
        decreases tracks@.len() - i,
    {
        let t = &tracks[i];
        assert(mt[i as int] == t@);
        assert(1 <= mt[i as int].hits <= cfg.max_frames && mt[i as int].misses < cfg.frames_without_plate);
        let m = find_match(dets, &t.text);
        let ghost before = out@;
        match m {
            Some(k) => {
                let d = &dets[k];
                let hits = if t.hits < cfg.max_frames { t.hits + 1 } else { t.hits };
                if let Some((a, b)) = lines {
                    if crosses_segment(&a, &t.rect, &d.rect) {
                        c0 = bump(c0);
                    }
                    if crosses_segment(&b, &t.rect, &d.rect) {
                        c1 = bump(c1);
                    }
                }
                let nt = TrackedPlate {
                    text: t.text.clone(),
                    rect: d.rect,
                    hits,
                    misses: 0,
                    committed: t.committed || hits >= cfg.min_frames_with_plate,
                };
                assert(nt@ == hit_track(mt[i as int], dets@[k as int], cfg));
                out.push(nt);
                assert(models(out@) =~= models(before).push(nt@));
            },
            None => {
                if t.misses + 1 < cfg.frames_without_plate {
                    let nt = TrackedPlate {
                        text: t.text.clone(),
                        rect: t.rect,
                        hits: t.hits,
                        misses: t.misses + 1,
                        committed: t.committed,
                    };
                    assert(nt@ == (PlateTrack { misses: (mt[i as int].misses + 1) as u32, ..mt[i as int] }));
                    out.push(nt);
                    assert(models(out@) =~= models(before).push(nt@));
                }
            },
        }
        i = i + 1;
    }
    assert(mt.len() == tracks@.len());
    assert(models(out@).len() == out@.len());
    assert forall|j: int| 0 <= j < models(out@).len() implies 1 <= #[trigger] models(out@)[j].hits <= cfg.max_frames
        && models(out@)[j].misses < cfg.frames_without_plate by {
        assert(models(out@)[j] == out@[j]@);
    }
    (out, (c0, c1))
}

/// Admits this frame's new texts into memory while it has room.
fn admit_tracks(tracks: Vec<TrackedPlate>, dets: &Vec<Detection>, cfg: SessionConfig) -> (r: Vec<TrackedPlate>)
    requires
        cfg.wf(),
        tracks_bounded(models(tracks@), cfg),
    ensures
        models(r@) == admitted(models(tracks@), dets@, cfg, dets@.len() as int),
        tracks_bounded(models(r@), cfg),
{
    let ghost start = models(tracks@);
    let mut out = tracks;
    let mut j: usize = 0;
    while j < dets.len()
        invariant
            cfg.wf(),
            j <= dets@.len(),
            models(out@) == admitted(start, dets@, cfg, j as int),
            tracks_bounded(models(out@), cfg),
        decreases dets@.len() - j,
    {
        let d = &dets[j];
        if !d.text.as_str().is_empty() && !has_text_exec(&out, &d.text) && out.len() < cfg.max_plates_in_mem {
            let nt = TrackedPlate {
                text: d.text.clone(),
                rect: d.rect,
                hits: 1,
                misses: 0,
                committed: 1 >= cfg.min_frames_with_plate,
            };
            let ghost before = out@;
            out.push(nt);
            assert(models(out@) =~= models(before).push(nt@));
            assert(nt@ == fresh_track(dets@[j as int], cfg));
        }
        j = j + 1;
    }
    out
}

/// The committed candidates, as detections.
fn committed_list(tracks: &Vec<TrackedPlate>) -> (r: Vec<Detection>)
    ensures
        reports(r@, committed_of(models(tracks@))),
{
    let ghost mt = models(tracks@);
    let mut out: Vec<Detection> = Vec::new();
    let mut i: usize = 0;
    while i < tracks.len()
        invariant
            mt == models(tracks@),
            i <= tracks@.len(),
            reports(out@, committed_upto(mt, i as int)),
        decreases tracks@.len() - i,
    {
        assert(mt[i as int] == tracks@[i as int]@);
        if tracks[i].committed {
            out.push(Detection { rect: tracks[i].rect, text: tracks[i].text.clone() });
        }
        i = i + 1;
    }
    out
}

/// Why a session refused a frame or could not be set up.
#[derive(Debug, Clone, Copy, PartialEq, Eq, Structural)]
pub enum SessionError {
    /// A consensus parameter is zero.
    InvalidConfig,
    /// The first frame has no pixels, so no geometry can be bound.
    EmptyFrame,
    /// The frame's geometry differs from the one bound at creation.
    GeometryMismatch { expected: Size, found: Size },
    /// The session was closed.
    Closed,
    /// The engine reported a status other than success for this frame.
    Engine(AnprError),
}

/// A recognition session bound to the geometry of its first frame.
pub struct Session {
    size: Size,
    path: ColorPath,
    config: SessionConfig,
    plates: Vec<TrackedPlate>,
    lines: Option<(Segment, Segment)>,
    counts: (u64, u64),
    closed: bool,
}

impl Session {
    pub closed spec fn spec_size(&self) -> Size {
        self.size
    }

    pub closed spec fn spec_path(&self) -> ColorPath {
        self.path
    }

    pub closed spec fn spec_config(&self) -> SessionConfig {
        self.config
    }

    pub closed spec fn spec_tracks(&self) -> Seq<PlateTrack> {
        models(self.plates@)
    }

    pub closed spec fn spec_lines(&self) -> Option<(Segment, Segment)> {
        self.lines
    }

    pub closed spec fn spec_counts(&self) -> (u64, u64) {
        self.counts
    }

    pub closed spec fn spec_closed(&self) -> bool {
        self.closed
    }

    pub closed spec fn wf(&self) -> bool {
        &&& self.config.wf()
        &&& tracks_bounded(self.spec_tracks(), self.config)
    }

    /// Opens a session on the first frame: binds its geometry, decides the
    /// colour path once from the options, and starts with empty memory.
    pub fn new(first: &AnprImage, options: &AnprOptions, config: SessionConfig) -> (r: Result<Session, SessionError>)
        ensures
            !config.wf() ==> r == Err::<Session, SessionError>(SessionError::InvalidConfig),
            config.wf() && first.spec_is_empty() ==> r == Err::<Session, SessionError>(SessionError::EmptyFrame),
            config.wf() && !first.spec_is_empty() ==> (r matches Ok(s) && s.wf()
                && s.spec_size() == (Size { width: first.width, height: first.height })
                && s.spec_path() == path_for(options.type_number, full_type_seq())
                && s.spec_config() == config
                && s.spec_tracks().len() == 0
                && s.spec_lines().is_none()
                && s.spec_counts() == (0u64, 0u64)
                && !s.spec_closed()),
    {
        if !config.is_valid() {
            return Err(SessionError::InvalidConfig);
        }
        if first.is_empty() {
            return Err(SessionError::EmptyFrame);
        }
        let s = Session {
            size: first.get_size(),
            path: path_of_options(options),
            config,
            plates: Vec::new(),
            lines: None,
            counts: (0, 0),
            closed: false,
        };
        assert(s.spec_tracks() =~= Seq::<PlateTrack>::empty());
        Ok(s)
    }

    /// Feeds one frame: its geometry must match the bound one, `status` is the
    /// engine's status for it and `dets` the detections it reported. A frame
    /// with a non-zero status counts as one without detections and its status
    /// is reported; the session stays open either way. Returns the committed
    /// candidates after the frame.
    pub fn add_frame(&mut self, frame: &AnprImage, status: i32, dets: &Vec<Detection>) -> (r: Result<Vec<Detection>, SessionError>)
        requires
            old(self).wf(),
        ensures
            final(self).wf(),
            old(self).spec_closed() ==> r == Err::<Vec<Detection>, SessionError>(SessionError::Closed)
                && *final(self) == *old(self),
            !old(self).spec_closed() && (Size { width: frame.width, height: frame.height }) != old(self).spec_size()
                ==> r == Err::<Vec<Detection>, SessionError>(SessionError::GeometryMismatch {
                    expected: old(self).spec_size(),
                    found: Size { width: frame.width, height: frame.height },
                }) && *final(self) == *old(self),
            !old(self).spec_closed() && (Size { width: frame.width, height: frame.height }) == old(self).spec_size() ==> {
                &&& final(self).spec_tracks() == next_tracks(old(self).spec_tracks(), frame_dets(status, dets@), old(self).spec_config())
                &&& final(self).spec_counts() == next_counts(old(self).spec_counts(), old(self).spec_lines(), old(self).spec_tracks(), frame_dets(status, dets@))
                &&& final(self).spec_size() == old(self).spec_size()
                &&& final(self).spec_path() == old(self).spec_path()
                &&& final(self).spec_config() == old(self).spec_config()
                &&& final(self).spec_lines() == old(self).spec_lines()
                &&& !final(self).spec_closed()
                &&& status == 0 ==> (r matches Ok(v) && reports(v@, committed_of(final(self).spec_tracks())))
                &&& status != 0 ==> (status_meaning(status) matches Err(e)
                    && r == Err::<Vec<Detection>, SessionError>(SessionError::Engine(e)))
            },
    {
        if self.closed {
            return Err(SessionError::Closed);
        }
        let found = frame.get_size();
        if found != self.size {
            return Err(SessionError::GeometryMismatch { expected: self.size, found });
        }
        let empty: Vec<Detection> = Vec::new();
        let used: &Vec<Detection> = if status == 0 { dets } else { &empty };
        assert(used@ =~= frame_dets(status, dets@));
        let (aged_tracks, counts) = age_tracks(&self.plates, used, self.config, self.lines, self.counts);
        let next = admit_tracks(aged_tracks, used, self.config);
        self.plates = next;
        self.counts = counts;
        match AnprError::from_code(status) {
            Ok(()) => Ok(committed_list(&self.plates)),
            Err(e) => Err(SessionError::Engine(e)),
        }
    }

    /// A session never remembers more candidates than its memory capacity, and
    /// each remembered candidate has between one and `max_frames` hits and
    /// fewer misses than the eviction bound.
    pub proof fn lemma_memory_bounded(&self)
        requires
            self.wf(),
        ensures
            tracks_bounded(self.spec_tracks(), self.spec_config()),
            self.spec_tracks().len() <= self.spec_config().max_plates_in_mem,
    {
    }

    /// The bound frame geometry.
    pub fn size(&self) -> (r: Size)
        ensures
            r == self.spec_size(),
    {
        self.size
    }

    /// The colour path applied to every frame of this session.
    pub fn color_path(&self) -> (r: ColorPath)
        ensures
            r == self.spec_path(),
    {
        self.path
    }

    /// The crossing counters of the two configured lines.
    pub fn crossings(&self) -> (r: (u64, u64))
        ensures
            r == self.spec_counts(),
    {
        self.counts
    }

    pub fn is_closed(&self) -> (r: bool)
        ensures
            r == self.spec_closed(),
    {
        self.closed
    }

    /// Configures the two counting lines and resets their counters.
    pub fn configure_lines(&mut self, first: Segment, second: Segment)
        ensures
            final(self).spec_lines() == Some((first, second)),
            final(self).spec_counts() == (0u64, 0u64),
            final(self).spec_size() == old(self).spec_size(),
            final(self).spec_path() == old(self).spec_path(),
            final(self).spec_config() == old(self).spec_config(),
            final(self).spec_tracks() == old(self).spec_tracks(),
            final(self).spec_closed() == old(self).spec_closed(),
            old(self).wf() ==> final(self).wf(),
    {
        self.lines = Some((first, second));
        self.counts = (0, 0);
    }

    /// Closes the session. Returns whether this call closed it, so that the
    /// engine-side handle is released exactly once.
    pub fn close(&mut self) -> (r: bool)
        ensures
            r == !old(self).spec_closed(),
            final(self).spec_closed(),
            final(self).spec_tracks() == old(self).spec_tracks(),
            final(self).spec_counts() == old(self).spec_counts(),
            final(self).spec_lines() == old(self).spec_lines(),
            final(self).spec_size() == old(self).spec_size(),
            final(self).spec_config() == old(self).spec_config(),
            old(self).wf() ==> final(self).wf(),
    {
        let was_open = !self.closed;
        self.closed = true;
        was_open
    }
}

} // verus!
