use vstd::prelude::*;
use crate::session::{
    aged, admitted, first_match, lemma_match_stable, fresh_track, has_text, hit_track, match_index,
    next_tracks, Detection, PlateTrack, SessionConfig,
};

verus! {

/// The remembered candidates after feeding `frames` in order.
pub open spec fn run_frames(tracks: Seq<PlateTrack>, frames: Seq<Seq<Detection>>, cfg: SessionConfig) -> Seq<PlateTrack>
    decreases frames.len(),
{
    if frames.len() == 0 {
        tracks
    } else {
        next_tracks(run_frames(tracks, frames.drop_last(), cfg), frames.last(), cfg)
    }
}

/// Some detection of the frame carries text `x`.
pub open spec fn shows(dets: Seq<Detection>, x: Seq<char>) -> bool {
    exists|i: int| 0 <= i < dets.len() && #[trigger] dets[i].text@ == x
}

/// `x` is remembered, and every remembered candidate with text `x` has `h`
/// hits and commitment `c`.
pub open spec fn text_state(tracks: Seq<PlateTrack>, x: Seq<char>, h: u32, c: bool) -> bool {
    &&& has_text(tracks, x)
    &&& forall|j: int| 0 <= j < tracks.len() && #[trigger] tracks[j].text == x ==> tracks[j].hits == h && tracks[j].committed == c
}

/// Hit counter after `n` frames in a row showing a plate.
pub open spec fn hits_after(n: nat, cfg: SessionConfig) -> u32 {
    if n < cfg.max_frames { n as u32 } else { cfg.max_frames }
}

proof fn lemma_match_shows(dets: Seq<Detection>, x: Seq<char>, n: int)
    requires
        0 <= n <= dets.len(),
    ensures
        -1 <= match_index(dets, x, n) < n,
        match_index(dets, x, n) >= 0 ==> dets[match_index(dets, x, n)].text@ == x,
        match_index(dets, x, n) == -1 <==> forall|i: int| 0 <= i < n ==> dets[i].text@ != x,
    decreases n,
{
    if n > 0 {
        lemma_match_shows(dets, x, n - 1);
        if match_index(dets, x, n - 1) >= 0 {
            assert(!(forall|i: int| 0 <= i < n ==> dets[i].text@ != x)) by {
                let m = match_index(dets, x, n - 1);
                assert(dets[m].text@ == x);
            }
        }
    }
}

proof fn lemma_first_match_shows(dets: Seq<Detection>, x: Seq<char>)
    ensures
        first_match(dets, x) >= 0 <==> shows(dets, x),
        first_match(dets, x) >= 0 ==> first_match(dets, x) < dets.len() && dets[first_match(dets, x)].text@ == x,
{
    lemma_match_shows(dets, x, dets.len() as int);
    if first_match(dets, x) >= 0 {
        let m = first_match(dets, x);
        assert(dets[m].text@ == x);
    } else if shows(dets, x) {
        let i = choose|i: int| 0 <= i < dets.len() && #[trigger] dets[i].text@ == x;
        assert(dets[i].text@ == x);
    }
}

proof fn lemma_aged_len(tracks: Seq<PlateTrack>, dets: Seq<Detection>, cfg: SessionConfig, n: int)
    requires
        0 <= n <= tracks.len(),
    ensures
        aged(tracks, dets, cfg, n).len() <= n,
    decreases n,
{
    if n > 0 {
        lemma_aged_len(tracks, dets, cfg, n - 1);
    }
}

/// A text absent from the first `n` candidates is absent after ageing them.
proof fn lemma_aged_no_new_text(tracks: Seq<PlateTrack>, dets: Seq<Detection>, cfg: SessionConfig, x: Seq<char>, n: int)
    requires
        0 <= n <= tracks.len(),
        forall|i: int| 0 <= i < n ==> tracks[i].text != x,
    ensures
        !has_text(aged(tracks, dets, cfg, n), x),
    decreases n,
{
    if n > 0 {
        lemma_aged_no_new_text(tracks, dets, cfg, x, n - 1);
        let prev = aged(tracks, dets, cfg, n - 1);
        let cur = aged(tracks, dets, cfg, n);
        assert forall|j: int| 0 <= j < cur.len() implies cur[j].text != x by {
            if j < prev.len() {
                assert(cur[j] == prev[j]);
                assert(!(0 <= j < prev.len() && prev[j].text == x));
            }
        }
    }
}

/// Ageing on a frame that shows `x` refreshes every candidate with text `x`
/// alike and keeps them.
proof fn lemma_aged_hit(tracks: Seq<PlateTrack>, dets: Seq<Detection>, cfg: SessionConfig, x: Seq<char>, h: u32, c: bool, n: int)
    requires
        0 <= n <= tracks.len(),
        first_match(dets, x) >= 0,
        forall|j: int| 0 <= j < tracks.len() && #[trigger] tracks[j].text == x ==> tracks[j].hits == h && tracks[j].committed == c,
    ensures
        ({
            let h2: u32 = if h < cfg.max_frames { (h + 1) as u32 } else { h };
            let r = aged(tracks, dets, cfg, n);
            &&& forall|j: int| 0 <= j < r.len() && #[trigger] r[j].text == x ==> r[j].hits == h2
                && r[j].committed == (c || h2 >= cfg.min_frames_with_plate)
            &&& (exists|i: int| 0 <= i < n && #[trigger] tracks[i].text == x) ==> has_text(r, x)
        }),
    decreases n,
{
    if n > 0 {
        lemma_aged_hit(tracks, dets, cfg, x, h, c, n - 1);
        let prev = aged(tracks, dets, cfg, n - 1);
        let cur = aged(tracks, dets, cfg, n);
        let t = tracks[n - 1];
        if t.text == x {
            assert(cur == prev.push(hit_track(t, dets[first_match(dets, x)], cfg)));
            assert(cur[prev.len() as int].text == x);
        } else if (exists|i: int| 0 <= i < n && #[trigger] tracks[i].text == x) {
            let i = choose|i: int| 0 <= i < n && #[trigger] tracks[i].text == x;
            assert(i < n - 1);
            let k = choose|k: int| 0 <= k < prev.len() && prev[k].text == x;
            assert(cur[k] == prev[k]);
        }
        let h2: u32 = if h < cfg.max_frames { (h + 1) as u32 } else { h };
        assert forall|j: int| 0 <= j < cur.len() && #[trigger] cur[j].text == x implies cur[j].hits == h2
            && cur[j].committed == (c || h2 >= cfg.min_frames_with_plate) by {
            if j < prev.len() {
                assert(cur[j] == prev[j]);
            }
        }
    }
}

/// Ageing on a frame that does not show `x`: every candidate with text `x`
/// that stays has one miss more than before and fewer than the eviction bound.
proof fn lemma_aged_miss(tracks: Seq<PlateTrack>, dets: Seq<Detection>, cfg: SessionConfig, x: Seq<char>, k: nat, n: int)
    requires
        0 <= n <= tracks.len(),
        first_match(dets, x) == -1,
        forall|j: int| 0 <= j < tracks.len() && #[trigger] tracks[j].text == x ==> tracks[j].misses >= k,
    ensures
        ({
            let r = aged(tracks, dets, cfg, n);
            forall|j: int| 0 <= j < r.len() && #[trigger] r[j].text == x ==> k + 1 <= r[j].misses < cfg.frames_without_plate
        }),
    decreases n,
{
    if n > 0 {
        lemma_aged_miss(tracks, dets, cfg, x, k, n - 1);
        let prev = aged(tracks, dets, cfg, n - 1);
        let cur = aged(tracks, dets, cfg, n);
        assert forall|j: int| 0 <= j < cur.len() && #[trigger] cur[j].text == x implies k + 1 <= cur[j].misses < cfg.frames_without_plate by {
            if j < prev.len() {
                assert(cur[j] == prev[j]);
            }
        }
    }
}

/// Once `x` is remembered with hits `h` and commitment `c`, admitting more
/// detections changes neither.
proof fn lemma_admitted_keeps(start: Seq<PlateTrack>, dets: Seq<Detection>, cfg: SessionConfig, x: Seq<char>, h: u32, c: bool, k: int, n: int)
    requires
        0 <= k <= n <= dets.len(),
        text_state(admitted(start, dets, cfg, k), x, h, c),
    ensures
        text_state(admitted(start, dets, cfg, n), x, h, c),
    decreases n - k,
{
    if n > k {
        lemma_admitted_keeps(start, dets, cfg, x, h, c, k, n - 1);
        let prev = admitted(start, dets, cfg, n - 1);
        let cur = admitted(start, dets, cfg, n);
        let i = choose|i: int| 0 <= i < prev.len() && prev[i].text == x;
        assert(cur[i] == prev[i]);
        assert forall|j: int| 0 <= j < cur.len() && #[trigger] cur[j].text == x implies cur[j].hits == h && cur[j].committed == c by {
            if j < prev.len() {
                assert(cur[j] == prev[j]);
            }
        }
    }
}

/// Admitting detections none of which carries `x` adds no candidate with
/// text `x` and keeps the ones before.
proof fn lemma_admitted_without(start: Seq<PlateTrack>, dets: Seq<Detection>, cfg: SessionConfig, x: Seq<char>, n: int)
    requires
        0 <= n <= dets.len(),
        forall|i: int| 0 <= i < n ==> dets[i].text@ != x,
    ensures
        ({
            let r = admitted(start, dets, cfg, n);
            &&& r.len() <= start.len() + n
            &&& start.len() <= r.len()
            &&& forall|j: int| 0 <= j < start.len() ==> r[j] == start[j]
            &&& forall|j: int| start.len() <= j < r.len() ==> r[j].text != x
        }),
    decreases n,
{
    if n > 0 {
        lemma_admitted_without(start, dets, cfg, x, n - 1);
    }
}

/// A plate not remembered yet and shown in a frame with room for all its
/// detections is remembered afterwards with one hit.
proof fn lemma_first_sighting(tracks: Seq<PlateTrack>, dets: Seq<Detection>, cfg: SessionConfig, x: Seq<char>)
    requires
        x.len() > 0,
        !has_text(tracks, x),
        shows(dets, x),
        tracks.len() + dets.len() <= cfg.max_plates_in_mem,
    ensures
        text_state(next_tracks(tracks, dets, cfg), x, 1, 1 >= cfg.min_frames_with_plate),
{
    lemma_first_match_shows(dets, x);
    let m = first_match(dets, x);
    lemma_match_shows(dets, x, m);
    assert(match_index(dets, x, m) == -1) by {
        lemma_match_shows(dets, x, dets.len() as int);
        if match_index(dets, x, m) >= 0 {
            lemma_match_stable(dets, x, m, dets.len() as int);
        }
    }
    let n = tracks.len() as int;
    assert forall|i: int| 0 <= i < n implies tracks[i].text != x by {
        assert(!(0 <= i < tracks.len() && tracks[i].text == x));
    }
    lemma_aged_no_new_text(tracks, dets, cfg, x, n);
    lemma_aged_len(tracks, dets, cfg, n);
    let start = aged(tracks, dets, cfg, n);
    lemma_admitted_without(start, dets, cfg, x, m);
    let prev = admitted(start, dets, cfg, m);
    assert(!has_text(prev, x)) by {
        if has_text(prev, x) {
            let j = choose|j: int| 0 <= j < prev.len() && prev[j].text == x;
            if j < start.len() {
                assert(prev[j] == start[j]);
                assert(0 <= j < start.len() && start[j].text == x);
            }
        }
    }
    let cur = admitted(start, dets, cfg, m + 1);
    assert(cur == prev.push(fresh_track(dets[m], cfg)));
    assert(text_state(cur, x, 1, 1 >= cfg.min_frames_with_plate)) by {
        assert(cur[prev.len() as int].text == x);
        assert forall|j: int| 0 <= j < cur.len() && #[trigger] cur[j].text == x implies cur[j].hits == 1
            && cur[j].committed == (1 >= cfg.min_frames_with_plate) by {
            if j < prev.len() {
                assert(cur[j] == prev[j]);
                assert(0 <= j < prev.len() && prev[j].text == x);
            }
        }
    }
    lemma_admitted_keeps(start, dets, cfg, x, 1, 1 >= cfg.min_frames_with_plate, m + 1, dets.len() as int);
}

/// One more frame showing a remembered plate.
proof fn lemma_seen_again(tracks: Seq<PlateTrack>, dets: Seq<Detection>, cfg: SessionConfig, x: Seq<char>, h: u32, c: bool)
    requires
        text_state(tracks, x, h, c),
        shows(dets, x),
    ensures
        ({
            let h2: u32 = if h < cfg.max_frames { (h + 1) as u32 } else { h };
            text_state(next_tracks(tracks, dets, cfg), x, h2, c || h2 >= cfg.min_frames_with_plate)
        }),
{
    lemma_first_match_shows(dets, x);
    let n = tracks.len() as int;
    let i = choose|i: int| 0 <= i < tracks.len() && tracks[i].text == x;
    assert(tracks[i].text == x);
    lemma_aged_hit(tracks, dets, cfg, x, h, c, n);
    let h2: u32 = if h < cfg.max_frames { (h + 1) as u32 } else { h };
    lemma_admitted_keeps(aged(tracks, dets, cfg, n), dets, cfg, x, h2, c || h2 >= cfg.min_frames_with_plate, 0, dets.len() as int);
}

/// Temporal consensus, commit side: a plate that is not remembered and then
/// shows in every one of `n` consecutive frames (the first with room in
/// memory for all its detections) is remembered after them with
/// `min(n, max_frames)` hits, and is committed exactly when that count has
/// reached `min_frames_with_plate`. So it is committed on the frame where the
/// threshold is reached and not before.
pub proof fn lemma_commit_on_threshold(tracks: Seq<PlateTrack>, frames: Seq<Seq<Detection>>, cfg: SessionConfig, x: Seq<char>)
    requires
        cfg.wf(),
        x.len() > 0,
        !has_text(tracks, x),
        frames.len() >= 1,
        forall|f: int| 0 <= f < frames.len() ==> shows(#[trigger] frames[f], x),
        tracks.len() + frames[0].len() <= cfg.max_plates_in_mem,
    ensures
        text_state(run_frames(tracks, frames, cfg), x, hits_after(frames.len(), cfg),
            hits_after(frames.len(), cfg) >= cfg.min_frames_with_plate),
        frames.len() < cfg.min_frames_with_plate ==> forall|j: int| 0 <= j < run_frames(tracks, frames, cfg).len()
            && #[trigger] run_frames(tracks, frames, cfg)[j].text == x ==> !run_frames(tracks, frames, cfg)[j].committed,
        frames.len() >= cfg.min_frames_with_plate && cfg.min_frames_with_plate <= cfg.max_frames ==> forall|j: int|
            0 <= j < run_frames(tracks, frames, cfg).len() && #[trigger] run_frames(tracks, frames, cfg)[j].text == x
            ==> run_frames(tracks, frames, cfg)[j].committed,
    decreases frames.len(),
{
    let n = frames.len();
    let before = frames.drop_last();
    assert(frames.last() == frames[n - 1]);
    assert(shows(frames[n - 1], x));
    if n == 1 {
        assert(run_frames(tracks, before, cfg) == tracks);
        lemma_first_sighting(tracks, frames.last(), cfg, x);
    } else {
        assert forall|f: int| 0 <= f < before.len() implies shows(#[trigger] before[f], x) by {
            assert(before[f] == frames[f]);
        }
        assert(before[0] == frames[0]);
        lemma_commit_on_threshold(tracks, before, cfg, x);
        let h = hits_after((n - 1) as nat, cfg);
        lemma_seen_again(run_frames(tracks, before, cfg), frames.last(), cfg, x, h, h >= cfg.min_frames_with_plate);
    }
}

/// A frame that does not show `x`: every remembered candidate with text `x`
/// that stays has one miss more, and fewer than the eviction bound.
proof fn lemma_missed(tracks: Seq<PlateTrack>, dets: Seq<Detection>, cfg: SessionConfig, x: Seq<char>, k: nat)
    requires
        !shows(dets, x),
        forall|j: int| 0 <= j < tracks.len() && #[trigger] tracks[j].text == x ==> tracks[j].misses >= k,
    ensures
        ({
            let r = next_tracks(tracks, dets, cfg);
            forall|j: int| 0 <= j < r.len() && #[trigger] r[j].text == x ==> k + 1 <= r[j].misses < cfg.frames_without_plate
        }),
{
    lemma_first_match_shows(dets, x);
    lemma_match_shows(dets, x, dets.len() as int);
    let n = tracks.len() as int;
    lemma_aged_miss(tracks, dets, cfg, x, k, n);
    let start = aged(tracks, dets, cfg, n);
    lemma_admitted_without(start, dets, cfg, x, dets.len() as int);
    let r = next_tracks(tracks, dets, cfg);
    assert forall|j: int| 0 <= j < r.len() && #[trigger] r[j].text == x implies k + 1 <= r[j].misses < cfg.frames_without_plate by {
        if j < start.len() {
            assert(r[j] == start[j]);
        }
    }
}

proof fn lemma_absent_run(tracks: Seq<PlateTrack>, frames: Seq<Seq<Detection>>, cfg: SessionConfig, x: Seq<char>)
    requires
        forall|f: int| 0 <= f < frames.len() ==> !shows(#[trigger] frames[f], x),
    ensures
        ({
            let r = run_frames(tracks, frames, cfg);
            forall|j: int| 0 <= j < r.len() && #[trigger] r[j].text == x ==> r[j].misses >= frames.len()
                && (frames.len() >= 1 ==> r[j].misses < cfg.frames_without_plate)
        }),
    decreases frames.len(),
{
    let n = frames.len();
    if n >= 1 {
        let before = frames.drop_last();
        assert forall|f: int| 0 <= f < before.len() implies !shows(#[trigger] before[f], x) by {
            assert(before[f] == frames[f]);
        }
        lemma_absent_run(tracks, before, cfg, x);
        assert(frames.last() == frames[n - 1]);
        assert(!shows(frames[n - 1], x));
        lemma_missed(run_frames(tracks, before, cfg), frames.last(), cfg, x, (n - 1) as nat);
    }
}

/// Temporal consensus, eviction side: a plate, committed or not, that no
/// detection shows for `frames_without_plate` consecutive frames is no longer
/// remembered after them.
pub proof fn lemma_evict_after_absence(tracks: Seq<PlateTrack>, frames: Seq<Seq<Detection>>, cfg: SessionConfig, x: Seq<char>)
    requires
        cfg.wf(),
        frames.len() >= cfg.frames_without_plate,
        forall|f: int| 0 <= f < frames.len() ==> !shows(#[trigger] frames[f], x),
    ensures
        !has_text(run_frames(tracks, frames, cfg), x),
{
    lemma_absent_run(tracks, frames, cfg, x);
    let r = run_frames(tracks, frames, cfg);
    if has_text(r, x) {
        let j = choose|j: int| 0 <= j < r.len() && r[j].text == x;
        assert(r[j].text == x);
    }
}

} // verus!
