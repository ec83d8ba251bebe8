//! Frame-level planning of a tone track: per-event frame counts, the
//! anti-click envelope, and the authoritative total output length.
//!
//! Frequencies are integers in centihertz and durations integers in ticks of
//! 1/24 second, so every frame count here is exact. The floating-point
//! oscillator and the final quantization to 16-bit samples consume this plan
//! outside the library; everything they must agree on — how many frames each
//! event gets, where the fade windows lie, and how long the finished buffer
//! is — is fixed and proved here.

use vstd::prelude::*;

verus! {

/// One note: frequency in centihertz (1/100 Hz) and duration in ticks of
/// 1/24 second.
#[derive(Clone, Copy, Debug, PartialEq, Eq, Structural)]
pub struct ToneAndDuration {
    pub frequency_centihz: u32,
    pub duration_ticks: u32,
}

/// A finished pulse-code-modulated buffer: one signed 16-bit sample per frame,
/// in playback order.
pub struct PureTones {
    pub samples: Vec<i16>,
}

/// The views of a list of per-event sample runs.
pub open spec fn views_of(parts: Seq<Vec<i16>>) -> Seq<Seq<i16>> {
    parts.map_values(|v: Vec<i16>| v@)
}

/// The per-event sample runs laid end to end, in input order.
pub open spec fn spec_concat(parts: Seq<Seq<i16>>) -> Seq<i16>
    decreases parts.len(),
{
    if parts.len() == 0 {
        Seq::empty()
    } else {
        spec_concat(parts.drop_last()) + parts.last()
    }
}

#[derive(Clone, Copy, Debug, PartialEq, Eq, Structural)]
pub enum SynthError {
    /// A zero sample rate, frequency, or duration.
    InvalidInput,
}

/// A tone event the synthesizer accepts: nothing silent, nothing empty.
pub open spec fn valid_event(e: ToneAndDuration) -> bool {
    e.frequency_centihz >= 1 && e.duration_ticks >= 1
}

/// What the synthesizer accepts: a positive sample rate and only valid events.
pub open spec fn valid_input(sample_rate: u32, track: Seq<ToneAndDuration>) -> bool {
    sample_rate >= 1 && forall|k: int| 0 <= k < track.len() ==> valid_event(#[trigger] track[k])
}

/// round(sample_rate * ticks / 24), halves rounded up: the number of frames
/// a run of `ticks` ticks occupies at `sample_rate` frames per second.
pub open spec fn spec_frames_of_ticks(sample_rate: int, ticks: int) -> int {
    (sample_rate * ticks + 12) / 24
}

/// round(sample_rate / 100): the 10 ms anti-click fade window in frames.
pub open spec fn spec_fade_frames(sample_rate: int) -> int {
    (sample_rate + 50) / 100
}

/// The summed duration of a track, in ticks.
pub open spec fn spec_sum_ticks(track: Seq<ToneAndDuration>) -> int
    decreases track.len(),
{
    if track.len() == 0 {
        0
    } else {
        spec_sum_ticks(track.drop_last()) + track.last().duration_ticks
    }
}

/// The authoritative output length: the whole track's duration, summed in
/// ticks before any rounding, converted to frames.
pub open spec fn spec_total_frames(sample_rate: int, track: Seq<ToneAndDuration>) -> int {
    spec_frames_of_ticks(sample_rate, spec_sum_ticks(track))
}

/// The envelope factor at frame `i` of a run of `duration_frames` frames is
/// this numerator over `fade_frames`: a linear ramp up over the first fade
/// window, a linear ramp down over the last, full amplitude between. The two
/// ramp formulas stay as they are when the windows overlap.
pub open spec fn spec_envelope_num(i: int, duration_frames: int, fade_frames: int) -> int {
    if i < fade_frames {
        i
    } else if i + fade_frames >= duration_frames {
        duration_frames - i
    } else {
        fade_frames
    }
}

/// One planned run of frames at a fixed frequency.
#[derive(Clone, Copy, Debug, PartialEq, Eq, Structural)]
pub struct Segment {
    pub frequency_centihz: u32,
    pub frames: u64,
}

/// Ghost image of a segment.
#[verifier::ext_equal]
pub struct SegmentModel {
    pub frequency_centihz: int,
    pub frames: int,
}

impl View for Segment {
    type V = SegmentModel;

    open spec fn view(&self) -> SegmentModel {
        SegmentModel { frequency_centihz: self.frequency_centihz as int, frames: self.frames as int }
    }
}

/// Everything the renderer must follow: the fade window, the per-event frame
/// counts, and the exact length of the finished buffer.
#[derive(Debug)]
pub struct SynthPlan {
    pub fade_frames: u64,
    pub total_frames: u64,
    pub segments: Vec<Segment>,
}

/// Ghost image of a plan.
#[verifier::ext_equal]
pub struct PlanModel {
    pub fade_frames: int,
    pub total_frames: int,
    pub segments: Seq<SegmentModel>,
}

impl View for SynthPlan {
    type V = PlanModel;

    open spec fn view(&self) -> PlanModel {
        PlanModel {
            fade_frames: self.fade_frames as int,
            total_frames: self.total_frames as int,
            segments: self.segments@.map_values(|s: Segment| s@),
        }
    }
}

/// The segment an event plans to: its frequency and its rounded frame count.
pub open spec fn spec_segment(sample_rate: int, e: ToneAndDuration) -> SegmentModel {
    SegmentModel {
        frequency_centihz: e.frequency_centihz as int,
        frames: spec_frames_of_ticks(sample_rate, e.duration_ticks as int),
    }
}

/// The one plan a sample rate and a track determine.
pub open spec fn spec_plan(sample_rate: int, track: Seq<ToneAndDuration>) -> PlanModel {
    PlanModel {
        fade_frames: spec_fade_frames(sample_rate),
        total_frames: spec_total_frames(sample_rate, track),
        segments: Seq::new(track.len(), |k: int| spec_segment(sample_rate, track[k])),
    }
}

proof fn lemma_sum_ticks_extend(track: Seq<ToneAndDuration>, i: int)
    requires
        0 <= i < track.len(),
    ensures
        spec_sum_ticks(track.subrange(0, i + 1)) == spec_sum_ticks(track.subrange(0, i))
            + track[i].duration_ticks,
{
    let t = track.subrange(0, i + 1);
    assert(t.drop_last() =~= track.subrange(0, i));
    assert(t.last() == track[i]);
}

proof fn lemma_sum_ticks_prefix_le(track: Seq<ToneAndDuration>, i: int)
    requires
        0 <= i <= track.len(),
    ensures
        spec_sum_ticks(track.subrange(0, i)) <= spec_sum_ticks(track),
    decreases track.len() - i,
{
    if i == track.len() {
        assert(track.subrange(0, i) =~= track);
    } else {
        lemma_sum_ticks_extend(track, i);
        lemma_sum_ticks_prefix_le(track, i + 1);
    }
}

/// The 10 ms fade window at this sample rate, in frames.
pub fn fade_frames(sample_rate: u32) -> (r: u64)
    ensures
        r == spec_fade_frames(sample_rate as int),
{
    ((sample_rate as u64) + 50) / 100
}

/// How many frames a run of `ticks` ticks occupies at `sample_rate`.
pub fn frames_of_ticks(sample_rate: u32, ticks: u32) -> (r: u64)
    ensures
        r == spec_frames_of_ticks(sample_rate as int, ticks as int),
{
    proof {
        assert((sample_rate as int) * (ticks as int) <= 0xFFFF_FFFFu64 * 0xFFFF_FFFFu64)
            by (nonlinear_arith)
            requires
                sample_rate as int <= 0xFFFF_FFFFu64,
                ticks as int <= 0xFFFF_FFFFu64,
                0 <= sample_rate as int,
                0 <= ticks as int,
        ;
    }
    ((sample_rate as u64) * (ticks as u64) + 12) / 24
}

/// The track's summed duration in ticks, or `None` where the sum leaves u64.
pub fn sum_ticks(track: &Vec<ToneAndDuration>) -> (r: Option<u64>)
    ensures
        match r {
            Some(s) => s == spec_sum_ticks(track@),
            None => spec_sum_ticks(track@) > u64::MAX,
        },
{
    let mut acc: u64 = 0;
    let mut i: usize = 0;
    while i < track.len()
        invariant
            i <= track.len(),
            acc == spec_sum_ticks(track@.subrange(0, i as int)),
        decreases track.len() - i,
    {
        proof {
            lemma_sum_ticks_extend(track@, i as int);
        }
        match acc.checked_add(track[i].duration_ticks as u64) {
            Some(next) => {
                acc = next;
            },
            None => {
                proof {
                    lemma_sum_ticks_prefix_le(track@, i as int + 1);
                }
                return None;
            },
        }
        i = i + 1;
    }
    proof {
        assert(track@.subrange(0, track@.len() as int) =~= track@);
    }
    Some(acc)
}

/// Whether `spec_total_frames` can be computed in 64 bits: the one machine
/// limit the planner asks its callers to respect.
pub fn frames_within_limit(sample_rate: u32, track: &Vec<ToneAndDuration>) -> (r: bool)
    ensures
        r <==> (sample_rate as int) * spec_sum_ticks(track@) + 12 <= u64::MAX,
{
    match sum_ticks(track) {
        None => {
            if sample_rate == 0 {
                true
            } else {
                proof {
                    assert((sample_rate as int) * spec_sum_ticks(track@) >= spec_sum_ticks(track@))
                        by (nonlinear_arith)
                        requires
                            sample_rate as int >= 1,
                            spec_sum_ticks(track@) >= 0,
                    ;
                }
                false
            }
        },
        Some(s) => {
            match (sample_rate as u64).checked_mul(s) {
                None => false,
                Some(p) => p.checked_add(12).is_some(),
            }
        },
    }
}

/// The authoritative output length in frames.
pub fn total_frames(sample_rate: u32, track: &Vec<ToneAndDuration>) -> (r: u64)
    requires
        (sample_rate as int) * spec_sum_ticks(track@) + 12 <= u64::MAX,
    ensures
        r == spec_total_frames(sample_rate as int, track@),
{
    match sum_ticks(track) {
        Some(s) => ((sample_rate as u64) * s + 12) / 24,
        None => {
            proof {
                if sample_rate >= 1 {
                    assert((sample_rate as int) * spec_sum_ticks(track@) >= spec_sum_ticks(track@))
                        by (nonlinear_arith)
                        requires
                            sample_rate as int >= 1,
                            spec_sum_ticks(track@) >= 0,
                    ;
                }
            }
            0
        },
    }
}

/// The envelope numerator at frame `i`; the factor is `r / fade_frames` and
/// never exceeds one.
pub fn envelope_numerator(i: u64, duration_frames: u64, fade_frames: u64) -> (r: u64)
    requires
        i < duration_frames,
        fade_frames >= 1,
    ensures
        r == spec_envelope_num(i as int, duration_frames as int, fade_frames as int),
        r <= fade_frames,
{
    if i < fade_frames {
        i
    } else if duration_frames - i <= fade_frames {
        duration_frames - i
    } else {
        fade_frames
    }
}

/// Sample rate and track fix the plan: planning is deterministic, so two
/// plans drawn from the same input are identical.
pub proof fn lemma_plan_deterministic(
    a: SynthPlan,
    b: SynthPlan,
    sample_rate: u32,
    track: Seq<ToneAndDuration>,
)
    requires
        a@ == spec_plan(sample_rate as int, track),
        b@ == spec_plan(sample_rate as int, track),
    ensures
        a@ == b@,
{
}

/// An empty track plans to an empty buffer at every sample rate.
pub proof fn lemma_empty_track_empty_output(sample_rate: u32)
    ensures
        spec_plan(sample_rate as int, Seq::<ToneAndDuration>::empty()).total_frames == 0,
        spec_plan(sample_rate as int, Seq::<ToneAndDuration>::empty()).segments.len() == 0,
{
    assert(spec_sum_ticks(Seq::<ToneAndDuration>::empty()) == 0);
}

/// A run starts silent, and the envelope rises strictly over the whole fade-in
/// window whenever the run is long enough that the two windows do not overlap.
pub proof fn lemma_envelope_ramp_up(duration_frames: int, fade_frames: int, i: int, j: int)
    requires
        fade_frames >= 1,
        2 * fade_frames <= duration_frames,
        0 <= i < j < fade_frames,
    ensures
        spec_envelope_num(0, duration_frames, fade_frames) == 0,
        spec_envelope_num(i, duration_frames, fade_frames) < spec_envelope_num(
            j,
            duration_frames,
            fade_frames,
        ),
{
}

/// The mirror of the fade-in: over the last fade window of a long enough run
/// the envelope falls strictly, ending one step above silence.
pub proof fn lemma_envelope_ramp_down(duration_frames: int, fade_frames: int, i: int, j: int)
    requires
        fade_frames >= 1,
        2 * fade_frames <= duration_frames,
        duration_frames - fade_frames <= i < j < duration_frames,
    ensures
        spec_envelope_num(duration_frames - 1, duration_frames, fade_frames) == 1,
        spec_envelope_num(i, duration_frames, fade_frames) > spec_envelope_num(
            j,
            duration_frames,
            fade_frames,
        ),
{
}

/// When a run is shorter than two fade windows, the factor at the midpoint
/// frame is the lesser of the two ramp formulas evaluated there — the ramps
/// cross, and neither is clamped.
pub proof fn lemma_envelope_overlap_midpoint(duration_frames: int, fade_frames: int)
    requires
        fade_frames >= 1,
        1 <= duration_frames < 2 * fade_frames,
    ensures
        spec_envelope_num(duration_frames / 2, duration_frames, fade_frames) == vstd::math::min(
            duration_frames / 2,
            duration_frames - duration_frames / 2,
        ),
{
    let m = duration_frames / 2;
    assert(m < fade_frames);
    assert(m <= duration_frames - m);
}

/// The envelope factor always lies in [0, 1]: the numerator never leaves
/// [0, fade_frames].
pub proof fn lemma_envelope_factor_bounded(i: int, duration_frames: int, fade_frames: int)
    requires
        fade_frames >= 1,
        0 <= i < duration_frames,
    ensures
        0 <= spec_envelope_num(i, duration_frames, fade_frames) <= fade_frames,
{
}

/// Validates the input and lays the track out: exactly the invalid inputs are
/// refused, and an accepted track gets the one plan its input determines.
pub fn synthesis_plan(sample_rate: u32, track: &Vec<ToneAndDuration>) -> (r: Result<
    SynthPlan,
    SynthError,
>)
    requires
        (sample_rate as int) * spec_sum_ticks(track@) + 12 <= u64::MAX,
    ensures
        r is Ok <==> valid_input(sample_rate, track@),
        r is Ok ==> r->Ok_0@ == spec_plan(sample_rate as int, track@),
        r is Err ==> r->Err_0 == SynthError::InvalidInput,
{
    if sample_rate == 0 {
        return Err(SynthError::InvalidInput);
    }
    let mut i: usize = 0;
    while i < track.len()
        invariant
            i <= track.len(),
            forall|k: int| 0 <= k < i ==> valid_event(#[trigger] track@[k]),
        decreases track.len() - i,
    {
        let e = track[i];
        if e.frequency_centihz == 0 || e.duration_ticks == 0 {
            proof {
                assert(!valid_event(track@[i as int]));
            }
            return Err(SynthError::InvalidInput);
        }
        i = i + 1;
    }
    let fade = fade_frames(sample_rate);
    let total = total_frames(sample_rate, track);
    let mut segments: Vec<Segment> = Vec::new();
    let mut j: usize = 0;
    while j < track.len()
        invariant
            j <= track.len(),
            segments@.len() == j,
            forall|k: int|
                0 <= k < j ==> segments@[k]@ == spec_segment(sample_rate as int, track@[k]),
        decreases track.len() - j,
    {
        let e = track[j];
        let seg = Segment {
            frequency_centihz: e.frequency_centihz,
            frames: frames_of_ticks(sample_rate, e.duration_ticks),
        };
        segments.push(seg);
        j = j + 1;
    }
    let plan = SynthPlan { fade_frames: fade, total_frames: total, segments };
    proof {
        assert(plan@.segments =~= spec_plan(sample_rate as int, track@).segments);
        assert(plan@ == spec_plan(sample_rate as int, track@));
    }
    Ok(plan)
}

proof fn lemma_concat_extend(parts: Seq<Seq<i16>>, k: int)
    requires
        0 <= k < parts.len(),
    ensures
        spec_concat(parts.subrange(0, k + 1)) == spec_concat(parts.subrange(0, k)) + parts[k],
{
    let t = parts.subrange(0, k + 1);
    assert(t.drop_last() =~= parts.subrange(0, k));
    assert(t.last() == parts[k]);
}

proof fn lemma_concat_prefix(parts: Seq<Seq<i16>>, k: int)
    requires
        0 <= k <= parts.len(),
    ensures
        spec_concat(parts.subrange(0, k)).len() <= spec_concat(parts).len(),
        spec_concat(parts.subrange(0, k)) == spec_concat(parts).take(
            spec_concat(parts.subrange(0, k)).len() as int,
        ),
    decreases parts.len() - k,
{
    if k == parts.len() {
        assert(parts.subrange(0, k) =~= parts);
        assert(spec_concat(parts) =~= spec_concat(parts).take(spec_concat(parts).len() as int));
    } else {
        lemma_concat_extend(parts, k);
        lemma_concat_prefix(parts, k + 1);
        let a = spec_concat(parts.subrange(0, k));
        let b = spec_concat(parts.subrange(0, k + 1));
        assert(a =~= b.take(a.len() as int));
        assert(b.take(a.len() as int) =~= spec_concat(parts).take(a.len() as int));
    }
}

impl PureTones {
    /// Lays the per-event sample runs end to end in input order and fixes the
    /// length: a concatenation longer than `total_frames` is cut from the
    /// end, a shorter one is padded with trailing silence — never the other
    /// way round.
    pub fn assemble(total_frames: u64, parts: &Vec<Vec<i16>>) -> (r: PureTones)
        requires
            total_frames <= usize::MAX,
        ensures
            r.samples@.len() == total_frames,
            forall|i: int|
                0 <= i < total_frames ==> r.samples@[i] == (if i < spec_concat(
                    views_of(parts@),
                ).len() {
                    spec_concat(views_of(parts@))[i]
                } else {
                    0i16
                }),
    {
        let ghost full = spec_concat(views_of(parts@));
        let total = total_frames as usize;
        let mut samples: Vec<i16> = Vec::new();
        let mut k: usize = 0;
        proof {
            assert(views_of(parts@).subrange(0, 0) =~= Seq::<Seq<i16>>::empty());
        }
        while k < parts.len()
            invariant
                k <= parts.len(),
                total == total_frames,
                total_frames <= usize::MAX,
                full == spec_concat(views_of(parts@)),
                samples@.len() == vstd::math::min(
                    total as int,
                    spec_concat(views_of(parts@).subrange(0, k as int)).len() as int,
                ),
                samples@ == full.take(samples@.len() as int),
            decreases parts.len() - k,
        {
            let nk = parts[k].len();
            let ghost lenk = spec_concat(views_of(parts@).subrange(0, k as int)).len() as int;
            proof {
                lemma_concat_extend(views_of(parts@), k as int);
                lemma_concat_prefix(views_of(parts@), k as int + 1);
                assert(views_of(parts@)[k as int] == parts@[k as int]@);
            }
            let mut j: usize = 0;
            while j < nk && samples.len() < total
                invariant
                    j <= nk,
                    k < parts.len(),
                    nk == parts@[k as int]@.len(),
                    total == total_frames,
                    total_frames <= usize::MAX,
                    full == spec_concat(views_of(parts@)),
                    lenk == spec_concat(views_of(parts@).subrange(0, k as int)).len() as int,
                    lenk + nk <= full.len(),
                    spec_concat(views_of(parts@).subrange(0, k as int + 1)) == spec_concat(
                        views_of(parts@).subrange(0, k as int),
                    ) + parts@[k as int]@,
                    spec_concat(views_of(parts@).subrange(0, k as int + 1)) == full.take(
                        lenk + nk,
                    ),
                    samples@.len() == vstd::math::min(total as int, lenk + j),
                    samples@ == full.take(samples@.len() as int),
                decreases nk - j,
            {
                let v = parts[k][j];
                proof {
                    let b = spec_concat(views_of(parts@).subrange(0, k as int + 1));
                    assert(lenk + nk <= full.len());
                    assert(b[lenk + j as int] == full.take(lenk + nk)[lenk + j as int]);
                    assert(b[lenk + j as int] == parts@[k as int]@[j as int]);
                    assert(full[lenk + j as int] == parts@[k as int]@[j as int]);
                    assert(full.take(samples@.len() as int).push(v) =~= full.take(
                        samples@.len() as int + 1,
                    ));
                }
                samples.push(v);
                j = j + 1;
            }
            k = k + 1;
        }
        proof {
            assert(views_of(parts@).subrange(0, parts@.len() as int) =~= views_of(parts@));
        }
        while samples.len() < total
            invariant
                total == total_frames,
                samples@.len() <= total,
                vstd::math::min(total as int, full.len() as int) <= samples@.len(),
                full == spec_concat(views_of(parts@)),
                forall|i: int|
                    0 <= i < samples@.len() ==> samples@[i] == (if i < full.len() {
                        full[i]
                    } else {
                        0i16
                    }),
            decreases total - samples@.len(),
        {
            samples.push(0i16);
        }
        PureTones { samples }
    }
}

/// Where frame `i` of the finished buffer comes from: `Some((k, o))` places it
/// at offset `o` of segment `k`; `None` means the concatenated runs ended
/// before `i` and the frame is padding silence.
pub open spec fn spec_frame_source(segments: Seq<SegmentModel>, i: int) -> Option<(int, int)>
    decreases segments.len(),
{
    if segments.len() == 0 {
        None
    } else if i < segments[0].frames {
        Some((0int, i))
    } else {
        match spec_frame_source(segments.drop_first(), i - segments[0].frames) {
            None => None,
            Some(p) => Some((p.0 + 1, p.1)),
        }
    }
}

/// The planned runs' combined length, in frames.
pub open spec fn spec_sum_frames(segments: Seq<SegmentModel>) -> int
    decreases segments.len(),
{
    if segments.len() == 0 {
        0
    } else {
        segments[0].frames + spec_sum_frames(segments.drop_first())
    }
}

proof fn lemma_sum_frames_nonneg(segments: Seq<SegmentModel>)
    requires
        forall|k: int| 0 <= k < segments.len() ==> #[trigger] segments[k].frames >= 0,
    ensures
        spec_sum_frames(segments) >= 0,
    decreases segments.len(),
{
    if segments.len() > 0 {
        let rest = segments.drop_first();
        assert(forall|k: int| 0 <= k < rest.len() ==> #[trigger] rest[k].frames >= 0);
        lemma_sum_frames_nonneg(rest);
    }
}

/// Concatenation addressing is exact: a frame inside the runs' combined length
/// falls in just the segment that makes the runs abut in input order, at an
/// offset inside that run, and exactly the frames past the combined length are
/// padding.
pub proof fn lemma_frame_source_exact(segments: Seq<SegmentModel>, i: int)
    requires
        0 <= i,
        forall|k: int| 0 <= k < segments.len() ==> #[trigger] segments[k].frames >= 0,
    ensures
        spec_frame_source(segments, i) is Some <==> i < spec_sum_frames(segments),
        match spec_frame_source(segments, i) {
            Some(p) => 0 <= p.0 < segments.len() && 0 <= p.1 < segments[p.0].frames && i
                == spec_sum_frames(segments.subrange(0, p.0)) + p.1,
            None => true,
        },
    decreases segments.len(),
{
    if segments.len() == 0 {
    } else if i < segments[0].frames {
        assert(segments.subrange(0, 0) =~= Seq::<SegmentModel>::empty());
        assert(forall|k: int|
            0 <= k < segments.drop_first().len() ==> #[trigger] segments.drop_first()[k].frames
                >= 0);
        lemma_sum_frames_nonneg(segments.drop_first());
    } else {
        let rest = segments.drop_first();
        assert(forall|k: int| 0 <= k < rest.len() ==> #[trigger] rest[k].frames >= 0);
        lemma_frame_source_exact(rest, i - segments[0].frames);
        match spec_frame_source(rest, i - segments[0].frames) {
            None => {},
            Some(p) => {
                let q = (p.0 + 1, p.1);
                assert(segments[q.0] == rest[p.0]);
                assert(segments.subrange(0, q.0).drop_first() =~= rest.subrange(0, p.0));
                assert(segments.subrange(0, q.0)[0] == segments[0]);
                assert(spec_sum_frames(segments.subrange(0, q.0)) == segments[0].frames
                    + spec_sum_frames(rest.subrange(0, p.0)));
            },
        }
    }
}

/// Finds the segment and offset that produce frame `i` of the plan, or `None`
/// where `i` lies in the padded tail.
pub fn frame_source(plan: &SynthPlan, i: u64) -> (r: Option<(usize, u64)>)
    ensures
        match r {
            Some(p) => spec_frame_source(plan@.segments, i as int) == Some(
                (p.0 as int, p.1 as int),
            ) && p.0 < plan.segments@.len(),
            None => spec_frame_source(plan@.segments, i as int) is None,
        },
{
    let ghost segs = plan@.segments;
    let n = plan.segments.len();
    let mut k: usize = 0;
    let mut rem: u64 = i;
    proof {
        assert(segs.skip(0) =~= segs);
    }
    while k < n
        invariant
            k <= n,
            n == plan.segments@.len(),
            segs == plan@.segments,
            segs.len() == n,
            forall|t: int| 0 <= t < n ==> #[trigger] segs[t] == plan.segments@[t]@,
            match spec_frame_source(segs.skip(k as int), rem as int) {
                None => spec_frame_source(segs, i as int) is None,
                Some(p) => spec_frame_source(segs, i as int) == Some((p.0 + k, p.1)),
            },
        decreases n - k,
    {
        let f = plan.segments[k].frames;
        proof {
            assert(segs.skip(k as int)[0] == segs[k as int]);
            assert(segs.skip(k as int).len() == n - k);
        }
        if rem < f {
            proof {
                assert(spec_frame_source(segs.skip(k as int), rem as int) == Some(
                    (0int, rem as int),
                ));
            }
            return Some((k, rem));
        }
        proof {
            assert(segs.skip(k as int).drop_first() =~= segs.skip(k as int + 1));
        }
        rem = rem - f;
        k = k + 1;
    }
    proof {
        assert(segs.skip(n as int) =~= Seq::<SegmentModel>::empty());
    }
    None
}

} // verus!
