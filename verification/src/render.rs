use crate::fraction::{clamped_ratio, lemma_round_div_bounds, round_div, Fraction, Ratio};
use crate::geometry::{center, centered, lemma_scaled_bounds, scale, scaled, Color, Fill, Rect, Size};
use crate::model::{max_loudness, min_loudness, AnalysisTrace, PlaybackSnapshot, Segment};
use vstd::prelude::*;

verus! {

/// The height of the flat bar, in pixels.
pub const BAR_HEIGHT: u32 = 3;

/// The least width of a waveform segment, so that a short one stays
/// visible.
pub const MIN_SEGMENT_WIDTH: u64 = 1;

/// The opacity of the part of the flat bar that is still to play: one half
/// of the eight bit range, rounded upward.
pub const REMAINING_ALPHA: u8 = 128;

/// The two theme colours that the flat bar is drawn in.
#[derive(Clone, Copy, Debug, PartialEq, Eq, Structural)]
pub struct StyleEnv {
    pub primary_dark: Color,
    pub primary_light: Color,
}

/// How the indicator is drawn: as a flat bar, or as the waveform of a
/// loudness trace.
#[derive(Clone, Copy, Debug)]
pub enum RenderStrategy<'a> {
    Flat,
    Analysis(&'a AnalysisTrace),
}

/// The colour of a waveform segment that has begun to play: opaque white.
pub open spec fn bright() -> Color {
    Color { r: 255, g: 255, b: 255, a: 255 }
}

/// The colour of a waveform segment that is still to play: an opaque dark
/// grey at three tenths of full brightness.
pub open spec fn dim() -> Color {
    Color { r: 77, g: 77, b: 77, a: 255 }
}

/// The played part of the track as a proportion: elapsed over total time,
/// and zero for a track without length.
pub open spec fn elapsed_ratio(snapshot: PlaybackSnapshot) -> Ratio {
    clamped_ratio(snapshot.elapsed_time() as int, snapshot.total_time() as int)
}

/// The width of the played part of a flat bar of `width` pixels.
pub open spec fn elapsed_width(width: int, played: Ratio) -> int {
    round_div(width * played.num, played.den)
}

/// Whether `fills` is the flat bar for the played proportion `played`: two
/// rectangles of the bar's height, centred vertically, that share the
/// width between them from left to right.
pub open spec fn is_flat_rendering(fills: Seq<Fill>, bounds: Size, played: Ratio, env: StyleEnv)
    -> bool {
    let split = elapsed_width(bounds.width as int, played);
    let top = centered(bounds.height as int, BAR_HEIGHT as int);
    &&& fills.len() == 2
    &&& fills[0].rect.x == 0
    &&& fills[0].rect.y == top
    &&& fills[0].rect.width == split
    &&& fills[0].rect.height == BAR_HEIGHT
    &&& fills[0].color == env.primary_dark
    &&& fills[1].rect.x == split
    &&& fills[1].rect.y == top
    &&& fills[1].rect.width == bounds.width - split
    &&& fills[1].rect.height == BAR_HEIGHT
    &&& fills[1].color == (Color { a: REMAINING_ALPHA, ..env.primary_light })
}

/// Where a peak loudness lies in the range from `lo` to `hi`, as a
/// proportion: `(loudness + |lo|) / (hi + |lo|)`. A range of one single
/// value has no such quotient; every loudness then counts as the full
/// proportion. A loudness outside the range is held to the nearer end.
pub open spec fn loudness_ratio(loudness: int, lo: int, hi: int) -> Ratio {
    if lo == hi {
        Ratio { num: 1, den: 1 }
    } else {
        clamped_ratio(loudness + vstd::math::abs(lo), hi + vstd::math::abs(lo))
    }
}

/// The colour of a segment that starts at `start` when `elapsed` has been
/// played. Both are times, so no rounding comes between them.
pub open spec fn segment_color(start: int, elapsed: int) -> Color {
    if start <= elapsed {
        bright()
    } else {
        dim()
    }
}

/// The height of a segment's rectangle: its proportion of the loudness
/// range, applied to the height of the area.
pub open spec fn segment_height(height: int, loudness: int, lo: int, hi: int) -> int {
    let level = loudness_ratio(loudness, lo, hi);
    scaled(height, level.num, level.den)
}

/// Whether `fill` is the rectangle of `segment` in the waveform of a track
/// of `total` milliseconds, of which `elapsed` have been played, with the
/// loudness range from `lo` to `hi`.
pub open spec fn is_segment_fill(
    fill: Fill,
    bounds: Size,
    segment: Segment,
    total: int,
    elapsed: int,
    lo: int,
    hi: int,
) -> bool {
    &&& fill.rect.x == scaled(bounds.width as int, segment.start as int, total)
    &&& fill.rect.width == vstd::math::max(
        scaled(bounds.width as int, segment.duration as int, total),
        MIN_SEGMENT_WIDTH as int,
    )
    &&& fill.rect.height == segment_height(
        bounds.height as int,
        segment.loudness_max as int,
        lo,
        hi,
    )
    &&& fill.rect.y == centered(bounds.height as int, fill.rect.height as int)
    &&& fill.color == segment_color(segment.start as int, elapsed)
}

/// Whether `fills` is the waveform of `segments`: nothing for a track
/// without length, else one rectangle for each segment, in the order of
/// the trace, scaled against the loudness range of the whole trace.
pub open spec fn is_analysis_rendering(
    fills: Seq<Fill>,
    bounds: Size,
    segments: Seq<Segment>,
    total: int,
    elapsed: int,
) -> bool {
    if total <= 0 {
        fills.len() == 0
    } else {
        &&& fills.len() == segments.len()
        &&& forall|i: int|
            0 <= i < segments.len() ==> is_segment_fill(
                #[trigger] fills[i],
                bounds,
                segments[i],
                total,
                elapsed,
                min_loudness(segments),
                max_loudness(segments),
            )
    }
}

/// Whether `fills` is what the indicator shows of `snapshot`: the waveform
/// where the snapshot holds a loudness trace, the flat bar where not.
pub open spec fn is_rendering(
    fills: Seq<Fill>,
    bounds: Size,
    snapshot: PlaybackSnapshot,
    env: StyleEnv,
) -> bool {
    match snapshot.analysis {
        Some(trace) => is_analysis_rendering(
            fills,
            bounds,
            trace.segments@,
            snapshot.total_time() as int,
            snapshot.elapsed_time() as int,
        ),
        None => is_flat_rendering(fills, bounds, elapsed_ratio(snapshot), env),
    }
}

/// Opaque white, for what has begun to play.
pub fn bright_color() -> (c: Color)
    ensures
        c == bright(),
{
    Color::rgba8(255, 255, 255, 255)
}

/// Opaque dark grey, for what is still to play.
pub fn dim_color() -> (c: Color)
    ensures
        c == dim(),
{
    Color::rgba8(77, 77, 77, 255)
}

/// The strategy for a snapshot: the waveform where it holds a loudness
/// trace, the flat bar where not.
pub fn strategy<'a>(snapshot: &'a PlaybackSnapshot) -> (chosen: RenderStrategy<'a>)
    ensures
        match chosen {
            RenderStrategy::Flat => snapshot.analysis is None,
            RenderStrategy::Analysis(trace) => snapshot.analysis == Some(*trace),
        },
{
    match &snapshot.analysis {
        Some(trace) => RenderStrategy::Analysis(trace),
        None => RenderStrategy::Flat,
    }
}

/// The played part of the track as a proportion between zero and one: zero
/// for a track without length.
pub fn elapsed_fraction(snapshot: &PlaybackSnapshot) -> (played: Fraction)
    ensures
        played@ == elapsed_ratio(*snapshot),
        played@.in_unit_interval(),
        snapshot.total_time() == 0 ==> played@ == (Ratio { num: 0, den: 1 }),
{
    Fraction::clamped(snapshot.elapsed_time() as i64, snapshot.total_time())
}

/// Splits a bar of `width` pixels at the played proportion. The first part
/// is rounded to the nearest pixel and the second is what is left, so that
/// the two always add up to the width.
pub fn split_width(width: u32, played: &Fraction) -> (parts: (u32, u32))
    ensures
        parts.0 == elapsed_width(width as int, played@),
        parts.0 + parts.1 == width,
{
    let first: u32 = played.scale(width);
    (first, width - first)
}

/// The flat bar: the played part in the dark theme colour, then the rest
/// in the light theme colour at half opacity.
pub fn render_flat(bounds: &Size, snapshot: &PlaybackSnapshot, env: &StyleEnv) -> (fills: Vec<
    Fill,
>)
    ensures
        is_flat_rendering(fills@, *bounds, elapsed_ratio(*snapshot), *env),
{
    let played: Fraction = elapsed_fraction(snapshot);
    let parts: (u32, u32) = split_width(bounds.width, &played);
    let top: i64 = center(bounds.height, BAR_HEIGHT);
    let mut fills: Vec<Fill> = Vec::new();
    fills.push(
        Fill {
            rect: Rect { x: 0, y: top, width: parts.0 as u64, height: BAR_HEIGHT as u64 },
            color: env.primary_dark,
        },
    );
    fills.push(
        Fill {
            rect: Rect {
                x: parts.0 as u64,
                y: top,
                width: parts.1 as u64,
                height: BAR_HEIGHT as u64,
            },
            color: env.primary_light.with_alpha(REMAINING_ALPHA),
        },
    );
    fills
}

/// Where `loudness` lies in the range from `lo` to `hi`, as a proportion
/// between zero and one. Where the range is a single value the result is
/// one.
pub fn loudness_fraction(loudness: i32, lo: i32, hi: i32) -> (level: Fraction)
    ensures
        level@ == loudness_ratio(loudness as int, lo as int, hi as int),
        level@.in_unit_interval(),
{
    if lo == hi {
        return Fraction::one();
    }
    let shift: i64 = if lo < 0 {
        -(lo as i64)
    } else {
        lo as i64
    };
    let numer: i64 = loudness as i64 + shift;
    let denom: i64 = hi as i64 + shift;
    if denom <= 0 {
        Fraction::zero()
    } else {
        Fraction::clamped(numer, denom as u32)
    }
}

/// The rectangle and colour of one segment of the waveform, or `None` for
/// a track without length, of which nothing is drawn.
pub fn segment_fill(
    bounds: &Size,
    segment: &Segment,
    total: u32,
    elapsed: u32,
    lo: i32,
    hi: i32,
) -> (drawn: Option<Fill>)
    ensures
        drawn is None <==> total == 0,
        drawn matches Some(fill) ==> is_segment_fill(
            fill,
            *bounds,
            *segment,
            total as int,
            elapsed as int,
            lo as int,
            hi as int,
        ),
{
    if total == 0 {
        return None;
    }
    let x: u64 = scale(bounds.width, segment.start, total);
    let natural: u64 = scale(bounds.width, segment.duration, total);
    let width: u64 = if natural < MIN_SEGMENT_WIDTH {
        MIN_SEGMENT_WIDTH
    } else {
        natural
    };
    let level: Fraction = loudness_fraction(segment.loudness_max, lo, hi);
    let height: u64 = scale(bounds.height, level.numer(), level.denom());
    proof {
        lemma_scaled_bounds(bounds.height as int, level@.num, level@.den);
    }
    let y: i64 = center(bounds.height, height as u32);
    let color: Color = if segment.start <= elapsed {
        bright_color()
    } else {
        dim_color()
    };
    Some(Fill { rect: Rect { x, y, width, height }, color })
}

/// The waveform of a loudness trace: one rectangle for each segment, in
/// the order of the trace. Nothing is drawn for a track without length or
/// a trace without segments.
pub fn render_analysis(bounds: &Size, trace: &AnalysisTrace, total: u32, elapsed: u32) -> (fills:
    Vec<Fill>)
    ensures
        is_analysis_rendering(fills@, *bounds, trace.segments@, total as int, elapsed as int),
{
    let mut fills: Vec<Fill> = Vec::new();
    let (lo, hi): (i32, i32) = match trace.loudness_range() {
        Some(range) => range,
        None => {
            return fills;
        },
    };
    let n: usize = trace.segments.len();
    let mut i: usize = 0;
    while i < n
        invariant
            i <= n,
            n == trace.segments@.len(),
            lo == min_loudness(trace.segments@),
            hi == max_loudness(trace.segments@),
            total == 0 ==> fills@.len() == 0,
            total > 0 ==> fills@.len() == i,
            forall|j: int|
                0 <= j < fills@.len() ==> is_segment_fill(
                    #[trigger] fills@[j],
                    *bounds,
                    trace.segments@[j],
                    total as int,
                    elapsed as int,
                    lo as int,
                    hi as int,
                ),
        decreases n - i,
    {
        match segment_fill(bounds, &trace.segments[i], total, elapsed, lo, hi) {
            Some(fill) => {
                fills.push(fill);
            },
            None => {},
        }
        i = i + 1;
    }
    fills
}

/// What the indicator shows of a snapshot, as rectangles to fill from
/// first to last: the waveform where the snapshot holds a loudness trace,
/// the flat bar where not.
pub fn render(bounds: &Size, snapshot: &PlaybackSnapshot, env: &StyleEnv) -> (fills: Vec<Fill>)
    ensures
        is_rendering(fills@, *bounds, *snapshot, *env),
{
    match strategy(snapshot) {
        RenderStrategy::Analysis(trace) => render_analysis(
            bounds,
            trace,
            snapshot.total_time(),
            snapshot.elapsed_time(),
        ),
        RenderStrategy::Flat => render_flat(bounds, snapshot, env),
    }
}

/// The played part of a bar is never wider than the bar: for every
/// proportion between zero and one the bar splits into two widths that are
/// not negative and add up to the whole.
pub proof fn lemma_width_conservation(width: int, played: Ratio)
    requires
        0 <= width,
        played.in_unit_interval(),
    ensures
        0 <= elapsed_width(width, played) <= width,
        elapsed_width(width, played) + (width - elapsed_width(width, played)) == width,
        played.num == 0 ==> elapsed_width(width, played) == 0,
        played.num == played.den ==> elapsed_width(width, played) == width,
{
    lemma_round_div_bounds(width, played.num, played.den);
}

/// The two rectangles of a flat bar lie side by side and cover the width
/// of the area exactly.
pub proof fn lemma_flat_covers_width(fills: Seq<Fill>, bounds: Size, played: Ratio, env: StyleEnv)
    requires
        is_flat_rendering(fills, bounds, played, env),
    ensures
        fills[0].rect.width + fills[1].rect.width == bounds.width,
        fills[1].rect.x == fills[0].rect.x + fills[0].rect.width,
        fills[1].rect.x + fills[1].rect.width == bounds.width,
{
}

/// A track without length is drawn without fault: its waveform is empty,
/// and its flat bar is all remainder.
pub proof fn lemma_zero_duration(
    fills: Seq<Fill>,
    bounds: Size,
    snapshot: PlaybackSnapshot,
    env: StyleEnv,
)
    requires
        snapshot.total_time() == 0,
        is_rendering(fills, bounds, snapshot, env),
    ensures
        snapshot.analysis is Some ==> fills.len() == 0,
        snapshot.analysis is None ==> fills.len() == 2 && fills[0].rect.width == 0
            && fills[1].rect.x == 0 && fills[1].rect.width == bounds.width,
{
    if snapshot.analysis is None {
        assert(elapsed_ratio(snapshot) == (Ratio { num: 0, den: 1 }));
        lemma_width_conservation(bounds.width as int, elapsed_ratio(snapshot));
    }
}

/// In a waveform a segment is bright if and only if it starts no later
/// than the time played, whatever its place in the trace.
pub proof fn lemma_color_split(
    fills: Seq<Fill>,
    bounds: Size,
    segments: Seq<Segment>,
    total: int,
    elapsed: int,
    i: int,
)
    requires
        0 < total,
        is_analysis_rendering(fills, bounds, segments, total, elapsed),
        0 <= i < segments.len(),
    ensures
        fills[i].color == bright() <==> segments[i].start <= elapsed,
        fills[i].color == dim() <==> segments[i].start > elapsed,
{
    assert(is_segment_fill(
        fills[i],
        bounds,
        segments[i],
        total,
        elapsed,
        min_loudness(segments),
        max_loudness(segments),
    ));
}

/// Within a range of more than one value, a loudness of the range has the
/// proportion `(loudness + |lo|) / (hi + |lo|)` as it stands, and that
/// proportion lies between zero and one.
pub proof fn lemma_loudness_within_range(loudness: int, lo: int, hi: int)
    requires
        lo < hi,
        lo <= loudness <= hi,
    ensures
        loudness_ratio(loudness, lo, hi) == (Ratio {
            num: loudness + vstd::math::abs(lo),
            den: hi + vstd::math::abs(lo),
        }),
        loudness_ratio(loudness, lo, hi).in_unit_interval(),
{
}

/// A range of one single value gives every loudness the proportion one,
/// and with it the full height.
pub proof fn lemma_loudness_degenerate(height: int, loudness: int, level: int)
    ensures
        loudness_ratio(loudness, level, level) == (Ratio { num: 1, den: 1 }),
        segment_height(height, loudness, level, level) == height,
{
    assert(height * 1 == height);
}

/// Whatever the loudness and the range, the proportion is a number
/// between zero and one.
pub proof fn lemma_loudness_defined(loudness: int, lo: int, hi: int)
    ensures
        loudness_ratio(loudness, lo, hi).in_unit_interval(),
{
}

/// The rectangle of a segment is at least one pixel wide, no taller than
/// the area, and lies between its top and bottom edges.
pub proof fn lemma_segment_within_height(
    fill: Fill,
    bounds: Size,
    segment: Segment,
    total: int,
    elapsed: int,
    lo: int,
    hi: int,
)
    requires
        is_segment_fill(fill, bounds, segment, total, elapsed, lo, hi),
    ensures
        fill.rect.width >= MIN_SEGMENT_WIDTH,
        fill.rect.height <= bounds.height,
        0 <= fill.rect.y,
        fill.rect.y + fill.rect.height <= bounds.height,
{
    let level = loudness_ratio(segment.loudness_max as int, lo, hi);
    lemma_loudness_defined(segment.loudness_max as int, lo, hi);
    lemma_scaled_bounds(bounds.height as int, level.num, level.den);
}

/// In the waveform of a trace no loudness is held back: every segment
/// lies within the range of its own trace, so where that range has more
/// than one value the height follows the proportion as it stands.
pub proof fn lemma_rendered_height(
    fills: Seq<Fill>,
    bounds: Size,
    segments: Seq<Segment>,
    total: int,
    elapsed: int,
    i: int,
)
    requires
        0 < total,
        is_analysis_rendering(fills, bounds, segments, total, elapsed),
        0 <= i < segments.len(),
    ensures
        min_loudness(segments) < max_loudness(segments) ==> fills[i].rect.height == scaled(
            bounds.height as int,
            segments[i].loudness_max + vstd::math::abs(min_loudness(segments)),
            max_loudness(segments) + vstd::math::abs(min_loudness(segments)),
        ),
        min_loudness(segments) == max_loudness(segments) ==> fills[i].rect.height
            == bounds.height,
{
    crate::model::lemma_loudness_range(segments);
    assert(is_segment_fill(
        fills[i],
        bounds,
        segments[i],
        total,
        elapsed,
        min_loudness(segments),
        max_loudness(segments),
    ));
    if min_loudness(segments) == max_loudness(segments) {
        lemma_loudness_degenerate(
            bounds.height as int,
            segments[i].loudness_max as int,
            min_loudness(segments),
        );
    }
}

} // verus!
