use vstd::prelude::*;

verus! {

/// One slice of a loudness trace: when it starts and how long it lasts, in
/// milliseconds, and its peak loudness in hundredths of a decibel.
#[derive(Clone, Copy, Debug, PartialEq, Eq, Structural)]
pub struct Segment {
    pub start: u32,
    pub duration: u32,
    pub loudness_max: i32,
}

/// A loudness trace of one track. Its segments are meant to come in the
/// order of their start and not to overlap; neither is looked into here.
#[derive(Clone, Debug)]
pub struct AnalysisTrace {
    pub segments: Vec<Segment>,
}

/// What is known here of a track: its length in milliseconds.
#[derive(Clone, Copy, Debug, PartialEq, Eq, Structural)]
pub struct TrackRef {
    pub duration: u32,
}

/// The state of playback at one moment. It is read, never changed.
#[derive(Clone, Debug)]
pub struct PlaybackSnapshot {
    pub current_item: Option<TrackRef>,
    pub elapsed: Option<u32>,
    pub is_playing: bool,
    pub analysis: Option<AnalysisTrace>,
}

/// The least peak loudness of the segments; 0 where there is none.
pub open spec fn min_loudness(segments: Seq<Segment>) -> int
    decreases segments.len(),
{
    if segments.len() == 0 {
        0
    } else if segments.len() == 1 {
        segments[0].loudness_max as int
    } else {
        vstd::math::min(min_loudness(segments.drop_last()), segments.last().loudness_max as int)
    }
}

/// The greatest peak loudness of the segments; 0 where there is none.
pub open spec fn max_loudness(segments: Seq<Segment>) -> int
    decreases segments.len(),
{
    if segments.len() == 0 {
        0
    } else if segments.len() == 1 {
        segments[0].loudness_max as int
    } else {
        vstd::math::max(max_loudness(segments.drop_last()), segments.last().loudness_max as int)
    }
}

/// The two ends of the loudness range bound every segment of the trace,
/// and each of them is the loudness of some segment.
pub proof fn lemma_loudness_range(segments: Seq<Segment>)
    requires
        segments.len() > 0,
    ensures
        forall|i: int|
            0 <= i < segments.len() ==> min_loudness(segments) <= (
            #[trigger] segments[i]).loudness_max <= max_loudness(segments),
        exists|i: int|
            0 <= i < segments.len() && (#[trigger] segments[i]).loudness_max == min_loudness(
                segments,
            ),
        exists|i: int|
            0 <= i < segments.len() && (#[trigger] segments[i]).loudness_max == max_loudness(
                segments,
            ),
        min_loudness(segments) <= max_loudness(segments),
    decreases segments.len(),
{
    if segments.len() == 1 {
        assert(segments[0].loudness_max == min_loudness(segments));
        assert(segments[0].loudness_max == max_loudness(segments));
    } else {
        let front = segments.drop_last();
        let last: int = segments.len() - 1;
        lemma_loudness_range(front);
        assert forall|i: int| 0 <= i < segments.len() implies min_loudness(segments) <= (
        #[trigger] segments[i]).loudness_max <= max_loudness(segments) by {
            if i < last {
                assert(front[i] == segments[i]);
            }
        }
        let lo = choose|i: int|
            0 <= i < front.len() && (#[trigger] front[i]).loudness_max == min_loudness(front);
        let hi = choose|i: int|
            0 <= i < front.len() && (#[trigger] front[i]).loudness_max == max_loudness(front);
        assert(front[lo] == segments[lo]);
        assert(front[hi] == segments[hi]);
        if min_loudness(segments) == min_loudness(front) {
            assert(segments[lo].loudness_max == min_loudness(segments));
        } else {
            assert(segments[last].loudness_max == min_loudness(segments));
        }
        if max_loudness(segments) == max_loudness(front) {
            assert(segments[hi].loudness_max == max_loudness(segments));
        } else {
            assert(segments[last].loudness_max == max_loudness(segments));
        }
    }
}

impl AnalysisTrace {
    /// The least and the greatest peak loudness over all segments, or
    /// `None` for a trace without segments.
    pub fn loudness_range(&self) -> (range: Option<(i32, i32)>)
        ensures
            range is None <==> self.segments@.len() == 0,
            range matches Some((lo, hi)) ==> lo == min_loudness(self.segments@) && hi
                == max_loudness(self.segments@) && lo <= hi,
    {
        let n: usize = self.segments.len();
        if n == 0 {
            return None;
        }
        let mut lo: i32 = self.segments[0].loudness_max;
        let mut hi: i32 = self.segments[0].loudness_max;
        let mut i: usize = 1;
        while i < n
            invariant
                1 <= i <= n,
                n == self.segments@.len(),
                lo == min_loudness(self.segments@.take(i as int)),
                hi == max_loudness(self.segments@.take(i as int)),
            decreases n - i,
        {
            let loudness: i32 = self.segments[i].loudness_max;
            proof {
                let next = self.segments@.take(i + 1);
                assert(next.drop_last() =~= self.segments@.take(i as int));
                assert(next.last() == self.segments@[i as int]);
            }
            if loudness < lo {
                lo = loudness;
            }
            if loudness > hi {
                hi = loudness;
            }
            i = i + 1;
        }
        proof {
            assert(self.segments@.take(n as int) =~= self.segments@);
            lemma_loudness_range(self.segments@);
        }
        Some((lo, hi))
    }
}

impl PlaybackSnapshot {
    /// The length of the current track; zero where nothing is loaded.
    pub open spec fn spec_total_time(&self) -> u32 {
        match self.current_item {
            Some(track) => track.duration,
            None => 0,
        }
    }

    /// The time played so far, held within the length of the track; zero
    /// where it is not known.
    pub open spec fn spec_elapsed_time(&self) -> u32 {
        match self.elapsed {
            Some(elapsed) => if elapsed <= self.spec_total_time() {
                elapsed
            } else {
                self.spec_total_time()
            },
            None => 0,
        }
    }

    /// The length of the current track in milliseconds; zero where nothing
    /// is loaded.
    #[verifier::when_used_as_spec(spec_total_time)]
    pub fn total_time(&self) -> (total: u32)
        ensures
            total == self.spec_total_time(),
    {
        match self.current_item {
            Some(track) => track.duration,
            None => 0,
        }
    }

    /// The time played so far in milliseconds. A value beyond the end of
    /// the track counts as its end; an unknown one as zero.
    #[verifier::when_used_as_spec(spec_elapsed_time)]
    pub fn elapsed_time(&self) -> (elapsed: u32)
        ensures
            elapsed == self.spec_elapsed_time(),
            elapsed <= self.spec_total_time(),
    {
        let total: u32 = self.total_time();
        match self.elapsed {
            Some(elapsed) => if elapsed <= total {
                elapsed
            } else {
                total
            },
            None => 0,
        }
    }
}

} // verus!
