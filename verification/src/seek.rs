//! What is shown and heard after a seek.
//!
//! A seek lands on a key frame at or before its target. Everything between the
//! key frame and the target is decoded but not presented, unless the key frame
//! is so far away that catching up would freeze the picture: then playback
//! restarts from the key frame itself.

use vstd::prelude::*;

use crate::timing::{saturating_sum, ExactTime, Seconds};

verus! {

/// The longest catch-up after a seek: past it, playback restarts from the key
/// frame.
pub const SEEK_CATCHUP_MAX: i128 = 1_000_000_000;

/// How early before its target a frame may be and still be the one asked for.
pub const SEEK_TOLERANCE: i128 = 50_000_000;

/// Holds back the frames of one stream that come before a seek's target.
#[derive(Debug, Clone, Copy, PartialEq, Eq, Structural)]
pub struct SeekFilter {
    /// Where the seek was aimed, as long as it has not been reached.
    pub skip_until: Option<Seconds>,
    /// No frame has come since the seek.
    pub first: bool,
}

/// A frame at `pts` is too far before `target` to catch up.
pub open spec fn too_far(target: Seconds, pts: Seconds) -> bool {
    target.nanos - pts.nanos > SEEK_CATCHUP_MAX
}

/// A frame at `pts` comes before the one asked for.
pub open spec fn too_early(target: Seconds, pts: Seconds) -> bool {
    pts.nanos < target.nanos - SEEK_TOLERANCE
}

impl SeekFilter {
    /// The filter when no seek is under way.
    pub open spec fn idle() -> SeekFilter {
        SeekFilter { skip_until: None, first: false }
    }

    /// The filter right after a seek to `target`.
    pub open spec fn aimed(target: Seconds) -> SeekFilter {
        SeekFilter { skip_until: Some(target), first: true }
    }

    /// The target that still holds once a frame at `pts` has come.
    pub open spec fn target_at(self, pts: Seconds) -> Option<Seconds> {
        match self.skip_until {
            Some(t) => if self.first && too_far(t, pts) {
                None
            } else {
                Some(t)
            },
            None => None,
        }
    }

    /// A frame at `pts` is presented.
    pub open spec fn admits(self, pts: Seconds) -> bool {
        match self.target_at(pts) {
            Some(t) => !too_early(t, pts),
            None => true,
        }
    }

    /// The filter once a frame at `pts` has come.
    pub open spec fn next(self, pts: Seconds) -> SeekFilter {
        SeekFilter {
            skip_until: if self.admits(pts) {
                None
            } else {
                self.target_at(pts)
            },
            first: self.first && self.skip_until is None,
        }
    }

    /// For each frame of `pts` in turn, whether it is presented.
    pub open spec fn run(self, pts: Seq<Seconds>) -> Seq<bool>
        decreases pts.len(),
    {
        if pts.len() == 0 {
            seq![]
        } else {
            seq![self.admits(pts[0])] + self.next(pts[0]).run(pts.drop_first())
        }
    }

    /// A filter that lets everything through.
    pub fn new() -> (r: SeekFilter)
        ensures
            r == SeekFilter::idle(),
    {
        SeekFilter { skip_until: None, first: false }
    }

    /// A filter for a seek to `target`.
    pub fn aim(target: Seconds) -> (r: SeekFilter)
        ensures
            r == SeekFilter::aimed(target),
    {
        SeekFilter { skip_until: Some(target), first: true }
    }

    /// Takes in a frame at `pts` and says whether to present it.
    pub fn pass(&mut self, pts: Seconds) -> (r: bool)
        ensures
            r == old(self).admits(pts),
            *final(self) == old(self).next(pts),
    {
        let was_first = self.first;
        if let Some(t) = self.skip_until {
            self.first = false;
            let mut held = true;
            if was_first && pts.nanos < saturating_sum(t.nanos, -SEEK_CATCHUP_MAX) {
                held = false;
            }
            if held && pts.nanos < saturating_sum(t.nanos, -SEEK_TOLERANCE) {
                return false;
            }
            self.skip_until = None;
        }
        true
    }
}

proof fn lemma_idle_run(g: SeekFilter, pts: Seq<Seconds>)
    requires
        g.skip_until is None,
    ensures
        g.run(pts).len() == pts.len(),
        forall|i: int| 0 <= i < pts.len() ==> #[trigger] g.run(pts)[i],
    decreases pts.len(),
{
    if pts.len() > 0 {
        let rest = g.next(pts[0]).run(pts.drop_first());
        lemma_idle_run(g.next(pts[0]), pts.drop_first());
        assert forall|i: int| 0 <= i < pts.len() implies #[trigger] g.run(pts)[i] by {
            if i > 0 {
                assert(g.run(pts)[i] == rest[i - 1]);
            }
        }
    }
}

/// A time between two nanoseconds is judged by the one before it: no fraction
/// makes a frame early, or far, that its whole nanoseconds do not.
pub proof fn law_whole_nanoseconds_decide(target: Seconds, t: ExactTime)
    requires
        t.wf(),
    ensures
        ({
            let pts = Seconds { nanos: t.nanos };
            &&& too_early(target, pts) <==> t.scaled() < (target.nanos - SEEK_TOLERANCE) * t.den
            &&& too_far(target, pts) <==> t.scaled() < (target.nanos - SEEK_CATCHUP_MAX) * t.den
        }),
{
    let den = t.den as int;
    let early = target.nanos - SEEK_TOLERANCE;
    let far = target.nanos - SEEK_CATCHUP_MAX;
    assert(t.nanos < early <==> t.nanos * den + t.num < early * den) by (nonlinear_arith)
        requires
            0 <= t.num < den,
    ;
    assert(t.nanos < far <==> t.nanos * den + t.num < far * den) by (nonlinear_arith)
        requires
            0 <= t.num < den,
    ;
}

/// When the first frame after a seek is more than the longest catch-up before
/// the target, every frame is presented, that one included.
pub proof fn law_far_key_frame_is_shown(target: Seconds, pts: Seq<Seconds>)
    requires
        pts.len() > 0,
        too_far(target, pts[0]),
    ensures
        SeekFilter::aimed(target).run(pts).len() == pts.len(),
        forall|i: int| 0 <= i < pts.len() ==> #[trigger] SeekFilter::aimed(target).run(pts)[i],
{
    let g = SeekFilter::aimed(target);
    let rest = g.next(pts[0]).run(pts.drop_first());
    lemma_idle_run(g.next(pts[0]), pts.drop_first());
    assert forall|i: int| 0 <= i < pts.len() implies #[trigger] g.run(pts)[i] by {
        if i > 0 {
            assert(g.run(pts)[i] == rest[i - 1]);
        }
    }
}

proof fn lemma_catch_up(g: SeekFilter, target: Seconds, pts: Seq<Seconds>, k: int)
    requires
        g.skip_until == Some(target),
        0 <= k <= pts.len(),
        pts.len() > 0 ==> !(g.first && too_far(target, pts[0])),
        forall|i: int| 0 <= i < k ==> too_early(target, #[trigger] pts[i]),
        k < pts.len() ==> !too_early(target, pts[k]),
    ensures
        g.run(pts).len() == pts.len(),
        forall|i: int| 0 <= i < pts.len() ==> #[trigger] g.run(pts)[i] == (i >= k),
    decreases pts.len(),
{
    if pts.len() > 0 {
        let tail = pts.drop_first();
        let rest = g.next(pts[0]).run(tail);
        if k == 0 {
            lemma_idle_run(g.next(pts[0]), tail);
        } else {
            assert(too_early(target, pts[0]));
            assert forall|i: int| 0 <= i < k - 1 implies too_early(target, #[trigger] tail[i]) by {
                assert(tail[i] == pts[i + 1]);
            }
            assert(k < pts.len() ==> tail[k - 1] == pts[k]);
            lemma_catch_up(g.next(pts[0]), target, tail, k - 1);
        }
        assert forall|i: int| 0 <= i < pts.len() implies #[trigger] g.run(pts)[i] == (i >= k) by {
            if i > 0 {
                assert(g.run(pts)[i] == rest[i - 1]);
            }
        }
    }
}

/// When the first frame after a seek is near enough, the frames before the
/// target are held back, the first one that reaches it (the `k`-th) is
/// presented, and so is every frame after it, whatever its time.
pub proof fn law_near_key_frame_catches_up(target: Seconds, pts: Seq<Seconds>, k: int)
    requires
        0 <= k <= pts.len(),
        pts.len() > 0 ==> !too_far(target, pts[0]),
        forall|i: int| 0 <= i < k ==> too_early(target, #[trigger] pts[i]),
        k < pts.len() ==> !too_early(target, pts[k]),
    ensures
        SeekFilter::aimed(target).run(pts).len() == pts.len(),
        forall|i: int|
            0 <= i < pts.len() ==> #[trigger] SeekFilter::aimed(target).run(pts)[i] == (i >= k),
{
    lemma_catch_up(SeekFilter::aimed(target), target, pts, k);
}

/// Without a seek under way every frame is presented.
pub proof fn law_idle_filter_is_open(pts: Seq<Seconds>)
    ensures
        SeekFilter::idle().run(pts).len() == pts.len(),
        forall|i: int| 0 <= i < pts.len() ==> #[trigger] SeekFilter::idle().run(pts)[i],
{
    lemma_idle_run(SeekFilter::idle(), pts);
}

/// Right after a seek a frame is presented when it is no more than 50 ms early
/// or more than a second away; once a frame has come, distance no longer
/// counts. Without a target every frame is presented.
pub proof fn law_frames_wait_for_their_target(target: Seconds, pts: Seconds, first: bool)
    ensures
        SeekFilter::aimed(target).admits(pts) <==> pts.nanos + 50_000_000 >= target.nanos
            || target.nanos > pts.nanos + 1_000_000_000,
        (SeekFilter { skip_until: Some(target), first: false }).admits(pts) <==> pts.nanos
            + 50_000_000 >= target.nanos,
        (SeekFilter { skip_until: None, first }).admits(pts),
        SeekFilter::idle().admits(pts),
{
}

/// The target holds until a frame is presented: one that is held back leaves it
/// where it was, one that is presented ends the seek. No frame is the first
/// twice.
pub proof fn law_targets_hold_until_they_are_reached(f: SeekFilter, target: Seconds, pts: Seconds)
    ensures
        f.admits(pts) ==> f.next(pts).skip_until is None,
        !f.admits(pts) ==> f.next(pts).skip_until == f.skip_until && f.skip_until is Some,
        f.skip_until is Some ==> !f.next(pts).first,
        f.skip_until is None ==> f.next(pts) == f,
        SeekFilter::aimed(target).skip_until == Some(target) && SeekFilter::aimed(target).first,
        SeekFilter::idle().skip_until is None && !SeekFilter::idle().first,
{
}

/// What two runs of frames in a row come to is what one over both comes to,
/// frame by frame.
pub proof fn law_frames_are_judged_in_turn(f: SeekFilter, pts: Seconds, rest: Seq<Seconds>, i: int)
    requires
        0 <= i < rest.len(),
    ensures
        f.run(seq![pts] + rest)[0] == f.admits(pts),
        f.run(seq![pts] + rest)[i + 1] == f.next(pts).run(rest)[i],
        f.run(seq![pts] + rest).len() == rest.len() + 1,
{
    let all = seq![pts] + rest;
    assert(all.drop_first() =~= rest);
    assert(all[0] == pts);
    lemma_run_length(f.next(pts), rest);
}

proof fn lemma_run_length(f: SeekFilter, pts: Seq<Seconds>)
    ensures
        f.run(pts).len() == pts.len(),
    decreases pts.len(),
{
    if pts.len() > 0 {
        lemma_run_length(f.next(pts[0]), pts.drop_first());
    }
}

} // verus!
