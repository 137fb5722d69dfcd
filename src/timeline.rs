//! A [Timeline] holds keyframes and samples a value at any time.
//!
//! A keyframe's value is reached by interpolating from its start time over its
//! duration, and is then held until the next keyframe. If a new keyframe starts
//! while another is still interpolating, the new keyframe takes precedence.

use vstd::prelude::*;
use std::marker::PhantomData;
use crate::interpolator::{
    Interpolatable, Cubic, Endpoint, FRACTION_ONE, InterpolationFunction, Triangle, ease_in_out_cubic, lemma_div_monotonic,
    lemma_ease_bounds, lemma_ease_monotonic, lemma_lerp_int_bounds, lemma_lerp_int_monotonic,
    lerp_int, triangle_fold,
};

verus! {

/// A single keyframe. Keyframes are ordered only by their time.
#[derive(Debug, Clone, Copy, PartialEq, Eq)]
pub struct Keyframe<T> {
    /// The start-time of this keyframe
    pub time: i64,
    /// The duration this keyframe interpolates for (`<= 0` means instantly)
    pub duration: i64,
    /// The value this keyframe interpolates to
    pub value: T,
}

impl<T: Copy> Keyframe<T> {
    /// Creates a keyframe.
    pub fn new(time: i64, duration: i64, value: T) -> (r: Self)
        ensures
            r == (Keyframe { time, duration, value }),
    {
        Keyframe { time, duration, value }
    }

    /// The start-time of this keyframe
    pub fn time(&self) -> (r: i64)
        ensures
            r == self.time,
    {
        self.time
    }

    /// The duration this keyframe interpolates for
    pub fn duration(&self) -> (r: i64)
        ensures
            r == self.duration,
    {
        self.duration
    }

    /// The value this keyframe interpolates to
    pub fn value(&self) -> (r: T)
        ensures
            r == self.value,
    {
        self.value
    }
}

/// `s` with each of `ks` inserted in turn, each after the keyframes that start
/// at or before it.
pub open spec fn inserted_all<T>(s: Seq<Keyframe<T>>, ks: Seq<Keyframe<T>>) -> Seq<Keyframe<T>>
    decreases ks.len(),
{
    if ks.len() == 0 {
        s
    } else {
        let before = inserted_all(s, ks.drop_last());
        before.insert(last_at_or_before(before, ks.last().time as int) + 1, ks.last())
    }
}

/// The keyframes are in ascending order of time.
pub open spec fn sorted_by_time<T>(s: Seq<Keyframe<T>>) -> bool {
    forall|i: int, j: int| 0 <= i <= j < s.len() ==> s[i].time <= s[j].time
}

/// The index of the last keyframe that starts at or before `t`; `-1` if none does.
pub open spec fn last_at_or_before<T>(s: Seq<Keyframe<T>>, t: int) -> int
    decreases s.len(),
{
    if s.len() == 0 {
        -1
    } else if s.last().time <= t {
        s.len() - 1
    } else {
        last_at_or_before(s.drop_last(), t)
    }
}

/// The progress (of `FRACTION_ONE`) of a keyframe `elapsed` time units after
/// its start: the elapsed share of its duration, at most one; one at once for
/// a keyframe without duration.
pub open spec fn progress(elapsed: int, duration: int) -> int {
    if duration > 0 {
        let p = elapsed * FRACTION_ONE / duration;
        if p < FRACTION_ONE {
            p
        } else {
            FRACTION_ONE as int
        }
    } else {
        FRACTION_ONE as int
    }
}

/// The value of the keyframes `s` (with default `default`) at time `t`,
/// interpolated by `I`.
pub open spec fn sample<T, I: InterpolationFunction<T>>(
    s: Seq<Keyframe<T>>,
    default: T,
    t: int,
) -> T {
    let i = last_at_or_before(s, t);
    if i < 0 {
        default
    } else {
        let k = s[i];
        let from = if i == 0 {
            default
        } else {
            I::spec_endpoint().spec_get(default, s[i - 1].value)
        };
        I::spec_interpolate(progress(t - k.time, k.duration as int), from, k.value)
    }
}

/// In a sorted sequence split at `i` (times at or before `t` below `i`, later
/// ones from `i` on), the last keyframe at or before `t` is at `i - 1`.
pub proof fn lemma_last_at_or_before_split<T>(s: Seq<Keyframe<T>>, t: int, i: int)
    requires
        0 <= i <= s.len(),
        forall|j: int| 0 <= j < i ==> s[j].time <= t,
        forall|j: int| i <= j < s.len() ==> s[j].time > t,
    ensures
        last_at_or_before(s, t) == i - 1,
    decreases s.len(),
{
    if s.len() > 0 && i < s.len() {
        let r = s.drop_last();
        assert forall|j: int| 0 <= j < i implies r[j].time <= t by {
            assert(r[j] == s[j]);
        }
        assert forall|j: int| i <= j < r.len() implies r[j].time > t by {
            assert(r[j] == s[j]);
        }
        lemma_last_at_or_before_split(r, t, i);
    }
}

/// `last_at_or_before` is `-1` or a valid index whose keyframe starts at or before `t`.
pub proof fn lemma_last_at_or_before_range<T>(s: Seq<Keyframe<T>>, t: int)
    ensures
        -1 <= last_at_or_before(s, t) < s.len(),
        last_at_or_before(s, t) >= 0 ==> s[last_at_or_before(s, t)].time <= t,
    decreases s.len(),
{
    if s.len() > 0 && s.last().time > t {
        lemma_last_at_or_before_range(s.drop_last(), t);
    }
}

/// The number of keyframes in the sorted `keyframes` with a time at or before
/// `time`: the index after the last of them (binary search).
pub fn insertion_index<T>(keyframes: &Vec<Keyframe<T>>, time: i64) -> (r: usize)
    requires
        sorted_by_time(keyframes@),
    ensures
        r as int == last_at_or_before(keyframes@, time as int) + 1,
{
    let mut lo: usize = 0;
    let mut hi: usize = keyframes.len();
    while lo < hi
        invariant
            0 <= lo <= hi <= keyframes.len(),
            sorted_by_time(keyframes@),
            forall|j: int| 0 <= j < lo ==> keyframes@[j].time <= time,
            forall|j: int| hi <= j < keyframes@.len() ==> keyframes@[j].time > time,
        decreases hi - lo,
    {
        let mid = lo + (hi - lo) / 2;
        if keyframes[mid].time <= time {
            lo = mid + 1;
        } else {
            hi = mid;
        }
    }
    proof {
        lemma_last_at_or_before_split(keyframes@, time as int, lo as int);
    }
    lo
}

/// Inserts `keyframe` into the sorted `keyframes`, after every keyframe with a
/// time at or before its own (so keyframes with equal times keep the order in
/// which they were inserted).
pub fn insert_sorted<T>(keyframes: &mut Vec<Keyframe<T>>, keyframe: Keyframe<T>)
    requires
        sorted_by_time(old(keyframes)@),
    ensures
        sorted_by_time(final(keyframes)@),
        final(keyframes)@ == old(keyframes)@.insert(
            last_at_or_before(old(keyframes)@, keyframe.time as int) + 1,
            keyframe,
        ),
{
    let idx = insertion_index(keyframes, keyframe.time);
    proof {
        lemma_last_at_or_before_range(keyframes@, keyframe.time as int);
    }
    let ghost before = keyframes@;
    keyframes.insert(idx, keyframe);
    proof {
        let s = keyframes@;
        assert forall|i: int, j: int| 0 <= i <= j < s.len() implies s[i].time <= s[j].time by {
            lemma_insert_position(before, keyframe.time as int, idx as int);
        }
    }
}

/// A timeline which holds keyframes and samples them with the interpolation
/// function `I`.
pub struct Timeline<T, I> {
    /// The keyframes, in ascending order of time at any time.
    keyframes: Vec<Keyframe<T>>,
    /// The default value, which is valid from the beginning until the first keyframe
    default: T,
    /// The used interpolation function
    interpolation_function: PhantomData<I>,
}

impl<T, I> View for Timeline<T, I> {
    type V = Seq<Keyframe<T>>;

    closed spec fn view(&self) -> Seq<Keyframe<T>> {
        self.keyframes@
    }
}

impl<T: Copy, I: InterpolationFunction<T>> Timeline<T, I> {
    /// The default value, valid before the first keyframe.
    pub closed spec fn default_value(&self) -> T {
        self.default
    }

    /// The keyframes are in ascending order of time.
    pub open spec fn wf(&self) -> bool {
        sorted_by_time(self@)
    }

    /// The value of this timeline at time `t`.
    pub open spec fn spec_get(&self, t: int) -> T {
        sample::<T, I>(self@, self.default_value(), t)
    }

    /// Creates a new [Timeline] with the passed `default`-value
    pub fn new(default: T) -> (r: Self)
        ensures
            r@ == Seq::<Keyframe<T>>::empty(),
            r.default_value() == default,
            r.wf(),
    {
        Timeline { keyframes: Vec::new(), default, interpolation_function: PhantomData }
    }

    /// The keyframes, in ascending order of time.
    pub fn keyframes(&self) -> (r: &Vec<Keyframe<T>>)
        ensures
            r@ == self@,
    {
        &self.keyframes
    }

    /// The default value, valid before the first keyframe.
    pub fn default(&self) -> (r: T)
        ensures
            r == self.default_value(),
    {
        self.default
    }

    /// Gets the value at the passed time, interpolating the active keyframe.
    pub fn get(&self, time: i64) -> (r: T)
        requires
            self.wf(),
        ensures
            r == self.spec_get(time as int),
    {
        let after = insertion_index(&self.keyframes, time);
        if after == 0 {
            return self.default;
        }
        let idx = after - 1;
        proof {
            lemma_last_at_or_before_range(self@, time as int);
        }
        let keyframe = self.keyframes[idx];
        let from = if idx == 0 {
            self.default
        } else {
            I::endpoint().get(self.default, self.keyframes[idx - 1].value)
        };
        let elapsed = (time as i128 - keyframe.time as i128) as u128;
        let p: u64 = if keyframe.duration > 0 {
            assert(elapsed * 1048576 <= 0x1_0000_0000_0000_0000 * 1048576) by (nonlinear_arith)
                requires
                    elapsed <= 0x1_0000_0000_0000_0000,
            ;
            let q = elapsed * (FRACTION_ONE as u128) / (keyframe.duration as u128);
            if q < FRACTION_ONE as u128 {
                q as u64
            } else {
                FRACTION_ONE
            }
        } else {
            FRACTION_ONE
        };
        I::interpolate(p, from, keyframe.value)
    }

    /// Adds a keyframe into this [Timeline], after all keyframes with a time
    /// at or before its own.
    pub fn add(&mut self, time: i64, duration: i64, value: T)
        requires
            old(self).wf(),
        ensures
            final(self).wf(),
            final(self).default_value() == old(self).default_value(),
            final(self)@ == old(self)@.insert(
                last_at_or_before(old(self)@, time as int) + 1,
                Keyframe { time, duration, value },
            ),
    {
        insert_sorted(&mut self.keyframes, Keyframe { time, duration, value });
    }

    /// Adds multiple keyframes into this [Timeline], in their order (so among
    /// keyframes with equal times, earlier ones come first).
    pub fn add_all(&mut self, keyframes: Vec<Keyframe<T>>)
        requires
            old(self).wf(),
        ensures
            final(self).wf(),
            final(self).default_value() == old(self).default_value(),
            final(self)@ == inserted_all(old(self)@, keyframes@),
    {
        let mut i: usize = 0;
        while i < keyframes.len()
            invariant
                0 <= i <= keyframes@.len(),
                self.wf(),
                self.default_value() == old(self).default_value(),
                self@ == inserted_all(old(self)@, keyframes@.subrange(0, i as int)),
            decreases keyframes.len() - i,
        {
            let k = keyframes[i];
            proof {
                let next = keyframes@.subrange(0, i + 1);
                assert(next.drop_last() =~= keyframes@.subrange(0, i as int));
                assert(next.last() == k);
            }
            insert_sorted(&mut self.keyframes, k);
            i = i + 1;
        }
        assert(keyframes@.subrange(0, keyframes@.len() as int) =~= keyframes@);
    }
}

/// Keyframes below the insertion index start at or before `t`, those from it
/// on start after `t`.
pub proof fn lemma_insert_position<T>(s: Seq<Keyframe<T>>, t: int, idx: int)
    requires
        sorted_by_time(s),
        idx == last_at_or_before(s, t) + 1,
    ensures
        forall|j: int| 0 <= j < idx ==> s[j].time <= t,
        forall|j: int| idx <= j < s.len() ==> s[j].time > t,
    decreases s.len(),
{
    lemma_last_at_or_before_range(s, t);
    if s.len() > 0 {
        if s.last().time > t {
            let r = s.drop_last();
            assert(sorted_by_time(r));
            lemma_insert_position(r, t, idx);
            assert forall|j: int| idx <= j < s.len() implies s[j].time > t by {
                if j < r.len() {
                    assert(r[j] == s[j]);
                }
            }
            assert forall|j: int| 0 <= j < idx implies s[j].time <= t by {
                assert(r[j] == s[j]);
            }
        } else {
            assert forall|j: int| 0 <= j < idx implies s[j].time <= t by {
                assert(s[j].time <= s[s.len() - 1].time);
            }
        }
    }
}


/// Before its first keyframe (or always, if it has none) a timeline holds its
/// default value.
pub proof fn lemma_default_before_first<T: Copy, I: InterpolationFunction<T>>(
    timeline: Timeline<T, I>,
    t: int,
)
    requires
        timeline.wf(),
        timeline@.len() == 0 || t < timeline@[0].time,
    ensures
        timeline.spec_get(t) == timeline.default_value(),
{
    let s = timeline@;
    assert forall|j: int| 0 <= j < s.len() implies s[j].time > t by {
        assert(s[0].time <= s[j].time);
    }
    lemma_last_at_or_before_split(s, t, 0);
}

/// A keyframe's progress does not decrease with the elapsed time and stays
/// within `[0, FRACTION_ONE]`.
pub proof fn lemma_progress_monotonic(e1: int, e2: int, duration: int)
    requires
        0 <= e1 <= e2,
    ensures
        0 <= progress(e1, duration) <= progress(e2, duration) <= FRACTION_ONE,
{
    if duration > 0 {
        lemma_div_monotonic(e1 * FRACTION_ONE, e2 * FRACTION_ONE, duration);
        assert(0 <= e1 * FRACTION_ONE / duration) by (nonlinear_arith)
            requires
                0 <= e1,
                duration > 0,
        ;
    }
}

/// The value of a one-keyframe timeline at time `t`, at or after the keyframe.
proof fn lemma_single_keyframe<T: Copy, I: InterpolationFunction<T>>(
    timeline: Timeline<T, I>,
    k: Keyframe<T>,
    t: int,
)
    requires
        timeline@ == seq![k],
        k.time <= t,
    ensures
        timeline.spec_get(t) == I::spec_interpolate(
            progress(t - k.time, k.duration as int),
            timeline.default_value(),
            k.value,
        ),
{
    assert(timeline@.last() == k);
    assert(last_at_or_before(timeline@, t) == 0);
}

/// A triangle-interpolated timeline with one keyframe `(t0, duration, v)` and
/// default `d` starts at `d`, reaches `v` halfway through and is back at `d`
/// from the end of the keyframe on.
pub proof fn lemma_triangle_loops_back<T: Interpolatable>(
    timeline: Timeline<T, Triangle>,
    t0: i64,
    duration: i64,
    v: T,
    d: T,
    t: int,
)
    requires
        timeline@ == seq![Keyframe { time: t0, duration, value: v }],
        timeline.default_value() == d,
        duration > 0,
        t >= t0 + duration,
    ensures
        timeline.spec_get(t0 as int) == d,
        duration % 2 == 0 ==> timeline.spec_get(t0 + duration / 2) == v,
        timeline.spec_get(t) == d,
{
    let k = Keyframe { time: t0, duration, value: v };
    let one = FRACTION_ONE as int;
    let dur = duration as int;
    T::lemma_lerp_ends(d, v);
    lemma_single_keyframe(timeline, k, t0 as int);
    assert(0 * one / dur == 0);
    assert(triangle_fold(0) == 0);
    lemma_single_keyframe(timeline, k, t);
    let e = t - t0;
    assert(e * one / dur >= one) by (nonlinear_arith)
        requires
            e >= dur,
            dur > 0,
            one > 0,
    ;
    assert(triangle_fold(one) == 0);
    if duration % 2 == 0 {
        let h = dur / 2;
        lemma_single_keyframe(timeline, k, t0 + h);
        assert(h * one / dur == one / 2) by (nonlinear_arith)
            requires
                dur == 2 * h,
                h > 0,
                one == 1048576,
        ;
        assert(triangle_fold(one / 2) == one);
    }
}

/// A cubic-interpolated timeline with one keyframe `(t0, duration, v)` and
/// default `d < v` does not decrease over the keyframe, starts at `d` and ends
/// at `v`.
pub proof fn lemma_cubic_eases_monotonically(
    timeline: Timeline<i64, Cubic>,
    t0: i64,
    duration: i64,
    v: i64,
    d: i64,
    t1: int,
    t2: int,
)
    requires
        timeline@ == seq![Keyframe { time: t0, duration, value: v }],
        timeline.default_value() == d,
        d < v,
        duration > 0,
        t0 <= t1 <= t2 <= t0 + duration,
    ensures
        timeline.spec_get(t1) <= timeline.spec_get(t2),
        timeline.spec_get(t0 as int) == d,
        timeline.spec_get(t0 + duration) == v,
{
    let k = Keyframe { time: t0, duration, value: v };
    let one = FRACTION_ONE as int;
    let dur = duration as int;
    lemma_single_keyframe(timeline, k, t0 as int);
    lemma_single_keyframe(timeline, k, t0 + dur);
    lemma_single_keyframe(timeline, k, t1);
    lemma_single_keyframe(timeline, k, t2);
    assert(0 * one / dur == 0);
    assert(dur * one / dur == one) by (nonlinear_arith)
        requires
            dur > 0,
    ;
    lemma_ease_bounds(0);
    lemma_ease_bounds(one);
    lemma_lerp_int_bounds(d as int, v as int, 0);
    lemma_lerp_int_bounds(d as int, v as int, one);
    let pa = progress(t1 - t0, dur);
    let pb = progress(t2 - t0, dur);
    lemma_progress_monotonic(t1 - t0, t2 - t0, dur);
    lemma_ease_monotonic(pa, pb);
    lemma_ease_bounds(pa);
    lemma_ease_bounds(pb);
    let e1 = ease_in_out_cubic(pa);
    let e2 = ease_in_out_cubic(pb);
    lemma_lerp_int_monotonic(d as int, v as int, e1, e2);
    lemma_lerp_int_bounds(d as int, v as int, e1);
    lemma_lerp_int_bounds(d as int, v as int, e2);
}

} // verus!
