//! Looking things up in a beatmap by time: the timing point of a time, the
//! timing points in effect at a time, the hit object at a time, and the
//! pairing of every hit object with the timing point it is played under.
//!
//! The lists are walked in the order they are held; a beatmap that is read
//! has them in order of time (see `beatmap_laws::parsed_lists_sorted`), which
//! is what gives the walks their meaning.

use vstd::prelude::*;
use crate::beatmap::{hitobject_keys, timing_keys, Beatmap};
use crate::enums::Millis;
use crate::hitobject::{HitObject, HitObjectKind, HitObjectKindView, HitObjectView};
use crate::sorting::is_sorted;
use crate::timing::{TimingPoint, TimingPointKind, TimingPointView};

verus! {

/// The index of the last of the first `n` times that is strictly before `t`.
pub open spec fn last_before(times: Seq<i32>, t: int, n: int) -> Option<int>
    decreases n,
{
    if n <= 0 {
        None
    } else if times[n - 1] < t {
        Some(n - 1)
    } else {
        last_before(times, t, n - 1)
    }
}

/// The index of the first time from `from` on that is exactly `t`.
pub open spec fn first_at(times: Seq<i32>, t: int, from: int) -> Option<int>
    decreases times.len() - from,
{
    if from < 0 || from >= times.len() {
        None
    } else if times[from] == t {
        Some(from)
    } else {
        first_at(times, t, from + 1)
    }
}

/// The index of the first time from `from` on that is after `t`, or the
/// number of times when none is: the times before it are those in effect
/// at `t` when the list is walked from the start.
pub open spec fn effect_end(times: Seq<i32>, t: int, from: int) -> int
    decreases times.len() - from,
{
    if from < 0 || from >= times.len() {
        times.len() as int
    } else if times[from] > t {
        from
    } else {
        effect_end(times, t, from + 1)
    }
}

/// The index of the last uninherited point among the first `n`.
pub open spec fn last_uninherited(tps: Seq<TimingPointView>, n: int) -> Option<int>
    decreases n,
{
    if n <= 0 {
        None
    } else if tps[n - 1].kind == TimingPointKind::Uninherited {
        Some(n - 1)
    } else {
        last_uninherited(tps, n - 1)
    }
}

/// Moving from timing point `j` to the next one as long as the next one
/// starts no later than `t`.
pub open spec fn advance(times: Seq<i32>, j: int, t: int) -> int
    decreases times.len() - j,
{
    if 0 <= j && j + 1 < times.len() && times[j + 1] <= t {
        advance(times, j + 1, t)
    } else {
        j
    }
}

/// The pairs of hit object `i` on with their timing points, walking the
/// timing points on from `j`.
pub open spec fn pairs_from(objects: Seq<i32>, times: Seq<i32>, i: int, j: int) -> Seq<(int, int)>
    decreases objects.len() - i,
{
    if i < 0 || i >= objects.len() {
        Seq::empty()
    } else {
        let k = advance(times, j, objects[i] as int);
        seq![(i, k)] + pairs_from(objects, times, i + 1, k)
    }
}

/// The pairs (hit object, timing point) of a beatmap whose hit objects start
/// at `objects` and whose timing points start at `times`: every hit object in
/// turn, with the timing point reached by moving on from the previous one
/// while the next point starts no later than the object. None without timing
/// points.
pub open spec fn spec_double_iter(objects: Seq<i32>, times: Seq<i32>) -> Seq<(int, int)> {
    if times.len() == 0 {
        Seq::empty()
    } else {
        pairs_from(objects, times, 0, 0)
    }
}

/// The pairs as integers.
pub open spec fn pair_ints(v: Seq<(usize, usize)>) -> Seq<(int, int)> {
    v.map_values(|p: (usize, usize)| (p.0 as int, p.1 as int))
}

/// The pairs among `pairs` whose hit object is a slider, in order.
pub open spec fn slider_pairs(pairs: Seq<(int, int)>, hos: Seq<HitObjectView>) -> Seq<(int, int)>
    decreases pairs.len(),
{
    if pairs.len() == 0 {
        Seq::empty()
    } else {
        let rest = slider_pairs(pairs.drop_last(), hos);
        if hos[pairs.last().0].kind is Slider {
            rest.push(pairs.last())
        } else {
            rest
        }
    }
}

/// The number of hit objects among `hos` that are circles or spinners.
pub open spec fn single_count(hos: Seq<HitObjectView>) -> nat
    decreases hos.len(),
{
    if hos.len() == 0 {
        0
    } else {
        let rest = single_count(hos.drop_last());
        if hos.last().kind is Slider {
            rest
        } else {
            rest + 1
        }
    }
}

/// The combo a slider gives from its tick count rounded up, `ticks`, and its
/// number of repeats taken as an `i32`: `(ticks - 1) * repeats + repeats + 1`,
/// or 0 when that is negative.
pub open spec fn spec_slider_combo(ticks: i32, num_repeats: u32) -> int {
    let r = (num_repeats as i32) as int;
    let c = (ticks - 1) * r + r + 1;
    if c < 0 {
        0
    } else {
        c
    }
}

/// The combo a slider gives (see [`spec_slider_combo`]). The tick count comes
/// from the slider's length and timing, which are floating point; what is
/// done with it here is integer arithmetic, which must stay within `i32`.
pub fn slider_combo(ticks: i32, num_repeats: u32) -> (r: u32)
    requires
        ticks > i32::MIN,
        i32::MIN <= (ticks - 1) * ((num_repeats as i32) as int) <= i32::MAX,
        i32::MIN <= (num_repeats as i32) + 1 <= i32::MAX,
        i32::MIN <= (ticks - 1) * ((num_repeats as i32) as int) + (num_repeats as i32) + 1
            <= i32::MAX,
    ensures
        r == spec_slider_combo(ticks, num_repeats),
{
    let r = num_repeats as i32;
    let mut t = ticks - 1;
    t = t * r;
    t = t + (r + 1);
    if t < 0 {
        0
    } else {
        t as u32
    }
}

impl Beatmap {
    /// The start times of the timing points.
    pub open spec fn point_times(&self) -> Seq<i32> {
        timing_keys(self.view().timing_points)
    }

    /// The start times of the hit objects.
    pub open spec fn object_times(&self) -> Seq<i32> {
        hitobject_keys(self.view().hit_objects)
    }

    /// The timing point of the timing section to which `time` belongs: the
    /// last one that starts strictly before `time`.
    pub fn locate_timing_point(&self, time: Millis) -> (r: Option<TimingPoint>)
        ensures
            match last_before(self.point_times(), time.0 as int, self.timing_points@.len() as int) {
                None => r is None,
                Some(i) => r == Some(self.timing_points@[i]),
            },
    {
        let ghost times = self.point_times();
        let mut found: Option<usize> = None;
        let mut i: usize = 0;
        while i < self.timing_points.len()
            invariant
                i <= self.timing_points@.len(),
                times == self.point_times(),
                times.len() == self.timing_points@.len(),
                match last_before(times, time.0 as int, i as int) {
                    None => found is None,
                    Some(k) => found == Some(k as usize),
                },
            decreases self.timing_points@.len() - i,
        {
            assert(times[i as int] == self.timing_points@[i as int].time.0);
            if self.timing_points[i].time.0 < time.0 {
                found = Some(i);
            }
            i = i + 1;
        }
        proof {
            lemma_last_before(times, time.0 as int, i as int);
        }
        match found {
            None => None,
            Some(k) => Some(self.timing_points[k].clone()),
        }
    }

    /// The first hit object that starts exactly at `time`.
    pub fn locate_hitobject(&self, time: Millis) -> (r: Option<HitObject>)
        ensures
            match first_at(self.object_times(), time.0 as int, 0) {
                None => r is None,
                Some(i) => r matches Some(h) && h.view() == self.hit_objects@[i].view(),
            },
    {
        let ghost times = self.object_times();
        let mut i: usize = 0;
        while i < self.hit_objects.len()
            invariant
                i <= self.hit_objects@.len(),
                times == self.object_times(),
                times.len() == self.hit_objects@.len(),
                first_at(times, time.0 as int, 0) == first_at(times, time.0 as int, i as int),
            decreases self.hit_objects@.len() - i,
        {
            assert(times[i as int] == self.hit_objects@[i as int].start_time.0);
            if self.hit_objects[i].start_time.0 == time.0 {
                return Some(self.hit_objects[i].clone());
            }
            i = i + 1;
        }
        None
    }

    /// A copy of every hit object, in order.
    pub fn get_hitobjects(&self) -> (r: Vec<HitObject>)
        ensures
            r@.len() == self.hit_objects@.len(),
            forall|i: int|
                0 <= i < r@.len() ==> #[trigger] r@[i].view() == self.hit_objects@[i].view(),
    {
        let mut r: Vec<HitObject> = Vec::new();
        let mut i: usize = 0;
        while i < self.hit_objects.len()
            invariant
                i <= self.hit_objects@.len(),
                r@.len() == i,
                forall|k: int| 0 <= k < i ==> #[trigger] r@[k].view() == self.hit_objects@[k].view(),
            decreases self.hit_objects@.len() - i,
        {
            r.push(self.hit_objects[i].clone());
            i = i + 1;
        }
        r
    }

    /// The number of timing points in effect at `time`: those before the
    /// first one that starts after `time`.
    fn effect_end_at(&self, time: Millis) -> (n: usize)
        ensures
            n == effect_end(self.point_times(), time.0 as int, 0),
            n <= self.timing_points@.len(),
    {
        let ghost times = self.point_times();
        let mut i: usize = 0;
        while i < self.timing_points.len()
            invariant
                i <= self.timing_points@.len(),
                times == self.point_times(),
                times.len() == self.timing_points@.len(),
                effect_end(times, time.0 as int, 0) == effect_end(times, time.0 as int, i as int),
            decreases self.timing_points@.len() - i,
        {
            assert(times[i as int] == self.timing_points@[i as int].time.0);
            if self.timing_points[i].time.0 > time.0 {
                return i;
            }
            i = i + 1;
        }
        i
    }

    /// The timing point in effect at `time`, which decides the slider
    /// velocity there: the last one before the first that starts after
    /// `time`. `None` when the first timing point starts after `time`.
    pub fn timing_point_at(&self, time: Millis) -> (r: Option<usize>)
        ensures
            ({
                let n = effect_end(self.point_times(), time.0 as int, 0);
                if n == 0 {
                    r is None
                } else {
                    r == Some((n - 1) as usize)
                }
            }),
    {
        let n = self.effect_end_at(time);
        if n == 0 {
            None
        } else {
            Some(n - 1)
        }
    }

    /// The uninherited timing point in effect at `time`, which decides the
    /// tempo there: the last uninherited one before the first timing point
    /// that starts after `time`.
    pub fn uninherited_point_at(&self, time: Millis) -> (r: Option<usize>)
        ensures
            match last_uninherited(
                self.view().timing_points,
                effect_end(self.point_times(), time.0 as int, 0),
            ) {
                None => r is None,
                Some(i) => r == Some(i as usize),
            },
    {
        let n = self.effect_end_at(time);
        let ghost tps = self.view().timing_points;
        let mut found: Option<usize> = None;
        let mut i: usize = 0;
        while i < n
            invariant
                i <= n <= self.timing_points@.len(),
                tps == self.view().timing_points,
                tps.len() == self.timing_points@.len(),
                match last_uninherited(tps, i as int) {
                    None => found is None,
                    Some(k) => found == Some(k as usize),
                },
            decreases n - i,
        {
            assert(tps[i as int].kind == self.timing_points@[i as int].kind);
            match self.timing_points[i].kind {
                TimingPointKind::Uninherited => {
                    found = Some(i);
                },
                TimingPointKind::Inherited => {},
            }
            i = i + 1;
        }
        found
    }

    /// Every hit object, in order, paired with its timing point: the walk of
    /// [`spec_double_iter`], as pairs of indices. Empty when the beatmap has
    /// no timing points.
    pub fn double_iter(&self) -> (r: Vec<(usize, usize)>)
        ensures
            pair_ints(r@) == spec_double_iter(self.object_times(), self.point_times()),
    {
        let ghost objects = self.object_times();
        let ghost times = self.point_times();
        let mut r: Vec<(usize, usize)> = Vec::new();
        if self.timing_points.len() == 0 {
            assert(pair_ints(r@) =~= Seq::<(int, int)>::empty());
            return r;
        }
        let m = self.timing_points.len();
        let mut i: usize = 0;
        let mut j: usize = 0;
        while i < self.hit_objects.len()
            invariant
                i <= self.hit_objects@.len(),
                m == self.timing_points@.len(),
                j < m,
                objects == self.object_times(),
                times == self.point_times(),
                objects.len() == self.hit_objects@.len(),
                times.len() == self.timing_points@.len(),
                pair_ints(r@) + pairs_from(objects, times, i as int, j as int) == spec_double_iter(
                    objects,
                    times,
                ),
            decreases self.hit_objects@.len() - i,
        {
            let t = self.hit_objects[i].start_time.0;
            assert(objects[i as int] == t);
            let ghost j0 = j;
            while j + 1 < m && self.timing_points[j + 1].time.0 <= t
                invariant
                    m == self.timing_points@.len(),
                    j < m,
                    times == self.point_times(),
                    times.len() == self.timing_points@.len(),
                    advance(times, j as int, t as int) == advance(times, j0 as int, t as int),
                decreases self.timing_points@.len() - j,
            {
                assert(times[j + 1] == self.timing_points@[j + 1].time.0);
                j = j + 1;
            }
            proof {
                if j + 1 < times.len() {
                    assert(times[j + 1] == self.timing_points@[j + 1].time.0);
                }
                let rest = pairs_from(objects, times, i + 1, j as int);
                assert(pairs_from(objects, times, i as int, j0 as int) == seq![(i as int, j as int)]
                    + rest);
                assert(pair_ints(r@.push((i, j))) =~= pair_ints(r@).push((i as int, j as int)));
                assert(pair_ints(r@).push((i as int, j as int)) + rest =~= pair_ints(r@) + (seq![
                    (i as int, j as int),
                ] + rest));
            }
            r.push((i, j));
            i = i + 1;
        }
        r
    }

    /// The parts of the maximum combo that need no floating point: the
    /// number of circles and spinners (each adds one to the combo), and the
    /// pairs of [`Beatmap::double_iter`] whose hit object is a slider, in
    /// order (each adds what [`slider_combo`] gives from the ticks that its
    /// timing point decides).
    pub fn max_combo_parts(&self) -> (r: (u64, Vec<(usize, usize)>))
        ensures
            r.0 == single_count(self.view().hit_objects),
            pair_ints(r.1@) == slider_pairs(
                spec_double_iter(self.object_times(), self.point_times()),
                self.view().hit_objects,
            ),
    {
        let pairs = self.double_iter();
        let ghost all = pair_ints(pairs@);
        let ghost hos = self.view().hit_objects;
        proof {
            lemma_double_iter_objects(self.object_times(), self.point_times());
        }
        let mut singles: u64 = 0;
        let mut sliders: Vec<(usize, usize)> = Vec::new();
        let mut q: usize = 0;
        while q < pairs.len()
            invariant
                q <= pairs@.len(),
                all == pair_ints(pairs@),
                hos == self.view().hit_objects,
                hos.len() == self.hit_objects@.len(),
                forall|k: int| 0 <= k < all.len() ==> 0 <= #[trigger] all[k].0 < hos.len(),
                pair_ints(sliders@) == slider_pairs(all.take(q as int), hos),
            decreases pairs@.len() - q,
        {
            let (oi, ti) = pairs[q];
            assert(all[q as int] == (oi as int, ti as int));
            assert(all.take(q + 1).drop_last() =~= all.take(q as int));
            assert(all.take(q + 1).last() == all[q as int]);
            assert(hos[oi as int] == self.hit_objects@[oi as int].view());
            match self.hit_objects[oi].kind {
                HitObjectKind::Slider(_) => {
                    proof {
                        assert(pair_ints(sliders@.push((oi, ti))) =~= pair_ints(sliders@).push(
                            (oi as int, ti as int),
                        ));
                    }
                    sliders.push((oi, ti));
                },
                _ => {},
            }
            q = q + 1;
        }
        assert(all.take(q as int) =~= all);
        let mut i: usize = 0;
        while i < self.hit_objects.len()
            invariant
                i <= self.hit_objects@.len(),
                hos == self.view().hit_objects,
                hos.len() == self.hit_objects@.len(),
                singles == single_count(hos.take(i as int)),
                singles <= i,
            decreases self.hit_objects@.len() - i,
        {
            assert(hos.take(i + 1).drop_last() =~= hos.take(i as int));
            assert(hos.take(i + 1).last() == hos[i as int]);
            assert(hos[i as int] == self.hit_objects@[i as int].view());
            match self.hit_objects[i].kind {
                HitObjectKind::Slider(_) => {},
                _ => {
                    singles = singles + 1;
                },
            }
            i = i + 1;
        }
        assert(hos.take(i as int) =~= hos);
        (singles, sliders)
    }
}

/// Walking on from hit object `i` pairs the objects from `i` on, in order.
proof fn lemma_pairs_from_objects(objects: Seq<i32>, times: Seq<i32>, i: int, j: int)
    requires
        0 <= i <= objects.len(),
    ensures
        pairs_from(objects, times, i, j).len() == objects.len() - i,
        forall|q: int|
            0 <= q < objects.len() - i ==> (#[trigger] pairs_from(objects, times, i, j)[q]).0 == i
                + q,
    decreases objects.len() - i,
{
    if i < objects.len() {
        let k = advance(times, j, objects[i] as int);
        lemma_pairs_from_objects(objects, times, i + 1, k);
        let rest = pairs_from(objects, times, i + 1, k);
        let all = pairs_from(objects, times, i, j);
        assert(all == seq![(i, k)] + rest);
        assert forall|q: int| 0 <= q < objects.len() - i implies (#[trigger] all[q]).0 == i + q by {
            if q > 0 {
                assert(all[q] == rest[q - 1]);
            }
        }
    }
}

/// The pairs of [`spec_double_iter`] name every hit object in turn, or none
/// without timing points.
proof fn lemma_double_iter_objects(objects: Seq<i32>, times: Seq<i32>)
    ensures
        spec_double_iter(objects, times).len() == if times.len() == 0 {
            0
        } else {
            objects.len() as int
        },
        forall|q: int|
            0 <= q < spec_double_iter(objects, times).len() ==> (
            #[trigger] spec_double_iter(objects, times)[q]).0 == q,
{
    if times.len() > 0 {
        lemma_pairs_from_objects(objects, times, 0, 0);
    }
}

/// The index found among the first `n` times is one of them.
proof fn lemma_last_before(times: Seq<i32>, t: int, n: int)
    ensures
        last_before(times, t, n) matches Some(k) ==> 0 <= k < n,
    decreases n,
{
    if n > 0 {
        lemma_last_before(times, t, n - 1);
    }
}

/// Moving on from a timing point that starts no later than `t` (or from the
/// first one) ends at one that starts no later than `t` (or the first one),
/// and, the times being in order, every later point starts after `t`.
proof fn lemma_advance(times: Seq<i32>, j: int, t: int)
    requires
        is_sorted(times),
        0 <= j < times.len(),
        j == 0 || times[j] <= t,
    ensures
        0 <= advance(times, j, t) < times.len(),
        j <= advance(times, j, t),
        advance(times, j, t) == 0 || times[advance(times, j, t)] <= t,
        forall|k: int| advance(times, j, t) < k < times.len() ==> times[k] > t,
    decreases times.len() - j,
{
    if j + 1 < times.len() && times[j + 1] <= t {
        lemma_advance(times, j + 1, t);
    } else {
        assert forall|k: int| j < k < times.len() implies times[k] > t by {
            assert(times[j + 1] <= times[k]);
        }
    }
}

/// Walking on from hit object `i` pairs each object with a timing point
/// before which it does not start (or the first one), the next point
/// starting after it.
proof fn lemma_pairs_from(objects: Seq<i32>, times: Seq<i32>, i: int, j: int)
    requires
        is_sorted(objects),
        is_sorted(times),
        0 <= i <= objects.len(),
        0 <= j < times.len(),
        j == 0 || i == objects.len() || times[j] <= objects[i],
    ensures
        pairs_from(objects, times, i, j).len() == objects.len() - i,
        forall|q: int|
            0 <= q < objects.len() - i ==> {
                let (o, k) = #[trigger] pairs_from(objects, times, i, j)[q];
                &&& o == i + q
                &&& 0 <= k < times.len()
                &&& (k == 0 || times[k] <= objects[o])
                &&& forall|m: int| k < m < times.len() ==> times[m] > objects[o]
            },
    decreases objects.len() - i,
{
    if i < objects.len() {
        let t = objects[i] as int;
        lemma_advance(times, j, t);
        let k = advance(times, j, t);
        if i + 1 < objects.len() {
            assert(objects[i] <= objects[i + 1]);
        }
        lemma_pairs_from(objects, times, i + 1, k);
        let rest = pairs_from(objects, times, i + 1, k);
        let all = pairs_from(objects, times, i, j);
        assert(all == seq![(i, k)] + rest);
        assert forall|q: int| 0 <= q < objects.len() - i implies {
            let (o, k2) = #[trigger] all[q];
            &&& o == i + q
            &&& 0 <= k2 < times.len()
            &&& (k2 == 0 || times[k2] <= objects[o])
            &&& forall|m: int| k2 < m < times.len() ==> times[m] > objects[o]
        } by {
            if q > 0 {
                assert(all[q] == rest[q - 1]);
            }
        }
    }
}

/// The walk that finds the points in effect at `t` stops at a point after
/// `t`, having passed only points no later than `t`.
proof fn lemma_effect_end(times: Seq<i32>, t: int, from: int)
    requires
        0 <= from <= times.len(),
    ensures
        from <= effect_end(times, t, from) <= times.len(),
        forall|k: int| from <= k < effect_end(times, t, from) ==> times[k] <= t,
        effect_end(times, t, from) < times.len() ==> times[effect_end(times, t, from)] > t,
    decreases times.len() - from,
{
    if from < times.len() && times[from] <= t {
        lemma_effect_end(times, t, from + 1);
    }
}

/// When the timing points are in order of time (as in a beatmap that is
/// read), the points in effect at `t` ([`Beatmap::timing_point_at`] and
/// [`Beatmap::uninherited_point_at`] look among them) are exactly those that
/// start no later than `t`.
pub proof fn points_in_effect_are_those_started(times: Seq<i32>, t: int)
    requires
        is_sorted(times),
    ensures
        0 <= effect_end(times, t, 0) <= times.len(),
        forall|k: int| 0 <= k < effect_end(times, t, 0) ==> times[k] <= t,
        forall|k: int| effect_end(times, t, 0) <= k < times.len() ==> times[k] > t,
{
    lemma_effect_end(times, t, 0);
    let e = effect_end(times, t, 0);
    assert forall|k: int| e <= k < times.len() implies times[k] > t by {
        assert(times[e] <= times[k]);
    }
}

/// When the timing points and the hit objects are in order of time (as in
/// a beatmap that is read), [`Beatmap::double_iter`] pairs every hit object
/// with the last timing point that starts no later than the object, or with
/// the first timing point when all start after it.
pub proof fn double_iter_pairs_current_point(objects: Seq<i32>, times: Seq<i32>)
    requires
        is_sorted(objects),
        is_sorted(times),
        times.len() > 0,
    ensures
        spec_double_iter(objects, times).len() == objects.len(),
        forall|q: int|
            0 <= q < objects.len() ==> {
                let (o, k) = #[trigger] spec_double_iter(objects, times)[q];
                &&& o == q
                &&& 0 <= k < times.len()
                &&& (k == 0 || times[k] <= objects[q])
                &&& forall|m: int| k < m < times.len() ==> times[m] > objects[q]
            },
{
    lemma_pairs_from(objects, times, 0, 0);
}

} // verus!
