//! Hit objects: the lines of the `[HitObjects]` section of a beatmap.

use crate::enums::Millis;
use crate::errors::{int_fault, Fault, LineFault, ParseError, ParseErrorView};
use crate::fields::{float_at, int_at, read_float_at, read_int_at};
use crate::hitsounds::{
    all_addition_bits, parse_hitsample_in, spec_parse_hitsample, Additions, SampleInfo,
    SampleInfoView, SampleSet,
};
use crate::math::Point;
use crate::timing::{TimingPoint, TimingPointView};
use crate::hitsounds::{hitsample_roundtrip, spec_hitsample_str};
use crate::text::{
    bounds_within, decimal_roundtrip, is_float_text, join_spec, lemma_concat_excludes, lemma_decimal_chars,
    lemma_float_text_excludes, lemma_join_excludes, lemma_join_push, lemma_split_join,
    lemma_split_excludes, lemma_split_join_all, lemma_split_none, next_field, pieces, spec_decimal, spec_parse_int, split_spec,
};
use crate::text::IntErrorKind;
use vstd::prelude::*;

verus! {

/// The curve through the control points of a slider.
#[derive(Debug, Clone, Copy, PartialEq, Eq, Structural)]
pub enum SliderSplineKind {
    /// Straight segments between the points (`L`).
    Linear,
    /// Bézier curves through the control points (`B`).
    Bezier,
    /// Catmull-Rom curve, used in old maps (`C`).
    Catmull,
    /// A circle arc through three points (`P`).
    Perfect,
}

/// The parts of a slider.
#[derive(Debug)]
pub struct SliderInfo {
    /// How many times the slider goes back and forth (1 for no repeat).
    pub num_repeats: u32,
    /// The curve of the slider.
    pub kind: SliderSplineKind,
    /// The control points after the head.
    pub control_points: Vec<Point<i32>>,
    /// The length of the slider in osu! pixels, as the floating-point text of
    /// the file.
    pub pixel_length: String,
    /// The additions played on each edge of the slider.
    pub edge_additions: Vec<Additions>,
    /// The normal and addition sample sets of each edge of the slider.
    pub edge_samplesets: Vec<(SampleSet, SampleSet)>,
}

/// The parts of a spinner.
#[derive(Debug, Clone, Copy, PartialEq, Eq, Structural)]
pub struct SpinnerInfo {
    /// When the spinner ends.
    pub end_time: Millis,
}

/// The kind of a hit object.
#[derive(Debug)]
pub enum HitObjectKind {
    /// A hit circle.
    Circle,
    /// A slider.
    Slider(SliderInfo),
    /// A spinner.
    Spinner(SpinnerInfo),
}

/// A hit object.
#[derive(Debug)]
pub struct HitObject {
    /// Where the object is on the playfield (the head, for sliders).
    pub pos: Point<i32>,
    /// When the object is to be hit.
    pub start_time: Millis,
    /// Circle, slider or spinner.
    pub kind: HitObjectKind,
    /// Whether the object starts a new combo.
    pub new_combo: bool,
    /// The timing point under which the object stands, when known; reading a
    /// line leaves it empty.
    pub timing_point: Option<TimingPoint>,
    /// The additions played when the object is hit.
    pub additions: Additions,
    /// How many combo colours to skip.
    pub skip_color: i32,
    /// The hit sample of the object.
    pub sample_info: SampleInfo,
}

/// A slider, as a specification.
pub struct SliderInfoView {
    pub num_repeats: u32,
    pub kind: SliderSplineKind,
    pub control_points: Seq<Point<i32>>,
    pub pixel_length: Seq<char>,
    pub edge_additions: Seq<Additions>,
    pub edge_samplesets: Seq<(SampleSet, SampleSet)>,
}

/// The kind of a hit object, as a specification.
pub enum HitObjectKindView {
    Circle,
    Slider(SliderInfoView),
    Spinner(SpinnerInfo),
}

/// A hit object, as a specification.
pub struct HitObjectView {
    pub pos: Point<i32>,
    pub start_time: Millis,
    pub kind: HitObjectKindView,
    pub new_combo: bool,
    pub timing_point: Option<TimingPointView>,
    pub additions: Additions,
    pub skip_color: i32,
    pub sample_info: SampleInfoView,
}

impl SliderInfo {
    /// The slider as a specification.
    pub open spec fn view(&self) -> SliderInfoView {
        SliderInfoView {
            num_repeats: self.num_repeats,
            kind: self.kind,
            control_points: self.control_points@,
            pixel_length: self.pixel_length@,
            edge_additions: self.edge_additions@,
            edge_samplesets: self.edge_samplesets@,
        }
    }
}

impl HitObjectKind {
    /// The kind as a specification.
    pub open spec fn view(&self) -> HitObjectKindView {
        match self {
            HitObjectKind::Circle => HitObjectKindView::Circle,
            HitObjectKind::Slider(s) => HitObjectKindView::Slider(s.view()),
            HitObjectKind::Spinner(s) => HitObjectKindView::Spinner(*s),
        }
    }
}

impl HitObject {
    /// The hit object as a specification.
    pub open spec fn view(&self) -> HitObjectView {
        HitObjectView {
            pos: self.pos,
            start_time: self.start_time,
            kind: self.kind.view(),
            new_combo: self.new_combo,
            timing_point: match &self.timing_point {
                Some(t) => Some(t.view()),
                None => None,
            },
            additions: self.additions,
            skip_color: self.skip_color,
            sample_info: self.sample_info.view(),
        }
    }
}

/// A copy of `v`.
pub fn copy_vec<T: Copy>(v: &Vec<T>) -> (r: Vec<T>)
    ensures
        r@ == v@,
{
    let mut r: Vec<T> = Vec::new();
    let mut i: usize = 0;
    while i < v.len()
        invariant
            i <= v@.len(),
            r@ == v@.subrange(0, i as int),
        decreases v@.len() - i,
    {
        r.push(v[i]);
        assert(v@.subrange(0, i + 1) =~= v@.subrange(0, i as int).push(v@[i as int]));
        i = i + 1;
    }
    assert(v@.subrange(0, i as int) =~= v@);
    r
}

impl Clone for SliderInfo {
    /// A copy of the slider.
    fn clone(&self) -> (r: SliderInfo)
        ensures
            r.view() == self.view(),
    {
        SliderInfo {
            num_repeats: self.num_repeats,
            kind: self.kind,
            control_points: copy_vec(&self.control_points),
            pixel_length: self.pixel_length.clone(),
            edge_additions: copy_vec(&self.edge_additions),
            edge_samplesets: copy_vec(&self.edge_samplesets),
        }
    }
}

impl Clone for HitObjectKind {
    /// A copy of the kind.
    fn clone(&self) -> (r: HitObjectKind)
        ensures
            r.view() == self.view(),
    {
        match self {
            HitObjectKind::Circle => HitObjectKind::Circle,
            HitObjectKind::Slider(s) => HitObjectKind::Slider(s.clone()),
            HitObjectKind::Spinner(s) => HitObjectKind::Spinner(*s),
        }
    }
}

impl Clone for HitObject {
    /// A copy of the hit object.
    fn clone(&self) -> (r: HitObject)
        ensures
            r.view() == self.view(),
    {
        HitObject {
            pos: self.pos,
            start_time: self.start_time,
            kind: self.kind.clone(),
            new_combo: self.new_combo,
            timing_point: match &self.timing_point {
                Some(t) => Some(t.clone()),
                None => None,
            },
            additions: self.additions,
            skip_color: self.skip_color,
            sample_info: self.sample_info.clone(),
        }
    }
}

/// The hit sample of an object whose line has none.
pub open spec fn default_sample() -> SampleInfoView {
    SampleInfoView {
        sample_set: SampleSet::Default,
        addition_set: SampleSet::Default,
        custom_index: 0,
        sample_volume: 0,
        filename: Seq::empty(),
    }
}

/// Reading the hit sample of field `i`, or the default one when the line
/// has fewer fields.
pub open spec fn sample_at(p: Seq<Seq<char>>, i: int) -> Result<SampleInfoView, Fault> {
    if i < p.len() {
        spec_parse_hitsample(p[i])
    } else {
        Ok(default_sample())
    }
}

/// A list read so far, prepended to the reading of the rest.
pub open spec fn prepend_list<T>(front: Seq<T>, r: Result<Seq<T>, Fault>) -> Result<Seq<T>, Fault> {
    match r {
        Ok(rest) => Ok(front + rest),
        Err(f) => Err(f),
    }
}

/// Reading a control point `x:y`; `None` when a coordinate is missing or is
/// no `i32`.
pub open spec fn spec_control_point(s: Seq<char>) -> Option<Point<i32>> {
    let c = split_spec(s, ':');
    match spec_parse_int(c[0], i32::MIN as int, i32::MAX as int) {
        Ok(x) => if c.len() >= 2 {
            match spec_parse_int(c[1], i32::MIN as int, i32::MAX as int) {
                Ok(y) => Some(Point { x: x as i32, y: y as i32 }),
                Err(_) => None,
            }
        } else {
            None
        },
        Err(_) => None,
    }
}

/// Reading the control points of a slider; `None` when one is malformed.
pub open spec fn spec_control_points(ps: Seq<Seq<char>>) -> Option<Seq<Point<i32>>>
    decreases ps.len(),
{
    if ps.len() == 0 {
        Some(Seq::empty())
    } else {
        match (spec_control_point(ps[0]), spec_control_points(ps.drop_first())) {
            (Some(p), Some(rest)) => Some(seq![p] + rest),
            _ => None,
        }
    }
}

/// Reading the edge additions of a slider, `|`-separated `u32` bits. They are
/// read in order; the first that is no `u32` is the error, and bits other than
/// whistle, finish and clap make the line malformed.
pub open spec fn spec_edge_additions(ps: Seq<Seq<char>>) -> Result<Seq<Additions>, Fault>
    decreases ps.len(),
{
    if ps.len() == 0 {
        Ok(Seq::empty())
    } else {
        match spec_parse_int(ps[0], 0, u32::MAX as int) {
            Err(k) => Err(int_fault(k)),
            Ok(b) => if (b as u32) & !all_addition_bits() != 0 {
                Err(Fault::Malformed)
            } else {
                prepend_list(seq![Additions::with_bits(b as u32)], spec_edge_additions(ps.drop_first()))
            },
        }
    }
}

/// Reading one edge sample-set pair `normal:additions` (`u32`s): the first
/// number is read, then the second, which must exist; each must name a sample
/// set.
pub open spec fn spec_edge_sampleset(s: Seq<char>) -> Result<(SampleSet, SampleSet), Fault> {
    let c = split_spec(s, ':');
    match spec_parse_int(c[0], 0, u32::MAX as int) {
        Err(k) => Err(int_fault(k)),
        Ok(normal) => if c.len() < 2 {
            Err(Fault::Malformed)
        } else {
            match spec_parse_int(c[1], 0, u32::MAX as int) {
                Err(k) => Err(int_fault(k)),
                Ok(additions) => match (
                    SampleSet::spec_from_u32(normal as u32),
                    SampleSet::spec_from_u32(additions as u32),
                ) {
                    (Some(a), Some(b)) => Ok((a, b)),
                    _ => Err(Fault::Malformed),
                },
            }
        },
    }
}

/// Reading the edge sample sets of a slider, `|`-separated, in order.
pub open spec fn spec_edge_samplesets(ps: Seq<Seq<char>>) -> Result<Seq<(SampleSet, SampleSet)>, Fault>
    decreases ps.len(),
{
    if ps.len() == 0 {
        Ok(Seq::empty())
    } else {
        match spec_edge_sampleset(ps[0]) {
            Err(f) => Err(f),
            Ok(pair) => prepend_list(seq![pair], spec_edge_samplesets(ps.drop_first())),
        }
    }
}

/// The curve named by a slider's letter.
pub open spec fn spline_of(s: Seq<char>) -> Option<SliderSplineKind> {
    if s == seq!['L'] {
        Some(SliderSplineKind::Linear)
    } else if s == seq!['B'] {
        Some(SliderSplineKind::Bezier)
    } else if s == seq!['C'] {
        Some(SliderSplineKind::Catmull)
    } else if s == seq!['P'] {
        Some(SliderSplineKind::Perfect)
    } else {
        None
    }
}

/// The edge additions of a slider whose line has none.
pub open spec fn default_edge_additions() -> Seq<Additions> {
    seq![Additions::with_bits(0)]
}

/// The edge sample sets of a slider whose line has none.
pub open spec fn default_edge_samplesets() -> Seq<(SampleSet, SampleSet)> {
    seq![(SampleSet::Default, SampleSet::Default)]
}

/// Reading the slider fields of a hit-object line split at `,`: the curve
/// field (`letter|x:y|...`, field 5), the repeats (`u32`, 6), the pixel length
/// (a float, 7), the edge additions (8), the edge sample sets (9) and the hit
/// sample (10); the last three are optional. The fields are read in that
/// order, then the letter is checked, then the control points.
pub open spec fn spec_parse_slider(p: Seq<Seq<char>>) -> Result<(SliderInfoView, SampleInfoView), Fault> {
    if p.len() < 6 {
        Err(Fault::Malformed)
    } else {
        let ctl = split_spec(p[5], '|');
        match int_at(p, 6, 0, u32::MAX as int) {
            Err(f) => Err(f),
            Ok(num_repeats) => match float_at(p, 7) {
                Err(f) => Err(f),
                Ok(pixel_length) => match (if p.len() > 8 {
                    spec_edge_additions(split_spec(p[8], '|'))
                } else {
                    Ok(default_edge_additions())
                }) {
                    Err(f) => Err(f),
                    Ok(edge_additions) => match (if p.len() > 9 {
                        spec_edge_samplesets(split_spec(p[9], '|'))
                    } else {
                        Ok(default_edge_samplesets())
                    }) {
                        Err(f) => Err(f),
                        Ok(edge_samplesets) => match sample_at(p, 10) {
                            Err(f) => Err(f),
                            Ok(sample) => match spline_of(ctl[0]) {
                                None => Err(Fault::Failed(ParseErrorView::InvalidSliderType(ctl[0]))),
                                Some(kind) => match spec_control_points(ctl.drop_first()) {
                                    None => Err(Fault::Malformed),
                                    Some(control_points) => Ok(
                                        (
                                            SliderInfoView {
                                                num_repeats: num_repeats as u32,
                                                kind,
                                                control_points,
                                                pixel_length,
                                                edge_additions,
                                                edge_samplesets,
                                            },
                                            sample,
                                        ),
                                    ),
                                },
                            },
                        },
                    },
                },
            },
        }
    }
}

/// The kind of a hit object and its hit sample, read from the fields after
/// the first five. The type bits are tested in the order circle (1), slider
/// (2), spinner (8).
pub open spec fn spec_parse_kind(p: Seq<Seq<char>>, t: i32) -> Result<(HitObjectKindView, SampleInfoView), Fault> {
    if t & 1 == 1 {
        match sample_at(p, 5) {
            Ok(sample) => Ok((HitObjectKindView::Circle, sample)),
            Err(f) => Err(f),
        }
    } else if t & 2 == 2 {
        match spec_parse_slider(p) {
            Ok((slider, sample)) => Ok((HitObjectKindView::Slider(slider), sample)),
            Err(f) => Err(f),
        }
    } else if t & 8 == 8 {
        match int_at(p, 5, i32::MIN as int, i32::MAX as int) {
            Err(f) => Err(f),
            Ok(end) => match sample_at(p, 6) {
                Ok(sample) => Ok(
                    (HitObjectKindView::Spinner(SpinnerInfo { end_time: Millis(end as i32) }), sample),
                ),
                Err(f) => Err(f),
            },
        }
    } else {
        Err(Fault::Failed(ParseErrorView::InvalidObjectType(t)))
    }
}

/// Parsing a hit-object line: its `,`-separated fields begin with x, y, the
/// time and the type (`i32`s) and the additions (`u32` bits), read in that
/// order; the additions must be whistle, finish and clap bits. Bit 4 of the
/// type starts a new combo and bits 4 to 6 count the combo colours to skip;
/// the rest depends on the kind (see [`spec_parse_kind`]).
pub open spec fn spec_parse_hitobject(s: Seq<char>) -> Result<HitObjectView, Fault> {
    let p = split_spec(s, ',');
    match int_at(p, 0, i32::MIN as int, i32::MAX as int) {
        Err(f) => Err(f),
        Ok(x) => match int_at(p, 1, i32::MIN as int, i32::MAX as int) {
            Err(f) => Err(f),
            Ok(y) => match int_at(p, 2, i32::MIN as int, i32::MAX as int) {
                Err(f) => Err(f),
                Ok(time) => match int_at(p, 3, i32::MIN as int, i32::MAX as int) {
                    Err(f) => Err(f),
                    Ok(obj_type) => match int_at(p, 4, 0, u32::MAX as int) {
                        Err(f) => Err(f),
                        Ok(bits) => if (bits as u32) & !all_addition_bits() != 0 {
                            Err(Fault::Malformed)
                        } else {
                            let t = obj_type as i32;
                            match spec_parse_kind(p, t) {
                                Err(f) => Err(f),
                                Ok((kind, sample)) => Ok(
                                    HitObjectView {
                                        pos: Point { x: x as i32, y: y as i32 },
                                        start_time: Millis(time as i32),
                                        kind,
                                        new_combo: t & 4 == 4,
                                        timing_point: None,
                                        additions: Additions::with_bits(bits as u32),
                                        skip_color: (t >> 4) & 7,
                                        sample_info: sample,
                                    },
                                ),
                            }
                        },
                    },
                },
            },
        },
    }
}

/// A list read so far, prepended to the reading of the rest, when both exist.
pub open spec fn prepend_some<T>(front: Seq<T>, r: Option<Seq<T>>) -> Option<Seq<T>> {
    match r {
        Some(rest) => Some(front + rest),
        None => None,
    }
}

proof fn lemma_split_nonempty(s: Seq<char>, sep: char)
    ensures
        split_spec(s, sep).len() >= 1,
{
    reveal_with_fuel(split_spec, 1);
}

fn parse_control_point(v: &Vec<char>, lo: usize, hi: usize) -> (r: Option<Point<i32>>)
    requires
        lo <= hi <= v@.len(),
    ensures
        r == spec_control_point(v@.subrange(lo as int, hi as int)),
{
    let c = crate::text::split_char(v, lo, hi, ':');
    proof {
        lemma_split_nonempty(v@.subrange(lo as int, hi as int), ':');
    }
    let (a, b) = c[0];
    assert(pieces(v@, c@)[0] == v@.subrange(a as int, b as int));
    let x = match crate::text::parse_int(v, a, b, i32::MIN as i128, i32::MAX as i128) {
        Ok(n) => n,
        Err(_) => return None,
    };
    if c.len() < 2 {
        return None;
    }
    let (a, b) = c[1];
    assert(pieces(v@, c@)[1] == v@.subrange(a as int, b as int));
    let y = match crate::text::parse_int(v, a, b, i32::MIN as i128, i32::MAX as i128) {
        Ok(n) => n,
        Err(_) => return None,
    };
    Some(Point { x: x as i32, y: y as i32 })
}

fn parse_control_points(v: &Vec<char>, ctl: &Vec<(usize, usize)>) -> (r: Option<Vec<Point<i32>>>)
    requires
        bounds_within(ctl@, v@.len()),
        ctl@.len() >= 1,
    ensures
        match spec_control_points(pieces(v@, ctl@).drop_first()) {
            Some(pts) => r matches Some(out) && out@ == pts,
            None => r is None,
        },
{
    let ghost ps = pieces(v@, ctl@);
    let mut out: Vec<Point<i32>> = Vec::new();
    let mut i: usize = 1;
    assert(ps.skip(1) =~= ps.drop_first());
    while i < ctl.len()
        invariant
            1 <= i <= ctl@.len(),
            bounds_within(ctl@, v@.len()),
            ps == pieces(v@, ctl@),
            spec_control_points(ps.drop_first()) == prepend_some(out@, spec_control_points(ps.skip(i as int))),
        decreases ctl@.len() - i,
    {
        let (a, b) = ctl[i];
        assert(ctl@[i as int].0 <= ctl@[i as int].1 <= v@.len());
        assert(ps.skip(i as int)[0] == v@.subrange(a as int, b as int));
        assert(ps.skip(i as int).drop_first() =~= ps.skip(i + 1));
        match parse_control_point(v, a, b) {
            Some(p) => {
                proof {
                    match spec_control_points(ps.skip(i + 1)) {
                        Some(rest) => {
                            assert(out@.push(p) + rest =~= out@ + (seq![p] + rest));
                        },
                        None => {},
                    }
                }
                out.push(p);
            },
            None => return None,
        }
        i = i + 1;
    }
    assert(ps.skip(i as int) =~= Seq::<Seq<char>>::empty());
    assert(out@ + Seq::<Point<i32>>::empty() =~= out@);
    Some(out)
}

fn parse_edge_additions(v: &Vec<char>, lo: usize, hi: usize) -> (r: Result<Vec<Additions>, LineFault>)
    requires
        lo <= hi <= v@.len(),
    ensures
        match spec_edge_additions(split_spec(v@.subrange(lo as int, hi as int), '|')) {
            Ok(a) => r matches Ok(out) && out@ == a,
            Err(f) => r matches Err(g) && g.view() == f,
        },
{
    let parts = crate::text::split_char(v, lo, hi, '|');
    let ghost ps = pieces(v@, parts@);
    let mut out: Vec<Additions> = Vec::new();
    let mut i: usize = 0;
    assert(ps.skip(0) =~= ps);
    while i < parts.len()
        invariant
            i <= parts@.len(),
            bounds_within(parts@, v@.len()),
            ps == pieces(v@, parts@),
            ps == split_spec(v@.subrange(lo as int, hi as int), '|'),
            spec_edge_additions(ps) == prepend_list(out@, spec_edge_additions(ps.skip(i as int))),
        decreases parts@.len() - i,
    {
        let (a, b) = parts[i];
        assert(parts@[i as int].0 <= parts@[i as int].1 <= v@.len());
        assert(ps.skip(i as int)[0] == v@.subrange(a as int, b as int));
        assert(ps.skip(i as int).drop_first() =~= ps.skip(i + 1));
        let bits = match crate::text::parse_int(v, a, b, 0, u32::MAX as i128) {
            Ok(n) => n as u32,
            Err(k) => return Err(LineFault::Failed(ParseError::ParseInt(k))),
        };
        match Additions::from_bits(bits) {
            Some(x) => {
                proof {
                    match spec_edge_additions(ps.skip(i + 1)) {
                        Ok(rest) => {
                            assert(out@.push(x) + rest =~= out@ + (seq![x] + rest));
                        },
                        Err(_) => {},
                    }
                }
                out.push(x);
            },
            None => return Err(LineFault::Malformed),
        }
        i = i + 1;
    }
    assert(ps.skip(i as int) =~= Seq::<Seq<char>>::empty());
    assert(out@ + Seq::<Additions>::empty() =~= out@);
    Ok(out)
}

fn parse_edge_sampleset(v: &Vec<char>, lo: usize, hi: usize) -> (r: Result<(SampleSet, SampleSet), LineFault>)
    requires
        lo <= hi <= v@.len(),
    ensures
        match spec_edge_sampleset(v@.subrange(lo as int, hi as int)) {
            Ok(pair) => r == Ok::<(SampleSet, SampleSet), LineFault>(pair),
            Err(f) => r matches Err(g) && g.view() == f,
        },
{
    let c = crate::text::split_char(v, lo, hi, ':');
    proof {
        lemma_split_nonempty(v@.subrange(lo as int, hi as int), ':');
    }
    let normal = read_int_at(v, &c, 0, 0, u32::MAX as i128)?;
    if c.len() < 2 {
        return Err(LineFault::Malformed);
    }
    let additions = read_int_at(v, &c, 1, 0, u32::MAX as i128)?;
    match (SampleSet::from_u32(normal as u32), SampleSet::from_u32(additions as u32)) {
        (Some(a), Some(b)) => Ok((a, b)),
        _ => Err(LineFault::Malformed),
    }
}

fn parse_edge_samplesets(v: &Vec<char>, lo: usize, hi: usize) -> (r: Result<Vec<(SampleSet, SampleSet)>, LineFault>)
    requires
        lo <= hi <= v@.len(),
    ensures
        match spec_edge_samplesets(split_spec(v@.subrange(lo as int, hi as int), '|')) {
            Ok(a) => r matches Ok(out) && out@ == a,
            Err(f) => r matches Err(g) && g.view() == f,
        },
{
    let parts = crate::text::split_char(v, lo, hi, '|');
    let ghost ps = pieces(v@, parts@);
    let mut out: Vec<(SampleSet, SampleSet)> = Vec::new();
    let mut i: usize = 0;
    assert(ps.skip(0) =~= ps);
    while i < parts.len()
        invariant
            i <= parts@.len(),
            bounds_within(parts@, v@.len()),
            ps == pieces(v@, parts@),
            ps == split_spec(v@.subrange(lo as int, hi as int), '|'),
            spec_edge_samplesets(ps) == prepend_list(out@, spec_edge_samplesets(ps.skip(i as int))),
        decreases parts@.len() - i,
    {
        let (a, b) = parts[i];
        assert(parts@[i as int].0 <= parts@[i as int].1 <= v@.len());
        assert(ps.skip(i as int)[0] == v@.subrange(a as int, b as int));
        assert(ps.skip(i as int).drop_first() =~= ps.skip(i + 1));
        let pair = parse_edge_sampleset(v, a, b)?;
        proof {
            match spec_edge_samplesets(ps.skip(i + 1)) {
                Ok(rest) => {
                    assert(out@.push(pair) + rest =~= out@ + (seq![pair] + rest));
                },
                Err(_) => {},
            }
        }
        out.push(pair);
        i = i + 1;
    }
    assert(ps.skip(i as int) =~= Seq::<Seq<char>>::empty());
    assert(out@ + Seq::<(SampleSet, SampleSet)>::empty() =~= out@);
    Ok(out)
}

fn spline_at(v: &Vec<char>, lo: usize, hi: usize) -> (r: Option<SliderSplineKind>)
    requires
        lo <= hi <= v@.len(),
    ensures
        r == spline_of(v@.subrange(lo as int, hi as int)),
{
    let ghost s = v@.subrange(lo as int, hi as int);
    if hi - lo != 1 {
        assert(s.len() != 1);
        assert(s != seq!['L'] && s != seq!['B'] && s != seq!['C'] && s != seq!['P']);
        return None;
    }
    assert(s =~= seq![v@[lo as int]]);
    let c = v[lo];
    if c == 'L' {
        assert(s =~= seq!['L']);
        Some(SliderSplineKind::Linear)
    } else if c == 'B' {
        assert(s =~= seq!['B']);
        assert(s[0] != seq!['L'][0]);
        Some(SliderSplineKind::Bezier)
    } else if c == 'C' {
        assert(s =~= seq!['C']);
        assert(s[0] != seq!['L'][0] && s[0] != seq!['B'][0]);
        Some(SliderSplineKind::Catmull)
    } else if c == 'P' {
        assert(s =~= seq!['P']);
        assert(s[0] != seq!['L'][0] && s[0] != seq!['B'][0] && s[0] != seq!['C'][0]);
        Some(SliderSplineKind::Perfect)
    } else {
        assert(s[0] != seq!['L'][0] && s[0] != seq!['B'][0] && s[0] != seq!['C'][0] && s[0]
            != seq!['P'][0]);
        None
    }
}

fn default_sample_info() -> (r: SampleInfo)
    ensures
        r.view() == default_sample(),
{
    let r = SampleInfo {
        sample_set: SampleSet::Default,
        addition_set: SampleSet::Default,
        custom_index: 0,
        sample_volume: 0,
        filename: String::new(),
    };
    assert(r.view().filename =~= Seq::<char>::empty());
    r
}

fn read_sample_at(v: &Vec<char>, parts: &Vec<(usize, usize)>, i: usize) -> (r: Result<SampleInfo, LineFault>)
    requires
        bounds_within(parts@, v@.len()),
    ensures
        match sample_at(pieces(v@, parts@), i as int) {
            Ok(h) => r matches Ok(info) && info.view() == h,
            Err(f) => r matches Err(g) && g.view() == f,
        },
{
    if i < parts.len() {
        let (a, b) = parts[i];
        assert(parts@[i as int].0 <= parts@[i as int].1 <= v@.len());
        assert(pieces(v@, parts@)[i as int] == v@.subrange(a as int, b as int));
        parse_hitsample_in(v, a, b)
    } else {
        Ok(default_sample_info())
    }
}


fn parse_slider(v: &Vec<char>, parts: &Vec<(usize, usize)>) -> (r: Result<(SliderInfo, SampleInfo), LineFault>)
    requires
        bounds_within(parts@, v@.len()),
    ensures
        match spec_parse_slider(pieces(v@, parts@)) {
            Ok((sl, h)) => r matches Ok((info, sample)) && info.view() == sl && sample.view() == h,
            Err(f) => r matches Err(g) && g.view() == f,
        },
{
    let ghost p = pieces(v@, parts@);
    if parts.len() < 6 {
        return Err(LineFault::Malformed);
    }
    let (c0, c1) = parts[5];
    assert(parts@[5].0 <= parts@[5].1 <= v@.len());
    assert(p[5] == v@.subrange(c0 as int, c1 as int));
    let ctl = crate::text::split_char(v, c0, c1, '|');
    proof {
        lemma_split_nonempty(p[5], '|');
    }
    let num_repeats = read_int_at(v, parts, 6, 0, u32::MAX as i128)?;
    let (pl, ph) = read_float_at(v, parts, 7)?;
    let edge_additions = if parts.len() > 8 {
        let (a, b) = parts[8];
        assert(parts@[8].0 <= parts@[8].1 <= v@.len());
        assert(p[8] == v@.subrange(a as int, b as int));
        parse_edge_additions(v, a, b)?
    } else {
        let mut e: Vec<Additions> = Vec::new();
        e.push(Additions::empty());
        assert(e@ =~= default_edge_additions());
        e
    };
    let edge_samplesets = if parts.len() > 9 {
        let (a, b) = parts[9];
        assert(parts@[9].0 <= parts@[9].1 <= v@.len());
        assert(p[9] == v@.subrange(a as int, b as int));
        parse_edge_samplesets(v, a, b)?
    } else {
        let mut e: Vec<(SampleSet, SampleSet)> = Vec::new();
        e.push((SampleSet::Default, SampleSet::Default));
        assert(e@ =~= default_edge_samplesets());
        e
    };
    let sample = read_sample_at(v, parts, 10)?;
    let (k0, k1) = ctl[0];
    assert(pieces(v@, ctl@)[0] == v@.subrange(k0 as int, k1 as int));
    let kind = match spline_at(v, k0, k1) {
        Some(k) => k,
        None => return Err(LineFault::Failed(ParseError::InvalidSliderType(crate::text::chars_to_string(v, k0, k1)))),
    };
    let control_points = match parse_control_points(v, &ctl) {
        Some(c) => c,
        None => return Err(LineFault::Malformed),
    };
    let info = SliderInfo {
        num_repeats: num_repeats as u32,
        kind,
        control_points,
        pixel_length: crate::text::chars_to_string(v, pl, ph),
        edge_additions,
        edge_samplesets,
    };
    Ok((info, sample))
}

fn parse_kind(v: &Vec<char>, parts: &Vec<(usize, usize)>, t: i32) -> (r: Result<(HitObjectKind, SampleInfo), LineFault>)
    requires
        bounds_within(parts@, v@.len()),
    ensures
        match spec_parse_kind(pieces(v@, parts@), t) {
            Ok((k, h)) => r matches Ok((kind, sample)) && kind.view() == k && sample.view() == h,
            Err(f) => r matches Err(g) && g.view() == f,
        },
{
    if t & 1 == 1 {
        let sample = read_sample_at(v, parts, 5)?;
        Ok((HitObjectKind::Circle, sample))
    } else if t & 2 == 2 {
        let (slider, sample) = parse_slider(v, parts)?;
        Ok((HitObjectKind::Slider(slider), sample))
    } else if t & 8 == 8 {
        let end = read_int_at(v, parts, 5, i32::MIN as i128, i32::MAX as i128)?;
        let sample = read_sample_at(v, parts, 6)?;
        Ok((HitObjectKind::Spinner(SpinnerInfo { end_time: Millis(end as i32) }), sample))
    } else {
        Err(LineFault::Failed(ParseError::InvalidObjectType(t)))
    }
}

/// Parses the hit-object line `v`.
pub fn parse_hitobject_chars(v: &Vec<char>) -> (r: Result<HitObject, LineFault>)
    ensures
        match spec_parse_hitobject(v@) {
            Ok(h) => r matches Ok(obj) && obj.view() == h,
            Err(f) => r matches Err(g) && g.view() == f,
        },
{
    let n = v.len();
    let parts = crate::text::split_char(v, 0, n, ',');
    assert(v@.subrange(0, n as int) =~= v@);
    let x = read_int_at(v, &parts, 0, i32::MIN as i128, i32::MAX as i128)?;
    let y = read_int_at(v, &parts, 1, i32::MIN as i128, i32::MAX as i128)?;
    let time = read_int_at(v, &parts, 2, i32::MIN as i128, i32::MAX as i128)?;
    let obj_type = read_int_at(v, &parts, 3, i32::MIN as i128, i32::MAX as i128)?;
    let bits = read_int_at(v, &parts, 4, 0, u32::MAX as i128)?;
    let additions = match Additions::from_bits(bits as u32) {
        Some(a) => a,
        None => return Err(LineFault::Malformed),
    };
    let t = obj_type as i32;
    let (kind, sample_info) = parse_kind(v, &parts, t)?;
    Ok(
        HitObject {
            pos: Point { x: x as i32, y: y as i32 },
            start_time: Millis(time as i32),
            kind,
            new_combo: t & 4 == 4,
            timing_point: None,
            additions,
            skip_color: (t >> 4) & 7,
            sample_info,
        },
    )
}

impl HitObject {
    /// Parses a hit-object line.
    pub fn from_osz(line: &str) -> (r: Result<HitObject, ParseError>)
        requires
            !(spec_parse_hitobject(line@) is Err && spec_parse_hitobject(line@)->Err_0 is Malformed),
        ensures
            match spec_parse_hitobject(line@) {
                Ok(h) => r matches Ok(obj) && obj.view() == h,
                Err(Fault::Failed(e)) => r matches Err(g) && g.view() == e,
                Err(Fault::Malformed) => false,
            },
    {
        let v = crate::text::str_chars(line);
        match parse_hitobject_chars(&v) {
            Ok(obj) => Ok(obj),
            Err(LineFault::Failed(e)) => Err(e),
            Err(LineFault::Malformed) => {
                proof {
                    assert(false);
                }
                Err(ParseError::MissingColorComponent)
            },
        }
    }

    /// Parses a hit-object line, or returns `None` when it lacks a field, or
    /// holds a value that names no addition or sample set, or a malformed
    /// control point (see [`Fault::Malformed`]).
    pub fn from_osz_checked(line: &str) -> (r: Option<Result<HitObject, ParseError>>)
        ensures
            match spec_parse_hitobject(line@) {
                Ok(h) => r matches Some(Ok(obj)) && obj.view() == h,
                Err(Fault::Failed(e)) => r matches Some(Err(g)) && g.view() == e,
                Err(Fault::Malformed) => r is None,
            },
    {
        let v = crate::text::str_chars(line);
        match parse_hitobject_chars(&v) {
            Ok(obj) => Some(Ok(obj)),
            Err(LineFault::Failed(e)) => Some(Err(e)),
            Err(LineFault::Malformed) => None,
        }
    }
}

/// The letter of a slider curve.
pub open spec fn spline_letter(k: SliderSplineKind) -> char {
    match k {
        SliderSplineKind::Linear => 'L',
        SliderSplineKind::Bezier => 'B',
        SliderSplineKind::Catmull => 'C',
        SliderSplineKind::Perfect => 'P',
    }
}

/// The text of a control point: `x:y`.
pub open spec fn point_text(p: Point<i32>) -> Seq<char> {
    spec_decimal(p.x as int) + seq![':'] + spec_decimal(p.y as int)
}

/// The curve field of a slider: its letter, then `|` and each control point,
/// `|`-separated.
pub open spec fn curve_field(sl: SliderInfoView) -> Seq<char> {
    seq![spline_letter(sl.kind), '|'] + join_spec(sl.control_points.map_values(|p: Point<i32>| point_text(p)), '|')
}

/// The text of an addition set: its bits.
pub open spec fn additions_text(a: Additions) -> Seq<char> {
    spec_decimal(a.spec_bits() as int)
}

/// The text of an edge's sample sets: `normal:additions`.
pub open spec fn sampleset_pair_text(p: (SampleSet, SampleSet)) -> Seq<char> {
    spec_decimal(p.0.spec_value() as int) + seq![':'] + spec_decimal(p.1.spec_value() as int)
}

/// The type number of a hit object: the bit of its kind (circle 1, slider 2,
/// spinner 8), 4 for a new combo, and the number of colours to skip in the
/// three bits from bit 4 on, or-ed together.
pub open spec fn spec_obj_type(h: HitObjectView) -> i32 {
    let k: i32 = match h.kind {
        HitObjectKindView::Circle => 1,
        HitObjectKindView::Slider(_) => 2,
        HitObjectKindView::Spinner(_) => 8,
    };
    let nc: i32 = if h.new_combo {
        4
    } else {
        0
    };
    k | nc | (h.skip_color << 4)
}

/// The fields that follow the first five in the line of a hit object.
pub open spec fn kind_fields(h: HitObjectView) -> Seq<Seq<char>> {
    match h.kind {
        HitObjectKindView::Circle => seq![spec_hitsample_str(h.sample_info)],
        HitObjectKindView::Spinner(sp) => seq![
            spec_decimal(sp.end_time.0 as int),
            spec_hitsample_str(h.sample_info),
        ],
        HitObjectKindView::Slider(sl) => seq![
            curve_field(sl),
            spec_decimal(sl.num_repeats as int),
            sl.pixel_length,
            join_spec(sl.edge_additions.map_values(|a: Additions| additions_text(a)), '|'),
            join_spec(sl.edge_samplesets.map_values(|p: (SampleSet, SampleSet)| sampleset_pair_text(p)), '|'),
            spec_hitsample_str(h.sample_info),
        ],
    }
}

/// The fields of the line of a hit object.
pub open spec fn hitobject_fields(h: HitObjectView) -> Seq<Seq<char>> {
    seq![
        spec_decimal(h.pos.x as int),
        spec_decimal(h.pos.y as int),
        spec_decimal(h.start_time.0 as int),
        spec_decimal(spec_obj_type(h) as int),
        spec_decimal(h.additions.spec_bits() as int),
    ] + kind_fields(h)
}

/// The line of a hit object: its fields joined by `,`.
pub open spec fn spec_hitobject_text(h: HitObjectView) -> Seq<char> {
    join_spec(hitobject_fields(h), ',')
}

/// Appends the control points `pts`, each as `x:y`, `|`-separated, to `out`.
fn push_points(out: &mut Vec<char>, pts: &Vec<Point<i32>>)
    ensures
        final(out)@ == old(out)@ + join_spec(pts@.map_values(|p: Point<i32>| point_text(p)), '|'),
{
    let ghost f = pts@.map_values(|p: Point<i32>| point_text(p));
    let ghost o = old(out)@;
    if pts.len() == 0 {
        assert(f =~= Seq::<Seq<char>>::empty());
        assert(out@ =~= o + join_spec(f, '|'));
        return;
    }
    let mut i: usize = 0;
    while i < pts.len()
        invariant
            i <= pts@.len(),
            pts@.len() >= 1,
            f == pts@.map_values(|p: Point<i32>| point_text(p)),
            i == 0 ==> out@ == o,
            i > 0 ==> out@ == o + join_spec(f.take(i as int), '|'),
        decreases pts@.len() - i,
    {
        let p = pts[i];
        if i > 0 {
            out.push('|');
        }
        crate::text::push_decimal(out, p.x as i128);
        out.push(':');
        crate::text::push_decimal(out, p.y as i128);
        proof {
            if i == 0 {
                assert(join_spec(f.take(1), '|') =~= f[0]);
                assert(out@ =~= o + join_spec(f.take(1), '|'));
            } else {
                lemma_join_push(f.take(i as int), f[i as int], '|');
                assert(f.take(i as int).push(f[i as int]) =~= f.take(i + 1));
                assert(out@ =~= o + join_spec(f.take(i + 1), '|'));
            }
        }
        i = i + 1;
    }
    assert(f.take(i as int) =~= f);
}

fn push_edge_additions(out: &mut Vec<char>, es: &Vec<Additions>)
    ensures
        final(out)@ == old(out)@ + join_spec(es@.map_values(|a: Additions| additions_text(a)), '|'),
{
    let ghost f = es@.map_values(|a: Additions| additions_text(a));
    let ghost o = old(out)@;
    if es.len() == 0 {
        assert(f =~= Seq::<Seq<char>>::empty());
        assert(out@ =~= o + join_spec(f, '|'));
        return;
    }
    let mut i: usize = 0;
    while i < es.len()
        invariant
            i <= es@.len(),
            es@.len() >= 1,
            f == es@.map_values(|a: Additions| additions_text(a)),
            i == 0 ==> out@ == o,
            i > 0 ==> out@ == o + join_spec(f.take(i as int), '|'),
        decreases es@.len() - i,
    {
        if i > 0 {
            out.push('|');
        }
        crate::text::push_decimal(out, es[i].bits() as i128);
        proof {
            if i == 0 {
                assert(join_spec(f.take(1), '|') =~= f[0]);
                assert(out@ =~= o + join_spec(f.take(1), '|'));
            } else {
                lemma_join_push(f.take(i as int), f[i as int], '|');
                assert(f.take(i as int).push(f[i as int]) =~= f.take(i + 1));
                assert(out@ =~= o + join_spec(f.take(i + 1), '|'));
            }
        }
        i = i + 1;
    }
    assert(f.take(i as int) =~= f);
}

fn push_edge_samplesets(out: &mut Vec<char>, es: &Vec<(SampleSet, SampleSet)>)
    ensures
        final(out)@ == old(out)@ + join_spec(es@.map_values(|p: (SampleSet, SampleSet)| sampleset_pair_text(p)), '|'),
{
    let ghost f = es@.map_values(|p: (SampleSet, SampleSet)| sampleset_pair_text(p));
    let ghost o = old(out)@;
    if es.len() == 0 {
        assert(f =~= Seq::<Seq<char>>::empty());
        assert(out@ =~= o + join_spec(f, '|'));
        return;
    }
    let mut i: usize = 0;
    while i < es.len()
        invariant
            i <= es@.len(),
            es@.len() >= 1,
            f == es@.map_values(|p: (SampleSet, SampleSet)| sampleset_pair_text(p)),
            i == 0 ==> out@ == o,
            i > 0 ==> out@ == o + join_spec(f.take(i as int), '|'),
        decreases es@.len() - i,
    {
        if i > 0 {
            out.push('|');
        }
        let (a, b) = es[i];
        crate::text::push_decimal(out, a.value() as i128);
        out.push(':');
        crate::text::push_decimal(out, b.value() as i128);
        proof {
            if i == 0 {
                assert(join_spec(f.take(1), '|') =~= f[0]);
                assert(out@ =~= o + join_spec(f.take(1), '|'));
            } else {
                lemma_join_push(f.take(i as int), f[i as int], '|');
                assert(f.take(i as int).push(f[i as int]) =~= f.take(i + 1));
                assert(out@ =~= o + join_spec(f.take(i + 1), '|'));
            }
        }
        i = i + 1;
    }
    assert(f.take(i as int) =~= f);
}

impl SliderSplineKind {
    /// The letter of the curve.
    pub fn letter(&self) -> (c: char)
        ensures
            c == spline_letter(*self),
    {
        match self {
            SliderSplineKind::Linear => 'L',
            SliderSplineKind::Bezier => 'B',
            SliderSplineKind::Catmull => 'C',
            SliderSplineKind::Perfect => 'P',
        }
    }
}

impl HitObject {
    /// The type number of the object (see [`spec_obj_type`]).
    pub fn obj_type(&self) -> (t: i32)
        ensures
            t == spec_obj_type(self.view()),
    {
        let k: i32 = match self.kind {
            HitObjectKind::Circle => 1,
            HitObjectKind::Slider(_) => 2,
            HitObjectKind::Spinner(_) => 8,
        };
        let nc: i32 = if self.new_combo {
            4
        } else {
            0
        };
        k | nc | (self.skip_color << 4)
    }

    /// Appends the line of this hit object to `out`.
    pub fn push_text(&self, out: &mut Vec<char>)
        ensures
            final(out)@ == old(out)@ + spec_hitobject_text(self.view()),
    {
        let ghost f = hitobject_fields(self.view());
        let ghost o = old(out)@;
        crate::text::push_decimal(out, self.pos.x as i128);
        next_field(out, ',', Ghost(f), Ghost(o), 1);
        crate::text::push_decimal(out, self.pos.y as i128);
        next_field(out, ',', Ghost(f), Ghost(o), 2);
        crate::text::push_decimal(out, self.start_time.0 as i128);
        next_field(out, ',', Ghost(f), Ghost(o), 3);
        crate::text::push_decimal(out, self.obj_type() as i128);
        next_field(out, ',', Ghost(f), Ghost(o), 4);
        crate::text::push_decimal(out, self.additions.bits() as i128);
        next_field(out, ',', Ghost(f), Ghost(o), 5);
        match &self.kind {
            HitObjectKind::Circle => {},
            HitObjectKind::Spinner(sp) => {
                crate::text::push_decimal(out, sp.end_time.0 as i128);
                next_field(out, ',', Ghost(f), Ghost(o), 6);
            },
            HitObjectKind::Slider(sl) => {
                let ghost v = sl.view();
                out.push(sl.kind.letter());
                out.push('|');
                push_points(out, &sl.control_points);
                assert(out@ =~= o + join_spec(f.take(5), ',') + seq![','] + f[5]);
                next_field(out, ',', Ghost(f), Ghost(o), 6);
                crate::text::push_decimal(out, sl.num_repeats as i128);
                next_field(out, ',', Ghost(f), Ghost(o), 7);
                crate::text::push_str(out, &sl.pixel_length);
                next_field(out, ',', Ghost(f), Ghost(o), 8);
                push_edge_additions(out, &sl.edge_additions);
                next_field(out, ',', Ghost(f), Ghost(o), 9);
                push_edge_samplesets(out, &sl.edge_samplesets);
                next_field(out, ',', Ghost(f), Ghost(o), 10);
            },
        }
        crate::hitsounds::push_hitsample(out, &self.sample_info);
        proof {
            let n = (f.len() - 1) as int;
            assert(f[n] == spec_hitsample_str(self.view().sample_info));
            lemma_join_push(f.take(n), f[n], ',');
            assert(f.take(n).push(f[n]) =~= f);
        }
    }

    /// The line of this hit object:
    /// `x,y,time,type,additions,` then the fields of its kind and its hit
    /// sample.
    pub fn as_osz(&self) -> (r: Result<String, ParseError>)
        ensures
            r matches Ok(t) && t@ == spec_hitobject_text(self.view()),
    {
        let mut out: Vec<char> = Vec::new();
        self.push_text(&mut out);
        let n = out.len();
        assert(out@.subrange(0, n as int) =~= out@);
        Ok(crate::text::chars_to_string(&out, 0, n))
    }
}

/// Whether an addition set holds only whistle, finish and clap.
pub open spec fn valid_additions(a: Additions) -> bool {
    a.spec_bits() & !all_addition_bits() == 0
}

/// What the line of a hit object needs to read back as the same object: no
/// timing point attached (a line does not hold one), a number of colours to skip from 0 to 7 (the three bits the type number has
/// for it), additions that are whistle, finish and clap only, a
/// hit-sample file name without `:` and `,`, and for a slider a pixel length
/// that is the text of a float, at least one control point, and at least one
/// edge with valid additions and sample sets.
pub open spec fn hitobject_text_roundtrips(h: HitObjectView) -> bool {
    &&& h.timing_point is None
    &&& 0 <= h.skip_color <= 7
    &&& valid_additions(h.additions)
    &&& !h.sample_info.filename.contains(':')
    &&& !h.sample_info.filename.contains(',')
    &&& match h.kind {
        HitObjectKindView::Slider(sl) => {
            &&& is_float_text(sl.pixel_length)
            &&& sl.control_points.len() >= 1
            &&& sl.edge_additions.len() >= 1
            &&& forall|i: int| 0 <= i < sl.edge_additions.len() ==> valid_additions(#[trigger] sl.edge_additions[i])
            &&& sl.edge_samplesets.len() >= 1
        },
        _ => true,
    }
}

proof fn lemma_char_excludes(x: char, c: char)
    requires
        x != c,
    ensures
        !seq![x].contains(c),
{
    if seq![x].contains(c) {
        assert(seq![x][0] == x);
    }
}

proof fn lemma_pair_text_excludes(a: int, b: int, c: char)
    requires
        c != '-' && c != ':',
        !crate::text::is_digit(c),
    ensures
        !(spec_decimal(a) + seq![':'] + spec_decimal(b)).contains(c),
{
    lemma_decimal_chars(a, c);
    lemma_decimal_chars(b, c);
    lemma_char_excludes(':', c);
    lemma_concat_excludes(spec_decimal(a), seq![':'], c);
    lemma_concat_excludes(spec_decimal(a) + seq![':'], spec_decimal(b), c);
}

proof fn lemma_pair_text_split(a: int, b: int)
    ensures
        split_spec(spec_decimal(a) + seq![':'] + spec_decimal(b), ':') == seq![spec_decimal(a), spec_decimal(b)],
{
    lemma_decimal_chars(a, ':');
    lemma_decimal_chars(b, ':');
    lemma_split_none(spec_decimal(b), ':');
    lemma_split_join(spec_decimal(a), ':', spec_decimal(b));
    assert(seq![spec_decimal(a)] + seq![spec_decimal(b)] =~= seq![spec_decimal(a), spec_decimal(b)]);
}

proof fn lemma_control_points_roundtrip(cps: Seq<Point<i32>>)
    ensures
        spec_control_points(cps.map_values(|p: Point<i32>| point_text(p))) == Some(cps),
    decreases cps.len(),
{
    let m = cps.map_values(|p: Point<i32>| point_text(p));
    if cps.len() == 0 {
        assert(m.len() == 0);
        assert(cps =~= Seq::<Point<i32>>::empty());
    } else {
        let p = cps[0];
        assert(m[0] == point_text(p));
        lemma_pair_text_split(p.x as int, p.y as int);
        decimal_roundtrip(p.x as int, i32::MIN as int, i32::MAX as int);
        decimal_roundtrip(p.y as int, i32::MIN as int, i32::MAX as int);
        assert(spec_control_point(m[0]) == Some(p));
        lemma_control_points_roundtrip(cps.drop_first());
        assert(m.drop_first() =~= cps.drop_first().map_values(|p: Point<i32>| point_text(p)));
        assert(seq![p] + cps.drop_first() =~= cps);
    }
}

proof fn lemma_edge_additions_roundtrip(es: Seq<Additions>)
    requires
        forall|i: int| 0 <= i < es.len() ==> valid_additions(#[trigger] es[i]),
    ensures
        spec_edge_additions(es.map_values(|a: Additions| additions_text(a))) == Ok::<Seq<Additions>, Fault>(es),
    decreases es.len(),
{
    let m = es.map_values(|a: Additions| additions_text(a));
    if es.len() == 0 {
        assert(m.len() == 0);
        assert(es =~= Seq::<Additions>::empty());
    } else {
        let a = es[0];
        assert(valid_additions(a));
        assert(m[0] == additions_text(a));
        decimal_roundtrip(a.spec_bits() as int, 0, u32::MAX as int);
        a.lemma_with_own_bits();
        let rest = es.drop_first();
        assert forall|i: int| 0 <= i < rest.len() implies valid_additions(#[trigger] rest[i]) by {
            assert(rest[i] == es[i + 1]);
        }
        lemma_edge_additions_roundtrip(rest);
        assert(m.drop_first() =~= rest.map_values(|a: Additions| additions_text(a)));
        assert(seq![a] + rest =~= es);
    }
}

proof fn lemma_sampleset_value(s: SampleSet)
    ensures
        SampleSet::spec_from_u32(s.spec_value()) == Some(s),
{
}

proof fn lemma_edge_samplesets_roundtrip(es: Seq<(SampleSet, SampleSet)>)
    ensures
        spec_edge_samplesets(es.map_values(|p: (SampleSet, SampleSet)| sampleset_pair_text(p)))
            == Ok::<Seq<(SampleSet, SampleSet)>, Fault>(es),
    decreases es.len(),
{
    let m = es.map_values(|p: (SampleSet, SampleSet)| sampleset_pair_text(p));
    if es.len() == 0 {
        assert(m.len() == 0);
        assert(es =~= Seq::<(SampleSet, SampleSet)>::empty());
    } else {
        let p = es[0];
        assert(m[0] == sampleset_pair_text(p));
        lemma_pair_text_split(p.0.spec_value() as int, p.1.spec_value() as int);
        decimal_roundtrip(p.0.spec_value() as int, 0, u32::MAX as int);
        decimal_roundtrip(p.1.spec_value() as int, 0, u32::MAX as int);
        lemma_sampleset_value(p.0);
        lemma_sampleset_value(p.1);
        assert(spec_edge_sampleset(m[0]) == Ok::<(SampleSet, SampleSet), Fault>(p));
        lemma_edge_samplesets_roundtrip(es.drop_first());
        assert(m.drop_first() =~= es.drop_first().map_values(
            |p: (SampleSet, SampleSet)| sampleset_pair_text(p),
        ));
        assert(seq![p] + es.drop_first() =~= es);
    }
}

proof fn lemma_obj_type_bits(k: i32, nc: i32, sc: i32)
    requires
        k == 1 || k == 2 || k == 8,
        nc == 0 || nc == 4,
        0 <= sc <= 7,
    ensures
        ((k | nc | (sc << 4)) & 1 == 1) == (k == 1),
        ((k | nc | (sc << 4)) & 2 == 2) == (k == 2),
        ((k | nc | (sc << 4)) & 8 == 8) == (k == 8),
        ((k | nc | (sc << 4)) & 4 == 4) == (nc == 4),
        ((k | nc | (sc << 4)) >> 4) & 7 == sc,
{
    assert(((k | nc | (sc << 4)) & 1 == 1) == (k == 1)) by (bit_vector)
        requires
            k == 1 || k == 2 || k == 8,
            nc == 0 || nc == 4,
            0 <= sc <= 7,
    ;
    assert(((k | nc | (sc << 4)) & 2 == 2) == (k == 2)) by (bit_vector)
        requires
            k == 1 || k == 2 || k == 8,
            nc == 0 || nc == 4,
            0 <= sc <= 7,
    ;
    assert(((k | nc | (sc << 4)) & 8 == 8) == (k == 8)) by (bit_vector)
        requires
            k == 1 || k == 2 || k == 8,
            nc == 0 || nc == 4,
            0 <= sc <= 7,
    ;
    assert(((k | nc | (sc << 4)) & 4 == 4) == (nc == 4)) by (bit_vector)
        requires
            k == 1 || k == 2 || k == 8,
            nc == 0 || nc == 4,
            0 <= sc <= 7,
    ;
    assert(((k | nc | (sc << 4)) >> 4) & 7 == sc) by (bit_vector)
        requires
            k == 1 || k == 2 || k == 8,
            nc == 0 || nc == 4,
            0 <= sc <= 7,
    ;
}

proof fn lemma_hitsample_excludes(h: SampleInfoView, c: char)
    requires
        c != '-' && c != ':',
        !crate::text::is_digit(c),
        !h.filename.contains(c),
    ensures
        !spec_hitsample_str(h).contains(c),
{
    lemma_pair_text_excludes(h.sample_set.spec_value() as int, h.addition_set.spec_value() as int, c);
    lemma_pair_text_excludes(h.custom_index as int, h.sample_volume as int, c);
    let a = spec_decimal(h.sample_set.spec_value() as int) + seq![':'] + spec_decimal(
        h.addition_set.spec_value() as int,
    );
    let b = spec_decimal(h.custom_index as int) + seq![':'] + spec_decimal(h.sample_volume as int);
    lemma_char_excludes(':', c);
    lemma_concat_excludes(a, seq![':'], c);
    lemma_concat_excludes(a + seq![':'], b, c);
    lemma_concat_excludes(a + seq![':'] + b, seq![':'], c);
    lemma_concat_excludes(a + seq![':'] + b + seq![':'], h.filename, c);
    assert(spec_hitsample_str(h) =~= a + seq![':'] + b + seq![':'] + h.filename);
}

proof fn lemma_spline_letter(k: SliderSplineKind)
    ensures
        spline_of(seq![spline_letter(k)]) == Some(k),
        spline_letter(k) != '|' && spline_letter(k) != ',',
{
    let l = seq![spline_letter(k)];
    assert(l[0] == spline_letter(k));
    assert(seq!['L'][0] == 'L' && seq!['B'][0] == 'B' && seq!['C'][0] == 'C' && seq!['P'][0] == 'P');
    match k {
        SliderSplineKind::Linear => assert(l =~= seq!['L']),
        SliderSplineKind::Bezier => {
            assert(l =~= seq!['B']);
            assert(l != seq!['L']);
        },
        SliderSplineKind::Catmull => {
            assert(l =~= seq!['C']);
            assert(l != seq!['L'] && l != seq!['B']);
        },
        SliderSplineKind::Perfect => {
            assert(l =~= seq!['P']);
            assert(l != seq!['L'] && l != seq!['B'] && l != seq!['C']);
        },
    }
}

proof fn lemma_curve_field(sl: SliderInfoView)
    requires
        sl.control_points.len() >= 1,
    ensures
        !curve_field(sl).contains(','),
        split_spec(curve_field(sl), '|') == seq![seq![spline_letter(sl.kind)]] + sl.control_points.map_values(
            |p: Point<i32>| point_text(p),
        ),
{
    let m = sl.control_points.map_values(|p: Point<i32>| point_text(p));
    let l = seq![spline_letter(sl.kind)];
    lemma_spline_letter(sl.kind);
    assert forall|i: int| 0 <= i < m.len() implies !(#[trigger] m[i]).contains('|') && !m[i].contains(',') by {
        let p = sl.control_points[i];
        assert(m[i] == point_text(p));
        lemma_pair_text_excludes(p.x as int, p.y as int, '|');
        lemma_pair_text_excludes(p.x as int, p.y as int, ',');
    }
    lemma_split_join_all(m, '|');
    lemma_char_excludes(spline_letter(sl.kind), '|');
    lemma_split_join(l, '|', join_spec(m, '|'));
    assert(curve_field(sl) =~= l + seq!['|'] + join_spec(m, '|'));
    lemma_join_excludes(m, '|', ',');
    lemma_char_excludes(spline_letter(sl.kind), ',');
    lemma_char_excludes('|', ',');
    lemma_concat_excludes(l, seq!['|'], ',');
    lemma_concat_excludes(l + seq!['|'], join_spec(m, '|'), ',');
}

pub proof fn lemma_float_nonempty(s: Seq<char>)
    requires
        is_float_text(s),
    ensures
        s.len() > 0,
{
    if s.len() == 0 {
        assert(crate::text::skip_digits(s, 0) == 0);
        assert(s =~= Seq::<char>::empty());
    }
}

proof fn lemma_slider_roundtrip(h: HitObjectView, sl: SliderInfoView)
    requires
        hitobject_text_roundtrips(h),
        h.kind == HitObjectKindView::Slider(sl),
    ensures
        spec_parse_slider(hitobject_fields(h)) == Ok::<(SliderInfoView, SampleInfoView), Fault>((sl, h.sample_info)),
{
    let f = hitobject_fields(h);
    assert(f.len() == 11);
    let m = sl.control_points.map_values(|p: Point<i32>| point_text(p));
    lemma_curve_field(sl);
    let ctl = split_spec(f[5], '|');
    assert(ctl.drop_first() =~= m);
    lemma_control_points_roundtrip(sl.control_points);
    lemma_spline_letter(sl.kind);
    decimal_roundtrip(sl.num_repeats as int, 0, u32::MAX as int);
    lemma_float_nonempty(sl.pixel_length);
    let ea = sl.edge_additions.map_values(|a: Additions| additions_text(a));
    assert forall|i: int| 0 <= i < ea.len() implies !(#[trigger] ea[i]).contains('|') by {
        lemma_decimal_chars(sl.edge_additions[i].spec_bits() as int, '|');
    }
    lemma_split_join_all(ea, '|');
    lemma_edge_additions_roundtrip(sl.edge_additions);
    let es = sl.edge_samplesets.map_values(|p: (SampleSet, SampleSet)| sampleset_pair_text(p));
    assert forall|i: int| 0 <= i < es.len() implies !(#[trigger] es[i]).contains('|') by {
        let p = sl.edge_samplesets[i];
        lemma_pair_text_excludes(p.0.spec_value() as int, p.1.spec_value() as int, '|');
    }
    lemma_split_join_all(es, '|');
    lemma_edge_samplesets_roundtrip(sl.edge_samplesets);
    hitsample_roundtrip(h.sample_info);
}

proof fn lemma_kind_roundtrip(h: HitObjectView)
    requires
        hitobject_text_roundtrips(h),
    ensures
        spec_parse_kind(hitobject_fields(h), spec_obj_type(h)) == Ok::<
            (HitObjectKindView, SampleInfoView),
            Fault,
        >((h.kind, h.sample_info)),
{
    let k: i32 = match h.kind {
        HitObjectKindView::Circle => 1,
        HitObjectKindView::Slider(_) => 2,
        HitObjectKindView::Spinner(_) => 8,
    };
    let nc: i32 = if h.new_combo {
        4
    } else {
        0
    };
    lemma_obj_type_bits(k, nc, h.skip_color);
    hitsample_roundtrip(h.sample_info);
    match h.kind {
        HitObjectKindView::Circle => {},
        HitObjectKindView::Spinner(sp) => {
            decimal_roundtrip(sp.end_time.0 as int, i32::MIN as int, i32::MAX as int);
        },
        HitObjectKindView::Slider(sl) => {
            lemma_slider_roundtrip(h, sl);
        },
    }
}

/// The line of a hit object reads back as the same object, under the
/// conditions of [`hitobject_text_roundtrips`].
pub proof fn hitobject_roundtrip(h: HitObjectView)
    requires
        hitobject_text_roundtrips(h),
    ensures
        spec_parse_hitobject(spec_hitobject_text(h)) == Ok::<HitObjectView, Fault>(h),
{
    let f = hitobject_fields(h);
    let t = spec_obj_type(h);
    lemma_decimal_chars(h.pos.x as int, ',');
    lemma_decimal_chars(h.pos.y as int, ',');
    lemma_decimal_chars(h.start_time.0 as int, ',');
    lemma_decimal_chars(t as int, ',');
    lemma_decimal_chars(h.additions.spec_bits() as int, ',');
    lemma_hitsample_excludes(h.sample_info, ',');
    match h.kind {
        HitObjectKindView::Circle => {},
        HitObjectKindView::Spinner(sp) => {
            lemma_decimal_chars(sp.end_time.0 as int, ',');
        },
        HitObjectKindView::Slider(sl) => {
            lemma_curve_field(sl);
            lemma_decimal_chars(sl.num_repeats as int, ',');
            lemma_float_text_excludes(sl.pixel_length, ',');
            let ea = sl.edge_additions.map_values(|a: Additions| additions_text(a));
            assert forall|i: int| 0 <= i < ea.len() implies !(#[trigger] ea[i]).contains(',') by {
                lemma_decimal_chars(sl.edge_additions[i].spec_bits() as int, ',');
            }
            lemma_join_excludes(ea, '|', ',');
            let es = sl.edge_samplesets.map_values(|p: (SampleSet, SampleSet)| sampleset_pair_text(p));
            assert forall|i: int| 0 <= i < es.len() implies !(#[trigger] es[i]).contains(',') by {
                let p = sl.edge_samplesets[i];
                lemma_pair_text_excludes(p.0.spec_value() as int, p.1.spec_value() as int, ',');
            }
            lemma_join_excludes(es, '|', ',');
        },
    }
    assert forall|i: int| 0 <= i < f.len() implies !(#[trigger] f[i]).contains(',') by {}
    lemma_split_join_all(f, ',');
    decimal_roundtrip(h.pos.x as int, i32::MIN as int, i32::MAX as int);
    decimal_roundtrip(h.pos.y as int, i32::MIN as int, i32::MAX as int);
    decimal_roundtrip(h.start_time.0 as int, i32::MIN as int, i32::MAX as int);
    decimal_roundtrip(t as int, i32::MIN as int, i32::MAX as int);
    decimal_roundtrip(h.additions.spec_bits() as int, 0, u32::MAX as int);
    h.additions.lemma_with_own_bits();
    lemma_kind_roundtrip(h);
    let k: i32 = match h.kind {
        HitObjectKindView::Circle => 1,
        HitObjectKindView::Slider(_) => 2,
        HitObjectKindView::Spinner(_) => 8,
    };
    let nc: i32 = if h.new_combo {
        4
    } else {
        0
    };
    lemma_obj_type_bits(k, nc, h.skip_color);
}

proof fn lemma_parsed_edge_additions(ps: Seq<Seq<char>>, r: Seq<Additions>)
    requires
        spec_edge_additions(ps) == Ok::<Seq<Additions>, Fault>(r),
    ensures
        r.len() == ps.len(),
        forall|i: int| 0 <= i < r.len() ==> valid_additions(#[trigger] r[i]),
    decreases ps.len(),
{
    if ps.len() > 0 {
        Additions::lemma_bits_of_with_bits();
        let b = spec_parse_int(ps[0], 0, u32::MAX as int)->Ok_0;
        let rest = spec_edge_additions(ps.drop_first())->Ok_0;
        lemma_parsed_edge_additions(ps.drop_first(), rest);
        assert(r == seq![Additions::with_bits(b as u32)] + rest);
        assert forall|i: int| 0 <= i < r.len() implies valid_additions(#[trigger] r[i]) by {
            if i > 0 {
                assert(r[i] == rest[i - 1]);
            }
        }
    }
}

proof fn lemma_parsed_edge_samplesets(ps: Seq<Seq<char>>, r: Seq<(SampleSet, SampleSet)>)
    requires
        spec_edge_samplesets(ps) == Ok::<Seq<(SampleSet, SampleSet)>, Fault>(r),
    ensures
        r.len() == ps.len(),
    decreases ps.len(),
{
    if ps.len() > 0 {
        let rest = spec_edge_samplesets(ps.drop_first())->Ok_0;
        lemma_parsed_edge_samplesets(ps.drop_first(), rest);
    }
}

proof fn lemma_parsed_sample(p: Seq<Seq<char>>, i: int)
    requires
        0 <= i,
        sample_at(p, i) is Ok,
        forall|k: int| 0 <= k < p.len() ==> !(#[trigger] p[k]).contains(','),
    ensures
        !sample_at(p, i)->Ok_0.filename.contains(':'),
        !sample_at(p, i)->Ok_0.filename.contains(','),
{
    if i < p.len() {
        assert(!p[i].contains(','));
        lemma_split_excludes(p[i], ':', ':');
        lemma_split_excludes(p[i], ':', ',');
    } else {
        let e = Seq::<char>::empty();
        assert(!e.contains(':'));
        assert(!e.contains(','));
    }
}

proof fn lemma_parsed_slider(p: Seq<Seq<char>>)
    requires
        spec_parse_slider(p) is Ok,
        forall|k: int| 0 <= k < p.len() ==> !(#[trigger] p[k]).contains(','),
    ensures
        ({
            let (sl, sample) = spec_parse_slider(p)->Ok_0;
            &&& is_float_text(sl.pixel_length)
            &&& sl.edge_additions.len() >= 1
            &&& forall|i: int| 0 <= i < sl.edge_additions.len() ==> valid_additions(#[trigger] sl.edge_additions[i])
            &&& sl.edge_samplesets.len() >= 1
            &&& !sample.filename.contains(':')
            &&& !sample.filename.contains(',')
        }),
{
    let sl = spec_parse_slider(p)->Ok_0.0;
    Additions::lemma_bits_of_with_bits();
    if p.len() > 8 {
        lemma_split_excludes(p[8], '|', '|');
        lemma_parsed_edge_additions(split_spec(p[8], '|'), sl.edge_additions);
    } else {
        assert(0u32 & !all_addition_bits() == 0) by (bit_vector);
        assert(sl.edge_additions == default_edge_additions());
    }
    if p.len() > 9 {
        lemma_split_excludes(p[9], '|', '|');
        lemma_parsed_edge_samplesets(split_spec(p[9], '|'), sl.edge_samplesets);
    }
    lemma_parsed_sample(p, 10);
}

proof fn lemma_parsed_kind(p: Seq<Seq<char>>, t: i32)
    requires
        spec_parse_kind(p, t) is Ok,
        forall|k: int| 0 <= k < p.len() ==> !(#[trigger] p[k]).contains(','),
    ensures
        ({
            let (kind, sample) = spec_parse_kind(p, t)->Ok_0;
            &&& !sample.filename.contains(':')
            &&& !sample.filename.contains(',')
            &&& kind is Slider ==> {
                let sl = kind->Slider_0;
                &&& is_float_text(sl.pixel_length)
                &&& sl.edge_additions.len() >= 1
                &&& forall|i: int|
                    0 <= i < sl.edge_additions.len() ==> valid_additions(#[trigger] sl.edge_additions[i])
                &&& sl.edge_samplesets.len() >= 1
            }
        }),
{
    if t & 1 == 1 {
        lemma_parsed_sample(p, 5);
    } else if t & 2 == 2 {
        lemma_parsed_slider(p);
    } else {
        lemma_parsed_sample(p, 6);
    }
}

/// Every object read from a line, a slider with at least one control point,
/// meets the conditions of [`hitobject_text_roundtrips`]: the line written
/// for it reads back as the same object.
pub proof fn parsed_hitobject_roundtrips(s: Seq<char>)
    requires
        spec_parse_hitobject(s) is Ok,
        spec_parse_hitobject(s)->Ok_0.kind is Slider
            ==> spec_parse_hitobject(s)->Ok_0.kind->Slider_0.control_points.len() >= 1,
    ensures
        hitobject_text_roundtrips(spec_parse_hitobject(s)->Ok_0),
        spec_parse_hitobject(spec_hitobject_text(spec_parse_hitobject(s)->Ok_0)) == spec_parse_hitobject(s),
{
    let h = spec_parse_hitobject(s)->Ok_0;
    let p = split_spec(s, ',');
    lemma_split_excludes(s, ',', ',');
    let t = int_at(p, 3, i32::MIN as int, i32::MAX as int)->Ok_0 as i32;
    let bits = int_at(p, 4, 0, u32::MAX as int)->Ok_0;
    assert(spec_parse_kind(p, t) is Ok);
    assert(h.kind == spec_parse_kind(p, t)->Ok_0.0);
    assert(h.sample_info == spec_parse_kind(p, t)->Ok_0.1);
    lemma_parsed_kind(p, t);
    assert(h.skip_color == (t >> 4) & 7);
    assert(0 <= (t >> 4) & 7 <= 7) by (bit_vector);
    Additions::lemma_bits_of_with_bits();
    assert(h.additions == Additions::with_bits(bits as u32));
    hitobject_roundtrip(h);
}

/// The curve letter of a slider line: the first `|`-separated piece of its
/// sixth `,`-separated field.
pub open spec fn curve_letter_of(s: Seq<char>) -> Seq<char> {
    split_spec(split_spec(s, ',')[5], '|')[0]
}

/// A slider read from a line is linear exactly when its curve letter is `L`,
/// Bézier exactly when it is `B`, Catmull-Rom exactly when it is `C`, and a
/// perfect circle arc exactly when it is `P`.
pub proof fn curve_letters_read(s: Seq<char>)
    requires
        spec_parse_hitobject(s) is Ok,
        spec_parse_hitobject(s)->Ok_0.kind is Slider,
    ensures
        ({
            let k = spec_parse_hitobject(s)->Ok_0.kind->Slider_0.kind;
            &&& (curve_letter_of(s) == seq!['L'] <==> k == SliderSplineKind::Linear)
            &&& (curve_letter_of(s) == seq!['B'] <==> k == SliderSplineKind::Bezier)
            &&& (curve_letter_of(s) == seq!['C'] <==> k == SliderSplineKind::Catmull)
            &&& (curve_letter_of(s) == seq!['P'] <==> k == SliderSplineKind::Perfect)
        }),
{
    let p = split_spec(s, ',');
    let t = int_at(p, 3, i32::MIN as int, i32::MAX as int)->Ok_0 as i32;
    assert(spec_parse_kind(p, t) is Ok);
    assert(spec_parse_hitobject(s)->Ok_0.kind == spec_parse_kind(p, t)->Ok_0.0);
    assert(!(t & 1 == 1) && t & 2 == 2);
    assert(spec_parse_slider(p) is Ok);
    let sl = spec_parse_slider(p)->Ok_0.0;
    let l = split_spec(p[5], '|')[0];
    assert(spline_of(l) == Some(sl.kind));
    assert(seq!['L'] != seq!['B'] && seq!['L'] != seq!['C'] && seq!['L'] != seq!['P']) by {
        assert(seq!['L'][0] != seq!['B'][0]);
        assert(seq!['L'][0] != seq!['C'][0]);
        assert(seq!['L'][0] != seq!['P'][0]);
    }
    assert(seq!['B'] != seq!['C'] && seq!['B'] != seq!['P'] && seq!['C'] != seq!['P']) by {
        assert(seq!['B'][0] != seq!['C'][0]);
        assert(seq!['B'][0] != seq!['P'][0]);
        assert(seq!['C'][0] != seq!['P'][0]);
    }
}

/// The line written for a slider that reads back (see
/// [`hitobject_text_roundtrips`]) has the curve letter `L` exactly when the
/// slider is linear, `B` exactly when it is Bézier, `C` exactly when it is
/// Catmull-Rom and `P` exactly when it is a perfect circle arc.
pub proof fn curve_letters_written(h: HitObjectView)
    requires
        hitobject_text_roundtrips(h),
        h.kind is Slider,
    ensures
        ({
            let k = h.kind->Slider_0.kind;
            let l = curve_letter_of(spec_hitobject_text(h));
            &&& (l == seq!['L'] <==> k == SliderSplineKind::Linear)
            &&& (l == seq!['B'] <==> k == SliderSplineKind::Bezier)
            &&& (l == seq!['C'] <==> k == SliderSplineKind::Catmull)
            &&& (l == seq!['P'] <==> k == SliderSplineKind::Perfect)
        }),
{
    hitobject_roundtrip(h);
    curve_letters_read(spec_hitobject_text(h));
}

/// A hit object read from a line takes its position from the first two
/// `,`-separated fields (x then y), its time from the third, its additions
/// from the fifth, and from the type number in the fourth: a new combo
/// (bit 2), the colours to skip (bits 4 to 6) and its kind (a circle when bit
/// 0 is set, else a slider when bit 1 is, else a spinner when bit 3 is).
pub proof fn hitobject_fields_read(s: Seq<char>)
    requires
        spec_parse_hitobject(s) is Ok,
    ensures
        ({
            let h = spec_parse_hitobject(s)->Ok_0;
            let p = split_spec(s, ',');
            &&& p.len() >= 5
            &&& spec_parse_int(p[0], i32::MIN as int, i32::MAX as int) == Ok::<int, IntErrorKind>(h.pos.x as int)
            &&& spec_parse_int(p[1], i32::MIN as int, i32::MAX as int) == Ok::<int, IntErrorKind>(h.pos.y as int)
            &&& spec_parse_int(p[2], i32::MIN as int, i32::MAX as int) == Ok::<int, IntErrorKind>(h.start_time.0 as int)
            &&& spec_parse_int(p[4], 0, u32::MAX as int) == Ok::<int, IntErrorKind>(h.additions.spec_bits() as int)
            &&& spec_parse_int(p[3], i32::MIN as int, i32::MAX as int) matches Ok(t) && {
                let ty = t as i32;
                &&& h.new_combo == (ty & 4 == 4)
                &&& h.skip_color == (ty >> 4) & 7
                &&& (h.kind is Circle <==> ty & 1 == 1)
                &&& (h.kind is Slider <==> (ty & 1 != 1 && ty & 2 == 2))
                &&& (h.kind is Spinner <==> (ty & 1 != 1 && ty & 2 != 2 && ty & 8 == 8))
            }
            &&& h.timing_point is None
        }),
{
    let p = split_spec(s, ',');
    crate::text::lemma_parse_int_range(p[0], i32::MIN as int, i32::MAX as int);
    crate::text::lemma_parse_int_range(p[1], i32::MIN as int, i32::MAX as int);
    crate::text::lemma_parse_int_range(p[2], i32::MIN as int, i32::MAX as int);
    crate::text::lemma_parse_int_range(p[3], i32::MIN as int, i32::MAX as int);
    crate::text::lemma_parse_int_range(p[4], 0, u32::MAX as int);
    Additions::lemma_bits_of_with_bits();
}

/// A hit object read from a line takes its hit sample from its last field:
/// the sixth for a circle, the seventh for a spinner (whose end time is the
/// sixth) and the eleventh for a slider (whose repeats are the seventh and
/// pixel length the eighth); a line that ends before it gives the default
/// hit sample.
pub proof fn hitobject_parts_read(s: Seq<char>)
    requires
        spec_parse_hitobject(s) is Ok,
    ensures
        ({
            let h = spec_parse_hitobject(s)->Ok_0;
            let p = split_spec(s, ',');
            let i: int = match h.kind {
                HitObjectKindView::Circle => 5,
                HitObjectKindView::Spinner(_) => 6,
                HitObjectKindView::Slider(_) => 10,
            };
            &&& p.len() > i ==> spec_parse_hitsample(p[i]) == Ok::<SampleInfoView, Fault>(h.sample_info)
            &&& p.len() <= i ==> h.sample_info == default_sample()
            &&& h.kind matches HitObjectKindView::Spinner(sp) ==> spec_parse_int(p[5], i32::MIN as int, i32::MAX as int)
                == Ok::<int, IntErrorKind>(sp.end_time.0 as int)
            &&& h.kind matches HitObjectKindView::Slider(sl) ==> {
                &&& spec_parse_int(p[6], 0, u32::MAX as int) == Ok::<int, IntErrorKind>(sl.num_repeats as int)
                &&& sl.pixel_length == p[7]
            }
        }),
{
    let p = split_spec(s, ',');
    crate::text::lemma_parse_int_range(p[5], i32::MIN as int, i32::MAX as int);
    crate::text::lemma_parse_int_range(p[6], 0, u32::MAX as int);
}

proof fn lemma_points_read(ps: Seq<Seq<char>>)
    requires
        spec_control_points(ps) is Some,
    ensures
        spec_control_points(ps)->Some_0.len() == ps.len(),
        forall|i: int|
            0 <= i < ps.len() ==> {
                let c = split_spec(#[trigger] ps[i], ':');
                let pt = spec_control_points(ps)->Some_0[i];
                &&& c.len() >= 2
                &&& spec_parse_int(c[0], i32::MIN as int, i32::MAX as int) == Ok::<int, IntErrorKind>(pt.x as int)
                &&& spec_parse_int(c[1], i32::MIN as int, i32::MAX as int) == Ok::<int, IntErrorKind>(pt.y as int)
            },
    decreases ps.len(),
{
    if ps.len() > 0 {
        lemma_points_read(ps.drop_first());
        let c0 = split_spec(ps[0], ':');
        crate::text::lemma_parse_int_range(c0[0], i32::MIN as int, i32::MAX as int);
        crate::text::lemma_parse_int_range(c0[1], i32::MIN as int, i32::MAX as int);
        let r = spec_control_points(ps)->Some_0;
        let rest = spec_control_points(ps.drop_first())->Some_0;
        assert forall|i: int| 0 < i < ps.len() implies ps[i] == ps.drop_first()[i - 1] && r[i] == rest[i - 1] by {}
    }
}

proof fn lemma_edge_additions_read(ps: Seq<Seq<char>>)
    requires
        spec_edge_additions(ps) is Ok,
    ensures
        spec_edge_additions(ps)->Ok_0.len() == ps.len(),
        forall|i: int|
            0 <= i < ps.len() ==> spec_parse_int(#[trigger] ps[i], 0, u32::MAX as int) == Ok::<int, IntErrorKind>(
                spec_edge_additions(ps)->Ok_0[i].spec_bits() as int,
            ),
    decreases ps.len(),
{
    if ps.len() > 0 {
        Additions::lemma_bits_of_with_bits();
        lemma_edge_additions_read(ps.drop_first());
        crate::text::lemma_parse_int_range(ps[0], 0, u32::MAX as int);
        let r = spec_edge_additions(ps)->Ok_0;
        let rest = spec_edge_additions(ps.drop_first())->Ok_0;
        assert forall|i: int| 0 < i < ps.len() implies ps[i] == ps.drop_first()[i - 1] && r[i] == rest[i - 1] by {}
    }
}

proof fn lemma_edge_samplesets_read(ps: Seq<Seq<char>>)
    requires
        spec_edge_samplesets(ps) is Ok,
    ensures
        spec_edge_samplesets(ps)->Ok_0.len() == ps.len(),
        forall|i: int|
            0 <= i < ps.len() ==> {
                let c = split_spec(#[trigger] ps[i], ':');
                let e = spec_edge_samplesets(ps)->Ok_0[i];
                &&& c.len() >= 2
                &&& spec_parse_int(c[0], 0, u32::MAX as int) matches Ok(a) && SampleSet::spec_from_u32(a as u32) == Some(e.0)
                &&& spec_parse_int(c[1], 0, u32::MAX as int) matches Ok(b) && SampleSet::spec_from_u32(b as u32) == Some(e.1)
            },
    decreases ps.len(),
{
    if ps.len() > 0 {
        lemma_edge_samplesets_read(ps.drop_first());
        let r = spec_edge_samplesets(ps)->Ok_0;
        let rest = spec_edge_samplesets(ps.drop_first())->Ok_0;
        assert forall|i: int| 0 < i < ps.len() implies ps[i] == ps.drop_first()[i - 1] && r[i] == rest[i - 1] by {}
    }
}

/// A slider read from a line takes its control points from the `|`-separated
/// pieces of its sixth field after the curve letter, each `x:y` (x first);
/// its edge additions from the `|`-separated pieces of the ninth field and
/// its edge sample sets from those of the tenth, each `normal:additions`
/// (normal first), in order; when those fields are missing it has one edge
/// without additions and with default sample sets.
pub proof fn slider_parts_read(s: Seq<char>)
    requires
        spec_parse_hitobject(s) is Ok,
        spec_parse_hitobject(s)->Ok_0.kind is Slider,
    ensures
        ({
            let sl = spec_parse_hitobject(s)->Ok_0.kind->Slider_0;
            let p = split_spec(s, ',');
            let ctl = split_spec(p[5], '|');
            &&& sl.control_points.len() == ctl.len() - 1
            &&& forall|i: int|
                0 <= i < sl.control_points.len() ==> {
                    let c = split_spec(#[trigger] ctl[i + 1], ':');
                    &&& c.len() >= 2
                    &&& spec_parse_int(c[0], i32::MIN as int, i32::MAX as int) == Ok::<int, IntErrorKind>(sl.control_points[i].x as int)
                    &&& spec_parse_int(c[1], i32::MIN as int, i32::MAX as int) == Ok::<int, IntErrorKind>(sl.control_points[i].y as int)
                }
            &&& p.len() > 8 ==> {
                let e = split_spec(p[8], '|');
                &&& sl.edge_additions.len() == e.len()
                &&& forall|i: int| 0 <= i < e.len() ==> spec_parse_int(#[trigger] e[i], 0, u32::MAX as int)
                    == Ok::<int, IntErrorKind>(sl.edge_additions[i].spec_bits() as int)
            }
            &&& p.len() <= 8 ==> sl.edge_additions.len() == 1 && sl.edge_additions[0].spec_bits() == 0
            &&& p.len() > 9 ==> {
                let e = split_spec(p[9], '|');
                &&& sl.edge_samplesets.len() == e.len()
                &&& forall|i: int|
                    0 <= i < e.len() ==> {
                        let c = split_spec(#[trigger] e[i], ':');
                        &&& c.len() >= 2
                        &&& spec_parse_int(c[0], 0, u32::MAX as int) matches Ok(a) && SampleSet::spec_from_u32(a as u32)
                            == Some(sl.edge_samplesets[i].0)
                        &&& spec_parse_int(c[1], 0, u32::MAX as int) matches Ok(b) && SampleSet::spec_from_u32(b as u32)
                            == Some(sl.edge_samplesets[i].1)
                    }
            }
            &&& p.len() <= 9 ==> sl.edge_samplesets == seq![(SampleSet::Default, SampleSet::Default)]
        }),
{
    let p = split_spec(s, ',');
    let t = int_at(p, 3, i32::MIN as int, i32::MAX as int)->Ok_0 as i32;
    assert(spec_parse_kind(p, t) is Ok);
    assert(spec_parse_hitobject(s)->Ok_0.kind == spec_parse_kind(p, t)->Ok_0.0);
    assert(!(t & 1 == 1) && t & 2 == 2);
    assert(spec_parse_slider(p) is Ok);
    let sl = spec_parse_slider(p)->Ok_0.0;
    let ctl = split_spec(p[5], '|');
    lemma_points_read(ctl.drop_first());
    assert(sl.control_points == spec_control_points(ctl.drop_first())->Some_0);
    assert(spec_parse_hitobject(s)->Ok_0.kind->Slider_0 == sl);
    assert forall|i: int| 0 <= i < sl.control_points.len() implies {
        let c = split_spec(#[trigger] ctl[i + 1], ':');
        &&& c.len() >= 2
        &&& spec_parse_int(c[0], i32::MIN as int, i32::MAX as int) == Ok::<int, IntErrorKind>(sl.control_points[i].x as int)
        &&& spec_parse_int(c[1], i32::MIN as int, i32::MAX as int) == Ok::<int, IntErrorKind>(sl.control_points[i].y as int)
    } by {
        assert(ctl[i + 1] == ctl.drop_first()[i]);
    }
    if p.len() > 8 {
        lemma_edge_additions_read(split_spec(p[8], '|'));
    } else {
        Additions::lemma_bits_of_with_bits();
    }
    if p.len() > 9 {
        lemma_edge_samplesets_read(split_spec(p[9], '|'));
    }
}

/// The characters a hit-object line can hold besides those of the file name
/// of its hit sample: digits, letters, signs, `.`, `:`, `|` and `,`.
pub open spec fn foreign_char(c: char) -> bool {
    &&& !crate::text::is_digit(c)
    &&& !('a' <= c && c <= 'z')
    &&& !('A' <= c && c <= 'Z')
    &&& c != '-' && c != '+' && c != '.' && c != ':' && c != '|' && c != ','
}

/// The line of a hit object holds no character foreign to it that its file
/// name does not hold.
pub proof fn lemma_hitobject_text_excludes(h: HitObjectView, c: char)
    requires
        hitobject_text_roundtrips(h),
        foreign_char(c),
        !h.sample_info.filename.contains(c),
    ensures
        !spec_hitobject_text(h).contains(c),
{
    let f = hitobject_fields(h);
    let t = spec_obj_type(h);
    lemma_decimal_chars(h.pos.x as int, c);
    lemma_decimal_chars(h.pos.y as int, c);
    lemma_decimal_chars(h.start_time.0 as int, c);
    lemma_decimal_chars(t as int, c);
    lemma_decimal_chars(h.additions.spec_bits() as int, c);
    lemma_hitsample_excludes(h.sample_info, c);
    match h.kind {
        HitObjectKindView::Circle => {},
        HitObjectKindView::Spinner(sp) => {
            lemma_decimal_chars(sp.end_time.0 as int, c);
        },
        HitObjectKindView::Slider(sl) => {
            let m = sl.control_points.map_values(|p: Point<i32>| point_text(p));
            assert forall|i: int| 0 <= i < m.len() implies !(#[trigger] m[i]).contains(c) by {
                let p = sl.control_points[i];
                lemma_pair_text_excludes(p.x as int, p.y as int, c);
            }
            lemma_join_excludes(m, '|', c);
            let l = seq![spline_letter(sl.kind), '|'];
            assert(!l.contains(c)) by {
                if l.contains(c) {
                    let i = choose|i: int| 0 <= i < l.len() && l[i] == c;
                    assert(i == 0 || i == 1);
                }
            }
            lemma_concat_excludes(l, join_spec(m, '|'), c);
            lemma_decimal_chars(sl.num_repeats as int, c);
            lemma_float_text_excludes(sl.pixel_length, c);
            let ea = sl.edge_additions.map_values(|a: Additions| additions_text(a));
            assert forall|i: int| 0 <= i < ea.len() implies !(#[trigger] ea[i]).contains(c) by {
                lemma_decimal_chars(sl.edge_additions[i].spec_bits() as int, c);
            }
            lemma_join_excludes(ea, '|', c);
            let es = sl.edge_samplesets.map_values(|p: (SampleSet, SampleSet)| sampleset_pair_text(p));
            assert forall|i: int| 0 <= i < es.len() implies !(#[trigger] es[i]).contains(c) by {
                let p = sl.edge_samplesets[i];
                lemma_pair_text_excludes(p.0.spec_value() as int, p.1.spec_value() as int, c);
            }
            lemma_join_excludes(es, '|', c);
        },
    }
    assert forall|i: int| 0 <= i < f.len() implies !(#[trigger] f[i]).contains(c) by {}
    lemma_join_excludes(f, ',', c);
}

} // verus!
