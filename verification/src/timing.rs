//! Timing points: the lines of the `[TimingPoints]` section of a beatmap.

use crate::enums::Millis;
use crate::errors::{Fault, LineFault, ParseError};
use crate::fields::{float_at, int_at, read_float_at, read_int_at};
use crate::hitsounds::SampleSet;
use crate::text::{
    next_field, spec_parse_int,
    is_float_text, join_spec, lemma_decimal_chars, lemma_float_text_excludes, lemma_split_join_all,
    spec_check_float, spec_decimal, split_spec,
};
use vstd::prelude::*;

verus! {

/// Whether a timing point starts a new timing section or only changes the
/// slider velocity of the current one.
#[derive(Debug, Clone, Copy, PartialEq, Eq, Structural)]
pub enum TimingPointKind {
    /// Changes slider velocity, sample set and volume within a section.
    Inherited,
    /// Starts a timing section with its own tempo and meter.
    Uninherited,
}

/// A timing point.
#[derive(Debug)]
pub struct TimingPoint {
    /// When the timing point takes effect.
    pub time: Millis,
    /// The duration of a beat in milliseconds (negative for inherited points,
    /// where it encodes the slider velocity), as the floating-point text of
    /// the file.
    pub mpb: String,
    /// The number of beats in a measure.
    pub meter: u32,
    /// The default sample set of hit objects in this section.
    pub sample_set: SampleSet,
    /// The custom sample index.
    pub sample_index: u32,
    /// The volume of hit sounds.
    pub volume: u16,
    /// Inherited or uninherited.
    pub kind: TimingPointKind,
    /// Whether kiai time is on.
    pub kiai: bool,
}

/// A timing point, as a specification.
pub struct TimingPointView {
    pub time: Millis,
    pub mpb: Seq<char>,
    pub meter: u32,
    pub sample_set: SampleSet,
    pub sample_index: u32,
    pub volume: u16,
    pub kind: TimingPointKind,
    pub kiai: bool,
}

impl Clone for TimingPoint {
    /// A copy of the timing point.
    fn clone(&self) -> (r: TimingPoint)
        ensures
            r == *self,
    {
        TimingPoint {
            time: self.time,
            mpb: self.mpb.clone(),
            meter: self.meter,
            sample_set: self.sample_set,
            sample_index: self.sample_index,
            volume: self.volume,
            kind: self.kind,
            kiai: self.kiai,
        }
    }
}

impl TimingPoint {
    /// The timing point as a specification.
    pub open spec fn view(&self) -> TimingPointView {
        TimingPointView {
            time: self.time,
            mpb: self.mpb@,
            meter: self.meter,
            sample_set: self.sample_set,
            sample_index: self.sample_index,
            volume: self.volume,
            kind: self.kind,
            kiai: self.kiai,
        }
    }
}

/// Parsing a timing-point line: its `,`-separated fields are the time (`i32`),
/// the milliseconds per beat (a float), the meter (`u32`), the sample set
/// (`i32`), the sample index (`u32`), the volume (`u16`), the uninherited flag
/// (`i32`, `0` for an inherited point) and the kiai flag (`i32`, on when
/// positive). Fields are read in that order, each after it is known to exist;
/// a sample set outside `0..=3` makes the line malformed.
pub open spec fn spec_parse_timing_point(s: Seq<char>) -> Result<TimingPointView, Fault> {
    let p = split_spec(s, ',');
    match int_at(p, 0, i32::MIN as int, i32::MAX as int) {
        Err(f) => Err(f),
        Ok(time) => match float_at(p, 1) {
            Err(f) => Err(f),
            Ok(mpb) => match int_at(p, 2, 0, u32::MAX as int) {
                Err(f) => Err(f),
                Ok(meter) => match int_at(p, 3, i32::MIN as int, i32::MAX as int) {
                    Err(f) => Err(f),
                    Ok(sample_set) => match int_at(p, 4, 0, u32::MAX as int) {
                        Err(f) => Err(f),
                        Ok(sample_index) => match int_at(p, 5, 0, u16::MAX as int) {
                            Err(f) => Err(f),
                            Ok(volume) => match int_at(p, 6, i32::MIN as int, i32::MAX as int) {
                                Err(f) => Err(f),
                                Ok(uninherited) => match int_at(
                                    p,
                                    7,
                                    i32::MIN as int,
                                    i32::MAX as int,
                                ) {
                                    Err(f) => Err(f),
                                    Ok(kiai) => if 0 <= sample_set <= 3 {
                                        Ok(
                                            TimingPointView {
                                                time: Millis(time as i32),
                                                mpb,
                                                meter: meter as u32,
                                                sample_set: SampleSet::spec_from_u32(
                                                    sample_set as u32,
                                                ).unwrap(),
                                                sample_index: sample_index as u32,
                                                volume: volume as u16,
                                                kind: if uninherited == 0 {
                                                    TimingPointKind::Inherited
                                                } else {
                                                    TimingPointKind::Uninherited
                                                },
                                                kiai: kiai > 0,
                                            },
                                        )
                                    } else {
                                        Err(Fault::Malformed)
                                    },
                                },
                            },
                        },
                    },
                },
            },
        },
    }
}

/// The fields of the line of a timing point.
pub open spec fn timing_point_fields(t: TimingPointView) -> Seq<Seq<char>> {
    seq![
        spec_decimal(t.time.0 as int),
        t.mpb,
        spec_decimal(t.meter as int),
        spec_decimal(t.sample_set.spec_value() as int),
        spec_decimal(t.sample_index as int),
        spec_decimal(t.volume as int),
        if t.kind == TimingPointKind::Inherited {
            seq!['0']
        } else {
            seq!['1']
        },
        if t.kiai {
            seq!['1']
        } else {
            seq!['0']
        },
    ]
}

/// The line of a timing point: its fields joined by `,`.
pub open spec fn spec_timing_point_text(t: TimingPointView) -> Seq<char> {
    join_spec(timing_point_fields(t), ',')
}

/// Parses the timing-point line `v`.
pub fn parse_timing_point_chars(v: &Vec<char>) -> (r: Result<TimingPoint, LineFault>)
    ensures
        match spec_parse_timing_point(v@) {
            Ok(t) => r matches Ok(tp) && tp.view() == t,
            Err(f) => r matches Err(g) && g.view() == f,
        },
{
    let n = v.len();
    let parts = crate::text::split_char(v, 0, n, ',');
    assert(v@.subrange(0, n as int) =~= v@);
    let time = read_int_at(v, &parts, 0, i32::MIN as i128, i32::MAX as i128)?;
    let (ml, mh) = read_float_at(v, &parts, 1)?;
    let meter = read_int_at(v, &parts, 2, 0, u32::MAX as i128)?;
    let sample_set = read_int_at(v, &parts, 3, i32::MIN as i128, i32::MAX as i128)?;
    let sample_index = read_int_at(v, &parts, 4, 0, u32::MAX as i128)?;
    let volume = read_int_at(v, &parts, 5, 0, u16::MAX as i128)?;
    let uninherited = read_int_at(v, &parts, 6, i32::MIN as i128, i32::MAX as i128)?;
    let kiai = read_int_at(v, &parts, 7, i32::MIN as i128, i32::MAX as i128)?;
    if sample_set < 0 || sample_set > 3 {
        return Err(LineFault::Malformed);
    }
    let ss = match SampleSet::from_u32(sample_set as u32) {
        Some(x) => x,
        None => return Err(LineFault::Malformed),
    };
    Ok(
        TimingPoint {
            time: Millis(time as i32),
            mpb: crate::text::chars_to_string(v, ml, mh),
            meter: meter as u32,
            sample_set: ss,
            sample_index: sample_index as u32,
            volume: volume as u16,
            kind: if uninherited == 0 {
                TimingPointKind::Inherited
            } else {
                TimingPointKind::Uninherited
            },
            kiai: kiai > 0,
        },
    )
}

impl TimingPoint {
    /// Parses a timing-point line.
    pub fn from_str(line: &str) -> (r: Result<TimingPoint, ParseError>)
        requires
            !(spec_parse_timing_point(line@) is Err && spec_parse_timing_point(line@)->Err_0 is Malformed),
        ensures
            match spec_parse_timing_point(line@) {
                Ok(t) => r matches Ok(tp) && tp.view() == t,
                Err(Fault::Failed(e)) => r matches Err(g) && g.view() == e,
                Err(Fault::Malformed) => false,
            },
    {
        let v = crate::text::str_chars(line);
        match parse_timing_point_chars(&v) {
            Ok(tp) => Ok(tp),
            Err(LineFault::Failed(e)) => Err(e),
            Err(LineFault::Malformed) => {
                proof {
                    assert(false);
                }
                Err(ParseError::MissingColorComponent)
            },
        }
    }

    /// Parses a timing-point line, or returns `None` when it lacks a field or
    /// names no sample set (see [`Fault::Malformed`]).
    pub fn from_str_checked(line: &str) -> (r: Option<Result<TimingPoint, ParseError>>)
        ensures
            match spec_parse_timing_point(line@) {
                Ok(t) => r matches Some(Ok(tp)) && tp.view() == t,
                Err(Fault::Failed(e)) => r matches Some(Err(g)) && g.view() == e,
                Err(Fault::Malformed) => r is None,
            },
    {
        let v = crate::text::str_chars(line);
        match parse_timing_point_chars(&v) {
            Ok(tp) => Some(Ok(tp)),
            Err(LineFault::Failed(e)) => Some(Err(e)),
            Err(LineFault::Malformed) => None,
        }
    }

    /// Appends the line of this timing point to `out`.
    pub fn push_text(&self, out: &mut Vec<char>)
        ensures
            final(out)@ == old(out)@ + spec_timing_point_text(self.view()),
    {
        let ghost f = timing_point_fields(self.view());
        let ghost o = old(out)@;
        crate::text::push_decimal(out, self.time.0 as i128);
        assert(join_spec(f.take(1), ',') =~= f[0]);
        next_field(out, ',', Ghost(f), Ghost(o), 1);
        crate::text::push_str(out, &self.mpb);
        next_field(out, ',', Ghost(f), Ghost(o), 2);
        crate::text::push_decimal(out, self.meter as i128);
        next_field(out, ',', Ghost(f), Ghost(o), 3);
        crate::text::push_decimal(out, self.sample_set.value() as i128);
        next_field(out, ',', Ghost(f), Ghost(o), 4);
        crate::text::push_decimal(out, self.sample_index as i128);
        next_field(out, ',', Ghost(f), Ghost(o), 5);
        crate::text::push_decimal(out, self.volume as i128);
        next_field(out, ',', Ghost(f), Ghost(o), 6);
        match self.kind {
            TimingPointKind::Inherited => out.push('0'),
            TimingPointKind::Uninherited => out.push('1'),
        }
        assert(out@ =~= o + join_spec(f.take(6), ',') + seq![','] + f[6]);
        next_field(out, ',', Ghost(f), Ghost(o), 7);
        if self.kiai {
            out.push('1');
        } else {
            out.push('0');
        }
        assert(out@ =~= o + join_spec(f.take(7), ',') + seq![','] + f[7]);
        proof {
            crate::text::lemma_join_push(f.take(7), f[7], ',');
            assert(f.take(7).push(f[7]) =~= f);
        }
    }

    /// The line of this timing point:
    /// `time,mpb,meter,sampleSet,sampleIndex,volume,uninherited,kiai`.
    pub fn to_string(&self) -> (r: String)
        ensures
            r@ == spec_timing_point_text(self.view()),
    {
        let mut out: Vec<char> = Vec::new();
        self.push_text(&mut out);
        let n = out.len();
        assert(out@.subrange(0, n as int) =~= out@);
        crate::text::chars_to_string(&out, 0, n)
    }
}

/// The line of a timing point reads back as the same timing point, whenever
/// its milliseconds per beat are the text of a floating-point number.
pub proof fn timing_point_roundtrip(t: TimingPointView)
    requires
        is_float_text(t.mpb),
    ensures
        spec_parse_timing_point(spec_timing_point_text(t)) == Ok::<TimingPointView, Fault>(t),
{
    let f = timing_point_fields(t);
    lemma_decimal_chars(t.time.0 as int, ',');
    lemma_decimal_chars(t.meter as int, ',');
    lemma_decimal_chars(t.sample_set.spec_value() as int, ',');
    lemma_decimal_chars(t.sample_index as int, ',');
    lemma_decimal_chars(t.volume as int, ',');
    lemma_float_text_excludes(t.mpb, ',');
    assert(!seq!['0'].contains(',')) by {
        assert(seq!['0'][0] != ',');
    }
    assert(!seq!['1'].contains(',')) by {
        assert(seq!['1'][0] != ',');
    }
    assert forall|i: int| 0 <= i < f.len() implies !(#[trigger] f[i]).contains(',') by {
        if i == 6 || i == 7 {
            if f[i].contains(',') {
                assert(f[i][0] == ',');
            }
        }
    }
    lemma_split_join_all(f, ',');
    let p = split_spec(spec_timing_point_text(t), ',');
    assert(p == f);
    crate::text::decimal_roundtrip(t.time.0 as int, i32::MIN as int, i32::MAX as int);
    crate::text::decimal_roundtrip(t.meter as int, 0, u32::MAX as int);
    crate::text::decimal_roundtrip(t.sample_set.spec_value() as int, i32::MIN as int, i32::MAX as int);
    crate::text::decimal_roundtrip(t.sample_index as int, 0, u32::MAX as int);
    crate::text::decimal_roundtrip(t.volume as int, 0, u16::MAX as int);
    crate::text::decimal_roundtrip(0, i32::MIN as int, i32::MAX as int);
    crate::text::decimal_roundtrip(1, i32::MIN as int, i32::MAX as int);
    assert(spec_decimal(0) =~= seq!['0']) by {
        reveal_with_fuel(crate::text::nat_digits, 2);
    }
    assert(spec_decimal(1) =~= seq!['1']) by {
        reveal_with_fuel(crate::text::nat_digits, 2);
    }
    assert(spec_check_float(t.mpb) == Ok::<(), crate::text::FloatErrorKind>(()));
}

/// A timing point read from a line takes its time from the first
/// `,`-separated field, the beat length text from the second, the meter from
/// the third, the sample set from the fourth, the sample index from the
/// fifth, the volume from the sixth, whether it is uninherited (not 0) from
/// the seventh and kiai (above 0) from the eighth.
pub proof fn timing_point_fields_read(s: Seq<char>)
    requires
        spec_parse_timing_point(s) is Ok,
    ensures
        ({
            let t = spec_parse_timing_point(s)->Ok_0;
            let p = split_spec(s, ',');
            &&& p.len() >= 8
            &&& spec_parse_int(p[0], i32::MIN as int, i32::MAX as int) == Ok::<int, crate::text::IntErrorKind>(t.time.0 as int)
            &&& t.mpb == p[1]
            &&& spec_parse_int(p[2], 0, u32::MAX as int) == Ok::<int, crate::text::IntErrorKind>(t.meter as int)
            &&& spec_parse_int(p[3], i32::MIN as int, i32::MAX as int) matches Ok(ss) && 0 <= ss <= 3
                && SampleSet::spec_from_u32(ss as u32) == Some(t.sample_set)
            &&& spec_parse_int(p[4], 0, u32::MAX as int) == Ok::<int, crate::text::IntErrorKind>(t.sample_index as int)
            &&& spec_parse_int(p[5], 0, u16::MAX as int) == Ok::<int, crate::text::IntErrorKind>(t.volume as int)
            &&& spec_parse_int(p[6], i32::MIN as int, i32::MAX as int) matches Ok(u) && (t.kind
                == TimingPointKind::Uninherited <==> u != 0)
            &&& spec_parse_int(p[7], i32::MIN as int, i32::MAX as int) matches Ok(k) && (t.kiai <==> k > 0)
        }),
{
    let p = split_spec(s, ',');
    crate::text::lemma_parse_int_range(p[0], i32::MIN as int, i32::MAX as int);
    crate::text::lemma_parse_int_range(p[2], 0, u32::MAX as int);
    crate::text::lemma_parse_int_range(p[3], i32::MIN as int, i32::MAX as int);
    crate::text::lemma_parse_int_range(p[4], 0, u32::MAX as int);
    crate::text::lemma_parse_int_range(p[5], 0, u16::MAX as int);
    let ss = spec_parse_int(p[3], i32::MIN as int, i32::MAX as int)->Ok_0;
    assert(SampleSet::spec_from_u32(ss as u32) is Some) by {
        assert(0 <= ss <= 3);
    }
}

} // verus!
