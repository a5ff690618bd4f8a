//! Hitsounds: sample sets, addition flags and the hit-sample field of hit
//! object lines (`sampleSet:additionSet:index:volume:filename`).

use crate::errors::int_fault;
use crate::errors::Fault;
use crate::errors::LineFault;
use crate::errors::ParseError;
use crate::text::spec_decimal;
use crate::text::spec_parse_int;
use crate::text::split_spec;
use vstd::prelude::*;

verus! {

/// A set of hitsound samples (normal, soft, drum), numbered 0 to 3.
#[derive(Debug, Clone, Copy, PartialEq, Eq, Structural)]
pub enum SampleSet {
    /// No sample set chosen: the default applies (0).
    Default,
    /// Normal sample set (1).
    Normal,
    /// Soft sample set (2).
    Soft,
    /// Drum sample set (3).
    Drum,
}

impl SampleSet {
    /// Different sample sets have different numbers, so the number of a
    /// sample set reads back as that sample set.
    pub proof fn sample_set_number_identifies(a: SampleSet, b: SampleSet)
        ensures
            a.spec_value() == b.spec_value() ==> a == b,
    {
    }

    /// The number of the sample set.
    pub open spec fn spec_value(self) -> u32 {
        match self {
            SampleSet::Default => 0,
            SampleSet::Normal => 1,
            SampleSet::Soft => 2,
            SampleSet::Drum => 3,
        }
    }

    /// The sample set with number `v`, if there is one.
    pub open spec fn spec_from_u32(v: u32) -> Option<SampleSet> {
        if v == 0 {
            Some(SampleSet::Default)
        } else if v == 1 {
            Some(SampleSet::Normal)
        } else if v == 2 {
            Some(SampleSet::Soft)
        } else if v == 3 {
            Some(SampleSet::Drum)
        } else {
            None
        }
    }

    /// The number of the sample set.
    pub fn value(self) -> (r: u32)
        ensures
            r == self.spec_value(),
    {
        match self {
            SampleSet::Default => 0,
            SampleSet::Normal => 1,
            SampleSet::Soft => 2,
            SampleSet::Drum => 3,
        }
    }

    /// The sample set with number `v`: `None` unless `v` is 0 to 3.
    pub fn from_u32(v: u32) -> (r: Option<SampleSet>)
        ensures
            r == SampleSet::spec_from_u32(v),
    {
        if v == 0 {
            Some(SampleSet::Default)
        } else if v == 1 {
            Some(SampleSet::Normal)
        } else if v == 2 {
            Some(SampleSet::Soft)
        } else if v == 3 {
            Some(SampleSet::Drum)
        } else {
            None
        }
    }
}

/// The bits of all hitsound additions: whistle (2), finish (4), clap (8).
pub open spec fn all_addition_bits() -> u32 {
    14
}

/// A set of hitsound additions (whistle, finish, clap) as bits.
#[derive(Debug, Clone, Copy, PartialEq, Eq, Structural)]
pub struct Additions {
    bits: u32,
}

impl Additions {
    /// The bits of the set.
    pub closed spec fn spec_bits(self) -> u32 {
        self.bits
    }

    /// The set whose bits are `bits`.
    pub closed spec fn with_bits(bits: u32) -> Additions {
        Additions { bits }
    }

    /// A set is the set of its bits.
    pub proof fn lemma_with_own_bits(self)
        ensures
            Additions::with_bits(self.spec_bits()) == self,
    {
    }

    /// The set made of some bits has those bits.
    pub proof fn lemma_bits_of_with_bits()
        ensures
            forall|b: u32| #[trigger] Additions::with_bits(b).spec_bits() == b,
    {
    }

    /// The bits of the set.
    pub fn bits(&self) -> (r: u32)
        ensures
            r == self.spec_bits(),
    {
        self.bits
    }

    /// The set with bits `bits`, or `None` when a bit other than whistle,
    /// finish and clap is set.
    pub fn from_bits(bits: u32) -> (r: Option<Additions>)
        ensures
            r is Some <==> bits & !all_addition_bits() == 0,
            r matches Some(a) ==> a == Additions::with_bits(bits) && a.spec_bits() == bits,
    {
        if bits & !14u32 == 0 {
            Some(Additions { bits })
        } else {
            None
        }
    }

    /// The empty set.
    pub fn empty() -> (r: Additions)
        ensures
            r.spec_bits() == 0,
            r == Additions::with_bits(0),
    {
        Additions { bits: 0 }
    }

    /// The whistle addition.
    pub fn whistle() -> (r: Additions)
        ensures
            r.spec_bits() == 2,
    {
        Additions { bits: 2 }
    }

    /// The finish (cymbal) addition.
    pub fn finish() -> (r: Additions)
        ensures
            r.spec_bits() == 4,
    {
        Additions { bits: 4 }
    }

    /// The clap addition.
    pub fn clap() -> (r: Additions)
        ensures
            r.spec_bits() == 8,
    {
        Additions { bits: 8 }
    }
}

/// A single hitsound: the hit-sample field of a hit object.
#[derive(Debug)]
pub struct SampleInfo {
    /// The sample (normal/soft/drum) this hitsound uses.
    pub sample_set: SampleSet,
    /// The sample set of the additions (whistle, finish, clap).
    pub addition_set: SampleSet,
    /// Index of a custom sample.
    pub custom_index: i32,
    /// Volume of the sample.
    pub sample_volume: i32,
    /// File name of a custom sample.
    pub filename: String,
}

/// A hitsound, as a specification.
pub struct SampleInfoView {
    pub sample_set: SampleSet,
    pub addition_set: SampleSet,
    pub custom_index: i32,
    pub sample_volume: i32,
    pub filename: Seq<char>,
}

impl SampleInfo {
    /// The hitsound as a specification.
    pub open spec fn view(&self) -> SampleInfoView {
        SampleInfoView {
            sample_set: self.sample_set,
            addition_set: self.addition_set,
            custom_index: self.custom_index,
            sample_volume: self.sample_volume,
            filename: self.filename@,
        }
    }
}

impl Clone for SampleInfo {
    /// A copy of the hitsound.
    fn clone(&self) -> (r: SampleInfo)
        ensures
            r == *self,
    {
        SampleInfo {
            sample_set: self.sample_set,
            addition_set: self.addition_set,
            custom_index: self.custom_index,
            sample_volume: self.sample_volume,
            filename: self.filename.clone(),
        }
    }
}

impl Default for SampleInfo {
    fn default() -> (r: SampleInfo)
        ensures
            r.sample_set == SampleSet::Default,
            r.addition_set == SampleSet::Default,
            r.custom_index == 0,
            r.sample_volume == 0,
            r.filename@ == Seq::<char>::empty(),
    {
        SampleInfo {
            sample_set: SampleSet::Default,
            addition_set: SampleSet::Default,
            custom_index: 0,
            sample_volume: 0,
            filename: String::new(),
        }
    }
}

/// Parsing a hit-sample field: its `:`-separated parts are the sample set,
/// the addition set (`u32`s), the custom index and the volume (`i32`s) and the
/// file name. Integers are read in order, each after its part is known to
/// exist; the sample sets are checked last, addition set first.
pub open spec fn spec_parse_hitsample(s: Seq<char>) -> Result<SampleInfoView, Fault> {
    let parts = split_spec(s, ':');
    match spec_parse_int(parts[0], 0, u32::MAX as int) {
        Err(k) => Err(int_fault(k)),
        Ok(sample_set) => if parts.len() < 2 {
            Err(Fault::Malformed)
        } else {
            match spec_parse_int(parts[1], 0, u32::MAX as int) {
                Err(k) => Err(int_fault(k)),
                Ok(addition_set) => if parts.len() < 3 {
                    Err(Fault::Malformed)
                } else {
                    match spec_parse_int(parts[2], i32::MIN as int, i32::MAX as int) {
                        Err(k) => Err(int_fault(k)),
                        Ok(custom_index) => if parts.len() < 4 {
                            Err(Fault::Malformed)
                        } else {
                            match spec_parse_int(parts[3], i32::MIN as int, i32::MAX as int) {
                                Err(k) => Err(int_fault(k)),
                                Ok(sample_volume) => if parts.len() < 5 {
                                    Err(Fault::Malformed)
                                } else {
                                    match (
                                        SampleSet::spec_from_u32(addition_set as u32),
                                        SampleSet::spec_from_u32(sample_set as u32),
                                    ) {
                                        (Some(a), Some(ss)) => Ok(
                                            SampleInfoView {
                                                sample_set: ss,
                                                addition_set: a,
                                                custom_index: custom_index as i32,
                                                sample_volume: sample_volume as i32,
                                                filename: parts[4],
                                            },
                                        ),
                                        _ => Err(Fault::Malformed),
                                    }
                                },
                            }
                        },
                    }
                },
            }
        },
    }
}

/// The text of a hit-sample field.
pub open spec fn spec_hitsample_str(h: SampleInfoView) -> Seq<char> {
    spec_decimal(h.sample_set.spec_value() as int) + seq![':'] + spec_decimal(
        h.addition_set.spec_value() as int,
    ) + seq![':'] + spec_decimal(h.custom_index as int) + seq![':'] + spec_decimal(
        h.sample_volume as int,
    ) + seq![':'] + h.filename
}

/// Reads an integer field `v[lo..hi]` of a type whose values are `[min, max]`.
pub fn int_field(v: &Vec<char>, lo: usize, hi: usize, min: i128, max: i128) -> (r: Result<
    i128,
    LineFault,
>)
    requires
        lo <= hi <= v@.len(),
        -0x8000_0000_0000_0000 <= min <= 0 < max <= 0xffff_ffff_ffff_ffff,
    ensures
        match spec_parse_int(v@.subrange(lo as int, hi as int), min as int, max as int) {
            Ok(n) => r == Ok::<i128, LineFault>(n as i128) && min <= n <= max,
            Err(k) => r matches Err(f) && f.view() == int_fault(k),
        },
{
    match crate::text::parse_int(v, lo, hi, min, max) {
        Ok(n) => Ok(n),
        Err(k) => Err(LineFault::Failed(ParseError::ParseInt(k))),
    }
}

/// Parses the hit-sample field `v[lo..hi]`.
pub fn parse_hitsample_in(v: &Vec<char>, lo: usize, hi: usize) -> (r: Result<SampleInfo, LineFault>)
    requires
        lo <= hi <= v@.len(),
    ensures
        match spec_parse_hitsample(v@.subrange(lo as int, hi as int)) {
            Ok(h) => r matches Ok(info) && info.view() == h,
            Err(f) => r matches Err(g) && g.view() == f,
        },
{
    let parts = crate::text::split_char(v, lo, hi, ':');
    let ghost sp = split_spec(v@.subrange(lo as int, hi as int), ':');
    assert(sp.len() >= 1) by {
        reveal_with_fuel(split_spec, 1);
    }
    let sample_set = int_field(v, parts[0].0, parts[0].1, 0, u32::MAX as i128)?;
    if parts.len() < 2 {
        return Err(LineFault::Malformed);
    }
    let addition_set = int_field(v, parts[1].0, parts[1].1, 0, u32::MAX as i128)?;
    if parts.len() < 3 {
        return Err(LineFault::Malformed);
    }
    let custom_index = int_field(v, parts[2].0, parts[2].1, i32::MIN as i128, i32::MAX as i128)?;
    if parts.len() < 4 {
        return Err(LineFault::Malformed);
    }
    let sample_volume = int_field(v, parts[3].0, parts[3].1, i32::MIN as i128, i32::MAX as i128)?;
    if parts.len() < 5 {
        return Err(LineFault::Malformed);
    }
    let filename = crate::text::chars_to_string(v, parts[4].0, parts[4].1);
    let a = match SampleSet::from_u32(addition_set as u32) {
        Some(x) => x,
        None => return Err(LineFault::Malformed),
    };
    let ss = match SampleSet::from_u32(sample_set as u32) {
        Some(x) => x,
        None => return Err(LineFault::Malformed),
    };
    Ok(
        SampleInfo {
            sample_set: ss,
            addition_set: a,
            custom_index: custom_index as i32,
            sample_volume: sample_volume as i32,
            filename,
        },
    )
}

/// Parses a hit-sample field.
pub fn parse_hitsample(line: &str) -> (r: Result<SampleInfo, ParseError>)
    requires
        !(spec_parse_hitsample(line@) is Err && spec_parse_hitsample(line@)->Err_0 is Malformed),
    ensures
        match spec_parse_hitsample(line@) {
            Ok(h) => r matches Ok(info) && info.view() == h,
            Err(Fault::Failed(e)) => r matches Err(g) && g.view() == e,
            Err(Fault::Malformed) => false,
        },
{
    let v = crate::text::str_chars(line);
    let n = v.len();
    assert(v@.subrange(0, n as int) =~= v@);
    match parse_hitsample_in(&v, 0, n) {
        Ok(info) => Ok(info),
        Err(LineFault::Failed(e)) => Err(e),
        Err(LineFault::Malformed) => {
            proof {
                assert(false);
            }
            Err(ParseError::MissingColorComponent)
        },
    }
}

/// Parses a hit-sample field, or returns `None` when it lacks a part or names
/// no sample set (see [`Fault::Malformed`]).
pub fn parse_hitsample_checked(line: &str) -> (r: Option<Result<SampleInfo, ParseError>>)
    ensures
        match spec_parse_hitsample(line@) {
            Ok(h) => r matches Some(Ok(info)) && info.view() == h,
            Err(Fault::Failed(e)) => r matches Some(Err(g)) && g.view() == e,
            Err(Fault::Malformed) => r is None,
        },
{
    let v = crate::text::str_chars(line);
    let n = v.len();
    assert(v@.subrange(0, n as int) =~= v@);
    match parse_hitsample_in(&v, 0, n) {
        Ok(info) => Some(Ok(info)),
        Err(LineFault::Failed(e)) => Some(Err(e)),
        Err(LineFault::Malformed) => None,
    }
}

/// Appends the text of a hit-sample field to `out`.
pub fn push_hitsample(out: &mut Vec<char>, h: &SampleInfo)
    ensures
        final(out)@ == old(out)@ + spec_hitsample_str(h.view()),
{
    crate::text::push_decimal(out, h.sample_set.value() as i128);
    out.push(':');
    crate::text::push_decimal(out, h.addition_set.value() as i128);
    out.push(':');
    crate::text::push_decimal(out, h.custom_index as i128);
    out.push(':');
    crate::text::push_decimal(out, h.sample_volume as i128);
    out.push(':');
    crate::text::push_str(out, &h.filename);
    assert(final(out)@ =~= old(out)@ + spec_hitsample_str(h.view()));
}

/// The text of a hit-sample field:
/// `sampleSet:additionSet:index:volume:filename`.
pub fn hitsample_str(h: &SampleInfo) -> (r: String)
    ensures
        r@ == spec_hitsample_str(h.view()),
{
    let mut out: Vec<char> = Vec::new();
    push_hitsample(&mut out, h);
    let n = out.len();
    assert(out@.subrange(0, n as int) =~= out@);
    crate::text::chars_to_string(&out, 0, n)
}


/// A hit-sample field written by `hitsample_str` parses back to the same
/// hitsound, whenever its file name holds no `:` (a `:` would start another
/// part).
pub proof fn hitsample_roundtrip(h: SampleInfoView)
    requires
        !h.filename.contains(':'),
    ensures
        spec_parse_hitsample(spec_hitsample_str(h)) == Ok::<SampleInfoView, Fault>(h),
{
    let d0 = spec_decimal(h.sample_set.spec_value() as int);
    let d1 = spec_decimal(h.addition_set.spec_value() as int);
    let d2 = spec_decimal(h.custom_index as int);
    let d3 = spec_decimal(h.sample_volume as int);
    let f = h.filename;
    let sep = seq![':'];
    crate::text::lemma_decimal_chars(h.sample_set.spec_value() as int, ':');
    crate::text::lemma_decimal_chars(h.addition_set.spec_value() as int, ':');
    crate::text::lemma_decimal_chars(h.custom_index as int, ':');
    crate::text::lemma_decimal_chars(h.sample_volume as int, ':');
    let t3 = d3 + sep + f;
    let t2 = d2 + sep + t3;
    let t1 = d1 + sep + t2;
    let t0 = d0 + sep + t1;
    assert(spec_hitsample_str(h) =~= t0);
    crate::text::lemma_split_none(f, ':');
    crate::text::lemma_split_join(d3, ':', f);
    crate::text::lemma_split_join(d2, ':', t3);
    crate::text::lemma_split_join(d1, ':', t2);
    crate::text::lemma_split_join(d0, ':', t1);
    let parts = split_spec(t0, ':');
    assert(parts =~= seq![d0, d1, d2, d3, f]);
    crate::text::decimal_roundtrip(h.sample_set.spec_value() as int, 0, u32::MAX as int);
    crate::text::decimal_roundtrip(h.addition_set.spec_value() as int, 0, u32::MAX as int);
    crate::text::decimal_roundtrip(h.custom_index as int, i32::MIN as int, i32::MAX as int);
    crate::text::decimal_roundtrip(h.sample_volume as int, i32::MIN as int, i32::MAX as int);
}

/// A hit sample read from a field `set:additions:index:volume:file` takes
/// its sample set from the first `:`-separated part, its addition set from
/// the second, its custom index from the third, its volume from the fourth
/// and its file name from the fifth.
pub proof fn hitsample_fields_read(s: Seq<char>)
    requires
        spec_parse_hitsample(s) is Ok,
    ensures
        ({
            let h = spec_parse_hitsample(s)->Ok_0;
            let parts = split_spec(s, ':');
            &&& parts.len() >= 5
            &&& spec_parse_int(parts[0], 0, u32::MAX as int) matches Ok(a) && SampleSet::spec_from_u32(a as u32)
                == Some(h.sample_set)
            &&& spec_parse_int(parts[1], 0, u32::MAX as int) matches Ok(b) && SampleSet::spec_from_u32(b as u32)
                == Some(h.addition_set)
            &&& spec_parse_int(parts[2], i32::MIN as int, i32::MAX as int) == Ok::<int, crate::text::IntErrorKind>(
                h.custom_index as int,
            )
            &&& spec_parse_int(parts[3], i32::MIN as int, i32::MAX as int) == Ok::<int, crate::text::IntErrorKind>(
                h.sample_volume as int,
            )
            &&& h.filename == parts[4]
        }),
{
    let parts = split_spec(s, ':');
    crate::text::lemma_parse_int_range(parts[0], 0, u32::MAX as int);
    crate::text::lemma_parse_int_range(parts[1], 0, u32::MAX as int);
    crate::text::lemma_parse_int_range(parts[2], i32::MIN as int, i32::MAX as int);
    crate::text::lemma_parse_int_range(parts[3], i32::MIN as int, i32::MAX as int);
}

} // verus!
