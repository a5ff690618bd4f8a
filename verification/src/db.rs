//! The `osu!.db` database file: a header, the cached beatmaps and the user's
//! permissions.
//!
//! A cached beatmap is a record of fifty-five fields whose kinds depend only on
//! the database version; `db_beatmap_layout` lists them in file order and
//! `spec_read_fields` decodes such a list. Floating-point fields are kept as
//! their IEEE-754 bit patterns (`f32` as `u32`, `f64` as `u64`).

use crate::binary::as_i32;
use crate::binary::le_value;
use crate::binary::{le_bytes, le_roundtrip, pow256, lemma_chunk, lemma_le_at, lemma_string_at, spec_string_bytes, writable_string};
use crate::binary::lemma_le_value_bound;
use crate::binary::spec_read_le;
use crate::binary::spec_read_string;
use crate::binary::ByteReader;
use crate::binary::Error;
use crate::enums::all_mod_bits;
use crate::enums::Grade;
use crate::enums::Millis;
use crate::enums::Mode;
use crate::enums::Mods;
use crate::enums::RankedStatus;
use vstd::prelude::*;

verus! {

/// Errors that could occur while processing `.db` files.
#[derive(Debug, Clone, Copy, PartialEq, Eq, Structural)]
pub enum DbError {
    /// Error reading a string.
    Read(Error),
    /// The input ended inside a fixed-width field.
    Io,
    /// A star rating names bits that are no mod.
    InvalidMods(u32),
}

/// How reading a database can go wrong: with an error, or at a point where
/// the format has no answer (a tag byte that is not the expected one, an enum
/// value out of range, a drain time whose milliseconds overflow `i32`).
#[derive(Debug, Clone, Copy, PartialEq, Eq, Structural)]
pub enum Fault {
    /// Reading fails with this error.
    Failed(DbError),
    /// The input breaks an assumption of the format.
    Malformed,
}

/// Timing point of a beatmap in `osu!.db`.
#[derive(Debug, Clone, Copy, PartialEq, Eq, Structural)]
pub struct DbBeatmapTimingPoint {
    /// Bits of the `f64` BPM of the timing point.
    pub bpm_bits: u64,
    /// Bits of the `f64` offset of the timing point.
    pub offset_bits: u64,
    /// Whether the point is uninherited.
    pub is_uninherited: bool,
}

/// The kinds of fields of a cached beatmap.
#[derive(Debug, Clone, Copy, PartialEq, Eq, Structural)]
pub enum FieldKind {
    /// One byte.
    U8,
    /// Little-endian `u16`.
    U16,
    /// Little-endian `u32` (also the bits of an `f32`).
    U32,
    /// Little-endian `u64` (also the bits of an `f64`).
    U64,
    /// Little-endian `i32` milliseconds.
    I32,
    /// One byte, true when not zero.
    Bool,
    /// A string.
    Str,
    /// A ranked status byte.
    Ranked,
    /// A grade byte.
    Grade,
    /// A mode byte.
    Mode,
    /// Little-endian `i32` seconds, kept as milliseconds.
    Seconds,
    /// A little-endian `u32` that is present when the flag is set.
    OptU32(bool),
    /// A little-endian `u16` that is present when the flag is set.
    OptU16(bool),
    /// A list of star ratings, present when the flag is set; an absent list
    /// reads as empty.
    StarRatings(bool),
    /// A list of timing points.
    TimingPoints,
}

/// The value of a field, as a specification.
pub enum FieldValue {
    U8(u8),
    U16(u16),
    U32(u32),
    U64(u64),
    I32(i32),
    Bool(bool),
    Str(Seq<char>),
    Ranked(RankedStatus),
    Grade(Grade),
    Mode(Mode),
    OptU32(Option<u32>),
    OptU16(Option<u16>),
    Stars(Seq<(Mods, u64)>),
    Points(Seq<DbBeatmapTimingPoint>),
}

/// The value of a field, as read.
pub enum Value {
    U8(u8),
    U16(u16),
    U32(u32),
    U64(u64),
    I32(i32),
    Bool(bool),
    Str(String),
    Ranked(RankedStatus),
    Grade(Grade),
    Mode(Mode),
    OptU32(Option<u32>),
    OptU16(Option<u16>),
    Stars(Vec<(Mods, u64)>),
    Points(Vec<DbBeatmapTimingPoint>),
}

impl Value {
    /// The specification value of a read value.
    pub open spec fn view(self) -> FieldValue {
        match self {
            Value::U8(v) => FieldValue::U8(v),
            Value::U16(v) => FieldValue::U16(v),
            Value::U32(v) => FieldValue::U32(v),
            Value::U64(v) => FieldValue::U64(v),
            Value::I32(v) => FieldValue::I32(v),
            Value::Bool(v) => FieldValue::Bool(v),
            Value::Str(v) => FieldValue::Str(v@),
            Value::Ranked(v) => FieldValue::Ranked(v),
            Value::Grade(v) => FieldValue::Grade(v),
            Value::Mode(v) => FieldValue::Mode(v),
            Value::OptU32(v) => FieldValue::OptU32(v),
            Value::OptU16(v) => FieldValue::OptU16(v),
            Value::Stars(v) => FieldValue::Stars(v@),
            Value::Points(v) => FieldValue::Points(v@),
        }
    }
}

/// The specification values of a list of read values.
pub open spec fn values_view(vals: Seq<Value>) -> Seq<FieldValue> {
    vals.map_values(|v: Value| v.view())
}

/// Reading a fixed-width integer, with a short input reported as `Io`.
pub open spec fn spec_read_int(s: Seq<u8>, p: int, n: nat) -> Result<(nat, int), Fault> {
    match spec_read_le(s, p, n) {
        Ok((v, q)) => Ok((v, q)),
        Err(_) => Err(Fault::Failed(DbError::Io)),
    }
}

/// Reading one star rating: tag `0x08`, the mods as a `u32`, tag `0x0d`,
/// the rating as the bits of an `f64`.
pub open spec fn spec_read_star(s: Seq<u8>, p: int) -> Result<((Mods, u64), int), Fault> {
    match spec_read_int(s, p, 1) {
        Err(f) => Err(f),
        Ok((t1, p1)) => if t1 != 0x08 {
            Err(Fault::Malformed)
        } else {
            match spec_read_int(s, p1, 4) {
                Err(f) => Err(f),
                Ok((m, p2)) => if (m as u32) & !all_mod_bits() != 0 {
                    Err(Fault::Failed(DbError::InvalidMods(m as u32)))
                } else {
                    match spec_read_int(s, p2, 1) {
                        Err(f) => Err(f),
                        Ok((t2, p3)) => if t2 != 0x0d {
                            Err(Fault::Malformed)
                        } else {
                            match spec_read_int(s, p3, 8) {
                                Err(f) => Err(f),
                                Ok((bits, p4)) => Ok(
                                    ((Mods::with_bits(m as u32), bits as u64), p4),
                                ),
                            }
                        },
                    }
                },
            }
        },
    }
}

/// Reading `n` star ratings one after the other.
pub open spec fn spec_read_stars(s: Seq<u8>, p: int, n: nat) -> Result<
    (Seq<(Mods, u64)>, int),
    Fault,
>
    decreases n,
{
    if n == 0 {
        Ok((Seq::empty(), p))
    } else {
        match spec_read_star(s, p) {
            Err(f) => Err(f),
            Ok((item, q)) => match spec_read_stars(s, q, (n - 1) as nat) {
                Err(f) => Err(f),
                Ok((rest, e)) => Ok((seq![item] + rest, e)),
            },
        }
    }
}

/// Reading one timing point: BPM and offset as the bits of `f64`s, then
/// a byte that is not zero for uninherited points.
pub open spec fn spec_read_point(s: Seq<u8>, p: int) -> Result<(DbBeatmapTimingPoint, int), Fault> {
    match spec_read_int(s, p, 8) {
        Err(f) => Err(f),
        Ok((bpm, p1)) => match spec_read_int(s, p1, 8) {
            Err(f) => Err(f),
            Ok((offset, p2)) => match spec_read_int(s, p2, 1) {
                Err(f) => Err(f),
                Ok((flag, p3)) => Ok(
                    (
                        DbBeatmapTimingPoint {
                            bpm_bits: bpm as u64,
                            offset_bits: offset as u64,
                            is_uninherited: flag > 0,
                        },
                        p3,
                    ),
                ),
            },
        },
    }
}

/// Reading `n` timing points one after the other.
pub open spec fn spec_read_points(s: Seq<u8>, p: int, n: nat) -> Result<
    (Seq<DbBeatmapTimingPoint>, int),
    Fault,
>
    decreases n,
{
    if n == 0 {
        Ok((Seq::empty(), p))
    } else {
        match spec_read_point(s, p) {
            Err(f) => Err(f),
            Ok((item, q)) => match spec_read_points(s, q, (n - 1) as nat) {
                Err(f) => Err(f),
                Ok((rest, e)) => Ok((seq![item] + rest, e)),
            },
        }
    }
}

/// A byte reads back as itself.
proof fn lemma_byte_read(before: Seq<u8>, v: u8, after: Seq<u8>)
    ensures
        spec_read_int(before + seq![v] + after, before.len() as int, 1) == Ok::<(nat, int), Fault>(
            (v as nat, (before.len() + 1) as int),
        ),
{
    reveal_with_fuel(le_bytes, 2);
    reveal_with_fuel(pow256, 2);
    assert(le_bytes(v as nat, 1) =~= seq![v]);
    le_roundtrip(v as nat, 1, before, after);
}

/// A number below `256^n` written in `n` little-endian bytes reads back as
/// itself.
proof fn lemma_int_read(before: Seq<u8>, v: nat, n: nat, after: Seq<u8>)
    requires
        v < pow256(n),
    ensures
        spec_read_int(before + le_bytes(v, n) + after, before.len() as int, n) == Ok::<(nat, int), Fault>(
            (v, (before.len() + n) as int),
        ),
{
    le_roundtrip(v, n, before, after);
}

/// A timing point written as the bits of its BPM and then of its offset, in
/// eight little-endian bytes each, and a flag byte, reads back as the point
/// with that BPM, that offset and uninherited when the flag is not zero,
/// whatever stands before and after it.
pub proof fn timing_point_bytes_read(before: Seq<u8>, bpm: u64, offset: u64, flag: u8, after: Seq<u8>)
    ensures
        spec_read_point(
            before + le_bytes(bpm as nat, 8) + le_bytes(offset as nat, 8) + seq![flag] + after,
            before.len() as int,
        ) == Ok::<(DbBeatmapTimingPoint, int), Fault>(
            (DbBeatmapTimingPoint { bpm_bits: bpm, offset_bits: offset, is_uninherited: flag > 0 }, (before.len() + 17) as int),
        ),
{
    reveal_with_fuel(pow256, 9);
    assert(pow256(8) == 0x1_0000_0000_0000_0000);
    crate::binary::lemma_le_bytes_len(bpm as nat, 8);
    crate::binary::lemma_le_bytes_len(offset as nat, 8);
    let s = before + le_bytes(bpm as nat, 8) + le_bytes(offset as nat, 8) + seq![flag] + after;
    let b1 = before + le_bytes(bpm as nat, 8);
    let b2 = b1 + le_bytes(offset as nat, 8);
    assert(s =~= before + le_bytes(bpm as nat, 8) + (le_bytes(offset as nat, 8) + seq![flag] + after));
    lemma_int_read(before, bpm as nat, 8, le_bytes(offset as nat, 8) + seq![flag] + after);
    assert(s =~= b1 + le_bytes(offset as nat, 8) + (seq![flag] + after));
    lemma_int_read(b1, offset as nat, 8, seq![flag] + after);
    assert(s =~= b2 + seq![flag] + after);
    lemma_byte_read(b2, flag, after);
}

/// A star rating written as the tag `0x08`, its mods in four little-endian
/// bytes, the tag `0x0d` and the bits of its rating in eight little-endian
/// bytes reads back as those mods and those bits, whatever stands before and
/// after it, when the mods hold no unknown bit.
pub proof fn star_rating_bytes_read(before: Seq<u8>, mods: u32, rating: u64, after: Seq<u8>)
    requires
        mods & !all_mod_bits() == 0,
    ensures
        spec_read_star(
            before + seq![0x08u8] + le_bytes(mods as nat, 4) + seq![0x0du8] + le_bytes(rating as nat, 8) + after,
            before.len() as int,
        ) == Ok::<((Mods, u64), int), Fault>(((Mods::with_bits(mods), rating), (before.len() + 14) as int)),
{
    reveal_with_fuel(pow256, 9);
    assert(pow256(8) == 0x1_0000_0000_0000_0000);
    assert(pow256(4) == 0x1_0000_0000);
    crate::binary::lemma_le_bytes_len(mods as nat, 4);
    crate::binary::lemma_le_bytes_len(rating as nat, 8);
    let s = before + seq![0x08u8] + le_bytes(mods as nat, 4) + seq![0x0du8] + le_bytes(rating as nat, 8) + after;
    let b1 = before + seq![0x08u8];
    let b2 = b1 + le_bytes(mods as nat, 4);
    let b3 = b2 + seq![0x0du8];
    assert(s =~= before + seq![0x08u8] + (le_bytes(mods as nat, 4) + seq![0x0du8] + le_bytes(rating as nat, 8) + after));
    lemma_byte_read(before, 0x08u8, le_bytes(mods as nat, 4) + seq![0x0du8] + le_bytes(rating as nat, 8) + after);
    assert(s =~= b1 + le_bytes(mods as nat, 4) + (seq![0x0du8] + le_bytes(rating as nat, 8) + after));
    lemma_int_read(b1, mods as nat, 4, seq![0x0du8] + le_bytes(rating as nat, 8) + after);
    assert(s =~= b2 + seq![0x0du8] + (le_bytes(rating as nat, 8) + after));
    lemma_byte_read(b2, 0x0du8, le_bytes(rating as nat, 8) + after);
    assert(s =~= b3 + le_bytes(rating as nat, 8) + after);
    lemma_int_read(b3, rating as nat, 8, after);
    assert((mods as nat) as u32 == mods);
}

/// Reading one field of the given kind at `p`.
pub open spec fn spec_read_field(s: Seq<u8>, p: int, kind: FieldKind) -> Result<
    (FieldValue, int),
    Fault,
> {
    match kind {
        FieldKind::U8 => match spec_read_int(s, p, 1) {
            Err(f) => Err(f),
            Ok((v, q)) => Ok((FieldValue::U8(v as u8), q)),
        },
        FieldKind::U16 => match spec_read_int(s, p, 2) {
            Err(f) => Err(f),
            Ok((v, q)) => Ok((FieldValue::U16(v as u16), q)),
        },
        FieldKind::U32 => match spec_read_int(s, p, 4) {
            Err(f) => Err(f),
            Ok((v, q)) => Ok((FieldValue::U32(v as u32), q)),
        },
        FieldKind::U64 => match spec_read_int(s, p, 8) {
            Err(f) => Err(f),
            Ok((v, q)) => Ok((FieldValue::U64(v as u64), q)),
        },
        FieldKind::I32 => match spec_read_int(s, p, 4) {
            Err(f) => Err(f),
            Ok((v, q)) => Ok((FieldValue::I32(as_i32(v) as i32), q)),
        },
        FieldKind::Bool => match spec_read_int(s, p, 1) {
            Err(f) => Err(f),
            Ok((v, q)) => Ok((FieldValue::Bool(v > 0), q)),
        },
        FieldKind::Str => match spec_read_string(s, p) {
            Err(e) => Err(Fault::Failed(DbError::Read(e))),
            Ok((v, q)) => Ok((FieldValue::Str(v), q)),
        },
        FieldKind::Ranked => match spec_read_int(s, p, 1) {
            Err(f) => Err(f),
            Ok((v, q)) => if v <= 7 {
                Ok((FieldValue::Ranked(ranked_of(v as u8)), q))
            } else {
                Err(Fault::Malformed)
            },
        },
        FieldKind::Grade => match spec_read_int(s, p, 1) {
            Err(f) => Err(f),
            Ok((v, q)) => if v <= 9 {
                Ok((FieldValue::Grade(grade_of(v as u8)), q))
            } else {
                Err(Fault::Malformed)
            },
        },
        FieldKind::Mode => match spec_read_int(s, p, 1) {
            Err(f) => Err(f),
            Ok((v, q)) => match Mode::spec_from_u8(v as u8) {
                Some(m) => Ok((FieldValue::Mode(m), q)),
                None => Err(Fault::Malformed),
            },
        },
        FieldKind::Seconds => match spec_read_int(s, p, 4) {
            Err(f) => Err(f),
            Ok((v, q)) => {
                let ms = as_i32(v) * 1000;
                if i32::MIN <= ms <= i32::MAX {
                    Ok((FieldValue::I32(ms as i32), q))
                } else {
                    Err(Fault::Malformed)
                }
            },
        },
        FieldKind::OptU32(present) => if present {
            match spec_read_int(s, p, 4) {
                Err(f) => Err(f),
                Ok((v, q)) => Ok((FieldValue::OptU32(Some(v as u32)), q)),
            }
        } else {
            Ok((FieldValue::OptU32(None), p))
        },
        FieldKind::OptU16(present) => if present {
            match spec_read_int(s, p, 2) {
                Err(f) => Err(f),
                Ok((v, q)) => Ok((FieldValue::OptU16(Some(v as u16)), q)),
            }
        } else {
            Ok((FieldValue::OptU16(None), p))
        },
        FieldKind::StarRatings(present) => if present {
            match spec_read_int(s, p, 4) {
                Err(f) => Err(f),
                Ok((n, q)) => match spec_read_stars(s, q, n) {
                    Err(f) => Err(f),
                    Ok((items, e)) => Ok((FieldValue::Stars(items), e)),
                },
            }
        } else {
            Ok((FieldValue::Stars(Seq::empty()), p))
        },
        FieldKind::TimingPoints => match spec_read_int(s, p, 4) {
            Err(f) => Err(f),
            Ok((n, q)) => match spec_read_points(s, q, n) {
                Err(f) => Err(f),
                Ok((items, e)) => Ok((FieldValue::Points(items), e)),
            },
        },
    }
}

/// Reading fields of the given kinds one after the other.
pub open spec fn spec_read_fields(s: Seq<u8>, p: int, kinds: Seq<FieldKind>) -> Result<
    (Seq<FieldValue>, int),
    Fault,
>
    decreases kinds.len(),
{
    if kinds.len() == 0 {
        Ok((Seq::empty(), p))
    } else {
        match spec_read_field(s, p, kinds[0]) {
            Err(f) => Err(f),
            Ok((v, q)) => match spec_read_fields(s, q, kinds.drop_first()) {
                Err(f) => Err(f),
                Ok((rest, e)) => Ok((seq![v] + rest, e)),
            },
        }
    }
}

/// The ranked status with number `v` (0 to 7).
pub open spec fn ranked_of(v: u8) -> RankedStatus {
    if v == 0 {
        RankedStatus::Unknown
    } else if v == 1 {
        RankedStatus::Unsubmitted
    } else if v == 2 {
        RankedStatus::Unranked
    } else if v == 3 {
        RankedStatus::Unused
    } else if v == 4 {
        RankedStatus::Ranked
    } else if v == 5 {
        RankedStatus::Approved
    } else if v == 6 {
        RankedStatus::Qualified
    } else {
        RankedStatus::Loved
    }
}

/// The grade with number `v` (0 to 9).
pub open spec fn grade_of(v: u8) -> Grade {
    if v == 0 {
        Grade::SS
    } else if v == 1 {
        Grade::SH
    } else if v == 2 {
        Grade::SSH
    } else if v == 3 {
        Grade::S
    } else if v == 4 {
        Grade::A
    } else if v == 5 {
        Grade::B
    } else if v == 6 {
        Grade::C
    } else if v == 7 {
        Grade::D
    } else if v == 8 {
        Grade::F
    } else {
        Grade::NoGrade
    }
}


fn read_int_u8(r: &mut ByteReader) -> (res: Result<u8, Fault>)
    requires
        old(r).wf(),
    ensures
        final(r).wf(),
        final(r).bytes() == old(r).bytes(),
        match spec_read_int(old(r).bytes(), old(r).position(), 1) {
            Ok((v, q)) => res == Ok::<u8, Fault>(v as u8) && v < 0x100 && final(r).position() == q,
            Err(f) => res == Err::<u8, Fault>(f),
        },
{
    proof {
        crate::binary::lemma_le_value_bound(r.bytes(), r.position(), 1);
    }
    match r.read_u8() {
        Ok(v) => Ok(v),
        Err(_) => Err(Fault::Failed(DbError::Io)),
    }
}

fn read_int_u16(r: &mut ByteReader) -> (res: Result<u16, Fault>)
    requires
        old(r).wf(),
    ensures
        final(r).wf(),
        final(r).bytes() == old(r).bytes(),
        match spec_read_int(old(r).bytes(), old(r).position(), 2) {
            Ok((v, q)) => res == Ok::<u16, Fault>(v as u16) && v < 0x1_0000 && final(r).position()
                == q,
            Err(f) => res == Err::<u16, Fault>(f),
        },
{
    proof {
        crate::binary::lemma_le_value_bound(r.bytes(), r.position(), 2);
    }
    match r.read_u16_le() {
        Ok(v) => Ok(v),
        Err(_) => Err(Fault::Failed(DbError::Io)),
    }
}

fn read_int_u32(r: &mut ByteReader) -> (res: Result<u32, Fault>)
    requires
        old(r).wf(),
    ensures
        final(r).wf(),
        final(r).bytes() == old(r).bytes(),
        match spec_read_int(old(r).bytes(), old(r).position(), 4) {
            Ok((v, q)) => res == Ok::<u32, Fault>(v as u32) && v < 0x1_0000_0000
                && final(r).position() == q,
            Err(f) => res == Err::<u32, Fault>(f),
        },
{
    proof {
        crate::binary::lemma_le_value_bound(r.bytes(), r.position(), 4);
    }
    match r.read_u32_le() {
        Ok(v) => Ok(v),
        Err(_) => Err(Fault::Failed(DbError::Io)),
    }
}

fn read_int_u64(r: &mut ByteReader) -> (res: Result<u64, Fault>)
    requires
        old(r).wf(),
    ensures
        final(r).wf(),
        final(r).bytes() == old(r).bytes(),
        match spec_read_int(old(r).bytes(), old(r).position(), 8) {
            Ok((v, q)) => res == Ok::<u64, Fault>(v as u64) && v < 0x1_0000_0000_0000_0000
                && final(r).position() == q,
            Err(f) => res == Err::<u64, Fault>(f),
        },
{
    proof {
        crate::binary::lemma_le_value_bound(r.bytes(), r.position(), 8);
    }
    match r.read_u64_le() {
        Ok(v) => Ok(v),
        Err(_) => Err(Fault::Failed(DbError::Io)),
    }
}

fn read_int_i32(r: &mut ByteReader) -> (res: Result<i32, Fault>)
    requires
        old(r).wf(),
    ensures
        final(r).wf(),
        final(r).bytes() == old(r).bytes(),
        match spec_read_int(old(r).bytes(), old(r).position(), 4) {
            Ok((v, q)) => res == Ok::<i32, Fault>(as_i32(v) as i32) && v < 0x1_0000_0000
                && final(r).position() == q,
            Err(f) => res == Err::<i32, Fault>(f),
        },
{
    proof {
        crate::binary::lemma_le_value_bound(r.bytes(), r.position(), 4);
    }
    match r.read_i32_le() {
        Ok(v) => Ok(v),
        Err(_) => Err(Fault::Failed(DbError::Io)),
    }
}

fn read_star(r: &mut ByteReader) -> (res: Result<(Mods, u64), Fault>)
    requires
        old(r).wf(),
    ensures
        final(r).wf(),
        final(r).bytes() == old(r).bytes(),
        match spec_read_star(old(r).bytes(), old(r).position()) {
            Ok((v, q)) => res == Ok::<(Mods, u64), Fault>(v) && final(r).position() == q,
            Err(f) => res == Err::<(Mods, u64), Fault>(f),
        },
{
    let tag = read_int_u8(r)?;
    if tag != 0x08 {
        return Err(Fault::Malformed);
    }
    let bits = read_int_u32(r)?;
    let mods = match Mods::from_bits(bits) {
        Some(m) => m,
        None => return Err(Fault::Failed(DbError::InvalidMods(bits))),
    };
    let tag2 = read_int_u8(r)?;
    if tag2 != 0x0d {
        return Err(Fault::Malformed);
    }
    let rating = read_int_u64(r)?;
    Ok((mods, rating))
}

fn read_point(r: &mut ByteReader) -> (res: Result<DbBeatmapTimingPoint, Fault>)
    requires
        old(r).wf(),
    ensures
        final(r).wf(),
        final(r).bytes() == old(r).bytes(),
        match spec_read_point(old(r).bytes(), old(r).position()) {
            Ok((v, q)) => res == Ok::<DbBeatmapTimingPoint, Fault>(v) && final(r).position() == q,
            Err(f) => res == Err::<DbBeatmapTimingPoint, Fault>(f),
        },
{
    let bpm_bits = read_int_u64(r)?;
    let offset_bits = read_int_u64(r)?;
    let flag = read_int_u8(r)?;
    Ok(DbBeatmapTimingPoint { bpm_bits, offset_bits, is_uninherited: flag > 0 })
}

/// Prepends `front` to the list in a successful list reading.
pub open spec fn prepend<T>(front: Seq<T>, r: Result<(Seq<T>, int), Fault>) -> Result<
    (Seq<T>, int),
    Fault,
> {
    match r {
        Ok((rest, e)) => Ok((front + rest, e)),
        Err(f) => Err(f),
    }
}

fn read_stars(r: &mut ByteReader, n: u32) -> (res: Result<Vec<(Mods, u64)>, Fault>)
    requires
        old(r).wf(),
    ensures
        final(r).wf(),
        final(r).bytes() == old(r).bytes(),
        match spec_read_stars(old(r).bytes(), old(r).position(), n as nat) {
            Ok((v, q)) => res matches Ok(out) && out@ == v && final(r).position() == q,
            Err(f) => res matches Err(g) && g == f,
        },
{
    let ghost s = r.bytes();
    let ghost p0 = r.position();
    let mut items: Vec<(Mods, u64)> = Vec::new();
    let mut i: u32 = 0;
    while i < n
        invariant
            r.wf(),
            r.bytes() == s,
            s == old(r).bytes(),
            p0 == old(r).position(),
            i <= n,
            spec_read_stars(s, p0, n as nat) == prepend(
                items@,
                spec_read_stars(s, r.position(), (n - i) as nat),
            ),
        decreases n - i,
    {
        let ghost p = r.position();
        let item = read_star(r)?;
        proof {
            assert(items@.push(item) == items@ + seq![item]);
            match spec_read_stars(s, r.position(), (n - i - 1) as nat) {
                Ok((rest, e)) => {
                    assert(items@ + (seq![item] + rest) =~= items@.push(item) + rest);
                },
                Err(_) => {},
            }
        }
        items.push(item);
        i = i + 1;
    }
    assert(items@ + Seq::<(Mods, u64)>::empty() =~= items@);
    Ok(items)
}

fn read_points(r: &mut ByteReader, n: u32) -> (res: Result<Vec<DbBeatmapTimingPoint>, Fault>)
    requires
        old(r).wf(),
    ensures
        final(r).wf(),
        final(r).bytes() == old(r).bytes(),
        match spec_read_points(old(r).bytes(), old(r).position(), n as nat) {
            Ok((v, q)) => res matches Ok(out) && out@ == v && final(r).position() == q,
            Err(f) => res matches Err(g) && g == f,
        },
{
    let ghost s = r.bytes();
    let ghost p0 = r.position();
    let mut items: Vec<DbBeatmapTimingPoint> = Vec::new();
    let mut i: u32 = 0;
    while i < n
        invariant
            r.wf(),
            r.bytes() == s,
            s == old(r).bytes(),
            p0 == old(r).position(),
            i <= n,
            spec_read_points(s, p0, n as nat) == prepend(
                items@,
                spec_read_points(s, r.position(), (n - i) as nat),
            ),
        decreases n - i,
    {
        let item = read_point(r)?;
        proof {
            match spec_read_points(s, r.position(), (n - i - 1) as nat) {
                Ok((rest, e)) => {
                    assert(items@ + (seq![item] + rest) =~= items@.push(item) + rest);
                },
                Err(_) => {},
            }
        }
        items.push(item);
        i = i + 1;
    }
    assert(items@ + Seq::<DbBeatmapTimingPoint>::empty() =~= items@);
    Ok(items)
}


fn read_field(r: &mut ByteReader, kind: FieldKind) -> (res: Result<Value, Fault>)
    requires
        old(r).wf(),
    ensures
        final(r).wf(),
        final(r).bytes() == old(r).bytes(),
        match spec_read_field(old(r).bytes(), old(r).position(), kind) {
            Ok((v, q)) => res matches Ok(out) && out.view() == v && final(r).position() == q,
            Err(f) => res matches Err(g) && g == f,
        },
{
    match kind {
        FieldKind::U8 => Ok(Value::U8(read_int_u8(r)?)),
        FieldKind::U16 => Ok(Value::U16(read_int_u16(r)?)),
        FieldKind::U32 => Ok(Value::U32(read_int_u32(r)?)),
        FieldKind::U64 => Ok(Value::U64(read_int_u64(r)?)),
        FieldKind::I32 => Ok(Value::I32(read_int_i32(r)?)),
        FieldKind::Bool => {
            let v = read_int_u8(r)?;
            Ok(Value::Bool(v > 0))
        },
        FieldKind::Str => match r.read_uleb128_string() {
            Ok(text) => Ok(Value::Str(text)),
            Err(e) => Err(Fault::Failed(DbError::Read(e))),
        },
        FieldKind::Ranked => {
            let v = read_int_u8(r)?;
            match RankedStatus::from_u8(v) {
                Some(x) => Ok(Value::Ranked(x)),
                None => Err(Fault::Malformed),
            }
        },
        FieldKind::Grade => {
            let v = read_int_u8(r)?;
            match Grade::from_u8(v) {
                Some(x) => Ok(Value::Grade(x)),
                None => Err(Fault::Malformed),
            }
        },
        FieldKind::Mode => {
            let v = read_int_u8(r)?;
            match Mode::from_u8(v) {
                Some(x) => Ok(Value::Mode(x)),
                None => Err(Fault::Malformed),
            }
        },
        FieldKind::Seconds => {
            let v = read_int_i32(r)?;
            match v.checked_mul(1000) {
                Some(ms) => Ok(Value::I32(ms)),
                None => Err(Fault::Malformed),
            }
        },
        FieldKind::OptU32(present) => {
            if present {
                Ok(Value::OptU32(Some(read_int_u32(r)?)))
            } else {
                Ok(Value::OptU32(None))
            }
        },
        FieldKind::OptU16(present) => {
            if present {
                Ok(Value::OptU16(Some(read_int_u16(r)?)))
            } else {
                Ok(Value::OptU16(None))
            }
        },
        FieldKind::StarRatings(present) => {
            if present {
                let n = read_int_u32(r)?;
                Ok(Value::Stars(read_stars(r, n)?))
            } else {
                let v: Vec<(Mods, u64)> = Vec::new();
                proof {
                    assert(v@ =~= Seq::<(Mods, u64)>::empty());
                }
                Ok(Value::Stars(v))
            }
        },
        FieldKind::TimingPoints => {
            let n = read_int_u32(r)?;
            Ok(Value::Points(read_points(r, n)?))
        },
    }
}

fn read_fields(r: &mut ByteReader, kinds: &Vec<FieldKind>) -> (res: Result<Vec<Value>, Fault>)
    requires
        old(r).wf(),
    ensures
        final(r).wf(),
        final(r).bytes() == old(r).bytes(),
        match spec_read_fields(old(r).bytes(), old(r).position(), kinds@) {
            Ok((v, q)) => res matches Ok(out) && values_view(out@) == v && final(r).position()
                == q,
            Err(f) => res matches Err(g) && g == f,
        },
{
    let ghost s = r.bytes();
    let ghost p0 = r.position();
    let mut vals: Vec<Value> = Vec::new();
    let mut i: usize = 0;
    proof {
        assert(kinds@.skip(0) =~= kinds@);
        assert(values_view(vals@) =~= Seq::<FieldValue>::empty());
        match spec_read_fields(s, p0, kinds@) {
            Ok((rest, e)) => {
                assert(Seq::<FieldValue>::empty() + rest =~= rest);
            },
            Err(_) => {},
        }
    }
    while i < kinds.len()
        invariant
            r.wf(),
            r.bytes() == s,
            s == old(r).bytes(),
            p0 == old(r).position(),
            i <= kinds@.len(),
            spec_read_fields(s, p0, kinds@) == prepend(
                values_view(vals@),
                spec_read_fields(s, r.position(), kinds@.skip(i as int)),
            ),
        decreases kinds@.len() - i,
    {
        let ghost p = r.position();
        assert(kinds@.skip(i as int)[0] == kinds@[i as int]);
        assert(kinds@.skip(i as int).drop_first() =~= kinds@.skip(i + 1));
        let v = read_field(r, kinds[i])?;
        proof {
            assert(values_view(vals@.push(v)) =~= values_view(vals@).push(v.view()));
            match spec_read_fields(s, r.position(), kinds@.skip(i + 1)) {
                Ok((rest, e)) => {
                    assert(values_view(vals@) + (seq![v.view()] + rest) =~= values_view(
                        vals@.push(v),
                    ) + rest);
                },
                Err(_) => {},
            }
        }
        vals.push(v);
        i = i + 1;
    }
    assert(kinds@.skip(i as int) =~= Seq::<FieldKind>::empty());
    assert(values_view(vals@) + Seq::<FieldValue>::empty() =~= values_view(vals@));
    Ok(vals)
}


/// Whether a value has the variant that fields of `kind` take, an optional
/// field being present exactly when its flag is set and an absent list of
/// star ratings being empty.
pub open spec fn value_matches(kind: FieldKind, v: FieldValue) -> bool {
    match kind {
        FieldKind::U8 => v is U8,
        FieldKind::U16 => v is U16,
        FieldKind::U32 => v is U32,
        FieldKind::U64 => v is U64,
        FieldKind::I32 => v is I32,
        FieldKind::Bool => v is Bool,
        FieldKind::Str => v is Str,
        FieldKind::Ranked => v is Ranked,
        FieldKind::Grade => v is Grade,
        FieldKind::Mode => v is Mode,
        FieldKind::Seconds => v is I32,
        FieldKind::OptU32(present) => v matches FieldValue::OptU32(o) && (o is Some <==> present),
        FieldKind::OptU16(present) => v matches FieldValue::OptU16(o) && (o is Some <==> present),
        FieldKind::StarRatings(present) => v matches FieldValue::Stars(l) && (!present ==> l.len()
            == 0),
        FieldKind::TimingPoints => v is Points,
    }
}

/// Whether each value has the variant of the kind at its place.
pub open spec fn matches_kinds(vals: Seq<FieldValue>, kinds: Seq<FieldKind>) -> bool {
    &&& vals.len() == kinds.len()
    &&& forall|i: int| 0 <= i < kinds.len() ==> #[trigger] value_matches(kinds[i], vals[i])
}

proof fn lemma_read_fields_match(s: Seq<u8>, p: int, kinds: Seq<FieldKind>)
    ensures
        spec_read_fields(s, p, kinds) matches Ok((vals, _)) ==> matches_kinds(vals, kinds),
    decreases kinds.len(),
{
    if kinds.len() > 0 {
        match spec_read_field(s, p, kinds[0]) {
            Ok((v, q)) => {
                lemma_read_fields_match(s, q, kinds.drop_first());
                match spec_read_fields(s, q, kinds.drop_first()) {
                    Ok((rest, e)) => {
                        let vals = seq![v] + rest;
                        assert forall|i: int| 0 <= i < kinds.len() implies #[trigger] value_matches(
                            kinds[i],
                            vals[i],
                        ) by {
                            if i > 0 {
                                assert(kinds[i] == kinds.drop_first()[i - 1]);
                                assert(vals[i] == rest[i - 1]);
                            }
                        }
                    },
                    Err(_) => {},
                }
            },
            Err(_) => {},
        }
    }
}

fn take_at(vals: &mut Vec<Value>, k: usize) -> (v: Value)
    requires
        k < old(vals)@.len(),
    ensures
        v == old(vals)@[k as int],
        final(vals)@ == old(vals)@.update(k as int, Value::Bool(false)),
{
    let mut v = Value::Bool(false);
    std::mem::swap(&mut v, &mut vals[k]);
    v
}

/// The kind of field `i` of a cached beatmap in a database of the given version.
pub open spec fn layout_kind(version: u32, i: int) -> FieldKind {
    if i == 0 {
        FieldKind::OptU32(version < 20191106)
    } else if i == 1 {
        FieldKind::Str
    } else if i == 2 {
        FieldKind::Str
    } else if i == 3 {
        FieldKind::Str
    } else if i == 4 {
        FieldKind::Str
    } else if i == 5 {
        FieldKind::Str
    } else if i == 6 {
        FieldKind::Str
    } else if i == 7 {
        FieldKind::Str
    } else if i == 8 {
        FieldKind::Str
    } else if i == 9 {
        FieldKind::Str
    } else if i == 10 {
        FieldKind::Ranked
    } else if i == 11 {
        FieldKind::U16
    } else if i == 12 {
        FieldKind::U16
    } else if i == 13 {
        FieldKind::U16
    } else if i == 14 {
        FieldKind::U64
    } else if i == 15 {
        FieldKind::U32
    } else if i == 16 {
        FieldKind::U32
    } else if i == 17 {
        FieldKind::U32
    } else if i == 18 {
        FieldKind::U32
    } else if i == 19 {
        FieldKind::U64
    } else if i == 20 {
        FieldKind::StarRatings(version >= 20140609)
    } else if i == 21 {
        FieldKind::StarRatings(version >= 20140609)
    } else if i == 22 {
        FieldKind::StarRatings(version >= 20140609)
    } else if i == 23 {
        FieldKind::StarRatings(version >= 20140609)
    } else if i == 24 {
        FieldKind::Seconds
    } else if i == 25 {
        FieldKind::I32
    } else if i == 26 {
        FieldKind::I32
    } else if i == 27 {
        FieldKind::TimingPoints
    } else if i == 28 {
        FieldKind::U32
    } else if i == 29 {
        FieldKind::U32
    } else if i == 30 {
        FieldKind::U32
    } else if i == 31 {
        FieldKind::Grade
    } else if i == 32 {
        FieldKind::Grade
    } else if i == 33 {
        FieldKind::Grade
    } else if i == 34 {
        FieldKind::Grade
    } else if i == 35 {
        FieldKind::U16
    } else if i == 36 {
        FieldKind::U32
    } else if i == 37 {
        FieldKind::Mode
    } else if i == 38 {
        FieldKind::Str
    } else if i == 39 {
        FieldKind::Str
    } else if i == 40 {
        FieldKind::U16
    } else if i == 41 {
        FieldKind::Str
    } else if i == 42 {
        FieldKind::Bool
    } else if i == 43 {
        FieldKind::U64
    } else if i == 44 {
        FieldKind::Bool
    } else if i == 45 {
        FieldKind::Str
    } else if i == 46 {
        FieldKind::U64
    } else if i == 47 {
        FieldKind::Bool
    } else if i == 48 {
        FieldKind::Bool
    } else if i == 49 {
        FieldKind::Bool
    } else if i == 50 {
        FieldKind::Bool
    } else if i == 51 {
        FieldKind::Bool
    } else if i == 52 {
        FieldKind::OptU16(version < 20140609)
    } else if i == 53 {
        FieldKind::U32
    } else {
        FieldKind::U8
    }
}

/// The kinds of the fields of a cached beatmap, in file order, for a database
/// of the given version.
pub open spec fn db_beatmap_layout(version: u32) -> Seq<FieldKind> {
    Seq::new(55, |i: int| layout_kind(version, i))
}

fn layout_kind_at(version: u32, i: usize) -> (k: FieldKind)
    requires
        i < 55,
    ensures
        k == layout_kind(version, i as int),
{
    if i == 0 {
        FieldKind::OptU32(version < 20191106)
    } else if i == 1 {
        FieldKind::Str
    } else if i == 2 {
        FieldKind::Str
    } else if i == 3 {
        FieldKind::Str
    } else if i == 4 {
        FieldKind::Str
    } else if i == 5 {
        FieldKind::Str
    } else if i == 6 {
        FieldKind::Str
    } else if i == 7 {
        FieldKind::Str
    } else if i == 8 {
        FieldKind::Str
    } else if i == 9 {
        FieldKind::Str
    } else if i == 10 {
        FieldKind::Ranked
    } else if i == 11 {
        FieldKind::U16
    } else if i == 12 {
        FieldKind::U16
    } else if i == 13 {
        FieldKind::U16
    } else if i == 14 {
        FieldKind::U64
    } else if i == 15 {
        FieldKind::U32
    } else if i == 16 {
        FieldKind::U32
    } else if i == 17 {
        FieldKind::U32
    } else if i == 18 {
        FieldKind::U32
    } else if i == 19 {
        FieldKind::U64
    } else if i == 20 {
        FieldKind::StarRatings(version >= 20140609)
    } else if i == 21 {
        FieldKind::StarRatings(version >= 20140609)
    } else if i == 22 {
        FieldKind::StarRatings(version >= 20140609)
    } else if i == 23 {
        FieldKind::StarRatings(version >= 20140609)
    } else if i == 24 {
        FieldKind::Seconds
    } else if i == 25 {
        FieldKind::I32
    } else if i == 26 {
        FieldKind::I32
    } else if i == 27 {
        FieldKind::TimingPoints
    } else if i == 28 {
        FieldKind::U32
    } else if i == 29 {
        FieldKind::U32
    } else if i == 30 {
        FieldKind::U32
    } else if i == 31 {
        FieldKind::Grade
    } else if i == 32 {
        FieldKind::Grade
    } else if i == 33 {
        FieldKind::Grade
    } else if i == 34 {
        FieldKind::Grade
    } else if i == 35 {
        FieldKind::U16
    } else if i == 36 {
        FieldKind::U32
    } else if i == 37 {
        FieldKind::Mode
    } else if i == 38 {
        FieldKind::Str
    } else if i == 39 {
        FieldKind::Str
    } else if i == 40 {
        FieldKind::U16
    } else if i == 41 {
        FieldKind::Str
    } else if i == 42 {
        FieldKind::Bool
    } else if i == 43 {
        FieldKind::U64
    } else if i == 44 {
        FieldKind::Bool
    } else if i == 45 {
        FieldKind::Str
    } else if i == 46 {
        FieldKind::U64
    } else if i == 47 {
        FieldKind::Bool
    } else if i == 48 {
        FieldKind::Bool
    } else if i == 49 {
        FieldKind::Bool
    } else if i == 50 {
        FieldKind::Bool
    } else if i == 51 {
        FieldKind::Bool
    } else if i == 52 {
        FieldKind::OptU16(version < 20140609)
    } else if i == 53 {
        FieldKind::U32
    } else {
        FieldKind::U8
    }
}

fn beatmap_layout(version: u32) -> (r: Vec<FieldKind>)
    ensures
        r@ == db_beatmap_layout(version),
{
    let mut v: Vec<FieldKind> = Vec::new();
    let mut i: usize = 0;
    while i < 55
        invariant
            i <= 55,
            v@.len() == i,
            forall|j: int| 0 <= j < i ==> v@[j] == layout_kind(version, j),
        decreases 55 - i,
    {
        v.push(layout_kind_at(version, i));
        i = i + 1;
    }
    assert(v@ =~= db_beatmap_layout(version));
    v
}

/// Beatmap located in `osu!.db`; they are different from normal beatmaps.
#[derive(Debug, Clone, PartialEq)]
pub struct DbBeatmap {
    /// Size in bytes of the beatmap entry. Only present if version is less than 20191106.
    pub size: Option<u32>,
    /// Artist's name. (ASCII)
    pub artist_name: String,
    /// Artist's name. (UTF-8)
    pub artist_name_unicode: String,
    /// Song title. (ASCII)
    pub song_title: String,
    /// Song title. (UTF-8)
    pub song_title_unicode: String,
    /// Creator name.
    pub creator_name: String,
    /// Difficulty name.
    pub difficulty: String,
    /// Name of the audio file.
    pub audio_file_name: String,
    /// MD5 hash of the beatmap.
    pub hash: String,
    /// Name of the .osu file.
    pub beatmap_file_name: String,
    /// Ranked status.
    pub ranked_status: RankedStatus,
    /// How many hitcircles in the beatmap.
    pub hitcircle_count: u16,
    /// How many sliders in the beatmap.
    pub slider_count: u16,
    /// How many spinners in the beatmap.
    pub spinner_count: u16,
    /// When the beatmap was last modified, in Windows ticks.
    pub modification_date: u64,
    /// Bits of the `f32` AR rating.
    pub approach_rate_bits: u32,
    /// Bits of the `f32` CS rating.
    pub circle_size_bits: u32,
    /// Bits of the `f32` HP rating.
    pub hp_drain_bits: u32,
    /// Bits of the `f32` OD rating.
    pub overall_difficulty_bits: u32,
    /// Bits of the `f64` slider velocity setting of the beatmap.
    pub slider_velocity_bits: u64,
    /// Star ratings (bits of `f64`s) for mod combinations in standard. Empty if version less than 20140609.
    pub std_star_rating: Vec<(Mods, u64)>,
    /// Star ratings for mod combinations in taiko.
    pub std_taiko_rating: Vec<(Mods, u64)>,
    /// Star ratings for mod combinations in catch.
    pub std_ctb_rating: Vec<(Mods, u64)>,
    /// Star ratings for mod combinations in mania.
    pub std_mania_rating: Vec<(Mods, u64)>,
    /// The drain time in milliseconds (the file holds seconds).
    pub drain_time: Millis,
    /// The total time in milliseconds.
    pub total_time: Millis,
    /// The preview time point in milliseconds.
    pub preview_time: Millis,
    /// Timing points for the beatmap.
    pub timing_points: Vec<DbBeatmapTimingPoint>,
    /// Id of the beatmap.
    pub beatmap_id: u32,
    /// Id of the beatmap set.
    pub beatmap_set_id: u32,
    /// Id of the beatmap thread.
    pub thread_id: u32,
    /// The grade achieved in standard.
    pub std_grade: Grade,
    /// The grade achieved in taiko.
    pub taiko_grade: Grade,
    /// The grade achieved in ctb.
    pub ctb_grade: Grade,
    /// The grade achieved in mania.
    pub mania_grade: Grade,
    /// Local offset.
    pub beatmap_offset: u16,
    /// Bits of the `f32` stack leniency.
    pub stack_leniency_bits: u32,
    /// Mode of the beatmap.
    pub mode: Mode,
    /// Source.
    pub source: String,
    /// Tags.
    pub tags: String,
    /// Online offset.
    pub online_offset: u16,
    /// Title font.
    pub title_font: String,
    /// Is the beatmap not played.
    pub is_unplayed: bool,
    /// Last time the map was played, in Windows ticks.
    pub last_played: u64,
    /// If the format is osz2.
    pub is_osz2: bool,
    /// Folder name relative to the Songs folder.
    pub folder_name: String,
    /// Last time the beatmap was checked against the online repository, in Windows ticks.
    pub last_checked: u64,
    /// Ignore beatmap sounds.
    pub ignore_beatmap_sounds: bool,
    /// Ignore beatmap skin.
    pub ignore_beatmap_skin: bool,
    /// Disable storyboard.
    pub disable_storyboard: bool,
    /// Disable video.
    pub disable_video: bool,
    /// Visual override.
    pub visual_override: bool,
    /// Unknown. Only present if version is less than 20140609.
    pub unknown: Option<u16>,
    /// Last modification time (?).
    pub unknown_modification_date: u32,
    /// Scroll speed for mania.
    pub mania_scrollspeed: u8,
}

impl DbBeatmap {
    /// Whether the beatmap's fields, in file order, are `vals`.
    pub open spec fn has_fields(&self, vals: Seq<FieldValue>) -> bool {
        &&& vals.len() == 55
        &&& vals[0] == FieldValue::OptU32(self.size)
        &&& vals[1] == FieldValue::Str(self.artist_name@)
        &&& vals[2] == FieldValue::Str(self.artist_name_unicode@)
        &&& vals[3] == FieldValue::Str(self.song_title@)
        &&& vals[4] == FieldValue::Str(self.song_title_unicode@)
        &&& vals[5] == FieldValue::Str(self.creator_name@)
        &&& vals[6] == FieldValue::Str(self.difficulty@)
        &&& vals[7] == FieldValue::Str(self.audio_file_name@)
        &&& vals[8] == FieldValue::Str(self.hash@)
        &&& vals[9] == FieldValue::Str(self.beatmap_file_name@)
        &&& vals[10] == FieldValue::Ranked(self.ranked_status)
        &&& vals[11] == FieldValue::U16(self.hitcircle_count)
        &&& vals[12] == FieldValue::U16(self.slider_count)
        &&& vals[13] == FieldValue::U16(self.spinner_count)
        &&& vals[14] == FieldValue::U64(self.modification_date)
        &&& vals[15] == FieldValue::U32(self.approach_rate_bits)
        &&& vals[16] == FieldValue::U32(self.circle_size_bits)
        &&& vals[17] == FieldValue::U32(self.hp_drain_bits)
        &&& vals[18] == FieldValue::U32(self.overall_difficulty_bits)
        &&& vals[19] == FieldValue::U64(self.slider_velocity_bits)
        &&& vals[20] == FieldValue::Stars(self.std_star_rating@)
        &&& vals[21] == FieldValue::Stars(self.std_taiko_rating@)
        &&& vals[22] == FieldValue::Stars(self.std_ctb_rating@)
        &&& vals[23] == FieldValue::Stars(self.std_mania_rating@)
        &&& vals[24] == FieldValue::I32(self.drain_time.0)
        &&& vals[25] == FieldValue::I32(self.total_time.0)
        &&& vals[26] == FieldValue::I32(self.preview_time.0)
        &&& vals[27] == FieldValue::Points(self.timing_points@)
        &&& vals[28] == FieldValue::U32(self.beatmap_id)
        &&& vals[29] == FieldValue::U32(self.beatmap_set_id)
        &&& vals[30] == FieldValue::U32(self.thread_id)
        &&& vals[31] == FieldValue::Grade(self.std_grade)
        &&& vals[32] == FieldValue::Grade(self.taiko_grade)
        &&& vals[33] == FieldValue::Grade(self.ctb_grade)
        &&& vals[34] == FieldValue::Grade(self.mania_grade)
        &&& vals[35] == FieldValue::U16(self.beatmap_offset)
        &&& vals[36] == FieldValue::U32(self.stack_leniency_bits)
        &&& vals[37] == FieldValue::Mode(self.mode)
        &&& vals[38] == FieldValue::Str(self.source@)
        &&& vals[39] == FieldValue::Str(self.tags@)
        &&& vals[40] == FieldValue::U16(self.online_offset)
        &&& vals[41] == FieldValue::Str(self.title_font@)
        &&& vals[42] == FieldValue::Bool(self.is_unplayed)
        &&& vals[43] == FieldValue::U64(self.last_played)
        &&& vals[44] == FieldValue::Bool(self.is_osz2)
        &&& vals[45] == FieldValue::Str(self.folder_name@)
        &&& vals[46] == FieldValue::U64(self.last_checked)
        &&& vals[47] == FieldValue::Bool(self.ignore_beatmap_sounds)
        &&& vals[48] == FieldValue::Bool(self.ignore_beatmap_skin)
        &&& vals[49] == FieldValue::Bool(self.disable_storyboard)
        &&& vals[50] == FieldValue::Bool(self.disable_video)
        &&& vals[51] == FieldValue::Bool(self.visual_override)
        &&& vals[52] == FieldValue::OptU16(self.unknown)
        &&& vals[53] == FieldValue::U32(self.unknown_modification_date)
        &&& vals[54] == FieldValue::U8(self.mania_scrollspeed)
    }

    fn from_values(vals: Vec<Value>, version: u32) -> (bm: DbBeatmap)
        requires
            matches_kinds(values_view(vals@), db_beatmap_layout(version)),
        ensures
            bm.has_fields(values_view(vals@)),
    {
        let ghost orig = vals@;
        let mut vals = vals;
        assert(value_matches(db_beatmap_layout(version)[20], values_view(orig)[20]));
        let std_star_rating = match take_at(&mut vals, 20) {
            Value::Stars(x) => x,
            _ => {
                proof {
                    assert(false);
                }
                Vec::new()
            },
        };
        assert(value_matches(db_beatmap_layout(version)[21], values_view(orig)[21]));
        let std_taiko_rating = match take_at(&mut vals, 21) {
            Value::Stars(x) => x,
            _ => {
                proof {
                    assert(false);
                }
                Vec::new()
            },
        };
        assert(value_matches(db_beatmap_layout(version)[22], values_view(orig)[22]));
        let std_ctb_rating = match take_at(&mut vals, 22) {
            Value::Stars(x) => x,
            _ => {
                proof {
                    assert(false);
                }
                Vec::new()
            },
        };
        assert(value_matches(db_beatmap_layout(version)[23], values_view(orig)[23]));
        let std_mania_rating = match take_at(&mut vals, 23) {
            Value::Stars(x) => x,
            _ => {
                proof {
                    assert(false);
                }
                Vec::new()
            },
        };
        assert(value_matches(db_beatmap_layout(version)[27], values_view(orig)[27]));
        let timing_points = match take_at(&mut vals, 27) {
            Value::Points(x) => x,
            _ => {
                proof {
                    assert(false);
                }
                Vec::new()
            },
        };
        assert(value_matches(db_beatmap_layout(version)[0], values_view(orig)[0]));
        let size = match &vals[0] {
            Value::OptU32(x) => *x,
            _ => {
                proof {
                    assert(false);
                }
                None
            },
        };
        assert(value_matches(db_beatmap_layout(version)[1], values_view(orig)[1]));
        let artist_name = match &vals[1] {
            Value::Str(x) => x.clone(),
            _ => {
                proof {
                    assert(false);
                }
                String::new()
            },
        };
        assert(value_matches(db_beatmap_layout(version)[2], values_view(orig)[2]));
        let artist_name_unicode = match &vals[2] {
            Value::Str(x) => x.clone(),
            _ => {
                proof {
                    assert(false);
                }
                String::new()
            },
        };
        assert(value_matches(db_beatmap_layout(version)[3], values_view(orig)[3]));
        let song_title = match &vals[3] {
            Value::Str(x) => x.clone(),
            _ => {
                proof {
                    assert(false);
                }
                String::new()
            },
        };
        assert(value_matches(db_beatmap_layout(version)[4], values_view(orig)[4]));
        let song_title_unicode = match &vals[4] {
            Value::Str(x) => x.clone(),
            _ => {
                proof {
                    assert(false);
                }
                String::new()
            },
        };
        assert(value_matches(db_beatmap_layout(version)[5], values_view(orig)[5]));
        let creator_name = match &vals[5] {
            Value::Str(x) => x.clone(),
            _ => {
                proof {
                    assert(false);
                }
                String::new()
            },
        };
        assert(value_matches(db_beatmap_layout(version)[6], values_view(orig)[6]));
        let difficulty = match &vals[6] {
            Value::Str(x) => x.clone(),
            _ => {
                proof {
                    assert(false);
                }
                String::new()
            },
        };
        assert(value_matches(db_beatmap_layout(version)[7], values_view(orig)[7]));
        let audio_file_name = match &vals[7] {
            Value::Str(x) => x.clone(),
            _ => {
                proof {
                    assert(false);
                }
                String::new()
            },
        };
        assert(value_matches(db_beatmap_layout(version)[8], values_view(orig)[8]));
        let hash = match &vals[8] {
            Value::Str(x) => x.clone(),
            _ => {
                proof {
                    assert(false);
                }
                String::new()
            },
        };
        assert(value_matches(db_beatmap_layout(version)[9], values_view(orig)[9]));
        let beatmap_file_name = match &vals[9] {
            Value::Str(x) => x.clone(),
            _ => {
                proof {
                    assert(false);
                }
                String::new()
            },
        };
        assert(value_matches(db_beatmap_layout(version)[10], values_view(orig)[10]));
        let ranked_status = match &vals[10] {
            Value::Ranked(x) => *x,
            _ => {
                proof {
                    assert(false);
                }
                RankedStatus::Unknown
            },
        };
        assert(value_matches(db_beatmap_layout(version)[11], values_view(orig)[11]));
        let hitcircle_count = match &vals[11] {
            Value::U16(x) => *x,
            _ => {
                proof {
                    assert(false);
                }
                0
            },
        };
        assert(value_matches(db_beatmap_layout(version)[12], values_view(orig)[12]));
        let slider_count = match &vals[12] {
            Value::U16(x) => *x,
            _ => {
                proof {
                    assert(false);
                }
                0
            },
        };
        assert(value_matches(db_beatmap_layout(version)[13], values_view(orig)[13]));
        let spinner_count = match &vals[13] {
            Value::U16(x) => *x,
            _ => {
                proof {
                    assert(false);
                }
                0
            },
        };
        assert(value_matches(db_beatmap_layout(version)[14], values_view(orig)[14]));
        let modification_date = match &vals[14] {
            Value::U64(x) => *x,
            _ => {
                proof {
                    assert(false);
                }
                0
            },
        };
        assert(value_matches(db_beatmap_layout(version)[15], values_view(orig)[15]));
        let approach_rate_bits = match &vals[15] {
            Value::U32(x) => *x,
            _ => {
                proof {
                    assert(false);
                }
                0
            },
        };
        assert(value_matches(db_beatmap_layout(version)[16], values_view(orig)[16]));
        let circle_size_bits = match &vals[16] {
            Value::U32(x) => *x,
            _ => {
                proof {
                    assert(false);
                }
                0
            },
        };
        assert(value_matches(db_beatmap_layout(version)[17], values_view(orig)[17]));
        let hp_drain_bits = match &vals[17] {
            Value::U32(x) => *x,
            _ => {
                proof {
                    assert(false);
                }
                0
            },
        };
        assert(value_matches(db_beatmap_layout(version)[18], values_view(orig)[18]));
        let overall_difficulty_bits = match &vals[18] {
            Value::U32(x) => *x,
            _ => {
                proof {
                    assert(false);
                }
                0
            },
        };
        assert(value_matches(db_beatmap_layout(version)[19], values_view(orig)[19]));
        let slider_velocity_bits = match &vals[19] {
            Value::U64(x) => *x,
            _ => {
                proof {
                    assert(false);
                }
                0
            },
        };
        assert(value_matches(db_beatmap_layout(version)[24], values_view(orig)[24]));
        let drain_time = match &vals[24] {
            Value::I32(x) => Millis(*x),
            _ => {
                proof {
                    assert(false);
                }
                Millis(0)
            },
        };
        assert(value_matches(db_beatmap_layout(version)[25], values_view(orig)[25]));
        let total_time = match &vals[25] {
            Value::I32(x) => Millis(*x),
            _ => {
                proof {
                    assert(false);
                }
                Millis(0)
            },
        };
        assert(value_matches(db_beatmap_layout(version)[26], values_view(orig)[26]));
        let preview_time = match &vals[26] {
            Value::I32(x) => Millis(*x),
            _ => {
                proof {
                    assert(false);
                }
                Millis(0)
            },
        };
        assert(value_matches(db_beatmap_layout(version)[28], values_view(orig)[28]));
        let beatmap_id = match &vals[28] {
            Value::U32(x) => *x,
            _ => {
                proof {
                    assert(false);
                }
                0
            },
        };
        assert(value_matches(db_beatmap_layout(version)[29], values_view(orig)[29]));
        let beatmap_set_id = match &vals[29] {
            Value::U32(x) => *x,
            _ => {
                proof {
                    assert(false);
                }
                0
            },
        };
        assert(value_matches(db_beatmap_layout(version)[30], values_view(orig)[30]));
        let thread_id = match &vals[30] {
            Value::U32(x) => *x,
            _ => {
                proof {
                    assert(false);
                }
                0
            },
        };
        assert(value_matches(db_beatmap_layout(version)[31], values_view(orig)[31]));
        let std_grade = match &vals[31] {
            Value::Grade(x) => *x,
            _ => {
                proof {
                    assert(false);
                }
                Grade::NoGrade
            },
        };
        assert(value_matches(db_beatmap_layout(version)[32], values_view(orig)[32]));
        let taiko_grade = match &vals[32] {
            Value::Grade(x) => *x,
            _ => {
                proof {
                    assert(false);
                }
                Grade::NoGrade
            },
        };
        assert(value_matches(db_beatmap_layout(version)[33], values_view(orig)[33]));
        let ctb_grade = match &vals[33] {
            Value::Grade(x) => *x,
            _ => {
                proof {
                    assert(false);
                }
                Grade::NoGrade
            },
        };
        assert(value_matches(db_beatmap_layout(version)[34], values_view(orig)[34]));
        let mania_grade = match &vals[34] {
            Value::Grade(x) => *x,
            _ => {
                proof {
                    assert(false);
                }
                Grade::NoGrade
            },
        };
        assert(value_matches(db_beatmap_layout(version)[35], values_view(orig)[35]));
        let beatmap_offset = match &vals[35] {
            Value::U16(x) => *x,
            _ => {
                proof {
                    assert(false);
                }
                0
            },
        };
        assert(value_matches(db_beatmap_layout(version)[36], values_view(orig)[36]));
        let stack_leniency_bits = match &vals[36] {
            Value::U32(x) => *x,
            _ => {
                proof {
                    assert(false);
                }
                0
            },
        };
        assert(value_matches(db_beatmap_layout(version)[37], values_view(orig)[37]));
        let mode = match &vals[37] {
            Value::Mode(x) => *x,
            _ => {
                proof {
                    assert(false);
                }
                Mode::Osu
            },
        };
        assert(value_matches(db_beatmap_layout(version)[38], values_view(orig)[38]));
        let source = match &vals[38] {
            Value::Str(x) => x.clone(),
            _ => {
                proof {
                    assert(false);
                }
                String::new()
            },
        };
        assert(value_matches(db_beatmap_layout(version)[39], values_view(orig)[39]));
        let tags = match &vals[39] {
            Value::Str(x) => x.clone(),
            _ => {
                proof {
                    assert(false);
                }
                String::new()
            },
        };
        assert(value_matches(db_beatmap_layout(version)[40], values_view(orig)[40]));
        let online_offset = match &vals[40] {
            Value::U16(x) => *x,
            _ => {
                proof {
                    assert(false);
                }
                0
            },
        };
        assert(value_matches(db_beatmap_layout(version)[41], values_view(orig)[41]));
        let title_font = match &vals[41] {
            Value::Str(x) => x.clone(),
            _ => {
                proof {
                    assert(false);
                }
                String::new()
            },
        };
        assert(value_matches(db_beatmap_layout(version)[42], values_view(orig)[42]));
        let is_unplayed = match &vals[42] {
            Value::Bool(x) => *x,
            _ => {
                proof {
                    assert(false);
                }
                false
            },
        };
        assert(value_matches(db_beatmap_layout(version)[43], values_view(orig)[43]));
        let last_played = match &vals[43] {
            Value::U64(x) => *x,
            _ => {
                proof {
                    assert(false);
                }
                0
            },
        };
        assert(value_matches(db_beatmap_layout(version)[44], values_view(orig)[44]));
        let is_osz2 = match &vals[44] {
            Value::Bool(x) => *x,
            _ => {
                proof {
                    assert(false);
                }
                false
            },
        };
        assert(value_matches(db_beatmap_layout(version)[45], values_view(orig)[45]));
        let folder_name = match &vals[45] {
            Value::Str(x) => x.clone(),
            _ => {
                proof {
                    assert(false);
                }
                String::new()
            },
        };
        assert(value_matches(db_beatmap_layout(version)[46], values_view(orig)[46]));
        let last_checked = match &vals[46] {
            Value::U64(x) => *x,
            _ => {
                proof {
                    assert(false);
                }
                0
            },
        };
        assert(value_matches(db_beatmap_layout(version)[47], values_view(orig)[47]));
        let ignore_beatmap_sounds = match &vals[47] {
            Value::Bool(x) => *x,
            _ => {
                proof {
                    assert(false);
                }
                false
            },
        };
        assert(value_matches(db_beatmap_layout(version)[48], values_view(orig)[48]));
        let ignore_beatmap_skin = match &vals[48] {
            Value::Bool(x) => *x,
            _ => {
                proof {
                    assert(false);
                }
                false
            },
        };
        assert(value_matches(db_beatmap_layout(version)[49], values_view(orig)[49]));
        let disable_storyboard = match &vals[49] {
            Value::Bool(x) => *x,
            _ => {
                proof {
                    assert(false);
                }
                false
            },
        };
        assert(value_matches(db_beatmap_layout(version)[50], values_view(orig)[50]));
        let disable_video = match &vals[50] {
            Value::Bool(x) => *x,
            _ => {
                proof {
                    assert(false);
                }
                false
            },
        };
        assert(value_matches(db_beatmap_layout(version)[51], values_view(orig)[51]));
        let visual_override = match &vals[51] {
            Value::Bool(x) => *x,
            _ => {
                proof {
                    assert(false);
                }
                false
            },
        };
        assert(value_matches(db_beatmap_layout(version)[52], values_view(orig)[52]));
        let unknown = match &vals[52] {
            Value::OptU16(x) => *x,
            _ => {
                proof {
                    assert(false);
                }
                None
            },
        };
        assert(value_matches(db_beatmap_layout(version)[53], values_view(orig)[53]));
        let unknown_modification_date = match &vals[53] {
            Value::U32(x) => *x,
            _ => {
                proof {
                    assert(false);
                }
                0
            },
        };
        assert(value_matches(db_beatmap_layout(version)[54], values_view(orig)[54]));
        let mania_scrollspeed = match &vals[54] {
            Value::U8(x) => *x,
            _ => {
                proof {
                    assert(false);
                }
                0
            },
        };
        DbBeatmap {
            size,
            artist_name,
            artist_name_unicode,
            song_title,
            song_title_unicode,
            creator_name,
            difficulty,
            audio_file_name,
            hash,
            beatmap_file_name,
            ranked_status,
            hitcircle_count,
            slider_count,
            spinner_count,
            modification_date,
            approach_rate_bits,
            circle_size_bits,
            hp_drain_bits,
            overall_difficulty_bits,
            slider_velocity_bits,
            std_star_rating,
            std_taiko_rating,
            std_ctb_rating,
            std_mania_rating,
            drain_time,
            total_time,
            preview_time,
            timing_points,
            beatmap_id,
            beatmap_set_id,
            thread_id,
            std_grade,
            taiko_grade,
            ctb_grade,
            mania_grade,
            beatmap_offset,
            stack_leniency_bits,
            mode,
            source,
            tags,
            online_offset,
            title_font,
            is_unplayed,
            last_played,
            is_osz2,
            folder_name,
            last_checked,
            ignore_beatmap_sounds,
            ignore_beatmap_skin,
            disable_storyboard,
            disable_video,
            visual_override,
            unknown,
            unknown_modification_date,
            mania_scrollspeed,
        }
    }
}


impl DbBeatmap {
    /// Reads a cached beatmap of a database of the given version.
    pub fn parse(reader: &mut ByteReader, version: u32) -> (res: Result<DbBeatmap, Fault>)
        requires
            old(reader).wf(),
        ensures
            final(reader).wf(),
            final(reader).bytes() == old(reader).bytes(),
            match spec_read_fields(
                old(reader).bytes(),
                old(reader).position(),
                db_beatmap_layout(version),
            ) {
                Ok((vals, q)) => res matches Ok(bm) && bm.has_fields(vals) && final(reader).position()
                    == q,
                Err(f) => res matches Err(g) && g == f,
            },
            res matches Ok(bm) ==> {
                &&& (bm.size is Some <==> version < 20191106)
                &&& (bm.unknown is Some <==> version < 20140609)
                &&& version < 20140609 ==> {
                    &&& bm.std_star_rating@.len() == 0
                    &&& bm.std_taiko_rating@.len() == 0
                    &&& bm.std_ctb_rating@.len() == 0
                    &&& bm.std_mania_rating@.len() == 0
                }
            },
    {
        let kinds = beatmap_layout(version);
        let ghost s = reader.bytes();
        let ghost p = reader.position();
        let vals = read_fields(reader, &kinds)?;
        proof {
            lemma_read_fields_match(s, p, db_beatmap_layout(version));
        }
        let bm = DbBeatmap::from_values(vals, version);
        proof {
            let layout = db_beatmap_layout(version);
            let fv = spec_read_fields(s, p, layout)->Ok_0.0;
            assert(value_matches(layout[0], fv[0]));
            assert(value_matches(layout[20], fv[20]));
            assert(value_matches(layout[21], fv[21]));
            assert(value_matches(layout[22], fv[22]));
            assert(value_matches(layout[23], fv[23]));
            assert(value_matches(layout[52], fv[52]));
        }
        Ok(bm)
    }
}

/// Reading the fields of `a` then those of `b` is reading the fields of `a + b`.
proof fn lemma_read_fields_concat(s: Seq<u8>, p: int, a: Seq<FieldKind>, b: Seq<FieldKind>)
    ensures
        spec_read_fields(s, p, a + b) == match spec_read_fields(s, p, a) {
            Ok((va, q)) => match spec_read_fields(s, q, b) {
                Ok((vb, e)) => Ok::<(Seq<FieldValue>, int), Fault>((va + vb, e)),
                Err(f) => Err(f),
            },
            Err(f) => Err(f),
        },
    decreases a.len(),
{
    if a.len() == 0 {
        assert(a + b =~= b);
        match spec_read_fields(s, p, b) {
            Ok((vb, e)) => {
                assert(Seq::<FieldValue>::empty() + vb =~= vb);
            },
            Err(_) => {},
        }
    } else {
        assert((a + b)[0] == a[0]);
        assert((a + b).drop_first() =~= a.drop_first() + b);
        match spec_read_field(s, p, a[0]) {
            Ok((v, q)) => {
                lemma_read_fields_concat(s, q, a.drop_first(), b);
                match spec_read_fields(s, q, a.drop_first()) {
                    Ok((va, q2)) => {
                        match spec_read_fields(s, q2, b) {
                            Ok((vb, e)) => {
                                assert(seq![v] + (va + vb) =~= (seq![v] + va) + vb);
                            },
                            Err(_) => {},
                        }
                    },
                    Err(_) => {},
                }
            },
            Err(_) => {},
        }
    }
}

/// In a successful reading of fields, field `k` is read where the reading
/// of the fields before it ends, and the reading of the fields up to it ends
/// where field `k` ends.
proof fn lemma_field_at(s: Seq<u8>, p: int, kinds: Seq<FieldKind>, k: int)
    requires
        0 <= k < kinds.len(),
        spec_read_fields(s, p, kinds) is Ok,
    ensures
        spec_read_fields(s, p, kinds.take(k)) is Ok,
        spec_read_fields(s, p, kinds.take(k + 1)) is Ok,
        spec_read_field(s, spec_read_fields(s, p, kinds.take(k))->Ok_0.1, kinds[k]) == Ok::<(FieldValue, int), Fault>(
            (spec_read_fields(s, p, kinds)->Ok_0.0[k], spec_read_fields(s, p, kinds.take(k + 1))->Ok_0.1),
        ),
{
    let a = kinds.take(k);
    let b = kinds.skip(k);
    assert(kinds =~= a + b);
    lemma_read_fields_concat(s, p, a, b);
    let (va, q) = spec_read_fields(s, p, a)->Ok_0;
    let (vb, e) = spec_read_fields(s, q, b)->Ok_0;
    assert(va.len() == a.len()) by {
        lemma_read_fields_match(s, p, a);
    }
    let (v, q1) = spec_read_field(s, q, b[0])->Ok_0;
    assert(b[0] == kinds[k]);
    assert(vb[0] == v);
    assert((va + vb)[k] == vb[0]);
    let c = seq![kinds[k]];
    assert(kinds.take(k + 1) =~= a + c);
    lemma_read_fields_concat(s, p, a, c);
    assert(c.drop_first() =~= Seq::<FieldKind>::empty());
    assert(c[0] == b[0]);
    assert(spec_read_fields(s, q1, c.drop_first()) == Ok::<(Seq<FieldValue>, int), Fault>((Seq::empty(), q1)));
    assert(seq![v] + Seq::<FieldValue>::empty() =~= seq![v]);
    assert(spec_read_fields(s, q, c) == Ok::<(Seq<FieldValue>, int), Fault>((seq![v], q1)));
}

/// The difficulty settings of a cached beatmap are the four little-endian
/// 32-bit patterns that follow its first fifteen fields (which end with the
/// modification date), in the order approach rate, circle size, HP drain and
/// overall difficulty.
pub proof fn cached_beatmap_difficulty_layout(bm: DbBeatmap, s: Seq<u8>, p: int, version: u32)
    requires
        spec_read_fields(s, p, db_beatmap_layout(version)) is Ok,
        bm.has_fields(spec_read_fields(s, p, db_beatmap_layout(version))->Ok_0.0),
    ensures
        ({
            let q = spec_read_fields(s, p, db_beatmap_layout(version).take(15))->Ok_0.1;
            &&& bm.approach_rate_bits as nat == crate::binary::le_value(s, q, 4)
            &&& bm.circle_size_bits as nat == crate::binary::le_value(s, q + 4, 4)
            &&& bm.hp_drain_bits as nat == crate::binary::le_value(s, q + 8, 4)
            &&& bm.overall_difficulty_bits as nat == crate::binary::le_value(s, q + 12, 4)
        }),
{
    let kinds = db_beatmap_layout(version);
    lemma_field_at(s, p, kinds, 15);
    lemma_field_at(s, p, kinds, 16);
    lemma_field_at(s, p, kinds, 17);
    lemma_field_at(s, p, kinds, 18);
    assert(kinds[15] == FieldKind::U32);
    assert(kinds[16] == FieldKind::U32);
    assert(kinds[17] == FieldKind::U32);
    assert(kinds[18] == FieldKind::U32);
    crate::binary::lemma_le_value_bound(s, spec_read_fields(s, p, kinds.take(15))->Ok_0.1, 4);
    crate::binary::lemma_le_value_bound(s, spec_read_fields(s, p, kinds.take(16))->Ok_0.1, 4);
    crate::binary::lemma_le_value_bound(s, spec_read_fields(s, p, kinds.take(17))->Ok_0.1, 4);
    crate::binary::lemma_le_value_bound(s, spec_read_fields(s, p, kinds.take(18))->Ok_0.1, 4);
}

/// The five display flags of a cached beatmap are the five bytes that follow
/// its first forty-seven fields (which end with the last-checked time), each
/// set when not zero, in the order ignore beatmap sounds, ignore beatmap
/// skin, disable storyboard, disable video and visual override.
pub proof fn cached_beatmap_flags_layout(bm: DbBeatmap, s: Seq<u8>, p: int, version: u32)
    requires
        spec_read_fields(s, p, db_beatmap_layout(version)) is Ok,
        bm.has_fields(spec_read_fields(s, p, db_beatmap_layout(version))->Ok_0.0),
    ensures
        ({
            let q = spec_read_fields(s, p, db_beatmap_layout(version).take(47))->Ok_0.1;
            &&& bm.ignore_beatmap_sounds == (s[q] > 0)
            &&& bm.ignore_beatmap_skin == (s[q + 1] > 0)
            &&& bm.disable_storyboard == (s[q + 2] > 0)
            &&& bm.disable_video == (s[q + 3] > 0)
            &&& bm.visual_override == (s[q + 4] > 0)
        }),
{
    let kinds = db_beatmap_layout(version);
    lemma_field_at(s, p, kinds, 47);
    lemma_field_at(s, p, kinds, 48);
    lemma_field_at(s, p, kinds, 49);
    lemma_field_at(s, p, kinds, 50);
    lemma_field_at(s, p, kinds, 51);
    assert(kinds[47] == FieldKind::Bool);
    assert(kinds[48] == FieldKind::Bool);
    assert(kinds[49] == FieldKind::Bool);
    assert(kinds[50] == FieldKind::Bool);
    assert(kinds[51] == FieldKind::Bool);
    reveal_with_fuel(crate::binary::le_value, 2);
}

/// Where field `i` of a cached beatmap starts: where the reading of the
/// fields before it ends.
pub open spec fn field_pos(s: Seq<u8>, p: int, version: u32, i: int) -> int {
    spec_read_fields(s, p, db_beatmap_layout(version).take(i))->Ok_0.1
}

/// The first fifteen fields of a cached beatmap lie in the bytes in file
/// order: its size (before version 20191106, a little-endian `u32`), then the
/// strings artist, unicode artist, title, unicode title, creator, difficulty
/// name, audio file name, hash and file name, each starting where the one
/// before it ends, then the ranked status byte, the hit circle, slider and
/// spinner counts (little-endian `u16`s) and the modification date (`u64`).
#[verifier::rlimit(60)]
pub proof fn cached_beatmap_identity_layout(bm: DbBeatmap, s: Seq<u8>, p: int, version: u32)
    requires
        spec_read_fields(s, p, db_beatmap_layout(version)) is Ok,
        bm.has_fields(spec_read_fields(s, p, db_beatmap_layout(version))->Ok_0.0),
    ensures
        version < 20191106 ==> bm.size == Some(le_value(s, field_pos(s, p, version, 0), 4) as u32),
        spec_read_string(s, field_pos(s, p, version, 1)) == Ok::<(Seq<char>, int), Error>((bm.artist_name@, field_pos(s, p, version, 2))),
        spec_read_string(s, field_pos(s, p, version, 2)) == Ok::<(Seq<char>, int), Error>((bm.artist_name_unicode@, field_pos(s, p, version, 3))),
        spec_read_string(s, field_pos(s, p, version, 3)) == Ok::<(Seq<char>, int), Error>((bm.song_title@, field_pos(s, p, version, 4))),
        spec_read_string(s, field_pos(s, p, version, 4)) == Ok::<(Seq<char>, int), Error>((bm.song_title_unicode@, field_pos(s, p, version, 5))),
        spec_read_string(s, field_pos(s, p, version, 5)) == Ok::<(Seq<char>, int), Error>((bm.creator_name@, field_pos(s, p, version, 6))),
        spec_read_string(s, field_pos(s, p, version, 6)) == Ok::<(Seq<char>, int), Error>((bm.difficulty@, field_pos(s, p, version, 7))),
        spec_read_string(s, field_pos(s, p, version, 7)) == Ok::<(Seq<char>, int), Error>((bm.audio_file_name@, field_pos(s, p, version, 8))),
        spec_read_string(s, field_pos(s, p, version, 8)) == Ok::<(Seq<char>, int), Error>((bm.hash@, field_pos(s, p, version, 9))),
        spec_read_string(s, field_pos(s, p, version, 9)) == Ok::<(Seq<char>, int), Error>((bm.beatmap_file_name@, field_pos(s, p, version, 10))),
        bm.ranked_status == ranked_of(s[field_pos(s, p, version, 10)]),
        bm.hitcircle_count as nat == le_value(s, field_pos(s, p, version, 11), 2),
        bm.slider_count as nat == le_value(s, field_pos(s, p, version, 12), 2),
        bm.spinner_count as nat == le_value(s, field_pos(s, p, version, 13), 2),
        bm.modification_date as nat == le_value(s, field_pos(s, p, version, 14), 8),
{
    let kinds = db_beatmap_layout(version);
    reveal_with_fuel(le_value, 2);
    lemma_field_at(s, p, kinds, 0);
    lemma_le_value_bound(s, field_pos(s, p, version, 0), 4);
    lemma_field_at(s, p, kinds, 1);
    lemma_field_at(s, p, kinds, 2);
    lemma_field_at(s, p, kinds, 3);
    lemma_field_at(s, p, kinds, 4);
    lemma_field_at(s, p, kinds, 5);
    lemma_field_at(s, p, kinds, 6);
    lemma_field_at(s, p, kinds, 7);
    lemma_field_at(s, p, kinds, 8);
    lemma_field_at(s, p, kinds, 9);
    lemma_field_at(s, p, kinds, 10);
    lemma_field_at(s, p, kinds, 11);
    lemma_le_value_bound(s, field_pos(s, p, version, 11), 2);
    lemma_field_at(s, p, kinds, 12);
    lemma_le_value_bound(s, field_pos(s, p, version, 12), 2);
    lemma_field_at(s, p, kinds, 13);
    lemma_le_value_bound(s, field_pos(s, p, version, 13), 2);
    lemma_field_at(s, p, kinds, 14);
    lemma_le_value_bound(s, field_pos(s, p, version, 14), 8);
}

/// The next fields of a cached beatmap lie in the bytes in file order:
/// approach rate, circle size, HP drain and overall difficulty (`f32`
/// patterns), slider velocity (`f64` pattern), the star ratings, drain time
/// (seconds, read as milliseconds), total time and preview time (`i32`s), the
/// timing points, beatmap id, set id and thread id (`u32`s), the four grades,
/// the local offset (`u16`), stack leniency (`f32` pattern) and mode byte.
#[verifier::rlimit(60)]
pub proof fn cached_beatmap_settings_layout(bm: DbBeatmap, s: Seq<u8>, p: int, version: u32)
    requires
        spec_read_fields(s, p, db_beatmap_layout(version)) is Ok,
        bm.has_fields(spec_read_fields(s, p, db_beatmap_layout(version))->Ok_0.0),
    ensures
        bm.approach_rate_bits as nat == le_value(s, field_pos(s, p, version, 15), 4),
        bm.circle_size_bits as nat == le_value(s, field_pos(s, p, version, 16), 4),
        bm.hp_drain_bits as nat == le_value(s, field_pos(s, p, version, 17), 4),
        bm.overall_difficulty_bits as nat == le_value(s, field_pos(s, p, version, 18), 4),
        bm.slider_velocity_bits as nat == le_value(s, field_pos(s, p, version, 19), 8),
        bm.drain_time.0 == as_i32(le_value(s, field_pos(s, p, version, 24), 4)) * 1000,
        bm.total_time.0 == as_i32(le_value(s, field_pos(s, p, version, 25), 4)),
        bm.preview_time.0 == as_i32(le_value(s, field_pos(s, p, version, 26), 4)),
        bm.beatmap_id as nat == le_value(s, field_pos(s, p, version, 28), 4),
        bm.beatmap_set_id as nat == le_value(s, field_pos(s, p, version, 29), 4),
        bm.thread_id as nat == le_value(s, field_pos(s, p, version, 30), 4),
        bm.std_grade == grade_of(s[field_pos(s, p, version, 31)]),
        bm.taiko_grade == grade_of(s[field_pos(s, p, version, 32)]),
        bm.ctb_grade == grade_of(s[field_pos(s, p, version, 33)]),
        bm.mania_grade == grade_of(s[field_pos(s, p, version, 34)]),
        bm.beatmap_offset as nat == le_value(s, field_pos(s, p, version, 35), 2),
        bm.stack_leniency_bits as nat == le_value(s, field_pos(s, p, version, 36), 4),
        Mode::spec_from_u8(s[field_pos(s, p, version, 37)]) == Some(bm.mode),
{
    let kinds = db_beatmap_layout(version);
    reveal_with_fuel(le_value, 2);
    lemma_field_at(s, p, kinds, 15);
    lemma_le_value_bound(s, field_pos(s, p, version, 15), 4);
    lemma_field_at(s, p, kinds, 16);
    lemma_le_value_bound(s, field_pos(s, p, version, 16), 4);
    lemma_field_at(s, p, kinds, 17);
    lemma_le_value_bound(s, field_pos(s, p, version, 17), 4);
    lemma_field_at(s, p, kinds, 18);
    lemma_le_value_bound(s, field_pos(s, p, version, 18), 4);
    lemma_field_at(s, p, kinds, 19);
    lemma_le_value_bound(s, field_pos(s, p, version, 19), 8);
    lemma_field_at(s, p, kinds, 24);
    lemma_le_value_bound(s, field_pos(s, p, version, 24), 4);
    lemma_field_at(s, p, kinds, 25);
    lemma_le_value_bound(s, field_pos(s, p, version, 25), 4);
    lemma_field_at(s, p, kinds, 26);
    lemma_le_value_bound(s, field_pos(s, p, version, 26), 4);
    lemma_field_at(s, p, kinds, 28);
    lemma_le_value_bound(s, field_pos(s, p, version, 28), 4);
    lemma_field_at(s, p, kinds, 29);
    lemma_le_value_bound(s, field_pos(s, p, version, 29), 4);
    lemma_field_at(s, p, kinds, 30);
    lemma_le_value_bound(s, field_pos(s, p, version, 30), 4);
    lemma_field_at(s, p, kinds, 31);
    lemma_field_at(s, p, kinds, 32);
    lemma_field_at(s, p, kinds, 33);
    lemma_field_at(s, p, kinds, 34);
    lemma_field_at(s, p, kinds, 35);
    lemma_le_value_bound(s, field_pos(s, p, version, 35), 2);
    lemma_field_at(s, p, kinds, 36);
    lemma_le_value_bound(s, field_pos(s, p, version, 36), 4);
    lemma_field_at(s, p, kinds, 37);
}

/// The last fields of a cached beatmap lie in the bytes in file order:
/// source, tags (strings), online offset (`u16`), title font (string),
/// unplayed flag, last played (`u64`), osz2 flag, folder name (string), last
/// checked (`u64`), the flags ignore sounds, ignore skin, disable storyboard,
/// disable video and visual override, the unknown `u16` (before version
/// 20140609), the second modification date (`u32`) and the mania scroll
/// speed byte; numbers little-endian, flags set when not zero.
#[verifier::rlimit(60)]
pub proof fn cached_beatmap_local_layout(bm: DbBeatmap, s: Seq<u8>, p: int, version: u32)
    requires
        spec_read_fields(s, p, db_beatmap_layout(version)) is Ok,
        bm.has_fields(spec_read_fields(s, p, db_beatmap_layout(version))->Ok_0.0),
    ensures
        spec_read_string(s, field_pos(s, p, version, 38)) == Ok::<(Seq<char>, int), Error>((bm.source@, field_pos(s, p, version, 39))),
        spec_read_string(s, field_pos(s, p, version, 39)) == Ok::<(Seq<char>, int), Error>((bm.tags@, field_pos(s, p, version, 40))),
        bm.online_offset as nat == le_value(s, field_pos(s, p, version, 40), 2),
        spec_read_string(s, field_pos(s, p, version, 41)) == Ok::<(Seq<char>, int), Error>((bm.title_font@, field_pos(s, p, version, 42))),
        bm.is_unplayed == (s[field_pos(s, p, version, 42)] > 0),
        bm.last_played as nat == le_value(s, field_pos(s, p, version, 43), 8),
        bm.is_osz2 == (s[field_pos(s, p, version, 44)] > 0),
        spec_read_string(s, field_pos(s, p, version, 45)) == Ok::<(Seq<char>, int), Error>((bm.folder_name@, field_pos(s, p, version, 46))),
        bm.last_checked as nat == le_value(s, field_pos(s, p, version, 46), 8),
        bm.ignore_beatmap_sounds == (s[field_pos(s, p, version, 47)] > 0),
        bm.ignore_beatmap_skin == (s[field_pos(s, p, version, 48)] > 0),
        bm.disable_storyboard == (s[field_pos(s, p, version, 49)] > 0),
        bm.disable_video == (s[field_pos(s, p, version, 50)] > 0),
        bm.visual_override == (s[field_pos(s, p, version, 51)] > 0),
        version < 20140609 ==> bm.unknown == Some(le_value(s, field_pos(s, p, version, 52), 2) as u16),
        bm.unknown_modification_date as nat == le_value(s, field_pos(s, p, version, 53), 4),
        bm.mania_scrollspeed as nat == le_value(s, field_pos(s, p, version, 54), 1),
{
    let kinds = db_beatmap_layout(version);
    reveal_with_fuel(le_value, 2);
    lemma_field_at(s, p, kinds, 38);
    lemma_field_at(s, p, kinds, 39);
    lemma_field_at(s, p, kinds, 40);
    lemma_le_value_bound(s, field_pos(s, p, version, 40), 2);
    lemma_field_at(s, p, kinds, 41);
    lemma_field_at(s, p, kinds, 42);
    lemma_field_at(s, p, kinds, 43);
    lemma_le_value_bound(s, field_pos(s, p, version, 43), 8);
    lemma_field_at(s, p, kinds, 44);
    lemma_field_at(s, p, kinds, 45);
    lemma_field_at(s, p, kinds, 46);
    lemma_le_value_bound(s, field_pos(s, p, version, 46), 8);
    lemma_field_at(s, p, kinds, 47);
    lemma_field_at(s, p, kinds, 48);
    lemma_field_at(s, p, kinds, 49);
    lemma_field_at(s, p, kinds, 50);
    lemma_field_at(s, p, kinds, 51);
    lemma_field_at(s, p, kinds, 52);
    lemma_le_value_bound(s, field_pos(s, p, version, 52), 2);
    lemma_field_at(s, p, kinds, 53);
    lemma_le_value_bound(s, field_pos(s, p, version, 53), 4);
    lemma_field_at(s, p, kinds, 54);
    lemma_le_value_bound(s, field_pos(s, p, version, 54), 1);
}

/// Reading `n` cached beatmaps one after the other.
pub open spec fn spec_read_beatmaps(s: Seq<u8>, p: int, n: nat, version: u32) -> Result<
    (Seq<Seq<FieldValue>>, int),
    Fault,
>
    decreases n,
{
    if n == 0 {
        Ok((Seq::empty(), p))
    } else {
        match spec_read_fields(s, p, db_beatmap_layout(version)) {
            Err(f) => Err(f),
            Ok((item, q)) => match spec_read_beatmaps(s, q, (n - 1) as nat, version) {
                Err(f) => Err(f),
                Ok((rest, e)) => Ok((seq![item] + rest, e)),
            },
        }
    }
}

/// The contents of an `osu!.db` file, as a specification: each beatmap is
/// given by its fields in file order.
pub struct DbSpec {
    pub version: u32,
    pub folder_count: u32,
    pub account_unlocked: bool,
    pub unlocked_date: u64,
    pub player_name: Seq<char>,
    pub beatmap_count: u32,
    pub beatmaps: Seq<Seq<FieldValue>>,
    pub permissions: u8,
}

/// Reading an `osu!.db` file: version, folder count, account-unlocked byte,
/// unlock date, player name, beatmap count, that many beatmaps, permissions.
pub open spec fn spec_read_db(s: Seq<u8>) -> Result<DbSpec, Fault> {
    match spec_read_int(s, 0, 4) {
        Err(f) => Err(f),
        Ok((version, p1)) => match spec_read_int(s, p1, 4) {
            Err(f) => Err(f),
            Ok((folder_count, p2)) => match spec_read_int(s, p2, 1) {
                Err(f) => Err(f),
                Ok((unlocked, p3)) => match spec_read_int(s, p3, 8) {
                    Err(f) => Err(f),
                    Ok((date, p4)) => match spec_read_string(s, p4) {
                        Err(e) => Err(Fault::Failed(DbError::Read(e))),
                        Ok((name, p5)) => match spec_read_int(s, p5, 4) {
                            Err(f) => Err(f),
                            Ok((count, p6)) => match spec_read_beatmaps(
                                s,
                                p6,
                                count,
                                version as u32,
                            ) {
                                Err(f) => Err(f),
                                Ok((beatmaps, p7)) => match spec_read_int(s, p7, 1) {
                                    Err(f) => Err(f),
                                    Ok((perm, _)) => Ok(
                                        DbSpec {
                                            version: version as u32,
                                            folder_count: folder_count as u32,
                                            account_unlocked: unlocked > 0,
                                            unlocked_date: date as u64,
                                            player_name: name,
                                            beatmap_count: count as u32,
                                            beatmaps,
                                            permissions: perm as u8,
                                        },
                                    ),
                                },
                            },
                        },
                    },
                },
            },
        },
    }
}

/// The bytes of a database with no cached beatmap, written field by field:
/// version and folder count (little-endian `u32`s), the account-unlocked
/// byte, the unlock date (`u64`), the player name (a string), a beatmap
/// count of 0 (`u32`) and the permissions byte.
pub open spec fn spec_empty_db_bytes(d: DbSpec) -> Seq<u8> {
    le_bytes(d.version as nat, 4) + le_bytes(d.folder_count as nat, 4) + le_bytes(
        if d.account_unlocked {
            1
        } else {
            0
        },
        1,
    ) + le_bytes(d.unlocked_date as nat, 8) + spec_string_bytes(d.player_name) + le_bytes(0, 4) + le_bytes(
        d.permissions as nat,
        1,
    )
}

/// A database header written field by field, with no cached beatmap, reads
/// back as itself: version, folder count, account flag, unlock date, player
/// name and permissions each come from their own place in the bytes.
#[verifier::rlimit(60)]
pub proof fn empty_db_roundtrip(d: DbSpec)
    requires
        writable_string(d.player_name),
        d.beatmap_count == 0,
        d.beatmaps.len() == 0,
    ensures
        spec_read_db(spec_empty_db_bytes(d)) == Ok::<DbSpec, Fault>(d),
{
    let flag: nat = if d.account_unlocked {
        1
    } else {
        0
    };
    let c0 = le_bytes(d.version as nat, 4);
    let c1 = le_bytes(d.folder_count as nat, 4);
    let c2 = le_bytes(flag, 1);
    let c3 = le_bytes(d.unlocked_date as nat, 8);
    let c4 = spec_string_bytes(d.player_name);
    let c5 = le_bytes(0, 4);
    let c6 = le_bytes(d.permissions as nat, 1);
    let x0 = c0;
    let x1 = x0 + c1;
    let x2 = x1 + c2;
    let x3 = x2 + c3;
    let x4 = x3 + c4;
    let x5 = x4 + c5;
    let x6 = x5 + c6;
    let s = spec_empty_db_bytes(d);
    assert(s == x6);
    assert(s.subrange(0, x6.len() as int) =~= x6);
    lemma_chunk(x5, c6, s);
    lemma_chunk(x4, c5, s);
    lemma_chunk(x3, c4, s);
    lemma_chunk(x2, c3, s);
    lemma_chunk(x1, c2, s);
    lemma_chunk(x0, c1, s);
    reveal_with_fuel(crate::binary::pow256, 9);
    assert(crate::binary::pow256(1) == 0x100 && crate::binary::pow256(4) == 0x1_0000_0000
        && crate::binary::pow256(8) == 0x1_0000_0000_0000_0000);
    lemma_le_at(s, 0, d.version as nat, 4);
    lemma_le_at(s, x0.len() as int, d.folder_count as nat, 4);
    lemma_le_at(s, x1.len() as int, flag, 1);
    lemma_le_at(s, x2.len() as int, d.unlocked_date as nat, 8);
    lemma_string_at(s, x3.len() as int, d.player_name);
    lemma_le_at(s, x4.len() as int, 0, 4);
    lemma_le_at(s, x5.len() as int, d.permissions as nat, 1);
    assert(d.beatmaps =~= Seq::<Seq<FieldValue>>::empty());
}

/// The `osu!.db` file.
#[derive(Debug, Clone)]
pub struct Db {
    /// Version of the game that wrote the file.
    pub version: u32,
    /// The amount of folders.
    pub folder_count: u32,
    /// If the account is unlocked, aka not banned or locked.
    pub account_unlocked: bool,
    /// When the account will be unlocked, in Windows ticks.
    pub unlocked_date: u64,
    /// The player's username.
    pub player_name: String,
    /// The amount of beatmaps cached.
    pub beatmap_count: u32,
    /// The cached beatmaps.
    pub beatmaps: Vec<DbBeatmap>,
    /// The permissions of the user.
    pub permissions: u8,
}

impl Db {
    /// Whether the database holds what `d` describes.
    pub open spec fn matches(&self, d: DbSpec) -> bool {
        &&& self.version == d.version
        &&& self.folder_count == d.folder_count
        &&& self.account_unlocked == d.account_unlocked
        &&& self.unlocked_date == d.unlocked_date
        &&& self.player_name@ == d.player_name
        &&& self.beatmap_count == d.beatmap_count
        &&& self.beatmaps@.len() == d.beatmaps.len()
        &&& forall|i: int|
            0 <= i < d.beatmaps.len() ==> #[trigger] self.beatmaps@[i].has_fields(d.beatmaps[i])
        &&& self.permissions == d.permissions
    }

    #[verifier::loop_isolation(false)]
    fn read(data: &[u8]) -> (res: Result<Db, Fault>)
        ensures
            match spec_read_db(data@) {
                Ok(d) => res matches Ok(db) && db.matches(d),
                Err(f) => res matches Err(g) && g == f,
            },
    {
        let mut r = ByteReader::new(data);
        let version = read_int_u32(&mut r)?;
        let folder_count = read_int_u32(&mut r)?;
        let unlocked = read_int_u8(&mut r)?;
        let unlocked_date = read_int_u64(&mut r)?;
        let player_name = match r.read_uleb128_string() {
            Ok(text) => text,
            Err(e) => return Err(Fault::Failed(DbError::Read(e))),
        };
        let beatmap_count = read_int_u32(&mut r)?;
        let ghost s = data@;
        let ghost p0 = r.position();
        let mut beatmaps: Vec<DbBeatmap> = Vec::new();
        let ghost mut specs: Seq<Seq<FieldValue>> = Seq::empty();
        let mut i: u32 = 0;
        while i < beatmap_count
            invariant
                r.wf(),
                r.bytes() == s,
                i <= beatmap_count,
                beatmaps@.len() == specs.len(),
                forall|j: int| 0 <= j < specs.len() ==> #[trigger] beatmaps@[j].has_fields(specs[j]),
                spec_read_beatmaps(s, p0, beatmap_count as nat, version) == prepend(
                    specs,
                    spec_read_beatmaps(s, r.position(), (beatmap_count - i) as nat, version),
                ),
            decreases beatmap_count - i,
        {
            let ghost p = r.position();
            let bm = DbBeatmap::parse(&mut r, version)?;
            proof {
                let item = spec_read_fields(s, p, db_beatmap_layout(version))->Ok_0.0;
                match spec_read_beatmaps(s, r.position(), (beatmap_count - i - 1) as nat, version) {
                    Ok((rest, e)) => {
                        assert(specs + (seq![item] + rest) =~= specs.push(item) + rest);
                    },
                    Err(_) => {},
                }
                specs = specs.push(item);
            }
            beatmaps.push(bm);
            i = i + 1;
        }
        assert(specs + Seq::<Seq<FieldValue>>::empty() =~= specs);
        let permissions = read_int_u8(&mut r)?;
        let db = Db {
            version,
            folder_count,
            account_unlocked: unlocked > 0,
            unlocked_date,
            player_name,
            beatmap_count,
            beatmaps,
            permissions,
        };
        Ok(db)
    }

    /// Parses the contents of an `osu!.db` file, or returns `None` when the
    /// bytes break an assumption of the format (see [`Fault::Malformed`]).
    pub fn parse_checked(data: &[u8]) -> (res: Option<Result<Db, DbError>>)
        ensures
            match spec_read_db(data@) {
                Ok(d) => res matches Some(Ok(db)) && db.matches(d),
                Err(Fault::Failed(e)) => res matches Some(Err(g)) && g == e,
                Err(Fault::Malformed) => res is None,
            },
    {
        match Db::read(data) {
            Ok(db) => Some(Ok(db)),
            Err(Fault::Failed(e)) => Some(Err(e)),
            Err(Fault::Malformed) => None,
        }
    }

    /// Parses the contents of an `osu!.db` file.
    pub fn parse(data: &[u8]) -> (res: Result<Db, DbError>)
        requires
            spec_read_db(data@) != Err::<DbSpec, Fault>(Fault::Malformed),
        ensures
            match spec_read_db(data@) {
                Ok(d) => res matches Ok(db) && db.matches(d),
                Err(Fault::Failed(e)) => res matches Err(g) && g == e,
                Err(Fault::Malformed) => false,
            },
    {
        match Db::read(data) {
            Ok(db) => Ok(db),
            Err(Fault::Failed(e)) => Err(e),
            Err(Fault::Malformed) => {
                proof {
                    assert(false);
                }
                Err(DbError::Io)
            },
        }
    }
}

} // verus!
