//! Replay files (`.osr`): a header of score information, the LZMA-compressed
//! stream of the player's actions, and a tail with the online score id.
//!
//! The action stream is text: `time|x|y|buttons` entries separated by commas.
//! Cursor coordinates are decimal floating-point text; they are checked to be
//! such text and handed out as their bytes.

use crate::binary::spec_read_le;
use crate::binary::spec_read_string;
use crate::binary::{le_bytes, le_roundtrip, lemma_chunk, lemma_le_at, lemma_string_at, pow128, pow256, spec_string_bytes, writable_string};
use vstd::utf8::encode_utf8;
use crate::binary::ByteReader;
use crate::binary::Error;
use crate::enums::Mode;
use crate::text::spec_parse_int;
use crate::text::IntErrorKind;
use crate::text::spec_check_float;
use crate::text::FloatErrorKind;
use vstd::prelude::*;

verus! {

/// Errors that could occur while reading a replay.
#[derive(Debug, Clone, Copy, PartialEq, Eq, Structural)]
pub enum ReplayError {
    /// Error reading a binary field.
    Read(Error),
    /// The game mode byte is not 0, 1, 2 or 3.
    UnknownGameMode(u8),
    /// The action stream is not valid LZMA data.
    Decompress,
    /// A time or a button field of an action is not an integer.
    ParseInt(IntErrorKind),
    /// A cursor coordinate of an action is not a floating-point number.
    ParseFloat(FloatErrorKind),
}

/// The score information at the start of a replay file, as a specification.
pub struct ReplayHeader {
    pub mode: Mode,
    pub version: u32,
    pub beatmap_hash: Seq<char>,
    pub player_username: Seq<char>,
    pub replay_hash: Seq<char>,
    pub count_300: u16,
    pub count_100: u16,
    pub count_50: u16,
    pub count_geki: u16,
    pub count_katu: u16,
    pub count_miss: u16,
    pub score: u32,
    pub max_combo: u16,
    pub perfect: bool,
    pub mods: u32,
    pub life_graph: Seq<char>,
    pub timestamp: u64,
    pub replay_data_length: u32,
}

/// Reading the header of a replay file: the mode byte, then version, beatmap
/// hash, player name, replay hash, six hit counts, score, max combo, perfect
/// byte (true when 1), mods, life graph, timestamp and the length of the
/// compressed actions.
pub open spec fn spec_read_header(s: Seq<u8>) -> Result<(ReplayHeader, int), ReplayError> {
    match spec_read_le(s, 0, 1) {
        Err(e) => Err(ReplayError::Read(e)),
        Ok((m, p1)) => match Mode::spec_from_u8(m as u8) {
            None => Err(ReplayError::UnknownGameMode(m as u8)),
            Some(mode) => {
        match spec_read_le(s, p1, 4) {
            Err(e) => Err(ReplayError::Read(e)),
            Ok((version, p2)) => {
                match spec_read_string(s, p2) {
                    Err(e) => Err(ReplayError::Read(e)),
                    Ok((beatmap_hash, p3)) => {
                        match spec_read_string(s, p3) {
                            Err(e) => Err(ReplayError::Read(e)),
                            Ok((player_username, p4)) => {
                                match spec_read_string(s, p4) {
                                    Err(e) => Err(ReplayError::Read(e)),
                                    Ok((replay_hash, p5)) => {
                                        match spec_read_le(s, p5, 2) {
                                            Err(e) => Err(ReplayError::Read(e)),
                                            Ok((count_300, p6)) => {
                                                match spec_read_le(s, p6, 2) {
                                                    Err(e) => Err(ReplayError::Read(e)),
                                                    Ok((count_100, p7)) => {
                                                        match spec_read_le(s, p7, 2) {
                                                            Err(e) => Err(ReplayError::Read(e)),
                                                            Ok((count_50, p8)) => {
                                                                match spec_read_le(s, p8, 2) {
                                                                    Err(e) => Err(ReplayError::Read(e)),
                                                                    Ok((count_geki, p9)) => {
                                                                        match spec_read_le(s, p9, 2) {
                                                                            Err(e) => Err(ReplayError::Read(e)),
                                                                            Ok((count_katu, p10)) => {
                                                                                match spec_read_le(s, p10, 2) {
                                                                                    Err(e) => Err(ReplayError::Read(e)),
                                                                                    Ok((count_miss, p11)) => {
                                                                                        match spec_read_le(s, p11, 4) {
                                                                                            Err(e) => Err(ReplayError::Read(e)),
                                                                                            Ok((score, p12)) => {
                                                                                                match spec_read_le(s, p12, 2) {
                                                                                                    Err(e) => Err(ReplayError::Read(e)),
                                                                                                    Ok((max_combo, p13)) => {
                                                                                                        match spec_read_le(s, p13, 1) {
                                                                                                            Err(e) => Err(ReplayError::Read(e)),
                                                                                                            Ok((perfect, p14)) => {
                                                                                                                match spec_read_le(s, p14, 4) {
                                                                                                                    Err(e) => Err(ReplayError::Read(e)),
                                                                                                                    Ok((mods, p15)) => {
                                                                                                                        match spec_read_string(s, p15) {
                                                                                                                            Err(e) => Err(ReplayError::Read(e)),
                                                                                                                            Ok((life_graph, p16)) => {
                                                                                                                                match spec_read_le(s, p16, 8) {
                                                                                                                                    Err(e) => Err(ReplayError::Read(e)),
                                                                                                                                    Ok((timestamp, p17)) => {
                                                                                                                                        match spec_read_le(s, p17, 4) {
                                                                                                                                            Err(e) => Err(ReplayError::Read(e)),
                                                                                                                                            Ok((replay_data_length, p18)) => {
                                                                                                                                                Ok(
                                                                                                                                                    (
                                                                                                                                                        ReplayHeader {
                                                                                                                                                            mode,
                                                                                                                                                            version: version as u32,
                                                                                                                                                            beatmap_hash,
                                                                                                                                                            player_username,
                                                                                                                                                            replay_hash,
                                                                                                                                                            count_300: count_300 as u16,
                                                                                                                                                            count_100: count_100 as u16,
                                                                                                                                                            count_50: count_50 as u16,
                                                                                                                                                            count_geki: count_geki as u16,
                                                                                                                                                            count_katu: count_katu as u16,
                                                                                                                                                            count_miss: count_miss as u16,
                                                                                                                                                            score: score as u32,
                                                                                                                                                            max_combo: max_combo as u16,
                                                                                                                                                            perfect: perfect == 1,
                                                                                                                                                            mods: mods as u32,
                                                                                                                                                            life_graph,
                                                                                                                                                            timestamp: timestamp as u64,
                                                                                                                                                            replay_data_length: replay_data_length as u32,
                                                                                                                                                        },
                                                                                                                                                        p18,
                                                                                                                                                    ),
                                                                                                                                                )
                                                                                                                                            },
                                                                                                                                        }
                                                                                                                                    },
                                                                                                                                }
                                                                                                                            },
                                                                                                                        }
                                                                                                                    },
                                                                                                                }
                                                                                                            },
                                                                                                        }
                                                                                                    },
                                                                                                }
                                                                                            },
                                                                                        }
                                                                                    },
                                                                                }
                                                                            },
                                                                        }
                                                                    },
                                                                }
                                                            },
                                                        }
                                                    },
                                                }
                                            },
                                        }
                                    },
                                }
                            },
                        }
                    },
                }
            },
        }
            },
        },
    }
}

fn rd_u8(r: &mut ByteReader) -> (res: Result<u8, ReplayError>)
    requires
        old(r).wf(),
    ensures
        final(r).wf(),
        final(r).bytes() == old(r).bytes(),
        match spec_read_le(old(r).bytes(), old(r).position(), 1) {
            Ok((v, q)) => res == Ok::<u8, ReplayError>(v as u8) && v < 0x100 && final(r).position()
                == q,
            Err(e) => res == Err::<u8, ReplayError>(ReplayError::Read(e)),
        },
{
    proof {
        crate::binary::lemma_le_value_bound(r.bytes(), r.position(), 1);
    }
    match r.read_u8() {
        Ok(v) => Ok(v),
        Err(e) => Err(ReplayError::Read(e)),
    }
}

fn rd_u16(r: &mut ByteReader) -> (res: Result<u16, ReplayError>)
    requires
        old(r).wf(),
    ensures
        final(r).wf(),
        final(r).bytes() == old(r).bytes(),
        match spec_read_le(old(r).bytes(), old(r).position(), 2) {
            Ok((v, q)) => res == Ok::<u16, ReplayError>(v as u16) && final(r).position() == q,
            Err(e) => res == Err::<u16, ReplayError>(ReplayError::Read(e)),
        },
{
    match r.read_u16_le() {
        Ok(v) => Ok(v),
        Err(e) => Err(ReplayError::Read(e)),
    }
}

fn rd_u32(r: &mut ByteReader) -> (res: Result<u32, ReplayError>)
    requires
        old(r).wf(),
    ensures
        final(r).wf(),
        final(r).bytes() == old(r).bytes(),
        match spec_read_le(old(r).bytes(), old(r).position(), 4) {
            Ok((v, q)) => res == Ok::<u32, ReplayError>(v as u32) && final(r).position() == q,
            Err(e) => res == Err::<u32, ReplayError>(ReplayError::Read(e)),
        },
{
    match r.read_u32_le() {
        Ok(v) => Ok(v),
        Err(e) => Err(ReplayError::Read(e)),
    }
}

fn rd_u64(r: &mut ByteReader) -> (res: Result<u64, ReplayError>)
    requires
        old(r).wf(),
    ensures
        final(r).wf(),
        final(r).bytes() == old(r).bytes(),
        match spec_read_le(old(r).bytes(), old(r).position(), 8) {
            Ok((v, q)) => res == Ok::<u64, ReplayError>(v as u64) && final(r).position() == q,
            Err(e) => res == Err::<u64, ReplayError>(ReplayError::Read(e)),
        },
{
    match r.read_u64_le() {
        Ok(v) => Ok(v),
        Err(e) => Err(ReplayError::Read(e)),
    }
}

fn rd_string(r: &mut ByteReader) -> (res: Result<String, ReplayError>)
    requires
        old(r).wf(),
    ensures
        final(r).wf(),
        final(r).bytes() == old(r).bytes(),
        match spec_read_string(old(r).bytes(), old(r).position()) {
            Ok((v, q)) => res matches Ok(t) && t@ == v && final(r).position() == q,
            Err(e) => res matches Err(g) && g == ReplayError::Read(e),
        },
{
    match r.read_uleb128_string() {
        Ok(v) => Ok(v),
        Err(e) => Err(ReplayError::Read(e)),
    }
}

/// An action by the player while playing the map.
#[derive(Debug, Clone)]
pub struct ReplayAction {
    /// The time since the last replay action in milliseconds. After osu!
    /// version `20130319` the last action may have time `-12345`, and then
    /// `buttons` holds the RNG seed of the score.
    pub time: i64,
    /// The bytes of the decimal cursor position X, in the range 0-512.
    pub x: Vec<u8>,
    /// The bytes of the decimal cursor position Y, in the range 0-384.
    pub y: Vec<u8>,
    /// Bitwise combination of keys and mouse buttons pressed
    /// (M1 = 1, M2 = 2, K1 = 4, K2 = 8, Smoke = 16).
    pub buttons: u32,
}

/// A replay.
#[derive(Debug)]
pub struct Replay {
    /// Game mode that this replay was recorded for.
    pub mode: Mode,
    /// Game version this replay was recorded on.
    pub version: u32,
    /// MD5 hash of the beatmap.
    pub beatmap_hash: String,
    /// The username of the player.
    pub player_username: String,
    /// MD5 hash of this replay.
    pub replay_hash: String,
    /// The number of 300s.
    pub count_300: u16,
    /// The number of 100s, or 150s in taiko.
    pub count_100: u16,
    /// The number of 50s, or small fruit in catch.
    pub count_50: u16,
    /// The number of gekis, or max 300s in mania.
    pub count_geki: u16,
    /// The number of katus, or 200s in mania.
    pub count_katu: u16,
    /// The number of misses.
    pub count_miss: u16,
    /// Total score as displayed on the score report.
    pub score: u32,
    /// Max combo as displayed on the score report.
    pub max_combo: u16,
    /// True if the player has no misses, slider breaks or early finished sliders.
    pub perfect: bool,
    /// Mod values or'd together.
    pub mods: u32,
    /// Comma-separated `time/life` pairs of the life graph.
    pub life_graph: String,
    /// Timestamp of the replay in Windows ticks.
    pub timestamp: u64,
    /// Length of the compressed list of replay actions.
    pub replay_data_length: u32,
    /// The actions made by the player, in order.
    pub actions: Vec<ReplayAction>,
    /// Online id of this score, `0` if it was never submitted.
    pub score_id: u64,
    /// Bits of the `f64` total accuracy of all hits; present only when the
    /// mods include Target Practice (bit 23).
    pub target_practice_total_accuracy: Option<u64>,
}

impl Replay {
    /// Whether the replay's header fields are those of `h`.
    pub open spec fn has_header(&self, h: ReplayHeader) -> bool {
        &&& self.mode == h.mode
        &&& self.version == h.version
        &&& self.beatmap_hash@ == h.beatmap_hash
        &&& self.player_username@ == h.player_username
        &&& self.replay_hash@ == h.replay_hash
        &&& self.count_300 == h.count_300
        &&& self.count_100 == h.count_100
        &&& self.count_50 == h.count_50
        &&& self.count_geki == h.count_geki
        &&& self.count_katu == h.count_katu
        &&& self.count_miss == h.count_miss
        &&& self.score == h.score
        &&& self.max_combo == h.max_combo
        &&& self.perfect == h.perfect
        &&& self.mods == h.mods
        &&& self.life_graph@ == h.life_graph
        &&& self.timestamp == h.timestamp
        &&& self.replay_data_length == h.replay_data_length
    }

    /// Parses the header of a replay file. The returned replay has no
    /// actions, score id `0` and no target-practice accuracy.
    pub fn parse_header(data: &[u8]) -> (res: Result<Replay, ReplayError>)
        ensures
            match spec_read_header(data@) {
                Ok((h, _)) => res matches Ok(rp) && rp.has_header(h) && rp.actions@.len() == 0
                    && rp.score_id == 0 && rp.target_practice_total_accuracy is None,
                Err(e) => res matches Err(g) && g == e,
            },
    {
        let mut r = ByteReader::new(data);
        Replay::read_header(&mut r)
    }

    fn read_header(r: &mut ByteReader) -> (res: Result<Replay, ReplayError>)
        requires
            old(r).wf(),
            old(r).position() == 0,
        ensures
            final(r).wf(),
            final(r).bytes() == old(r).bytes(),
            match spec_read_header(old(r).bytes()) {
                Ok((h, q)) => res matches Ok(rp) && rp.has_header(h) && rp.actions@.len() == 0
                    && rp.score_id == 0 && rp.target_practice_total_accuracy is None
                    && final(r).position() == q,
                Err(e) => res matches Err(g) && g == e,
            },
    {
        let m = rd_u8(r)?;
        let mode = match Mode::from_u8(m) {
            Some(x) => x,
            None => return Err(ReplayError::UnknownGameMode(m)),
        };
        let version = rd_u32(r)?;
        let beatmap_hash = rd_string(r)?;
        let player_username = rd_string(r)?;
        let replay_hash = rd_string(r)?;
        let count_300 = rd_u16(r)?;
        let count_100 = rd_u16(r)?;
        let count_50 = rd_u16(r)?;
        let count_geki = rd_u16(r)?;
        let count_katu = rd_u16(r)?;
        let count_miss = rd_u16(r)?;
        let score = rd_u32(r)?;
        let max_combo = rd_u16(r)?;
        let perfect = rd_u8(r)? == 1;
        let mods = rd_u32(r)?;
        let life_graph = rd_string(r)?;
        let timestamp = rd_u64(r)?;
        let replay_data_length = rd_u32(r)?;
        Ok(
            Replay {
                mode,
            version,
            beatmap_hash,
            player_username,
            replay_hash,
            count_300,
            count_100,
            count_50,
            count_geki,
            count_katu,
            count_miss,
            score,
            max_combo,
            perfect,
            mods,
            life_graph,
            timestamp,
            replay_data_length,
                actions: Vec::new(),
                score_id: 0,
                target_practice_total_accuracy: None,
            },
        )
    }
}


/// The byte of the perfect flag: 1 for a perfect play, 0 otherwise.
pub open spec fn perfect_byte(perfect: bool) -> nat {
    if perfect {
        1
    } else {
        0
    }
}

/// The bytes of a replay header written field by field: the mode byte, the
/// version (4 bytes), the beatmap hash, player name and replay hash (strings),
/// the six hit counts (2 bytes each, in the order 300, 100, 50, geki, katu,
/// miss), the score (4), the max combo (2), the perfect byte, the mods (4),
/// the life graph (a string), the timestamp (8) and the length of the
/// compressed actions (4); numbers little-endian.
pub open spec fn spec_header_bytes(h: ReplayHeader) -> Seq<u8> {
    le_bytes(h.mode.spec_value() as nat, 1)
        + le_bytes(h.version as nat, 4)
        + spec_string_bytes(h.beatmap_hash)
        + spec_string_bytes(h.player_username)
        + spec_string_bytes(h.replay_hash)
        + le_bytes(h.count_300 as nat, 2)
        + le_bytes(h.count_100 as nat, 2)
        + le_bytes(h.count_50 as nat, 2)
        + le_bytes(h.count_geki as nat, 2)
        + le_bytes(h.count_katu as nat, 2)
        + le_bytes(h.count_miss as nat, 2)
        + le_bytes(h.score as nat, 4)
        + le_bytes(h.max_combo as nat, 2)
        + le_bytes(perfect_byte(h.perfect), 1)
        + le_bytes(h.mods as nat, 4)
        + spec_string_bytes(h.life_graph)
        + le_bytes(h.timestamp as nat, 8)
        + le_bytes(h.replay_data_length as nat, 4)
}


#[verifier::opaque]
spec fn header_chunk(h: ReplayHeader, i: int) -> Seq<u8> {
    if i == 0 {
        le_bytes(h.mode.spec_value() as nat, 1)
    } else if i == 1 {
        le_bytes(h.version as nat, 4)
    } else if i == 2 {
        spec_string_bytes(h.beatmap_hash)
    } else if i == 3 {
        spec_string_bytes(h.player_username)
    } else if i == 4 {
        spec_string_bytes(h.replay_hash)
    } else if i == 5 {
        le_bytes(h.count_300 as nat, 2)
    } else if i == 6 {
        le_bytes(h.count_100 as nat, 2)
    } else if i == 7 {
        le_bytes(h.count_50 as nat, 2)
    } else if i == 8 {
        le_bytes(h.count_geki as nat, 2)
    } else if i == 9 {
        le_bytes(h.count_katu as nat, 2)
    } else if i == 10 {
        le_bytes(h.count_miss as nat, 2)
    } else if i == 11 {
        le_bytes(h.score as nat, 4)
    } else if i == 12 {
        le_bytes(h.max_combo as nat, 2)
    } else if i == 13 {
        le_bytes(perfect_byte(h.perfect), 1)
    } else if i == 14 {
        le_bytes(h.mods as nat, 4)
    } else if i == 15 {
        spec_string_bytes(h.life_graph)
    } else if i == 16 {
        le_bytes(h.timestamp as nat, 8)
    } else {
        le_bytes(h.replay_data_length as nat, 4)
    }
}

#[verifier::opaque]
spec fn header_prefix(h: ReplayHeader, i: nat) -> Seq<u8>
    decreases i,
{
    if i == 0 {
        Seq::empty()
    } else {
        header_prefix(h, (i - 1) as nat) + header_chunk(h, i - 1)
    }
}

proof fn lemma_prefix_whole(h: ReplayHeader)
    ensures
        header_prefix(h, 18) == spec_header_bytes(h),
{
    reveal(header_chunk);
    reveal_with_fuel(header_prefix, 19);
    assert(header_prefix(h, 18) =~= spec_header_bytes(h));
}

proof fn lemma_prefixes(h: ReplayHeader, s: Seq<u8>, i: nat)
    requires
        i <= 18,
        header_prefix(h, 18).len() <= s.len(),
        s.subrange(0, header_prefix(h, 18).len() as int) == header_prefix(h, 18),
    ensures
        header_prefix(h, i).len() <= s.len(),
        s.subrange(0, header_prefix(h, i).len() as int) == header_prefix(h, i),
        i < 18 ==> header_prefix(h, i + 1).len() == header_prefix(h, i).len() + header_chunk(h, i as int).len(),
        i < 18 ==> s.subrange(
            header_prefix(h, i).len() as int,
            (header_prefix(h, i).len() + header_chunk(h, i as int).len()) as int,
        ) == header_chunk(h, i as int),
    decreases 18 - i,
{
    if i < 18 {
        lemma_prefixes(h, s, i + 1);
        reveal_with_fuel(header_prefix, 2);
        assert(header_prefix(h, i + 1) == header_prefix(h, i) + header_chunk(h, i as int));
        lemma_chunk(header_prefix(h, i), header_chunk(h, i as int), s);
    }
}

proof fn lemma_header_le(h: ReplayHeader, s: Seq<u8>, i: nat, v: nat, n: nat)
    requires
        i < 18,
        header_prefix(h, 18).len() <= s.len(),
        s.subrange(0, header_prefix(h, 18).len() as int) == header_prefix(h, 18),
        header_chunk(h, i as int) == le_bytes(v, n),
        v < pow256(n),
    ensures
        spec_read_le(s, header_prefix(h, i).len() as int, n) == Ok::<(nat, int), crate::binary::Error>(
            (v, header_prefix(h, i + 1).len() as int),
        ),
{
    lemma_prefixes(h, s, i);
    lemma_prefixes(h, s, i + 1);
    lemma_le_at(s, header_prefix(h, i).len() as int, v, n);
}

proof fn lemma_header_string(h: ReplayHeader, s: Seq<u8>, i: nat, t: Seq<char>)
    requires
        i < 18,
        header_prefix(h, 18).len() <= s.len(),
        s.subrange(0, header_prefix(h, 18).len() as int) == header_prefix(h, 18),
        header_chunk(h, i as int) == spec_string_bytes(t),
        writable_string(t),
    ensures
        spec_read_string(s, header_prefix(h, i).len() as int) == Ok::<(Seq<char>, int), crate::binary::Error>(
            (t, header_prefix(h, i + 1).len() as int),
        ),
{
    lemma_prefixes(h, s, i);
    lemma_prefixes(h, s, i + 1);
    lemma_string_at(s, header_prefix(h, i).len() as int, t);
}

proof fn lemma_header_field_0(h: ReplayHeader, s: Seq<u8>)
    requires
        header_prefix(h, 18).len() <= s.len(),
        s.subrange(0, header_prefix(h, 18).len() as int) == header_prefix(h, 18),
    ensures
        spec_read_le(s, header_prefix(h, 0).len() as int, 1) == Ok::<(nat, int), crate::binary::Error>(
            (h.mode.spec_value() as nat, header_prefix(h, 1).len() as int),
        ),
{
    reveal(header_chunk);
    reveal_with_fuel(pow256, 9);
    assert(pow256(1) > h.mode.spec_value() as nat) by {
        assert(pow256(1) == 0x100 && pow256(2) == 0x1_0000 && pow256(4) == 0x1_0000_0000 && pow256(8) == 0x1_0000_0000_0000_0000);
    }
    lemma_header_le(h, s, 0, h.mode.spec_value() as nat, 1);
}

proof fn lemma_header_field_1(h: ReplayHeader, s: Seq<u8>)
    requires
        header_prefix(h, 18).len() <= s.len(),
        s.subrange(0, header_prefix(h, 18).len() as int) == header_prefix(h, 18),
    ensures
        spec_read_le(s, header_prefix(h, 1).len() as int, 4) == Ok::<(nat, int), crate::binary::Error>(
            (h.version as nat, header_prefix(h, 2).len() as int),
        ),
{
    reveal(header_chunk);
    reveal_with_fuel(pow256, 9);
    assert(pow256(4) > h.version as nat) by {
        assert(pow256(1) == 0x100 && pow256(2) == 0x1_0000 && pow256(4) == 0x1_0000_0000 && pow256(8) == 0x1_0000_0000_0000_0000);
    }
    lemma_header_le(h, s, 1, h.version as nat, 4);
}

proof fn lemma_header_field_2(h: ReplayHeader, s: Seq<u8>)
    requires
        header_prefix(h, 18).len() <= s.len(),
        s.subrange(0, header_prefix(h, 18).len() as int) == header_prefix(h, 18),
        writable_string(h.beatmap_hash),
    ensures
        spec_read_string(s, header_prefix(h, 2).len() as int) == Ok::<(Seq<char>, int), crate::binary::Error>(
            (h.beatmap_hash, header_prefix(h, 3).len() as int),
        ),
{
    reveal(header_chunk);
    lemma_header_string(h, s, 2, h.beatmap_hash);
}

proof fn lemma_header_field_3(h: ReplayHeader, s: Seq<u8>)
    requires
        header_prefix(h, 18).len() <= s.len(),
        s.subrange(0, header_prefix(h, 18).len() as int) == header_prefix(h, 18),
        writable_string(h.player_username),
    ensures
        spec_read_string(s, header_prefix(h, 3).len() as int) == Ok::<(Seq<char>, int), crate::binary::Error>(
            (h.player_username, header_prefix(h, 4).len() as int),
        ),
{
    reveal(header_chunk);
    lemma_header_string(h, s, 3, h.player_username);
}

proof fn lemma_header_field_4(h: ReplayHeader, s: Seq<u8>)
    requires
        header_prefix(h, 18).len() <= s.len(),
        s.subrange(0, header_prefix(h, 18).len() as int) == header_prefix(h, 18),
        writable_string(h.replay_hash),
    ensures
        spec_read_string(s, header_prefix(h, 4).len() as int) == Ok::<(Seq<char>, int), crate::binary::Error>(
            (h.replay_hash, header_prefix(h, 5).len() as int),
        ),
{
    reveal(header_chunk);
    lemma_header_string(h, s, 4, h.replay_hash);
}

proof fn lemma_header_field_5(h: ReplayHeader, s: Seq<u8>)
    requires
        header_prefix(h, 18).len() <= s.len(),
        s.subrange(0, header_prefix(h, 18).len() as int) == header_prefix(h, 18),
    ensures
        spec_read_le(s, header_prefix(h, 5).len() as int, 2) == Ok::<(nat, int), crate::binary::Error>(
            (h.count_300 as nat, header_prefix(h, 6).len() as int),
        ),
{
    reveal(header_chunk);
    reveal_with_fuel(pow256, 9);
    assert(pow256(2) > h.count_300 as nat) by {
        assert(pow256(1) == 0x100 && pow256(2) == 0x1_0000 && pow256(4) == 0x1_0000_0000 && pow256(8) == 0x1_0000_0000_0000_0000);
    }
    lemma_header_le(h, s, 5, h.count_300 as nat, 2);
}

proof fn lemma_header_field_6(h: ReplayHeader, s: Seq<u8>)
    requires
        header_prefix(h, 18).len() <= s.len(),
        s.subrange(0, header_prefix(h, 18).len() as int) == header_prefix(h, 18),
    ensures
        spec_read_le(s, header_prefix(h, 6).len() as int, 2) == Ok::<(nat, int), crate::binary::Error>(
            (h.count_100 as nat, header_prefix(h, 7).len() as int),
        ),
{
    reveal(header_chunk);
    reveal_with_fuel(pow256, 9);
    assert(pow256(2) > h.count_100 as nat) by {
        assert(pow256(1) == 0x100 && pow256(2) == 0x1_0000 && pow256(4) == 0x1_0000_0000 && pow256(8) == 0x1_0000_0000_0000_0000);
    }
    lemma_header_le(h, s, 6, h.count_100 as nat, 2);
}

proof fn lemma_header_field_7(h: ReplayHeader, s: Seq<u8>)
    requires
        header_prefix(h, 18).len() <= s.len(),
        s.subrange(0, header_prefix(h, 18).len() as int) == header_prefix(h, 18),
    ensures
        spec_read_le(s, header_prefix(h, 7).len() as int, 2) == Ok::<(nat, int), crate::binary::Error>(
            (h.count_50 as nat, header_prefix(h, 8).len() as int),
        ),
{
    reveal(header_chunk);
    reveal_with_fuel(pow256, 9);
    assert(pow256(2) > h.count_50 as nat) by {
        assert(pow256(1) == 0x100 && pow256(2) == 0x1_0000 && pow256(4) == 0x1_0000_0000 && pow256(8) == 0x1_0000_0000_0000_0000);
    }
    lemma_header_le(h, s, 7, h.count_50 as nat, 2);
}

proof fn lemma_header_field_8(h: ReplayHeader, s: Seq<u8>)
    requires
        header_prefix(h, 18).len() <= s.len(),
        s.subrange(0, header_prefix(h, 18).len() as int) == header_prefix(h, 18),
    ensures
        spec_read_le(s, header_prefix(h, 8).len() as int, 2) == Ok::<(nat, int), crate::binary::Error>(
            (h.count_geki as nat, header_prefix(h, 9).len() as int),
        ),
{
    reveal(header_chunk);
    reveal_with_fuel(pow256, 9);
    assert(pow256(2) > h.count_geki as nat) by {
        assert(pow256(1) == 0x100 && pow256(2) == 0x1_0000 && pow256(4) == 0x1_0000_0000 && pow256(8) == 0x1_0000_0000_0000_0000);
    }
    lemma_header_le(h, s, 8, h.count_geki as nat, 2);
}

proof fn lemma_header_field_9(h: ReplayHeader, s: Seq<u8>)
    requires
        header_prefix(h, 18).len() <= s.len(),
        s.subrange(0, header_prefix(h, 18).len() as int) == header_prefix(h, 18),
    ensures
        spec_read_le(s, header_prefix(h, 9).len() as int, 2) == Ok::<(nat, int), crate::binary::Error>(
            (h.count_katu as nat, header_prefix(h, 10).len() as int),
        ),
{
    reveal(header_chunk);
    reveal_with_fuel(pow256, 9);
    assert(pow256(2) > h.count_katu as nat) by {
        assert(pow256(1) == 0x100 && pow256(2) == 0x1_0000 && pow256(4) == 0x1_0000_0000 && pow256(8) == 0x1_0000_0000_0000_0000);
    }
    lemma_header_le(h, s, 9, h.count_katu as nat, 2);
}

proof fn lemma_header_field_10(h: ReplayHeader, s: Seq<u8>)
    requires
        header_prefix(h, 18).len() <= s.len(),
        s.subrange(0, header_prefix(h, 18).len() as int) == header_prefix(h, 18),
    ensures
        spec_read_le(s, header_prefix(h, 10).len() as int, 2) == Ok::<(nat, int), crate::binary::Error>(
            (h.count_miss as nat, header_prefix(h, 11).len() as int),
        ),
{
    reveal(header_chunk);
    reveal_with_fuel(pow256, 9);
    assert(pow256(2) > h.count_miss as nat) by {
        assert(pow256(1) == 0x100 && pow256(2) == 0x1_0000 && pow256(4) == 0x1_0000_0000 && pow256(8) == 0x1_0000_0000_0000_0000);
    }
    lemma_header_le(h, s, 10, h.count_miss as nat, 2);
}

proof fn lemma_header_field_11(h: ReplayHeader, s: Seq<u8>)
    requires
        header_prefix(h, 18).len() <= s.len(),
        s.subrange(0, header_prefix(h, 18).len() as int) == header_prefix(h, 18),
    ensures
        spec_read_le(s, header_prefix(h, 11).len() as int, 4) == Ok::<(nat, int), crate::binary::Error>(
            (h.score as nat, header_prefix(h, 12).len() as int),
        ),
{
    reveal(header_chunk);
    reveal_with_fuel(pow256, 9);
    assert(pow256(4) > h.score as nat) by {
        assert(pow256(1) == 0x100 && pow256(2) == 0x1_0000 && pow256(4) == 0x1_0000_0000 && pow256(8) == 0x1_0000_0000_0000_0000);
    }
    lemma_header_le(h, s, 11, h.score as nat, 4);
}

proof fn lemma_header_field_12(h: ReplayHeader, s: Seq<u8>)
    requires
        header_prefix(h, 18).len() <= s.len(),
        s.subrange(0, header_prefix(h, 18).len() as int) == header_prefix(h, 18),
    ensures
        spec_read_le(s, header_prefix(h, 12).len() as int, 2) == Ok::<(nat, int), crate::binary::Error>(
            (h.max_combo as nat, header_prefix(h, 13).len() as int),
        ),
{
    reveal(header_chunk);
    reveal_with_fuel(pow256, 9);
    assert(pow256(2) > h.max_combo as nat) by {
        assert(pow256(1) == 0x100 && pow256(2) == 0x1_0000 && pow256(4) == 0x1_0000_0000 && pow256(8) == 0x1_0000_0000_0000_0000);
    }
    lemma_header_le(h, s, 12, h.max_combo as nat, 2);
}

proof fn lemma_header_field_13(h: ReplayHeader, s: Seq<u8>)
    requires
        header_prefix(h, 18).len() <= s.len(),
        s.subrange(0, header_prefix(h, 18).len() as int) == header_prefix(h, 18),
    ensures
        spec_read_le(s, header_prefix(h, 13).len() as int, 1) == Ok::<(nat, int), crate::binary::Error>(
            (perfect_byte(h.perfect), header_prefix(h, 14).len() as int),
        ),
{
    reveal(header_chunk);
    reveal_with_fuel(pow256, 9);
    assert(pow256(1) > perfect_byte(h.perfect)) by {
        assert(pow256(1) == 0x100 && pow256(2) == 0x1_0000 && pow256(4) == 0x1_0000_0000 && pow256(8) == 0x1_0000_0000_0000_0000);
    }
    lemma_header_le(h, s, 13, perfect_byte(h.perfect), 1);
}

proof fn lemma_header_field_14(h: ReplayHeader, s: Seq<u8>)
    requires
        header_prefix(h, 18).len() <= s.len(),
        s.subrange(0, header_prefix(h, 18).len() as int) == header_prefix(h, 18),
    ensures
        spec_read_le(s, header_prefix(h, 14).len() as int, 4) == Ok::<(nat, int), crate::binary::Error>(
            (h.mods as nat, header_prefix(h, 15).len() as int),
        ),
{
    reveal(header_chunk);
    reveal_with_fuel(pow256, 9);
    assert(pow256(4) > h.mods as nat) by {
        assert(pow256(1) == 0x100 && pow256(2) == 0x1_0000 && pow256(4) == 0x1_0000_0000 && pow256(8) == 0x1_0000_0000_0000_0000);
    }
    lemma_header_le(h, s, 14, h.mods as nat, 4);
}

proof fn lemma_header_field_15(h: ReplayHeader, s: Seq<u8>)
    requires
        header_prefix(h, 18).len() <= s.len(),
        s.subrange(0, header_prefix(h, 18).len() as int) == header_prefix(h, 18),
        writable_string(h.life_graph),
    ensures
        spec_read_string(s, header_prefix(h, 15).len() as int) == Ok::<(Seq<char>, int), crate::binary::Error>(
            (h.life_graph, header_prefix(h, 16).len() as int),
        ),
{
    reveal(header_chunk);
    lemma_header_string(h, s, 15, h.life_graph);
}

proof fn lemma_header_field_16(h: ReplayHeader, s: Seq<u8>)
    requires
        header_prefix(h, 18).len() <= s.len(),
        s.subrange(0, header_prefix(h, 18).len() as int) == header_prefix(h, 18),
    ensures
        spec_read_le(s, header_prefix(h, 16).len() as int, 8) == Ok::<(nat, int), crate::binary::Error>(
            (h.timestamp as nat, header_prefix(h, 17).len() as int),
        ),
{
    reveal(header_chunk);
    reveal_with_fuel(pow256, 9);
    assert(pow256(8) > h.timestamp as nat) by {
        assert(pow256(1) == 0x100 && pow256(2) == 0x1_0000 && pow256(4) == 0x1_0000_0000 && pow256(8) == 0x1_0000_0000_0000_0000);
    }
    lemma_header_le(h, s, 16, h.timestamp as nat, 8);
}

proof fn lemma_header_field_17(h: ReplayHeader, s: Seq<u8>)
    requires
        header_prefix(h, 18).len() <= s.len(),
        s.subrange(0, header_prefix(h, 18).len() as int) == header_prefix(h, 18),
    ensures
        spec_read_le(s, header_prefix(h, 17).len() as int, 4) == Ok::<(nat, int), crate::binary::Error>(
            (h.replay_data_length as nat, header_prefix(h, 18).len() as int),
        ),
{
    reveal(header_chunk);
    reveal_with_fuel(pow256, 9);
    assert(pow256(4) > h.replay_data_length as nat) by {
        assert(pow256(1) == 0x100 && pow256(2) == 0x1_0000 && pow256(4) == 0x1_0000_0000 && pow256(8) == 0x1_0000_0000_0000_0000);
    }
    lemma_header_le(h, s, 17, h.replay_data_length as nat, 4);
}

proof fn lemma_header_start(h: ReplayHeader)
    ensures
        header_prefix(h, 0).len() == 0,
{
    reveal_with_fuel(header_prefix, 1);
}

/// A replay header written field by field (see [`spec_header_bytes`]) reads
/// back as itself, whatever follows it: each hit count, the score, the
/// combo and every other field come back from their own place in the bytes.
#[verifier::rlimit(100)]
pub proof fn header_roundtrip(h: ReplayHeader, rest: Seq<u8>)
    requires
        writable_string(h.beatmap_hash),
        writable_string(h.player_username),
        writable_string(h.replay_hash),
        writable_string(h.life_graph),
    ensures
        spec_read_header(spec_header_bytes(h) + rest) == Ok::<(ReplayHeader, int), ReplayError>(
            (h, spec_header_bytes(h).len() as int),
        ),
{
    let s = spec_header_bytes(h) + rest;
    lemma_prefix_whole(h);
    assert(s.subrange(0, header_prefix(h, 18).len() as int) =~= header_prefix(h, 18));
    lemma_header_start(h);
    lemma_header_field_0(h, s);
    lemma_header_field_1(h, s);
    lemma_header_field_2(h, s);
    lemma_header_field_3(h, s);
    lemma_header_field_4(h, s);
    lemma_header_field_5(h, s);
    lemma_header_field_6(h, s);
    lemma_header_field_7(h, s);
    lemma_header_field_8(h, s);
    lemma_header_field_9(h, s);
    lemma_header_field_10(h, s);
    lemma_header_field_11(h, s);
    lemma_header_field_12(h, s);
    lemma_header_field_13(h, s);
    lemma_header_field_14(h, s);
    lemma_header_field_15(h, s);
    lemma_header_field_16(h, s);
    lemma_header_field_17(h, s);
    assert(Mode::spec_from_u8(h.mode.spec_value()) == Some(h.mode));
}

/// The index of the first `b` at or after `p`, or the length of `s` when
/// there is none.
pub open spec fn find_byte(s: Seq<u8>, p: int, b: u8) -> int
    decreases s.len() - p,
{
    if p < 0 || p >= s.len() {
        s.len() as int
    } else if s[p] == b {
        p
    } else {
        find_byte(s, p + 1, b)
    }
}

/// Where a read up to and including the delimiter `b` stops when it starts at
/// `p`: just after the first `b`, or at the end of `s`.
pub open spec fn read_until_end(s: Seq<u8>, p: int, b: u8) -> int {
    let j = find_byte(s, p, b);
    if j < s.len() {
        j + 1
    } else {
        s.len() as int
    }
}

/// `find_byte` gives the first occurrence at or after `p`, or the end.
pub proof fn lemma_find_byte(s: Seq<u8>, p: int, b: u8)
    requires
        0 <= p <= s.len(),
    ensures
        p <= find_byte(s, p, b) <= s.len(),
        find_byte(s, p, b) < s.len() ==> s[find_byte(s, p, b)] == b,
        forall|k: int| p <= k < find_byte(s, p, b) ==> s[k] != b,
    decreases s.len() - p,
{
    if p < s.len() && s[p] != b {
        lemma_find_byte(s, p + 1, b);
    }
}

/// The character that stands for byte `b` when reading numbers: ASCII bytes
/// are themselves, any other byte is a replacement character (no digit).
pub open spec fn byte_char(b: u8) -> char {
    if b < 128 {
        b as char
    } else {
        '\u{FFFD}'
    }
}

/// The characters standing for a sequence of bytes.
pub open spec fn lossy_chars(s: Seq<u8>) -> Seq<char> {
    s.map_values(|b: u8| byte_char(b))
}

/// An action of the stream, as a specification.
pub struct ActionView {
    pub time: i64,
    pub x: Seq<u8>,
    pub y: Seq<u8>,
    pub buttons: u32,
}

impl ReplayAction {
    /// The action as a specification.
    pub open spec fn view(&self) -> ActionView {
        ActionView { time: self.time, x: self.x@, y: self.y@, buttons: self.buttons }
    }
}

/// What one step of the action stream yields.
pub enum ActionStep {
    /// The stream is exhausted.
    End,
    /// The next action.
    Action(ActionView),
    /// A field of the next action is not an integer.
    Failed(ReplayError),
    /// The stream ends right after the time of an action, or after its X
    /// coordinate, where the format expects another field.
    Malformed,
}

/// One step of the action stream at `p`: the time up to `|`, the X and Y
/// coordinates up to `|`, the buttons up to `,` or the end. Each field is the
/// bytes read without their last byte, except the buttons, which drop a final
/// `,` only. The fields are checked in that order, each as soon as it is read.
/// Returns the step and the position after it.
pub open spec fn spec_next_action(s: Seq<u8>, p: int) -> (ActionStep, int) {
    if p < 0 || p >= s.len() {
        (ActionStep::End, p)
    } else {
        let p1 = read_until_end(s, p, 0x7c);
        match spec_parse_int(lossy_chars(s.subrange(p, p1 - 1)), i64::MIN as int, i64::MAX as int) {
            Err(k) => (ActionStep::Failed(ReplayError::ParseInt(k)), p1),
            Ok(time) => if p1 >= s.len() {
                (ActionStep::Malformed, p1)
            } else {
                let p2 = read_until_end(s, p1, 0x7c);
                if let Err(k) = spec_check_float(lossy_chars(s.subrange(p1, p2 - 1))) {
                    (ActionStep::Failed(ReplayError::ParseFloat(k)), p2)
                } else if p2 >= s.len() {
                    (ActionStep::Malformed, p2)
                } else {
                    let p3 = read_until_end(s, p2, 0x7c);
                    if let Err(k) = spec_check_float(lossy_chars(s.subrange(p2, p3 - 1))) {
                        (ActionStep::Failed(ReplayError::ParseFloat(k)), p3)
                    } else {
                        let p4 = read_until_end(s, p3, 0x2c);
                        let b = s.subrange(p3, p4);
                        let digits = if b.len() > 0 && b.last() == 0x2c {
                            b.drop_last()
                        } else {
                            b
                        };
                        match spec_parse_int(lossy_chars(digits), 0, u32::MAX as int) {
                            Err(k) => (ActionStep::Failed(ReplayError::ParseInt(k)), p4),
                            Ok(buttons) => (
                                ActionStep::Action(
                                    ActionView {
                                        time: time as i64,
                                        x: s.subrange(p1, p2 - 1),
                                        y: s.subrange(p2, p3 - 1),
                                        buttons: buttons as u32,
                                    },
                                ),
                                p4,
                            ),
                        }
                    }
                }
            },
        }
    }
}

/// How reading a whole replay can go wrong.
pub enum Outcome {
    /// Reading fails with this error.
    Failed(ReplayError),
    /// The action stream is malformed (see [`ActionStep::Malformed`]).
    Malformed,
}

/// One step of the action stream moves forward.
pub proof fn lemma_next_action_advances(s: Seq<u8>, p: int)
    requires
        0 <= p < s.len(),
    ensures
        spec_next_action(s, p).1 > p,
        spec_next_action(s, p).1 <= s.len(),
{
    lemma_find_byte(s, p, 0x7c);
    let p1 = read_until_end(s, p, 0x7c);
    if p1 < s.len() {
        lemma_find_byte(s, p1, 0x7c);
        let p2 = read_until_end(s, p1, 0x7c);
        if p2 < s.len() {
            lemma_find_byte(s, p2, 0x7c);
            let p3 = read_until_end(s, p2, 0x7c);
            lemma_find_byte(s, p3, 0x2c);
        }
    }
}

/// The first `b` at or after `p` is at `q` when `s[q]` is `b` and none of
/// `s[p..q]` is.
proof fn lemma_find_byte_at(s: Seq<u8>, p: int, q: int, b: u8)
    requires
        0 <= p <= q < s.len(),
        s[q] == b,
        forall|k: int| p <= k < q ==> s[k] != b,
    ensures
        find_byte(s, p, b) == q,
    decreases q - p,
{
    if p < q {
        lemma_find_byte_at(s, p + 1, q, b);
    }
}

/// The text of one action, `time|x|y|buttons,`, in that order.
pub open spec fn action_text(time: Seq<u8>, x: Seq<u8>, y: Seq<u8>, buttons: Seq<u8>) -> Seq<u8> {
    time + seq![0x7cu8] + x + seq![0x7cu8] + y + seq![0x7cu8] + buttons + seq![0x2cu8]
}

/// An action written as `time|x|y|buttons,` (no `|` in the first three
/// fields, no `,` in the buttons) reads back as the action whose time is the
/// number in the first field, whose X and Y coordinates are the second and
/// third fields, and whose buttons are the number in the last, whatever
/// follows it; the next action starts right after the `,`.
pub proof fn action_text_read(time: Seq<u8>, x: Seq<u8>, y: Seq<u8>, buttons: Seq<u8>, rest: Seq<u8>)
    requires
        forall|k: int| 0 <= k < time.len() ==> time[k] != 0x7cu8,
        forall|k: int| 0 <= k < x.len() ==> x[k] != 0x7cu8,
        forall|k: int| 0 <= k < y.len() ==> y[k] != 0x7cu8,
        forall|k: int| 0 <= k < buttons.len() ==> buttons[k] != 0x2cu8,
        spec_parse_int(lossy_chars(time), i64::MIN as int, i64::MAX as int) is Ok,
        spec_check_float(lossy_chars(x)) is Ok,
        spec_check_float(lossy_chars(y)) is Ok,
        spec_parse_int(lossy_chars(buttons), 0, u32::MAX as int) is Ok,
    ensures
        spec_next_action(action_text(time, x, y, buttons) + rest, 0) == (
            ActionStep::Action(
                ActionView {
                    time: spec_parse_int(lossy_chars(time), i64::MIN as int, i64::MAX as int)->Ok_0 as i64,
                    x,
                    y,
                    buttons: spec_parse_int(lossy_chars(buttons), 0, u32::MAX as int)->Ok_0 as u32,
                },
            ),
            action_text(time, x, y, buttons).len() as int,
        ),
{
    let s = action_text(time, x, y, buttons) + rest;
    let q1 = time.len() as int;
    let q2 = q1 + 1 + x.len();
    let q3 = q2 + 1 + y.len();
    let q4 = q3 + 1 + buttons.len();
    assert(s.len() == q4 + 1 + rest.len());
    assert forall|k: int| 0 <= k < q1 implies s[k] == time[k] by {}
    assert forall|k: int| q1 + 1 <= k < q2 implies s[k] == x[k - q1 - 1] by {}
    assert forall|k: int| q2 + 1 <= k < q3 implies s[k] == y[k - q2 - 1] by {}
    assert forall|k: int| q3 + 1 <= k < q4 implies s[k] == buttons[k - q3 - 1] by {}
    assert(s[q1] == 0x7cu8);
    assert(s[q2] == 0x7cu8);
    assert(s[q3] == 0x7cu8);
    assert(s[q4] == 0x2cu8);
    lemma_find_byte_at(s, 0, q1, 0x7cu8);
    lemma_find_byte_at(s, q1 + 1, q2, 0x7cu8);
    lemma_find_byte_at(s, q2 + 1, q3, 0x7cu8);
    lemma_find_byte_at(s, q3 + 1, q4, 0x2cu8);
    assert(s.subrange(0, q1) =~= time);
    assert(s.subrange(q1 + 1, q2) =~= x);
    assert(s.subrange(q2 + 1, q3) =~= y);
    assert(s.subrange(q3 + 1, q4 + 1).drop_last() =~= buttons);
}

/// Reading the whole action stream from `p`: the actions up to the end, or
/// the first failure.
pub open spec fn spec_read_actions(s: Seq<u8>, p: int) -> Result<Seq<ActionView>, Outcome>
    decreases s.len() - p,
{
    if p < 0 || p >= s.len() {
        Ok(Seq::empty())
    } else {
        proof {
            lemma_next_action_advances(s, p);
        }
        match spec_next_action(s, p) {
            (ActionStep::Action(a), q) => match spec_read_actions(s, q) {
                Ok(rest) => Ok(seq![a] + rest),
                Err(f) => Err(f),
            },
            (ActionStep::Failed(e), _) => Err(Outcome::Failed(e)),
            (ActionStep::Malformed, _) => Err(Outcome::Malformed),
            (ActionStep::End, _) => Ok(Seq::empty()),
        }
    }
}


fn byte_char_of(b: u8) -> (c: char)
    ensures
        c == byte_char(b),
{
    if b < 128 {
        b as char
    } else {
        '\u{FFFD}'
    }
}

/// Reads `data[lo..hi]` as a decimal integer of a type whose values are
/// `[min, max]`, every non-ASCII byte standing for a non-digit.
fn parse_int_bytes(data: &[u8], lo: usize, hi: usize, min: i128, max: i128) -> (r: Result<
    i128,
    IntErrorKind,
>)
    requires
        lo <= hi <= data@.len(),
        -0x8000_0000_0000_0000 <= min <= 0 < max <= 0xffff_ffff_ffff_ffff,
    ensures
        match spec_parse_int(lossy_chars(data@.subrange(lo as int, hi as int)), min as int, max as int) {
            Ok(n) => r == Ok::<i128, IntErrorKind>(n as i128) && min <= n <= max,
            Err(e) => r == Err::<i128, IntErrorKind>(e),
        },
{
    let chars = lossy_vec(data, lo, hi);
    let n = chars.len();
    assert(chars@.subrange(0, n as int) =~= chars@);
    crate::text::parse_int(&chars, 0, n, min, max)
}

/// The characters standing for `data[lo..hi]`.
fn lossy_vec(data: &[u8], lo: usize, hi: usize) -> (chars: Vec<char>)
    requires
        lo <= hi <= data@.len(),
    ensures
        chars@ == lossy_chars(data@.subrange(lo as int, hi as int)),
{
    let mut chars: Vec<char> = Vec::new();
    let mut i = lo;
    while i < hi
        invariant
            lo <= i <= hi,
            hi <= data@.len(),
            chars@ == lossy_chars(data@.subrange(lo as int, i as int)),
        decreases hi - i,
    {
        chars.push(byte_char_of(data[i]));
        assert(lossy_chars(data@.subrange(lo as int, i + 1)) =~= lossy_chars(
            data@.subrange(lo as int, i as int),
        ).push(byte_char(data@[i as int])));
        i = i + 1;
    }
    chars
}

/// Checks that `data[lo..hi]` is floating-point text, every non-ASCII byte
/// standing for a character that is not part of a number.
fn check_float_bytes(data: &[u8], lo: usize, hi: usize) -> (r: Result<(), FloatErrorKind>)
    requires
        lo <= hi <= data@.len(),
    ensures
        r == spec_check_float(lossy_chars(data@.subrange(lo as int, hi as int))),
{
    let chars = lossy_vec(data, lo, hi);
    let n = chars.len();
    assert(chars@.subrange(0, n as int) =~= chars@);
    crate::text::check_float(&chars, 0, n)
}

/// Iterator over the actions of a decompressed action stream.
pub struct ReplayActionParserIter<'a> {
    data: &'a [u8],
    pos: usize,
}

impl<'a> ReplayActionParserIter<'a> {
    /// The bytes of the stream.
    pub closed spec fn bytes(&self) -> Seq<u8> {
        self.data@
    }

    /// The position of the next byte to read.
    pub closed spec fn position(&self) -> int {
        self.pos as int
    }

    /// The iterator's invariant: the position lies within the stream.
    pub closed spec fn wf(&self) -> bool {
        self.pos <= self.data@.len()
    }

    fn new(data: &'a [u8]) -> (r: ReplayActionParserIter<'a>)
        ensures
            r.wf(),
            r.bytes() == data@,
            r.position() == 0,
    {
        ReplayActionParserIter { data, pos: 0 }
    }

    /// The end of a read from `from` up to and including `delim`.
    fn read_until(&self, from: usize, delim: u8) -> (end: usize)
        requires
            from <= self.data@.len(),
        ensures
            end == read_until_end(self.data@, from as int, delim),
    {
        let mut j = from;
        while j < self.data.len()
            invariant
                from <= j <= self.data@.len(),
                find_byte(self.data@, from as int, delim) == find_byte(self.data@, j as int, delim),
            decreases self.data@.len() - j,
        {
            if self.data[j] == delim {
                return j + 1;
            }
            j = j + 1;
        }
        j
    }

    /// Reads the time of the next action: `None` at the end of the stream.
    fn read_time(&mut self) -> (r: Result<Option<i64>, ReplayError>)
        requires
            old(self).wf(),
        ensures
            final(self).wf(),
            final(self).bytes() == old(self).bytes(),
            ({
                let s = old(self).bytes();
                let p = old(self).position();
                if p >= s.len() {
                    r == Ok::<Option<i64>, ReplayError>(None) && final(self).position() == p
                } else {
                    let p1 = read_until_end(s, p, 0x7c);
                    &&& final(self).position() == p1
                    &&& match spec_parse_int(
                        lossy_chars(s.subrange(p, p1 - 1)),
                        i64::MIN as int,
                        i64::MAX as int,
                    ) {
                        Ok(t) => r == Ok::<Option<i64>, ReplayError>(Some(t as i64)),
                        Err(k) => r == Err::<Option<i64>, ReplayError>(ReplayError::ParseInt(k)),
                    }
                }
            }),
    {
        if self.pos >= self.data.len() {
            return Ok(None);
        }
        let p = self.pos;
        let p1 = self.read_until(p, 0x7c);
        proof {
            lemma_find_byte(self.data@, p as int, 0x7c);
        }
        self.pos = p1;
        match parse_int_bytes(self.data, p, p1 - 1, i64::MIN as i128, i64::MAX as i128) {
            Ok(t) => Ok(Some(t as i64)),
            Err(k) => Err(ReplayError::ParseInt(k)),
        }
    }

    /// Reads a cursor coordinate: the bytes up to `|` without the last one,
    /// checked to be floating-point text, or `None` when the stream is
    /// exhausted.
    fn read_position(&mut self) -> (r: Option<Result<Vec<u8>, FloatErrorKind>>)
        requires
            old(self).wf(),
        ensures
            final(self).wf(),
            final(self).bytes() == old(self).bytes(),
            ({
                let s = old(self).bytes();
                let p = old(self).position();
                if p >= s.len() {
                    r is None
                } else {
                    let p1 = read_until_end(s, p, 0x7c);
                    &&& final(self).position() == p1
                    &&& match spec_check_float(lossy_chars(s.subrange(p, p1 - 1))) {
                        Ok(_) => r matches Some(Ok(v)) && v@ == s.subrange(p, p1 - 1),
                        Err(k) => r == Some(Err::<Vec<u8>, FloatErrorKind>(k)),
                    }
                }
            }),
    {
        if self.pos >= self.data.len() {
            return None;
        }
        let p = self.pos;
        let p1 = self.read_until(p, 0x7c);
        proof {
            lemma_find_byte(self.data@, p as int, 0x7c);
        }
        self.pos = p1;
        match check_float_bytes(self.data, p, p1 - 1) {
            Err(k) => Some(Err(k)),
            Ok(()) => {
                let piece = vstd::slice::slice_subrange(self.data, p, p1 - 1);
                Some(Ok(vstd::slice::slice_to_vec(piece)))
            },
        }
    }

    /// Reads the buttons of an action: the bytes up to `,` or the end, without
    /// a final `,`.
    fn read_buttons(&mut self) -> (r: Result<u32, ReplayError>)
        requires
            old(self).wf(),
        ensures
            final(self).wf(),
            final(self).bytes() == old(self).bytes(),
            ({
                let s = old(self).bytes();
                let p = old(self).position();
                let p4 = read_until_end(s, p, 0x2c);
                let b = s.subrange(p, p4);
                let digits = if b.len() > 0 && b.last() == 0x2c {
                    b.drop_last()
                } else {
                    b
                };
                &&& final(self).position() == p4
                &&& match spec_parse_int(lossy_chars(digits), 0, u32::MAX as int) {
                    Ok(v) => r == Ok::<u32, ReplayError>(v as u32),
                    Err(k) => r == Err::<u32, ReplayError>(ReplayError::ParseInt(k)),
                }
            }),
    {
        let p = self.pos;
        let p4 = self.read_until(p, 0x2c);
        proof {
            lemma_find_byte(self.data@, p as int, 0x2c);
        }
        self.pos = p4;
        let end = if p4 > p && self.data[p4 - 1] == 0x2c {
            p4 - 1
        } else {
            p4
        };
        proof {
            let b = self.data@.subrange(p as int, p4 as int);
            if b.len() > 0 && b.last() == 0x2c {
                assert(b.drop_last() =~= self.data@.subrange(p as int, end as int));
            } else {
                assert(b =~= self.data@.subrange(p as int, end as int));
            }
        }
        match parse_int_bytes(self.data, p, end, 0, u32::MAX as i128) {
            Ok(v) => Ok(v as u32),
            Err(k) => Err(ReplayError::ParseInt(k)),
        }
    }

    /// Whether the next step of the stream is malformed (see
    /// [`ActionStep::Malformed`]).
    pub open spec fn next_is_malformed(&self) -> bool {
        spec_next_action(self.bytes(), self.position()).0 is Malformed
    }

    /// Whether the next step of the stream is malformed.
    pub fn peek_malformed(&self) -> (r: bool)
        requires
            self.wf(),
        ensures
            r == self.next_is_malformed(),
    {
        let mut probe = ReplayActionParserIter { data: self.data, pos: self.pos };
        match probe.step() {
            Err(Outcome::Malformed) => true,
            _ => false,
        }
    }

    /// One step of the stream, reporting a malformed step as such.
    fn step(&mut self) -> (r: Result<Option<ReplayAction>, Outcome>)
        requires
            old(self).wf(),
        ensures
            final(self).wf(),
            final(self).bytes() == old(self).bytes(),
            match spec_next_action(old(self).bytes(), old(self).position()) {
                (ActionStep::End, _) => r matches Ok(None),
                (ActionStep::Action(a), q) => r matches Ok(Some(act)) && act.view() == a
                    && final(self).position() == q,
                (ActionStep::Failed(e), q) => r matches Err(Outcome::Failed(g)) && g == e
                    && final(self).position() == q,
                (ActionStep::Malformed, _) => r matches Err(Outcome::Malformed),
            },
    {
        let time = match self.read_time() {
            Ok(Some(t)) => t,
            Ok(None) => return Ok(None),
            Err(e) => return Err(Outcome::Failed(e)),
        };
        let x = match self.read_position() {
            Some(Ok(v)) => v,
            Some(Err(k)) => return Err(Outcome::Failed(ReplayError::ParseFloat(k))),
            None => return Err(Outcome::Malformed),
        };
        let y = match self.read_position() {
            Some(Ok(v)) => v,
            Some(Err(k)) => return Err(Outcome::Failed(ReplayError::ParseFloat(k))),
            None => return Err(Outcome::Malformed),
        };
        let buttons = match self.read_buttons() {
            Ok(b) => b,
            Err(e) => return Err(Outcome::Failed(e)),
        };
        Ok(Some(ReplayAction { time, x, y, buttons }))
    }

    /// The next action of the stream: `None` at the end, an error when its
    /// time or buttons are not integers or a coordinate is not a number.
    pub fn next(&mut self) -> (r: Option<Result<ReplayAction, ReplayError>>)
        requires
            old(self).wf(),
            !old(self).next_is_malformed(),
        ensures
            final(self).wf(),
            final(self).bytes() == old(self).bytes(),
            match spec_next_action(old(self).bytes(), old(self).position()) {
                (ActionStep::End, _) => r is None,
                (ActionStep::Action(a), q) => r matches Some(Ok(act)) && act.view() == a
                    && final(self).position() == q,
                (ActionStep::Failed(e), q) => r matches Some(Err(g)) && g == e
                    && final(self).position() == q,
                (ActionStep::Malformed, _) => false,
            },
    {
        match self.step() {
            Ok(None) => None,
            Ok(Some(a)) => Some(Ok(a)),
            Err(Outcome::Failed(e)) => Some(Err(e)),
            Err(Outcome::Malformed) => None,
        }
    }
}

/// A parser for decompressed replay actions.
pub struct ReplayActionParser {
    inner: Vec<u8>,
}

impl ReplayActionParser {
    /// The decompressed action stream.
    pub closed spec fn bytes(&self) -> Seq<u8> {
        self.inner@
    }

    /// A parser over the decompressed action stream `data`.
    pub fn new(data: Vec<u8>) -> (r: ReplayActionParser)
        ensures
            r.bytes() == data@,
    {
        ReplayActionParser { inner: data }
    }

    /// An iterator over the parsed replay actions, from the start of the stream.
    pub fn iter<'a>(&'a mut self) -> (it: ReplayActionParserIter<'a>)
        ensures
            it.wf(),
            it.bytes() == old(self).bytes(),
            it.position() == 0,
            final(self).bytes() == old(self).bytes(),
    {
        ReplayActionParserIter::new(self.inner.as_slice())
    }

    /// The action stream.
    pub fn into_inner(self) -> (r: Vec<u8>)
        ensures
            r@ == self.bytes(),
    {
        self.inner
    }
}


/// The bytes that LZMA decompression (the `.lzma` "alone" format) yields for
/// `data`, or `None` when `data` is not a complete valid stream.
pub uninterp spec fn lzma_decode(data: Seq<u8>) -> Option<Seq<u8>>;

/// Decompresses an LZMA stream (`xz2::stream::Stream::new_lzma_decoder` with
/// no memory limit, read to the end through `xz2::bufread::XzDecoder`). The
/// contract only names the result: it is `lzma_decode` of the input.
#[verifier::external_body]
fn decompress_lzma(data: &[u8]) -> (r: Option<Vec<u8>>)
    ensures
        match r {
            Some(v) => lzma_decode(data@) == Some(v@),
            None => lzma_decode(data@) is None,
        },
{
    let stream = xz2::stream::Stream::new_lzma_decoder(u64::MAX).ok()?;
    let mut out = Vec::new();
    let mut decoder = xz2::bufread::XzDecoder::new_stream(data, stream);
    std::io::Read::read_to_end(&mut decoder, &mut out).ok()?;
    Some(out)
}

/// A parser over the actions of an LZMA-compressed action stream: the
/// stream is decompressed, and the parser reads the result. Fails with
/// `Decompress` when `data` is not a valid LZMA stream.
pub fn decompressing_action_parser(data: &[u8]) -> (r: Result<ReplayActionParser, ReplayError>)
    ensures
        match lzma_decode(data@) {
            Some(d) => r matches Ok(p) && p.bytes() == d,
            None => r == Err::<ReplayActionParser, ReplayError>(ReplayError::Decompress),
        },
{
    match decompress_lzma(data) {
        Some(v) => Ok(ReplayActionParser::new(v)),
        None => Err(ReplayError::Decompress),
    }
}

/// Reads all actions of a decompressed stream, in order.
pub fn read_actions(data: &[u8]) -> (r: Result<Vec<ReplayAction>, Outcome>)
    ensures
        match spec_read_actions(data@, 0) {
            Ok(acts) => r matches Ok(v) && v@.map_values(|a: ReplayAction| a.view()) == acts,
            Err(Outcome::Failed(e)) => r matches Err(Outcome::Failed(g)) && g == e,
            Err(Outcome::Malformed) => r matches Err(Outcome::Malformed),
        },
{
    let mut it = ReplayActionParserIter::new(data);
    let mut acts: Vec<ReplayAction> = Vec::new();
    let ghost s = data@;
    loop
        invariant
            it.wf(),
            it.bytes() == s,
            s == data@,
            match spec_read_actions(s, 0) {
                Ok(all) => match spec_read_actions(s, it.position()) {
                    Ok(rest) => all == acts@.map_values(|a: ReplayAction| a.view()) + rest,
                    Err(_) => false,
                },
                Err(f) => spec_read_actions(s, it.position()) == Err::<Seq<ActionView>, Outcome>(
                    f,
                ),
            },
        decreases s.len() - it.position(),
    {
        let ghost p = it.position();
        proof {
            if p < s.len() {
                lemma_next_action_advances(s, p);
            }
        }
        match it.step() {
            Ok(None) => {
                proof {
                    assert(acts@.map_values(|a: ReplayAction| a.view()) + Seq::<ActionView>::empty()
                        =~= acts@.map_values(|a: ReplayAction| a.view()));
                }
                return Ok(acts);
            },
            Ok(Some(a)) => {
                proof {
                    let q = it.position();
                    match spec_read_actions(s, q) {
                        Ok(rest) => {
                            assert(acts@.push(a).map_values(|x: ReplayAction| x.view())
                                =~= acts@.map_values(|x: ReplayAction| x.view()).push(a.view()));
                            assert(acts@.map_values(|x: ReplayAction| x.view()) + (seq![a.view()]
                                + rest) =~= acts@.push(a).map_values(|x: ReplayAction| x.view())
                                + rest);
                        },
                        Err(_) => {},
                    }
                }
                acts.push(a);
            },
            Err(f) => {
                return Err(f);
            },
        }
    }
}

/// The tail of a replay at `p`: the score id, then the bits of the `f64`
/// target-practice accuracy when the mods include Target Practice (bit 23).
pub open spec fn spec_read_tail(s: Seq<u8>, p: int, mods: u32) -> Result<
    (u64, Option<u64>),
    ReplayError,
> {
    match spec_read_le(s, p, 8) {
        Err(e) => Err(ReplayError::Read(e)),
        Ok((id, q)) => if mods & 0x80_0000 != 0 {
            match spec_read_le(s, q, 8) {
                Err(e) => Err(ReplayError::Read(e)),
                Ok((acc, _)) => Ok((id as u64, Some(acc as u64))),
            }
        } else {
            Ok((id as u64, None))
        },
    }
}

/// The tail of a replay written as the score id in eight little-endian
/// bytes, then the bits of the accuracy in eight more, reads back as that
/// score id, with those accuracy bits when the mods include Target Practice
/// (bit 23) and without them otherwise, whatever stands before and after it.
pub proof fn tail_read(before: Seq<u8>, id: u64, acc: u64, mods: u32, after: Seq<u8>)
    ensures
        spec_read_tail(before + le_bytes(id as nat, 8) + le_bytes(acc as nat, 8) + after, before.len() as int, mods)
            == Ok::<(u64, Option<u64>), ReplayError>(
            (id, if mods & 0x80_0000 != 0 { Some(acc) } else { None }),
        ),
{
    reveal_with_fuel(pow256, 9);
    assert(pow256(8) == 0x1_0000_0000_0000_0000);
    let a = le_bytes(acc as nat, 8) + after;
    le_roundtrip(id as nat, 8, before, a);
    crate::binary::lemma_le_bytes_len(id as nat, 8);
    assert(before + le_bytes(id as nat, 8) + le_bytes(acc as nat, 8) + after =~= before + le_bytes(id as nat, 8) + a);
    le_roundtrip(acc as nat, 8, before + le_bytes(id as nat, 8), after);
}

/// A whole replay, as a specification.
pub struct ReplaySpec {
    pub header: ReplayHeader,
    pub actions: Seq<ActionView>,
    pub score_id: u64,
    pub target_practice_total_accuracy: Option<u64>,
}

/// Where the compressed actions of a replay end: `len` bytes after `p`, or
/// the end of the file when it is shorter.
pub open spec fn compressed_end(s: Seq<u8>, p: int, len: u32) -> int {
    if p + len <= s.len() {
        p + len
    } else {
        s.len() as int
    }
}

/// Reading a whole replay: the header, the actions decompressed from the
/// next `replay_data_length` bytes, then the tail after them.
pub open spec fn spec_parse_replay(s: Seq<u8>) -> Result<ReplaySpec, Outcome> {
    match spec_read_header(s) {
        Err(e) => Err(Outcome::Failed(e)),
        Ok((h, p)) => {
            let end = compressed_end(s, p, h.replay_data_length);
            match lzma_decode(s.subrange(p, end)) {
                None => Err(Outcome::Failed(ReplayError::Decompress)),
                Some(d) => match spec_read_actions(d, 0) {
                    Err(f) => Err(f),
                    Ok(actions) => match spec_read_tail(s, end, h.mods) {
                        Err(e) => Err(Outcome::Failed(e)),
                        Ok((id, acc)) => Ok(
                            ReplaySpec {
                                header: h,
                                actions,
                                score_id: id,
                                target_practice_total_accuracy: acc,
                            },
                        ),
                    },
                },
            }
        },
    }
}

/// Reading a replay without its actions: the header, then the tail
/// `replay_data_length` bytes after it.
pub open spec fn spec_parse_skip_actions(s: Seq<u8>) -> Result<ReplaySpec, ReplayError> {
    match spec_read_header(s) {
        Err(e) => Err(e),
        Ok((h, p)) => match spec_read_tail(s, compressed_end(s, p, h.replay_data_length), h.mods) {
            Err(e) => Err(e),
            Ok((id, acc)) => Ok(
                ReplaySpec {
                    header: h,
                    actions: Seq::empty(),
                    score_id: id,
                    target_practice_total_accuracy: acc,
                },
            ),
        },
    }
}

/// Reading a replay without its actions gives what reading it whole gives,
/// but for the actions: the same header, score id and accuracy bits. A
/// header that cannot be read fails both readings with the same error.
pub proof fn skip_actions_agrees(s: Seq<u8>)
    ensures
        spec_parse_replay(s) is Ok ==> spec_parse_skip_actions(s) == Ok::<ReplaySpec, ReplayError>(
            ReplaySpec { actions: Seq::empty(), ..spec_parse_replay(s)->Ok_0 },
        ),
        spec_read_header(s) matches Err(e) ==> spec_parse_replay(s) == Err::<ReplaySpec, Outcome>(
            Outcome::Failed(e),
        ) && spec_parse_skip_actions(s) == Err::<ReplaySpec, ReplayError>(e),
{
}

impl Replay {
    /// Whether the replay holds what `r` describes.
    pub open spec fn matches(&self, r: ReplaySpec) -> bool {
        &&& self.has_header(r.header)
        &&& self.actions@.map_values(|a: ReplayAction| a.view()) == r.actions
        &&& self.score_id == r.score_id
        &&& self.target_practice_total_accuracy == r.target_practice_total_accuracy
    }

    fn parse_tail(&mut self, r: &mut ByteReader) -> (res: Result<(), ReplayError>)
        requires
            old(r).wf(),
        ensures
            final(r).wf(),
            final(r).bytes() == old(r).bytes(),
            final(self).mode == old(self).mode,
            final(self).version == old(self).version,
            final(self).beatmap_hash == old(self).beatmap_hash,
            final(self).player_username == old(self).player_username,
            final(self).replay_hash == old(self).replay_hash,
            final(self).count_300 == old(self).count_300,
            final(self).count_100 == old(self).count_100,
            final(self).count_50 == old(self).count_50,
            final(self).count_geki == old(self).count_geki,
            final(self).count_katu == old(self).count_katu,
            final(self).count_miss == old(self).count_miss,
            final(self).score == old(self).score,
            final(self).max_combo == old(self).max_combo,
            final(self).perfect == old(self).perfect,
            final(self).mods == old(self).mods,
            final(self).life_graph == old(self).life_graph,
            final(self).timestamp == old(self).timestamp,
            final(self).replay_data_length == old(self).replay_data_length,
            final(self).actions == old(self).actions,
            match spec_read_tail(old(r).bytes(), old(r).position(), old(self).mods) {
                Ok((id, acc)) => res is Ok && final(self).score_id == id
                    && final(self).target_practice_total_accuracy == acc,
                Err(e) => res == Err::<(), ReplayError>(e),
            },
    {
        let id = rd_u64(r)?;
        self.score_id = id;
        if self.mods & 0x80_0000 != 0 {
            let acc = rd_u64(r)?;
            self.target_practice_total_accuracy = Some(acc);
        } else {
            self.target_practice_total_accuracy = None;
        }
        Ok(())
    }

    /// Parses a replay file (`.osr`).
    pub fn parse(data: &[u8]) -> (res: Result<Replay, ReplayError>)
        requires
            !(spec_parse_replay(data@) matches Err(Outcome::Malformed)),
        ensures
            match spec_parse_replay(data@) {
                Ok(rs) => res matches Ok(rp) && rp.matches(rs),
                Err(Outcome::Failed(e)) => res matches Err(g) && g == e,
                Err(Outcome::Malformed) => false,
            },
    {
        let mut r = ByteReader::new(data);
        let mut replay = Replay::read_header(&mut r)?;
        let p = r.pos();
        let len = replay.replay_data_length as usize;
        let end = if len <= data.len() - p {
            p + len
        } else {
            data.len()
        };
        let compressed = vstd::slice::slice_subrange(data, p, end);
        let decompressed = match decompress_lzma(compressed) {
            Some(v) => v,
            None => return Err(ReplayError::Decompress),
        };
        let mut parser = ReplayActionParser::new(decompressed);
        let actions = match read_actions(parser.iter().data) {
            Ok(acts) => acts,
            Err(Outcome::Failed(e)) => return Err(e),
            Err(Outcome::Malformed) => {
                proof {
                    assert(false);
                }
                return Err(ReplayError::Decompress);
            },
        };
        replay.actions = actions;
        let mut tail = ByteReader::at(data, end);
        replay.parse_tail(&mut tail)?;
        Ok(replay)
    }

    /// Parses a replay file (`.osr`), or returns `None` when its action stream
    /// is malformed (see [`ActionStep::Malformed`]).
    pub fn parse_checked(data: &[u8]) -> (res: Option<Result<Replay, ReplayError>>)
        ensures
            match spec_parse_replay(data@) {
                Ok(rs) => res matches Some(Ok(rp)) && rp.matches(rs),
                Err(Outcome::Failed(e)) => res matches Some(Err(g)) && g == e,
                Err(Outcome::Malformed) => res is None,
            },
    {
        let mut r = ByteReader::new(data);
        let header = match Replay::read_header(&mut r) {
            Ok(h) => h,
            Err(e) => return Some(Err(e)),
        };
        let p = r.pos();
        let len = header.replay_data_length as usize;
        let end = if len <= data.len() - p {
            p + len
        } else {
            data.len()
        };
        let compressed = vstd::slice::slice_subrange(data, p, end);
        let decompressed = match decompress_lzma(compressed) {
            Some(v) => v,
            None => return Some(Err(ReplayError::Decompress)),
        };
        match read_actions(decompressed.as_slice()) {
            Err(Outcome::Malformed) => None,
            Err(Outcome::Failed(e)) => Some(Err(e)),
            Ok(_) => Some(Replay::parse(data)),
        }
    }

    /// Parses a replay file but skips the player actions: the returned
    /// replay has no actions.
    pub fn parse_skip_actions(data: &[u8]) -> (res: Result<Replay, ReplayError>)
        ensures
            match spec_parse_skip_actions(data@) {
                Ok(rs) => res matches Ok(rp) && rp.matches(rs),
                Err(e) => res matches Err(g) && g == e,
            },
    {
        let mut r = ByteReader::new(data);
        let mut replay = Replay::read_header(&mut r)?;
        let len = replay.replay_data_length as usize;
        r.skip(len);
        replay.parse_tail(&mut r)?;
        assert(replay.actions@.map_values(|a: ReplayAction| a.view()) =~= Seq::<ActionView>::empty());
        Ok(replay)
    }
}

} // verus!
