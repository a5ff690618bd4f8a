//! The text a beatmap is written as reads back as the beatmap: the proof,
//! line by line and section by section.

use crate::beatmap::{apply_kv, flag_text, float_value, int_value, is_ascii_alnum, is_ascii_letter, is_blank, kv_split, lemma_lines_text_concat, line_at, lines_text, next_line_start, run, sample_set_name, sample_set_named, section_header, skip_alnum, spec_bookmarks, step, version_line, version_prefix, bookmarks_text, BeatmapView, DifficultyView, ParseState};
use crate::enums::{GridSize, Millis, Mode};
use crate::errors::{Fault, ParseErrorView};
use crate::hitsounds::SampleSet;
use crate::text::{find_char, is_unicode_digit, is_ws, join_spec, skip_ws, spec_decimal, split_spec, trim_ws};
use vstd::prelude::*;

verus! {

/// Reading lines one after the other, in state `st`, after `ln` lines.
pub open spec fn fold_lines(ls: Seq<Seq<char>>, st: ParseState, ln: nat) -> Result<ParseState, (nat, Fault)>
    decreases ls.len(),
{
    if ls.len() == 0 {
        Ok(st)
    } else {
        match step(st, ls[0]) {
            Ok(st2) => fold_lines(ls.drop_first(), st2, ln + 1),
            Err(f) => Err((ln + 1, f)),
        }
    }
}

/// Whether a line can be written and read back as it is: it holds no `\n`
/// and does not end with `\r`.
pub open spec fn line_safe(l: Seq<char>) -> bool {
    &&& !l.contains('\n')
    &&& (l.len() == 0 || l.last() != '\r')
}

/// The first `c` from `from` on is at `e` when `e` holds one and nothing before it does.
pub(crate) proof fn lemma_find_char_at(s: Seq<char>, c: char, from: int, e: int)
    requires
        0 <= from <= e < s.len(),
        s[e] == c,
        forall|i: int| from <= i < e ==> s[i] != c,
    ensures
        find_char(s, c, from) == e,
{
    crate::text::lemma_find_char(s, c, from);
    let f = find_char(s, c, from);
    if f < e {
        assert(s[f] == c);
    }
    if f > e {
        assert(s[e] != c);
    }
}

/// Reading the text of lines from the start of line `k` reads the lines
/// from `k` on.
pub(crate) proof fn lemma_run_lines(ls: Seq<Seq<char>>, k: int, st: ParseState, ln: nat)
    requires
        0 <= k <= ls.len(),
        forall|i: int| 0 <= i < ls.len() ==> line_safe(#[trigger] ls[i]),
    ensures
        run(lines_text(ls), lines_text(ls.take(k)).len() as int, st, ln) == fold_lines(ls.skip(k), st, ln),
    decreases ls.len() - k,
{
    let t = lines_text(ls);
    if k == ls.len() {
        assert(ls.take(k) =~= ls);
        assert(ls.skip(k) =~= Seq::<Seq<char>>::empty());
    } else {
        let a = lines_text(ls.take(k));
        let l = ls[k];
        let c = lines_text(ls.skip(k + 1));
        assert(ls.take(k + 1).drop_last() =~= ls.take(k));
        assert(lines_text(ls.take(k + 1)) == a + l + seq!['\n']);
        lemma_lines_text_concat(ls.take(k + 1), ls.skip(k + 1));
        assert(ls.take(k + 1) + ls.skip(k + 1) =~= ls);
        assert(t == a + l + seq!['\n'] + c);
        let off = a.len() as int;
        let e = off + l.len();
        assert(line_safe(ls[k]));
        assert forall|i: int| off <= i < e implies t[i] != '\n' by {
            assert(t[i] == l[i - off]);
        }
        assert(t[e] == '\n');
        lemma_find_char_at(t, '\n', off, e);
        assert(t.subrange(off, e) =~= l);
        assert(line_at(t, off) == l);
        assert(next_line_start(t, off) == lines_text(ls.take(k + 1)).len());
        lemma_run_lines(ls, k + 1, st, ln);
        assert(ls.skip(k)[0] == l);
        assert(ls.skip(k).drop_first() =~= ls.skip(k + 1));
        match step(st, l) {
            Ok(st2) => {
                lemma_run_lines(ls, k + 1, st2, ln + 1);
            },
            Err(f) => {},
        }
    }
}

/// Reading lines placed one after the other reads the first lines, then the
/// others from where the first left off.
pub(crate) proof fn lemma_fold_concat(a: Seq<Seq<char>>, b: Seq<Seq<char>>, st: ParseState, ln: nat)
    ensures
        fold_lines(a + b, st, ln) == match fold_lines(a, st, ln) {
            Ok(st2) => fold_lines(b, st2, ln + a.len()),
            Err(e) => Err(e),
        },
    decreases a.len(),
{
    if a.len() == 0 {
        assert(a + b =~= b);
    } else {
        assert((a + b)[0] == a[0]);
        assert((a + b).drop_first() =~= a.drop_first() + b);
        match step(st, a[0]) {
            Ok(st2) => lemma_fold_concat(a.drop_first(), b, st2, ln + 1),
            Err(f) => {},
        }
    }
}

/// Whether `k` can be the key of a `key: value` line: one or more ASCII
/// letters and digits.
pub open spec fn key_ok(k: Seq<char>) -> bool {
    k.len() > 0 && skip_alnum(k, 0) == k.len()
}

/// A key made of letters and digits ends where a following non-alphanumeric character starts.
pub(crate) proof fn lemma_skip_alnum_prefix(key: Seq<char>, rest: Seq<char>, from: int)
    requires
        0 <= from <= key.len(),
        skip_alnum(key, from) == key.len(),
        rest.len() > 0,
        !is_ascii_alnum(rest[0]),
    ensures
        skip_alnum(key + rest, from) == key.len(),
    decreases key.len() - from,
{
    let s = key + rest;
    if from < key.len() {
        assert(s[from] == key[from]);
        lemma_skip_alnum_prefix(key, rest, from + 1);
    } else {
        assert(s[from] == rest[0]);
    }
}

/// How a `key:value` (or `key: value`) line splits, when the value starts
/// with a character that is not white space.
pub(crate) proof fn lemma_kv_line(key: Seq<char>, sep: Seq<char>, value: Seq<char>)
    requires
        key_ok(key),
        sep == seq![':'] || sep == seq![':', ' '],
        value.len() > 0,
        !is_ws(value[0]),
    ensures
        kv_split(key + sep + value) == Some((key, value)),
        section_header(key + sep + value) is None,
        !is_blank(key + sep + value),
{
    let line = key + sep + value;
    let k = key.len() as int;
    lemma_skip_alnum_prefix(key, sep + value, 0);
    assert(key + (sep + value) =~= line);
    assert(line[k] == ':');
    assert(skip_ws(line, k) == k);
    if sep == seq![':'] {
        assert(line[k + 1] == value[0]);
        assert(skip_ws(line, k + 1) == k + 1);
        assert(line.subrange(k + 1, line.len() as int) =~= value);
    } else {
        assert(line[k + 1] == ' ');
        assert(line[k + 2] == value[0]);
        assert(skip_ws(line, k + 2) == k + 2);
        assert(skip_ws(line, k + 1) == k + 2);
        assert(line.subrange(k + 2, line.len() as int) =~= value);
    }
    assert(line.subrange(0, k) =~= key);
    assert(line[0] == key[0]);
    assert(skip_alnum(key, 0) != 0);
    assert(is_ascii_alnum(key[0]));
    assert(skip_ws(line, 0) == 0);
}

/// The keys of the settings, as characters.
pub(crate) proof fn lemma_key_literals()
    ensures
        "AudioFilename"@ =~= seq!['A', 'u', 'd', 'i', 'o', 'F', 'i', 'l', 'e', 'n', 'a', 'm', 'e'],
        "AudioLeadIn"@ =~= seq!['A', 'u', 'd', 'i', 'o', 'L', 'e', 'a', 'd', 'I', 'n'],
        "PreviewTime"@ =~= seq!['P', 'r', 'e', 'v', 'i', 'e', 'w', 'T', 'i', 'm', 'e'],
        "Countdown"@ =~= seq!['C', 'o', 'u', 'n', 't', 'd', 'o', 'w', 'n'],
        "SampleSet"@ =~= seq!['S', 'a', 'm', 'p', 'l', 'e', 'S', 'e', 't'],
        "StackLeniency"@ =~= seq!['S', 't', 'a', 'c', 'k', 'L', 'e', 'n', 'i', 'e', 'n', 'c', 'y'],
        "Mode"@ =~= seq!['M', 'o', 'd', 'e'],
        "LetterBoxInBreaks"@ =~= seq!['L', 'e', 't', 't', 'e', 'r', 'B', 'o', 'x', 'I', 'n', 'B', 'r', 'e', 'a', 'k', 's'],
        "WidescreenStoryboard"@ =~= seq!['W', 'i', 'd', 'e', 's', 'c', 'r', 'e', 'e', 'n', 'S', 't', 'o', 'r', 'y', 'b', 'o', 'a', 'r', 'd'],
        "Bookmarks"@ =~= seq!['B', 'o', 'o', 'k', 'm', 'a', 'r', 'k', 's'],
        "DistanceSpacing"@ =~= seq!['D', 'i', 's', 't', 'a', 'n', 'c', 'e', 'S', 'p', 'a', 'c', 'i', 'n', 'g'],
        "BeatDivisor"@ =~= seq!['B', 'e', 'a', 't', 'D', 'i', 'v', 'i', 's', 'o', 'r'],
        "GridSize"@ =~= seq!['G', 'r', 'i', 'd', 'S', 'i', 'z', 'e'],
        "TimelineZoom"@ =~= seq!['T', 'i', 'm', 'e', 'l', 'i', 'n', 'e', 'Z', 'o', 'o', 'm'],
        "Title"@ =~= seq!['T', 'i', 't', 'l', 'e'],
        "TitleUnicode"@ =~= seq!['T', 'i', 't', 'l', 'e', 'U', 'n', 'i', 'c', 'o', 'd', 'e'],
        "Artist"@ =~= seq!['A', 'r', 't', 'i', 's', 't'],
        "ArtistUnicode"@ =~= seq!['A', 'r', 't', 'i', 's', 't', 'U', 'n', 'i', 'c', 'o', 'd', 'e'],
        "Creator"@ =~= seq!['C', 'r', 'e', 'a', 't', 'o', 'r'],
        "Version"@ =~= seq!['V', 'e', 'r', 's', 'i', 'o', 'n'],
        "Source"@ =~= seq!['S', 'o', 'u', 'r', 'c', 'e'],
        "Tags"@ =~= seq!['T', 'a', 'g', 's'],
        "BeatmapID"@ =~= seq!['B', 'e', 'a', 't', 'm', 'a', 'p', 'I', 'D'],
        "BeatmapSetID"@ =~= seq!['B', 'e', 'a', 't', 'm', 'a', 'p', 'S', 'e', 't', 'I', 'D'],
        "HPDrainRate"@ =~= seq!['H', 'P', 'D', 'r', 'a', 'i', 'n', 'R', 'a', 't', 'e'],
        "CircleSize"@ =~= seq!['C', 'i', 'r', 'c', 'l', 'e', 'S', 'i', 'z', 'e'],
        "OverallDifficulty"@ =~= seq!['O', 'v', 'e', 'r', 'a', 'l', 'l', 'D', 'i', 'f', 'f', 'i', 'c', 'u', 'l', 't', 'y'],
        "ApproachRate"@ =~= seq!['A', 'p', 'p', 'r', 'o', 'a', 'c', 'h', 'R', 'a', 't', 'e'],
        "SliderMultiplier"@ =~= seq!['S', 'l', 'i', 'd', 'e', 'r', 'M', 'u', 'l', 't', 'i', 'p', 'l', 'i', 'e', 'r'],
        "SliderTickRate"@ =~= seq!['S', 'l', 'i', 'd', 'e', 'r', 'T', 'i', 'c', 'k', 'R', 'a', 't', 'e'],
{
    reveal_strlit("AudioFilename");
    assert("AudioFilename"@ =~= seq!['A', 'u', 'd', 'i', 'o', 'F', 'i', 'l', 'e', 'n', 'a', 'm', 'e']);
    reveal_strlit("AudioLeadIn");
    assert("AudioLeadIn"@ =~= seq!['A', 'u', 'd', 'i', 'o', 'L', 'e', 'a', 'd', 'I', 'n']);
    reveal_strlit("PreviewTime");
    assert("PreviewTime"@ =~= seq!['P', 'r', 'e', 'v', 'i', 'e', 'w', 'T', 'i', 'm', 'e']);
    reveal_strlit("Countdown");
    assert("Countdown"@ =~= seq!['C', 'o', 'u', 'n', 't', 'd', 'o', 'w', 'n']);
    reveal_strlit("SampleSet");
    assert("SampleSet"@ =~= seq!['S', 'a', 'm', 'p', 'l', 'e', 'S', 'e', 't']);
    reveal_strlit("StackLeniency");
    assert("StackLeniency"@ =~= seq!['S', 't', 'a', 'c', 'k', 'L', 'e', 'n', 'i', 'e', 'n', 'c', 'y']);
    reveal_strlit("Mode");
    assert("Mode"@ =~= seq!['M', 'o', 'd', 'e']);
    reveal_strlit("LetterBoxInBreaks");
    assert("LetterBoxInBreaks"@ =~= seq!['L', 'e', 't', 't', 'e', 'r', 'B', 'o', 'x', 'I', 'n', 'B', 'r', 'e', 'a', 'k', 's']);
    reveal_strlit("WidescreenStoryboard");
    assert("WidescreenStoryboard"@ =~= seq!['W', 'i', 'd', 'e', 's', 'c', 'r', 'e', 'e', 'n', 'S', 't', 'o', 'r', 'y', 'b', 'o', 'a', 'r', 'd']);
    reveal_strlit("Bookmarks");
    assert("Bookmarks"@ =~= seq!['B', 'o', 'o', 'k', 'm', 'a', 'r', 'k', 's']);
    reveal_strlit("DistanceSpacing");
    assert("DistanceSpacing"@ =~= seq!['D', 'i', 's', 't', 'a', 'n', 'c', 'e', 'S', 'p', 'a', 'c', 'i', 'n', 'g']);
    reveal_strlit("BeatDivisor");
    assert("BeatDivisor"@ =~= seq!['B', 'e', 'a', 't', 'D', 'i', 'v', 'i', 's', 'o', 'r']);
    reveal_strlit("GridSize");
    assert("GridSize"@ =~= seq!['G', 'r', 'i', 'd', 'S', 'i', 'z', 'e']);
    reveal_strlit("TimelineZoom");
    assert("TimelineZoom"@ =~= seq!['T', 'i', 'm', 'e', 'l', 'i', 'n', 'e', 'Z', 'o', 'o', 'm']);
    reveal_strlit("Title");
    assert("Title"@ =~= seq!['T', 'i', 't', 'l', 'e']);
    reveal_strlit("TitleUnicode");
    assert("TitleUnicode"@ =~= seq!['T', 'i', 't', 'l', 'e', 'U', 'n', 'i', 'c', 'o', 'd', 'e']);
    reveal_strlit("Artist");
    assert("Artist"@ =~= seq!['A', 'r', 't', 'i', 's', 't']);
    reveal_strlit("ArtistUnicode");
    assert("ArtistUnicode"@ =~= seq!['A', 'r', 't', 'i', 's', 't', 'U', 'n', 'i', 'c', 'o', 'd', 'e']);
    reveal_strlit("Creator");
    assert("Creator"@ =~= seq!['C', 'r', 'e', 'a', 't', 'o', 'r']);
    reveal_strlit("Version");
    assert("Version"@ =~= seq!['V', 'e', 'r', 's', 'i', 'o', 'n']);
    reveal_strlit("Source");
    assert("Source"@ =~= seq!['S', 'o', 'u', 'r', 'c', 'e']);
    reveal_strlit("Tags");
    assert("Tags"@ =~= seq!['T', 'a', 'g', 's']);
    reveal_strlit("BeatmapID");
    assert("BeatmapID"@ =~= seq!['B', 'e', 'a', 't', 'm', 'a', 'p', 'I', 'D']);
    reveal_strlit("BeatmapSetID");
    assert("BeatmapSetID"@ =~= seq!['B', 'e', 'a', 't', 'm', 'a', 'p', 'S', 'e', 't', 'I', 'D']);
    reveal_strlit("HPDrainRate");
    assert("HPDrainRate"@ =~= seq!['H', 'P', 'D', 'r', 'a', 'i', 'n', 'R', 'a', 't', 'e']);
    reveal_strlit("CircleSize");
    assert("CircleSize"@ =~= seq!['C', 'i', 'r', 'c', 'l', 'e', 'S', 'i', 'z', 'e']);
    reveal_strlit("OverallDifficulty");
    assert("OverallDifficulty"@ =~= seq!['O', 'v', 'e', 'r', 'a', 'l', 'l', 'D', 'i', 'f', 'f', 'i', 'c', 'u', 'l', 't', 'y']);
    reveal_strlit("ApproachRate");
    assert("ApproachRate"@ =~= seq!['A', 'p', 'p', 'r', 'o', 'a', 'c', 'h', 'R', 'a', 't', 'e']);
    reveal_strlit("SliderMultiplier");
    assert("SliderMultiplier"@ =~= seq!['S', 'l', 'i', 'd', 'e', 'r', 'M', 'u', 'l', 't', 'i', 'p', 'l', 'i', 'e', 'r']);
    reveal_strlit("SliderTickRate");
    assert("SliderTickRate"@ =~= seq!['S', 'l', 'i', 'd', 'e', 'r', 'T', 'i', 'c', 'k', 'R', 'a', 't', 'e']);
}

/// The labels of the lines of a beatmap's text, and the names of sections
/// and sample sets, as characters.
pub(crate) proof fn lemma_label_literals()
    ensures
        "osu file format v"@ =~= seq!['o', 's', 'u', ' ', 'f', 'i', 'l', 'e', ' ', 'f', 'o', 'r', 'm', 'a', 't', ' ', 'v'],
        "[General]"@ =~= seq!['[', 'G', 'e', 'n', 'e', 'r', 'a', 'l', ']'],
        "AudioFilename: "@ =~= seq!['A', 'u', 'd', 'i', 'o', 'F', 'i', 'l', 'e', 'n', 'a', 'm', 'e', ':', ' '],
        "AudioLeadIn: "@ =~= seq!['A', 'u', 'd', 'i', 'o', 'L', 'e', 'a', 'd', 'I', 'n', ':', ' '],
        "PreviewTime: "@ =~= seq!['P', 'r', 'e', 'v', 'i', 'e', 'w', 'T', 'i', 'm', 'e', ':', ' '],
        "Countdown: "@ =~= seq!['C', 'o', 'u', 'n', 't', 'd', 'o', 'w', 'n', ':', ' '],
        "SampleSet: "@ =~= seq!['S', 'a', 'm', 'p', 'l', 'e', 'S', 'e', 't', ':', ' '],
        "StackLeniency: "@ =~= seq!['S', 't', 'a', 'c', 'k', 'L', 'e', 'n', 'i', 'e', 'n', 'c', 'y', ':', ' '],
        "Mode: "@ =~= seq!['M', 'o', 'd', 'e', ':', ' '],
        "LetterboxInBreaks: "@ =~= seq!['L', 'e', 't', 't', 'e', 'r', 'b', 'o', 'x', 'I', 'n', 'B', 'r', 'e', 'a', 'k', 's', ':', ' '],
        "WidescreenStoryboard: "@ =~= seq!['W', 'i', 'd', 'e', 's', 'c', 'r', 'e', 'e', 'n', 'S', 't', 'o', 'r', 'y', 'b', 'o', 'a', 'r', 'd', ':', ' '],
        "[Editor]"@ =~= seq!['[', 'E', 'd', 'i', 't', 'o', 'r', ']'],
        "Bookmarks: "@ =~= seq!['B', 'o', 'o', 'k', 'm', 'a', 'r', 'k', 's', ':', ' '],
        "DistanceSpacing: "@ =~= seq!['D', 'i', 's', 't', 'a', 'n', 'c', 'e', 'S', 'p', 'a', 'c', 'i', 'n', 'g', ':', ' '],
        "BeatDivisor: "@ =~= seq!['B', 'e', 'a', 't', 'D', 'i', 'v', 'i', 's', 'o', 'r', ':', ' '],
        "GridSize: "@ =~= seq!['G', 'r', 'i', 'd', 'S', 'i', 'z', 'e', ':', ' '],
        "TimelineZoom: "@ =~= seq!['T', 'i', 'm', 'e', 'l', 'i', 'n', 'e', 'Z', 'o', 'o', 'm', ':', ' '],
        "[Metadata]"@ =~= seq!['[', 'M', 'e', 't', 'a', 'd', 'a', 't', 'a', ']'],
        "Title:"@ =~= seq!['T', 'i', 't', 'l', 'e', ':'],
        "TitleUnicode:"@ =~= seq!['T', 'i', 't', 'l', 'e', 'U', 'n', 'i', 'c', 'o', 'd', 'e', ':'],
        "Artist:"@ =~= seq!['A', 'r', 't', 'i', 's', 't', ':'],
        "ArtistUnicode:"@ =~= seq!['A', 'r', 't', 'i', 's', 't', 'U', 'n', 'i', 'c', 'o', 'd', 'e', ':'],
        "Creator:"@ =~= seq!['C', 'r', 'e', 'a', 't', 'o', 'r', ':'],
        "Version:"@ =~= seq!['V', 'e', 'r', 's', 'i', 'o', 'n', ':'],
        "Source:"@ =~= seq!['S', 'o', 'u', 'r', 'c', 'e', ':'],
        "Tags:"@ =~= seq!['T', 'a', 'g', 's', ':'],
        "BeatmapID:"@ =~= seq!['B', 'e', 'a', 't', 'm', 'a', 'p', 'I', 'D', ':'],
        "BeatmapSetID:"@ =~= seq!['B', 'e', 'a', 't', 'm', 'a', 'p', 'S', 'e', 't', 'I', 'D', ':'],
        "[Difficulty]"@ =~= seq!['[', 'D', 'i', 'f', 'f', 'i', 'c', 'u', 'l', 't', 'y', ']'],
        "HPDrainRate:"@ =~= seq!['H', 'P', 'D', 'r', 'a', 'i', 'n', 'R', 'a', 't', 'e', ':'],
        "CircleSize:"@ =~= seq!['C', 'i', 'r', 'c', 'l', 'e', 'S', 'i', 'z', 'e', ':'],
        "OverallDifficulty:"@ =~= seq!['O', 'v', 'e', 'r', 'a', 'l', 'l', 'D', 'i', 'f', 'f', 'i', 'c', 'u', 'l', 't', 'y', ':'],
        "ApproachRate:"@ =~= seq!['A', 'p', 'p', 'r', 'o', 'a', 'c', 'h', 'R', 'a', 't', 'e', ':'],
        "SliderMultiplier:"@ =~= seq!['S', 'l', 'i', 'd', 'e', 'r', 'M', 'u', 'l', 't', 'i', 'p', 'l', 'i', 'e', 'r', ':'],
        "SliderTickRate:"@ =~= seq!['S', 'l', 'i', 'd', 'e', 'r', 'T', 'i', 'c', 'k', 'R', 'a', 't', 'e', ':'],
        "[Events]"@ =~= seq!['[', 'E', 'v', 'e', 'n', 't', 's', ']'],
        "[TimingPoints]"@ =~= seq!['[', 'T', 'i', 'm', 'i', 'n', 'g', 'P', 'o', 'i', 'n', 't', 's', ']'],
        "[Colours]"@ =~= seq!['[', 'C', 'o', 'l', 'o', 'u', 'r', 's', ']'],
        "[HitObjects]"@ =~= seq!['[', 'H', 'i', 't', 'O', 'b', 'j', 'e', 'c', 't', 's', ']'],
        "Combo"@ =~= seq!['C', 'o', 'm', 'b', 'o'],
        " : "@ =~= seq![' ', ':', ' '],
        "Events"@ =~= seq!['E', 'v', 'e', 'n', 't', 's'],
        "HitObjects"@ =~= seq!['H', 'i', 't', 'O', 'b', 'j', 'e', 'c', 't', 's'],
        "TimingPoints"@ =~= seq!['T', 'i', 'm', 'i', 'n', 'g', 'P', 'o', 'i', 'n', 't', 's'],
        "Version"@ =~= seq!['V', 'e', 'r', 's', 'i', 'o', 'n'],
        "Colours"@ =~= seq!['C', 'o', 'l', 'o', 'u', 'r', 's'],
        "None"@ =~= seq!['N', 'o', 'n', 'e'],
        "Normal"@ =~= seq!['N', 'o', 'r', 'm', 'a', 'l'],
        "Soft"@ =~= seq!['S', 'o', 'f', 't'],
        "Drum"@ =~= seq!['D', 'r', 'u', 'm'],
{
    reveal_strlit("osu file format v");
    assert("osu file format v"@ =~= seq!['o', 's', 'u', ' ', 'f', 'i', 'l', 'e', ' ', 'f', 'o', 'r', 'm', 'a', 't', ' ', 'v']);
    reveal_strlit("[General]");
    assert("[General]"@ =~= seq!['[', 'G', 'e', 'n', 'e', 'r', 'a', 'l', ']']);
    reveal_strlit("AudioFilename: ");
    assert("AudioFilename: "@ =~= seq!['A', 'u', 'd', 'i', 'o', 'F', 'i', 'l', 'e', 'n', 'a', 'm', 'e', ':', ' ']);
    reveal_strlit("AudioLeadIn: ");
    assert("AudioLeadIn: "@ =~= seq!['A', 'u', 'd', 'i', 'o', 'L', 'e', 'a', 'd', 'I', 'n', ':', ' ']);
    reveal_strlit("PreviewTime: ");
    assert("PreviewTime: "@ =~= seq!['P', 'r', 'e', 'v', 'i', 'e', 'w', 'T', 'i', 'm', 'e', ':', ' ']);
    reveal_strlit("Countdown: ");
    assert("Countdown: "@ =~= seq!['C', 'o', 'u', 'n', 't', 'd', 'o', 'w', 'n', ':', ' ']);
    reveal_strlit("SampleSet: ");
    assert("SampleSet: "@ =~= seq!['S', 'a', 'm', 'p', 'l', 'e', 'S', 'e', 't', ':', ' ']);
    reveal_strlit("StackLeniency: ");
    assert("StackLeniency: "@ =~= seq!['S', 't', 'a', 'c', 'k', 'L', 'e', 'n', 'i', 'e', 'n', 'c', 'y', ':', ' ']);
    reveal_strlit("Mode: ");
    assert("Mode: "@ =~= seq!['M', 'o', 'd', 'e', ':', ' ']);
    reveal_strlit("LetterboxInBreaks: ");
    assert("LetterboxInBreaks: "@ =~= seq!['L', 'e', 't', 't', 'e', 'r', 'b', 'o', 'x', 'I', 'n', 'B', 'r', 'e', 'a', 'k', 's', ':', ' ']);
    reveal_strlit("WidescreenStoryboard: ");
    assert("WidescreenStoryboard: "@ =~= seq!['W', 'i', 'd', 'e', 's', 'c', 'r', 'e', 'e', 'n', 'S', 't', 'o', 'r', 'y', 'b', 'o', 'a', 'r', 'd', ':', ' ']);
    reveal_strlit("[Editor]");
    assert("[Editor]"@ =~= seq!['[', 'E', 'd', 'i', 't', 'o', 'r', ']']);
    reveal_strlit("Bookmarks: ");
    assert("Bookmarks: "@ =~= seq!['B', 'o', 'o', 'k', 'm', 'a', 'r', 'k', 's', ':', ' ']);
    reveal_strlit("DistanceSpacing: ");
    assert("DistanceSpacing: "@ =~= seq!['D', 'i', 's', 't', 'a', 'n', 'c', 'e', 'S', 'p', 'a', 'c', 'i', 'n', 'g', ':', ' ']);
    reveal_strlit("BeatDivisor: ");
    assert("BeatDivisor: "@ =~= seq!['B', 'e', 'a', 't', 'D', 'i', 'v', 'i', 's', 'o', 'r', ':', ' ']);
    reveal_strlit("GridSize: ");
    assert("GridSize: "@ =~= seq!['G', 'r', 'i', 'd', 'S', 'i', 'z', 'e', ':', ' ']);
    reveal_strlit("TimelineZoom: ");
    assert("TimelineZoom: "@ =~= seq!['T', 'i', 'm', 'e', 'l', 'i', 'n', 'e', 'Z', 'o', 'o', 'm', ':', ' ']);
    reveal_strlit("[Metadata]");
    assert("[Metadata]"@ =~= seq!['[', 'M', 'e', 't', 'a', 'd', 'a', 't', 'a', ']']);
    reveal_strlit("Title:");
    assert("Title:"@ =~= seq!['T', 'i', 't', 'l', 'e', ':']);
    reveal_strlit("TitleUnicode:");
    assert("TitleUnicode:"@ =~= seq!['T', 'i', 't', 'l', 'e', 'U', 'n', 'i', 'c', 'o', 'd', 'e', ':']);
    reveal_strlit("Artist:");
    assert("Artist:"@ =~= seq!['A', 'r', 't', 'i', 's', 't', ':']);
    reveal_strlit("ArtistUnicode:");
    assert("ArtistUnicode:"@ =~= seq!['A', 'r', 't', 'i', 's', 't', 'U', 'n', 'i', 'c', 'o', 'd', 'e', ':']);
    reveal_strlit("Creator:");
    assert("Creator:"@ =~= seq!['C', 'r', 'e', 'a', 't', 'o', 'r', ':']);
    reveal_strlit("Version:");
    assert("Version:"@ =~= seq!['V', 'e', 'r', 's', 'i', 'o', 'n', ':']);
    reveal_strlit("Source:");
    assert("Source:"@ =~= seq!['S', 'o', 'u', 'r', 'c', 'e', ':']);
    reveal_strlit("Tags:");
    assert("Tags:"@ =~= seq!['T', 'a', 'g', 's', ':']);
    reveal_strlit("BeatmapID:");
    assert("BeatmapID:"@ =~= seq!['B', 'e', 'a', 't', 'm', 'a', 'p', 'I', 'D', ':']);
    reveal_strlit("BeatmapSetID:");
    assert("BeatmapSetID:"@ =~= seq!['B', 'e', 'a', 't', 'm', 'a', 'p', 'S', 'e', 't', 'I', 'D', ':']);
    reveal_strlit("[Difficulty]");
    assert("[Difficulty]"@ =~= seq!['[', 'D', 'i', 'f', 'f', 'i', 'c', 'u', 'l', 't', 'y', ']']);
    reveal_strlit("HPDrainRate:");
    assert("HPDrainRate:"@ =~= seq!['H', 'P', 'D', 'r', 'a', 'i', 'n', 'R', 'a', 't', 'e', ':']);
    reveal_strlit("CircleSize:");
    assert("CircleSize:"@ =~= seq!['C', 'i', 'r', 'c', 'l', 'e', 'S', 'i', 'z', 'e', ':']);
    reveal_strlit("OverallDifficulty:");
    assert("OverallDifficulty:"@ =~= seq!['O', 'v', 'e', 'r', 'a', 'l', 'l', 'D', 'i', 'f', 'f', 'i', 'c', 'u', 'l', 't', 'y', ':']);
    reveal_strlit("ApproachRate:");
    assert("ApproachRate:"@ =~= seq!['A', 'p', 'p', 'r', 'o', 'a', 'c', 'h', 'R', 'a', 't', 'e', ':']);
    reveal_strlit("SliderMultiplier:");
    assert("SliderMultiplier:"@ =~= seq!['S', 'l', 'i', 'd', 'e', 'r', 'M', 'u', 'l', 't', 'i', 'p', 'l', 'i', 'e', 'r', ':']);
    reveal_strlit("SliderTickRate:");
    assert("SliderTickRate:"@ =~= seq!['S', 'l', 'i', 'd', 'e', 'r', 'T', 'i', 'c', 'k', 'R', 'a', 't', 'e', ':']);
    reveal_strlit("[Events]");
    assert("[Events]"@ =~= seq!['[', 'E', 'v', 'e', 'n', 't', 's', ']']);
    reveal_strlit("[TimingPoints]");
    assert("[TimingPoints]"@ =~= seq!['[', 'T', 'i', 'm', 'i', 'n', 'g', 'P', 'o', 'i', 'n', 't', 's', ']']);
    reveal_strlit("[Colours]");
    assert("[Colours]"@ =~= seq!['[', 'C', 'o', 'l', 'o', 'u', 'r', 's', ']']);
    reveal_strlit("[HitObjects]");
    assert("[HitObjects]"@ =~= seq!['[', 'H', 'i', 't', 'O', 'b', 'j', 'e', 'c', 't', 's', ']']);
    reveal_strlit("Combo");
    assert("Combo"@ =~= seq!['C', 'o', 'm', 'b', 'o']);
    reveal_strlit(" : ");
    assert(" : "@ =~= seq![' ', ':', ' ']);
    reveal_strlit("Events");
    assert("Events"@ =~= seq!['E', 'v', 'e', 'n', 't', 's']);
    reveal_strlit("HitObjects");
    assert("HitObjects"@ =~= seq!['H', 'i', 't', 'O', 'b', 'j', 'e', 'c', 't', 's']);
    reveal_strlit("TimingPoints");
    assert("TimingPoints"@ =~= seq!['T', 'i', 'm', 'i', 'n', 'g', 'P', 'o', 'i', 'n', 't', 's']);
    reveal_strlit("Version");
    assert("Version"@ =~= seq!['V', 'e', 'r', 's', 'i', 'o', 'n']);
    reveal_strlit("Colours");
    assert("Colours"@ =~= seq!['C', 'o', 'l', 'o', 'u', 'r', 's']);
    reveal_strlit("None");
    assert("None"@ =~= seq!['N', 'o', 'n', 'e']);
    reveal_strlit("Normal");
    assert("Normal"@ =~= seq!['N', 'o', 'r', 'm', 'a', 'l']);
    reveal_strlit("Soft");
    assert("Soft"@ =~= seq!['S', 'o', 'f', 't']);
    reveal_strlit("Drum");
    assert("Drum"@ =~= seq!['D', 'r', 'u', 'm']);
}

/// Lines read one after the other, each taking the state to the next,
/// leave the last state.
pub(crate) proof fn lemma_fold_steps(ls: Seq<Seq<char>>, sts: Seq<ParseState>, ln: nat)
    requires
        sts.len() == ls.len() + 1,
        forall|i: int| 0 <= i < ls.len() ==> step(sts[i], ls[i]) == Ok::<ParseState, Fault>(#[trigger] sts[i + 1]),
    ensures
        fold_lines(ls, sts[0], ln) == Ok::<ParseState, (nat, Fault)>(sts.last()),
    decreases ls.len(),
{
    if ls.len() > 0 {
        let l2 = ls.drop_first();
        let s2 = sts.drop_first();
        assert forall|i: int| 0 <= i < l2.len() implies step(s2[i], l2[i]) == Ok::<ParseState, Fault>(#[trigger] s2[i + 1]) by {
            assert(s2[i] == sts[i + 1] && l2[i] == ls[i + 1] && s2[i + 1] == sts[i + 2]);
        }
        assert(step(sts[0], ls[0]) == Ok::<ParseState, Fault>(sts[1]));
        lemma_fold_steps(l2, s2, ln + 1);
    }
}

/// Sequences that differ at a position differ.
pub(crate) proof fn lemma_ne_at(a: Seq<char>, b: Seq<char>, i: int)
    requires
        0 <= i < a.len(),
        i < b.len(),
        a[i] != b[i],
    ensures
        a != b,
{
}

/// The decimal text of an integer starts with a digit or `-` and reads back
/// as the integer.
pub(crate) proof fn lemma_decimal_value(n: int, min: int, max: int)
    requires
        min <= n <= max,
        min <= 0 < max,
    ensures
        spec_decimal(n).len() > 0,
        !is_ws(spec_decimal(n)[0]),
        !is_ascii_letter(spec_decimal(n)[0]),
        spec_decimal(n)[0] != '[' && spec_decimal(n)[0] != '/',
        !spec_decimal(n).contains('\n') && !spec_decimal(n).contains('\r'),
        line_safe(spec_decimal(n)),
        int_value(spec_decimal(n), min, max) == Ok::<int, Fault>(n),
{
    let d = spec_decimal(n);
    assert(d.contains(d.last()));
    crate::text::lemma_decimal_chars(n, '\n');
    crate::text::lemma_decimal_chars(n, '\r');
    crate::text::decimal_roundtrip(n, min, max);
    let c = d[0];
    if c != '-' && !crate::text::is_digit(c) {
        crate::text::lemma_decimal_chars(n, c);
        assert(d.contains(c));
    }
}

/// The text of a floating-point number starts with a character that is not
/// white space, a bracket or a slash, and reads back as itself.
pub(crate) proof fn lemma_float_value(t: Seq<char>)
    requires
        crate::text::is_float_text(t),
    ensures
        t.len() > 0,
        !is_ws(t[0]),
        t[0] != '[' && t[0] != '/',
        !t.contains('\n') && !t.contains('\r'),
        line_safe(t),
        float_value(t) == Ok::<Seq<char>, Fault>(t),
{
    crate::hitobject::lemma_float_nonempty(t);
    assert(t.contains(t.last()));
    crate::hitobject::lemma_float_nonempty(t);
    crate::text::lemma_float_text_excludes(t, '\n');
    crate::text::lemma_float_text_excludes(t, '\r');
    let c = t[0];
    if is_ws(c) || c == '[' || c == '/' {
        crate::text::lemma_float_text_excludes(t, c);
        assert(t.contains(c));
    }
}

/// Whether a string setting written after `Key: ` reads back as itself: it
/// is not empty and starts with a character that is not white space.
pub open spec fn spaced_value_ok(s: Seq<char>) -> bool {
    s.len() > 0 && !is_ws(s[0]) && line_safe(s)
}

/// Whether a string setting written after `Key:` reads back as itself: it
/// is empty or starts with a character that is not white space.
pub open spec fn value_ok(s: Seq<char>) -> bool {
    (s.len() == 0 || !is_ws(s[0])) && line_safe(s)
}

/// Whether lines in section `sec` are `key: value` lines.
pub open spec fn plain_section(sec: Seq<char>) -> bool {
    &&& sec != "Events"@
    &&& sec != "HitObjects"@
    &&& sec != "TimingPoints"@
    &&& sec != "Version"@
    &&& sec != "Colours"@
}

/// Reading a `key:value` line in a plain section applies the value to its key.
pub(crate) proof fn lemma_kv_step(st: ParseState, key: Seq<char>, sep: Seq<char>, value: Seq<char>)
    requires
        key_ok(key),
        sep == seq![':'] || sep == seq![':', ' '],
        value.len() > 0,
        !is_ws(value[0]),
        plain_section(st.section),
    ensures
        step(st, key + sep + value) == match apply_kv(st.beatmap, key, value) {
            Ok(b2) => Ok(ParseState { section: st.section, beatmap: b2 }),
            Err(f) => Err(f),
        },
{
    lemma_kv_line(key, sep, value);
}

/// A `key:` line with nothing after the `:` changes nothing.
pub(crate) proof fn lemma_kv_empty_step(st: ParseState, key: Seq<char>)
    requires
        key_ok(key),
        plain_section(st.section),
    ensures
        step(st, key + seq![':']) == Ok::<ParseState, Fault>(st),
{
    let line = key + seq![':'];
    let k = key.len() as int;
    lemma_skip_alnum_prefix(key, seq![':'], 0);
    assert(line[k] == ':');
    assert(skip_ws(line, k) == k);
    assert(line[0] == key[0]);
    assert(skip_alnum(key, 0) != 0);
    assert(skip_ws(line, 0) == 0);
    assert(kv_split(line) is None);
}

/// An empty line changes nothing.
pub(crate) proof fn lemma_blank_step(st: ParseState)
    ensures
        step(st, Seq::<char>::empty()) == Ok::<ParseState, Fault>(st),
{
}

/// A `[Name]` line of letters starts the section of that name.
pub(crate) proof fn lemma_header_step(st: ParseState, name: Seq<char>)
    requires
        name.len() > 0,
        forall|i: int| 0 <= i < name.len() ==> is_ascii_letter(#[trigger] name[i]),
    ensures
        step(st, seq!['['] + name + seq![']']) == Ok::<ParseState, Fault>(ParseState { section: name, beatmap: st.beatmap }),
{
    let line = seq!['['] + name + seq![']'];
    assert forall|i: int| 1 <= i < line.len() - 1 implies is_ascii_letter(#[trigger] line[i]) by {
        assert(line[i] == name[i - 1]);
    }
    assert(line.subrange(1, line.len() - 1) =~= name);
}

/// The format version line reads as its version.
pub(crate) proof fn lemma_version_line(v: u32)
    ensures
        version_line(version_prefix() + spec_decimal(v as int)) == Some(Ok::<u32, Fault>(v)),
        section_header(version_prefix() + spec_decimal(v as int)) is None,
        !is_blank(version_prefix() + spec_decimal(v as int)),
        line_safe(version_prefix() + spec_decimal(v as int)),
{
    let d = spec_decimal(v as int);
    let line = version_prefix() + d;
    let n = version_prefix().len() as int;
    lemma_decimal_value(v as int, 0, u32::MAX as int);
    crate::text::decimal_roundtrip(v as int, 0, u32::MAX as int);
    assert(line.subrange(0, n) =~= version_prefix());
    assert(line.subrange(n, line.len() as int) =~= d);
    crate::text::lemma_nat_digits(v as nat);
    assert forall|i: int| n <= i < line.len() implies is_unicode_digit(#[trigger] line[i]) by {
        assert(line[i] == d[i - n]);
        assert(crate::text::is_digit(d[i - n]));
    }
    assert(line[0] == 'o');
    assert(skip_ws(line, 0) == 0);
    assert(!line.contains('\n')) by {
        if line.contains('\n') {
            let i = choose|i: int| 0 <= i < line.len() && line[i] == '\n';
            if i >= n {
                assert(d[i - n] == '\n');
            }
        }
    }
    assert(line.last() == d.last());
    assert(d.contains(d.last()));
}

/// A written flag is one digit that reads back as the flag.
pub(crate) proof fn lemma_flag_value(x: bool)
    ensures
        flag_text(x).len() == 1,
        !is_ws(flag_text(x)[0]),
        int_value(flag_text(x), 0, u8::MAX as int) == Ok::<int, Fault>(if x { 1int } else { 0int }),
        line_safe(flag_text(x)),
{
    if x {
        lemma_decimal_value(1, 0, u8::MAX as int);
        assert(spec_decimal(1) =~= seq!['1']) by {
            reveal_with_fuel(crate::text::nat_digits, 2);
        }
    } else {
        lemma_decimal_value(0, 0, u8::MAX as int);
        assert(spec_decimal(0) =~= seq!['0']) by {
            reveal_with_fuel(crate::text::nat_digits, 2);
        }
    }
}

/// A written sample set name reads back as the sample set.
pub(crate) proof fn lemma_sample_set_value(ss: SampleSet)
    ensures
        sample_set_named(sample_set_name(ss)) == Some(ss),
        sample_set_name(ss).len() > 0,
        !is_ws(sample_set_name(ss)[0]),
        line_safe(sample_set_name(ss)),
{
    lemma_label_literals();
    let n = sample_set_name(ss);
    match ss {
        SampleSet::Default => {},
        SampleSet::Normal => {
            lemma_ne_at(n, "None"@, 2);
        },
        SampleSet::Soft => {
            lemma_ne_at(n, "None"@, 0);
        },
        SampleSet::Drum => {
            lemma_ne_at(n, "None"@, 0);
            lemma_ne_at(n, "Soft"@, 0);
        },
    }
    assert(!n.contains('\n'));
}


/// What a `AudioFilename` line does to the beatmap read so far.
pub proof fn lemma_apply_audio_filename(b: BeatmapView, value: Seq<char>)
    ensures
        apply_kv(b, "AudioFilename"@, value) == (Ok::<BeatmapView, Fault>(BeatmapView { audio_filename: value, ..b })),
{
    lemma_key_literals();

}

/// What a `AudioLeadIn` line does to the beatmap read so far.
pub proof fn lemma_apply_audio_lead_in(b: BeatmapView, value: Seq<char>)
    ensures
        apply_kv(b, "AudioLeadIn"@, value) == (match int_value(value, i32::MIN as int, i32::MAX as int) {
            Ok(n) => Ok(BeatmapView { audio_leadin: Millis(n as i32), ..b }),
            Err(e) => Err(e),
        }),
{
    lemma_key_literals();
    assert("AudioLeadIn"@.len() != "AudioFilename"@.len());
}

/// What a `PreviewTime` line does to the beatmap read so far.
pub proof fn lemma_apply_preview_time(b: BeatmapView, value: Seq<char>)
    ensures
        apply_kv(b, "PreviewTime"@, value) == (match int_value(value, i32::MIN as int, i32::MAX as int) {
            Ok(n) => Ok(BeatmapView { preview_time: Millis(n as i32), ..b }),
            Err(e) => Err(e),
        }),
{
    lemma_key_literals();
    assert("PreviewTime"@.len() != "AudioFilename"@.len());
    lemma_ne_at("PreviewTime"@, "AudioLeadIn"@, 0);
}

/// What a `Countdown` line does to the beatmap read so far.
pub proof fn lemma_apply_countdown(b: BeatmapView, value: Seq<char>)
    ensures
        apply_kv(b, "Countdown"@, value) == (match int_value(value, 0, u8::MAX as int) {
            Ok(n) => Ok(BeatmapView { countdown: n != 0, ..b }),
            Err(e) => Err(e),
        }),
{
    lemma_key_literals();
    assert("Countdown"@.len() != "AudioFilename"@.len());
    assert("Countdown"@.len() != "AudioLeadIn"@.len());
    assert("Countdown"@.len() != "PreviewTime"@.len());
}

/// What a `SampleSet` line does to the beatmap read so far.
pub proof fn lemma_apply_sample_set(b: BeatmapView, value: Seq<char>)
    ensures
        apply_kv(b, "SampleSet"@, value) == (match sample_set_named(value) {
            Some(ss) => Ok(BeatmapView { sample_set: ss, ..b }),
            None => Err(Fault::Failed(ParseErrorView::InvalidSampleSetString(value))),
        }),
{
    lemma_key_literals();
    assert("SampleSet"@.len() != "AudioFilename"@.len());
    assert("SampleSet"@.len() != "AudioLeadIn"@.len());
    assert("SampleSet"@.len() != "PreviewTime"@.len());
    lemma_ne_at("SampleSet"@, "Countdown"@, 0);
}

/// What a `StackLeniency` line does to the beatmap read so far.
pub proof fn lemma_apply_stack_leniency(b: BeatmapView, value: Seq<char>)
    ensures
        apply_kv(b, "StackLeniency"@, value) == (match float_value(value) {
            Ok(t) => Ok(BeatmapView { stack_leniency: t, ..b }),
            Err(e) => Err(e),
        }),
{
    lemma_key_literals();
    lemma_ne_at("StackLeniency"@, "AudioFilename"@, 0);
    assert("StackLeniency"@.len() != "AudioLeadIn"@.len());
    assert("StackLeniency"@.len() != "PreviewTime"@.len());
    assert("StackLeniency"@.len() != "Countdown"@.len());
    assert("StackLeniency"@.len() != "SampleSet"@.len());
}

/// What a `Mode` line does to the beatmap read so far.
pub proof fn lemma_apply_mode(b: BeatmapView, value: Seq<char>)
    ensures
        apply_kv(b, "Mode"@, value) == (match int_value(value, 0, u8::MAX as int) {
            Ok(n) => match Mode::spec_from_u8(n as u8) {
                Some(m) => Ok(BeatmapView { mode: m, ..b }),
                None => Err(Fault::Failed(ParseErrorView::InvalidGameMode(n as u8))),
            },
            Err(e) => Err(e),
        }),
{
    lemma_key_literals();
    assert("Mode"@.len() != "AudioFilename"@.len());
    assert("Mode"@.len() != "AudioLeadIn"@.len());
    assert("Mode"@.len() != "PreviewTime"@.len());
    assert("Mode"@.len() != "Countdown"@.len());
    assert("Mode"@.len() != "SampleSet"@.len());
    assert("Mode"@.len() != "StackLeniency"@.len());
}

/// What a `WidescreenStoryboard` line does to the beatmap read so far.
pub proof fn lemma_apply_widescreen_storyboard(b: BeatmapView, value: Seq<char>)
    ensures
        apply_kv(b, "WidescreenStoryboard"@, value) == (match int_value(value, 0, u8::MAX as int) {
            Ok(n) => Ok(BeatmapView { widescreen_storyboard: n != 0, ..b }),
            Err(e) => Err(e),
        }),
{
    lemma_key_literals();
    assert("WidescreenStoryboard"@.len() != "AudioFilename"@.len());
    assert("WidescreenStoryboard"@.len() != "AudioLeadIn"@.len());
    assert("WidescreenStoryboard"@.len() != "PreviewTime"@.len());
    assert("WidescreenStoryboard"@.len() != "Countdown"@.len());
    assert("WidescreenStoryboard"@.len() != "SampleSet"@.len());
    assert("WidescreenStoryboard"@.len() != "StackLeniency"@.len());
    assert("WidescreenStoryboard"@.len() != "Mode"@.len());
    assert("WidescreenStoryboard"@.len() != "LetterBoxInBreaks"@.len());
}

/// What a `Bookmarks` line does to the beatmap read so far.
pub proof fn lemma_apply_bookmarks(b: BeatmapView, value: Seq<char>)
    ensures
        apply_kv(b, "Bookmarks"@, value) == (match spec_bookmarks(split_spec(trim_ws(value), ',')) {
            Ok(bs) => Ok(BeatmapView { bookmarks: bs, ..b }),
            Err(e) => Err(e),
        }),
{
    lemma_key_literals();
    assert("Bookmarks"@.len() != "AudioFilename"@.len());
    assert("Bookmarks"@.len() != "AudioLeadIn"@.len());
    assert("Bookmarks"@.len() != "PreviewTime"@.len());
    lemma_ne_at("Bookmarks"@, "Countdown"@, 0);
    lemma_ne_at("Bookmarks"@, "SampleSet"@, 0);
    assert("Bookmarks"@.len() != "StackLeniency"@.len());
    assert("Bookmarks"@.len() != "Mode"@.len());
    assert("Bookmarks"@.len() != "LetterBoxInBreaks"@.len());
    assert("Bookmarks"@.len() != "WidescreenStoryboard"@.len());
}

/// What a `DistanceSpacing` line does to the beatmap read so far.
pub proof fn lemma_apply_distance_spacing(b: BeatmapView, value: Seq<char>)
    ensures
        apply_kv(b, "DistanceSpacing"@, value) == (match float_value(value) {
            Ok(t) => Ok(BeatmapView { distance_spacing: t, ..b }),
            Err(e) => Err(e),
        }),
{
    lemma_key_literals();
    assert("DistanceSpacing"@.len() != "AudioFilename"@.len());
    assert("DistanceSpacing"@.len() != "AudioLeadIn"@.len());
    assert("DistanceSpacing"@.len() != "PreviewTime"@.len());
    assert("DistanceSpacing"@.len() != "Countdown"@.len());
    assert("DistanceSpacing"@.len() != "SampleSet"@.len());
    assert("DistanceSpacing"@.len() != "StackLeniency"@.len());
    assert("DistanceSpacing"@.len() != "Mode"@.len());
    assert("DistanceSpacing"@.len() != "LetterBoxInBreaks"@.len());
    assert("DistanceSpacing"@.len() != "WidescreenStoryboard"@.len());
    assert("DistanceSpacing"@.len() != "Bookmarks"@.len());
}

/// What a `BeatDivisor` line does to the beatmap read so far.
pub proof fn lemma_apply_beat_divisor(b: BeatmapView, value: Seq<char>)
    ensures
        apply_kv(b, "BeatDivisor"@, value) == (match int_value(value, 0, u8::MAX as int) {
            Ok(n) => Ok(BeatmapView { beat_divisor: n as u8, ..b }),
            Err(e) => Err(e),
        }),
{
    lemma_key_literals();
    assert("BeatDivisor"@.len() != "AudioFilename"@.len());
    lemma_ne_at("BeatDivisor"@, "AudioLeadIn"@, 0);
    lemma_ne_at("BeatDivisor"@, "PreviewTime"@, 0);
    assert("BeatDivisor"@.len() != "Countdown"@.len());
    assert("BeatDivisor"@.len() != "SampleSet"@.len());
    assert("BeatDivisor"@.len() != "StackLeniency"@.len());
    assert("BeatDivisor"@.len() != "Mode"@.len());
    assert("BeatDivisor"@.len() != "LetterBoxInBreaks"@.len());
    assert("BeatDivisor"@.len() != "WidescreenStoryboard"@.len());
    assert("BeatDivisor"@.len() != "Bookmarks"@.len());
    assert("BeatDivisor"@.len() != "DistanceSpacing"@.len());
}

/// What a `GridSize` line does to the beatmap read so far.
pub proof fn lemma_apply_grid_size(b: BeatmapView, value: Seq<char>)
    ensures
        apply_kv(b, "GridSize"@, value) == (match int_value(value, 0, u8::MAX as int) {
            Ok(n) => if GridSize::is_grid_size(n as u8) {
                Ok(BeatmapView { grid_size: n as u8, ..b })
            } else {
                Err(Fault::Failed(ParseErrorView::InvalidGridSize(n as u8)))
            },
            Err(e) => Err(e),
        }),
{
    lemma_key_literals();
    assert("GridSize"@.len() != "AudioFilename"@.len());
    assert("GridSize"@.len() != "AudioLeadIn"@.len());
    assert("GridSize"@.len() != "PreviewTime"@.len());
    assert("GridSize"@.len() != "Countdown"@.len());
    assert("GridSize"@.len() != "SampleSet"@.len());
    assert("GridSize"@.len() != "StackLeniency"@.len());
    assert("GridSize"@.len() != "Mode"@.len());
    assert("GridSize"@.len() != "LetterBoxInBreaks"@.len());
    assert("GridSize"@.len() != "WidescreenStoryboard"@.len());
    assert("GridSize"@.len() != "Bookmarks"@.len());
    assert("GridSize"@.len() != "DistanceSpacing"@.len());
    assert("GridSize"@.len() != "BeatDivisor"@.len());
}

/// What a `TimelineZoom` line does to the beatmap read so far.
pub proof fn lemma_apply_timeline_zoom(b: BeatmapView, value: Seq<char>)
    ensures
        apply_kv(b, "TimelineZoom"@, value) == (match float_value(value) {
            Ok(t) => Ok(BeatmapView { timeline_zoom: t, ..b }),
            Err(e) => Err(e),
        }),
{
    lemma_key_literals();
    assert("TimelineZoom"@.len() != "AudioFilename"@.len());
    assert("TimelineZoom"@.len() != "AudioLeadIn"@.len());
    assert("TimelineZoom"@.len() != "PreviewTime"@.len());
    assert("TimelineZoom"@.len() != "Countdown"@.len());
    assert("TimelineZoom"@.len() != "SampleSet"@.len());
    assert("TimelineZoom"@.len() != "StackLeniency"@.len());
    assert("TimelineZoom"@.len() != "Mode"@.len());
    assert("TimelineZoom"@.len() != "LetterBoxInBreaks"@.len());
    assert("TimelineZoom"@.len() != "WidescreenStoryboard"@.len());
    assert("TimelineZoom"@.len() != "Bookmarks"@.len());
    assert("TimelineZoom"@.len() != "DistanceSpacing"@.len());
    assert("TimelineZoom"@.len() != "BeatDivisor"@.len());
    assert("TimelineZoom"@.len() != "GridSize"@.len());
}

/// What a `Title` line does to the beatmap read so far.
pub proof fn lemma_apply_title(b: BeatmapView, value: Seq<char>)
    ensures
        apply_kv(b, "Title"@, value) == (Ok::<BeatmapView, Fault>(BeatmapView { title: value, ..b })),
{
    lemma_key_literals();
    assert("Title"@.len() != "AudioFilename"@.len());
    assert("Title"@.len() != "AudioLeadIn"@.len());
    assert("Title"@.len() != "PreviewTime"@.len());
    assert("Title"@.len() != "Countdown"@.len());
    assert("Title"@.len() != "SampleSet"@.len());
    assert("Title"@.len() != "StackLeniency"@.len());
    assert("Title"@.len() != "Mode"@.len());
    assert("Title"@.len() != "LetterBoxInBreaks"@.len());
    assert("Title"@.len() != "WidescreenStoryboard"@.len());
    assert("Title"@.len() != "Bookmarks"@.len());
    assert("Title"@.len() != "DistanceSpacing"@.len());
    assert("Title"@.len() != "BeatDivisor"@.len());
    assert("Title"@.len() != "GridSize"@.len());
    assert("Title"@.len() != "TimelineZoom"@.len());
}

/// What a `TitleUnicode` line does to the beatmap read so far.
pub proof fn lemma_apply_title_unicode(b: BeatmapView, value: Seq<char>)
    ensures
        apply_kv(b, "TitleUnicode"@, value) == (Ok::<BeatmapView, Fault>(BeatmapView { title_unicode: value, ..b })),
{
    lemma_key_literals();
    assert("TitleUnicode"@.len() != "AudioFilename"@.len());
    assert("TitleUnicode"@.len() != "AudioLeadIn"@.len());
    assert("TitleUnicode"@.len() != "PreviewTime"@.len());
    assert("TitleUnicode"@.len() != "Countdown"@.len());
    assert("TitleUnicode"@.len() != "SampleSet"@.len());
    assert("TitleUnicode"@.len() != "StackLeniency"@.len());
    assert("TitleUnicode"@.len() != "Mode"@.len());
    assert("TitleUnicode"@.len() != "LetterBoxInBreaks"@.len());
    assert("TitleUnicode"@.len() != "WidescreenStoryboard"@.len());
    assert("TitleUnicode"@.len() != "Bookmarks"@.len());
    assert("TitleUnicode"@.len() != "DistanceSpacing"@.len());
    assert("TitleUnicode"@.len() != "BeatDivisor"@.len());
    assert("TitleUnicode"@.len() != "GridSize"@.len());
    lemma_ne_at("TitleUnicode"@, "TimelineZoom"@, 2);
    assert("TitleUnicode"@.len() != "Title"@.len());
}

/// What a `Artist` line does to the beatmap read so far.
pub proof fn lemma_apply_artist(b: BeatmapView, value: Seq<char>)
    ensures
        apply_kv(b, "Artist"@, value) == (Ok::<BeatmapView, Fault>(BeatmapView { artist: value, ..b })),
{
    lemma_key_literals();
    assert("Artist"@.len() != "AudioFilename"@.len());
    assert("Artist"@.len() != "AudioLeadIn"@.len());
    assert("Artist"@.len() != "PreviewTime"@.len());
    assert("Artist"@.len() != "Countdown"@.len());
    assert("Artist"@.len() != "SampleSet"@.len());
    assert("Artist"@.len() != "StackLeniency"@.len());
    assert("Artist"@.len() != "Mode"@.len());
    assert("Artist"@.len() != "LetterBoxInBreaks"@.len());
    assert("Artist"@.len() != "WidescreenStoryboard"@.len());
    assert("Artist"@.len() != "Bookmarks"@.len());
    assert("Artist"@.len() != "DistanceSpacing"@.len());
    assert("Artist"@.len() != "BeatDivisor"@.len());
    assert("Artist"@.len() != "GridSize"@.len());
    assert("Artist"@.len() != "TimelineZoom"@.len());
    assert("Artist"@.len() != "Title"@.len());
    assert("Artist"@.len() != "TitleUnicode"@.len());
}

/// What a `ArtistUnicode` line does to the beatmap read so far.
pub proof fn lemma_apply_artist_unicode(b: BeatmapView, value: Seq<char>)
    ensures
        apply_kv(b, "ArtistUnicode"@, value) == (Ok::<BeatmapView, Fault>(BeatmapView { artist_unicode: value, ..b })),
{
    lemma_key_literals();
    lemma_ne_at("ArtistUnicode"@, "AudioFilename"@, 1);
    assert("ArtistUnicode"@.len() != "AudioLeadIn"@.len());
    assert("ArtistUnicode"@.len() != "PreviewTime"@.len());
    assert("ArtistUnicode"@.len() != "Countdown"@.len());
    assert("ArtistUnicode"@.len() != "SampleSet"@.len());
    lemma_ne_at("ArtistUnicode"@, "StackLeniency"@, 0);
    assert("ArtistUnicode"@.len() != "Mode"@.len());
    assert("ArtistUnicode"@.len() != "LetterBoxInBreaks"@.len());
    assert("ArtistUnicode"@.len() != "WidescreenStoryboard"@.len());
    assert("ArtistUnicode"@.len() != "Bookmarks"@.len());
    assert("ArtistUnicode"@.len() != "DistanceSpacing"@.len());
    assert("ArtistUnicode"@.len() != "BeatDivisor"@.len());
    assert("ArtistUnicode"@.len() != "GridSize"@.len());
    assert("ArtistUnicode"@.len() != "TimelineZoom"@.len());
    assert("ArtistUnicode"@.len() != "Title"@.len());
    assert("ArtistUnicode"@.len() != "TitleUnicode"@.len());
    assert("ArtistUnicode"@.len() != "Artist"@.len());
}

/// What a `Creator` line does to the beatmap read so far.
pub proof fn lemma_apply_creator(b: BeatmapView, value: Seq<char>)
    ensures
        apply_kv(b, "Creator"@, value) == (Ok::<BeatmapView, Fault>(BeatmapView { creator: value, ..b })),
{
    lemma_key_literals();
    assert("Creator"@.len() != "AudioFilename"@.len());
    assert("Creator"@.len() != "AudioLeadIn"@.len());
    assert("Creator"@.len() != "PreviewTime"@.len());
    assert("Creator"@.len() != "Countdown"@.len());
    assert("Creator"@.len() != "SampleSet"@.len());
    assert("Creator"@.len() != "StackLeniency"@.len());
    assert("Creator"@.len() != "Mode"@.len());
    assert("Creator"@.len() != "LetterBoxInBreaks"@.len());
    assert("Creator"@.len() != "WidescreenStoryboard"@.len());
    assert("Creator"@.len() != "Bookmarks"@.len());
    assert("Creator"@.len() != "DistanceSpacing"@.len());
    assert("Creator"@.len() != "BeatDivisor"@.len());
    assert("Creator"@.len() != "GridSize"@.len());
    assert("Creator"@.len() != "TimelineZoom"@.len());
    assert("Creator"@.len() != "Title"@.len());
    assert("Creator"@.len() != "TitleUnicode"@.len());
    assert("Creator"@.len() != "Artist"@.len());
    assert("Creator"@.len() != "ArtistUnicode"@.len());
}

/// What a `Version` line does to the beatmap read so far.
pub proof fn lemma_apply_version(b: BeatmapView, value: Seq<char>)
    ensures
        apply_kv(b, "Version"@, value) == (Ok::<BeatmapView, Fault>(BeatmapView { difficulty_name: value, ..b })),
{
    lemma_key_literals();
    assert("Version"@.len() != "AudioFilename"@.len());
    assert("Version"@.len() != "AudioLeadIn"@.len());
    assert("Version"@.len() != "PreviewTime"@.len());
    assert("Version"@.len() != "Countdown"@.len());
    assert("Version"@.len() != "SampleSet"@.len());
    assert("Version"@.len() != "StackLeniency"@.len());
    assert("Version"@.len() != "Mode"@.len());
    assert("Version"@.len() != "LetterBoxInBreaks"@.len());
    assert("Version"@.len() != "WidescreenStoryboard"@.len());
    assert("Version"@.len() != "Bookmarks"@.len());
    assert("Version"@.len() != "DistanceSpacing"@.len());
    assert("Version"@.len() != "BeatDivisor"@.len());
    assert("Version"@.len() != "GridSize"@.len());
    assert("Version"@.len() != "TimelineZoom"@.len());
    assert("Version"@.len() != "Title"@.len());
    assert("Version"@.len() != "TitleUnicode"@.len());
    assert("Version"@.len() != "Artist"@.len());
    assert("Version"@.len() != "ArtistUnicode"@.len());
    lemma_ne_at("Version"@, "Creator"@, 0);
}

/// What a `Source` line does to the beatmap read so far.
pub proof fn lemma_apply_source(b: BeatmapView, value: Seq<char>)
    ensures
        apply_kv(b, "Source"@, value) == (Ok::<BeatmapView, Fault>(BeatmapView { source: value, ..b })),
{
    lemma_key_literals();
    assert("Source"@.len() != "AudioFilename"@.len());
    assert("Source"@.len() != "AudioLeadIn"@.len());
    assert("Source"@.len() != "PreviewTime"@.len());
    assert("Source"@.len() != "Countdown"@.len());
    assert("Source"@.len() != "SampleSet"@.len());
    assert("Source"@.len() != "StackLeniency"@.len());
    assert("Source"@.len() != "Mode"@.len());
    assert("Source"@.len() != "LetterBoxInBreaks"@.len());
    assert("Source"@.len() != "WidescreenStoryboard"@.len());
    assert("Source"@.len() != "Bookmarks"@.len());
    assert("Source"@.len() != "DistanceSpacing"@.len());
    assert("Source"@.len() != "BeatDivisor"@.len());
    assert("Source"@.len() != "GridSize"@.len());
    assert("Source"@.len() != "TimelineZoom"@.len());
    assert("Source"@.len() != "Title"@.len());
    assert("Source"@.len() != "TitleUnicode"@.len());
    lemma_ne_at("Source"@, "Artist"@, 0);
    assert("Source"@.len() != "ArtistUnicode"@.len());
    assert("Source"@.len() != "Creator"@.len());
    assert("Source"@.len() != "Version"@.len());
}

/// What a `Tags` line does to the beatmap read so far.
pub proof fn lemma_apply_tags(b: BeatmapView, value: Seq<char>)
    ensures
        apply_kv(b, "Tags"@, value) == (Ok::<BeatmapView, Fault>(BeatmapView { tags: split_spec(value, ' '), ..b })),
{
    lemma_key_literals();
    assert("Tags"@.len() != "AudioFilename"@.len());
    assert("Tags"@.len() != "AudioLeadIn"@.len());
    assert("Tags"@.len() != "PreviewTime"@.len());
    assert("Tags"@.len() != "Countdown"@.len());
    assert("Tags"@.len() != "SampleSet"@.len());
    assert("Tags"@.len() != "StackLeniency"@.len());
    lemma_ne_at("Tags"@, "Mode"@, 0);
    assert("Tags"@.len() != "LetterBoxInBreaks"@.len());
    assert("Tags"@.len() != "WidescreenStoryboard"@.len());
    assert("Tags"@.len() != "Bookmarks"@.len());
    assert("Tags"@.len() != "DistanceSpacing"@.len());
    assert("Tags"@.len() != "BeatDivisor"@.len());
    assert("Tags"@.len() != "GridSize"@.len());
    assert("Tags"@.len() != "TimelineZoom"@.len());
    assert("Tags"@.len() != "Title"@.len());
    assert("Tags"@.len() != "TitleUnicode"@.len());
    assert("Tags"@.len() != "Artist"@.len());
    assert("Tags"@.len() != "ArtistUnicode"@.len());
    assert("Tags"@.len() != "Creator"@.len());
    assert("Tags"@.len() != "Version"@.len());
    assert("Tags"@.len() != "Source"@.len());
}

/// What a `BeatmapID` line does to the beatmap read so far.
pub proof fn lemma_apply_beatmap_id(b: BeatmapView, value: Seq<char>)
    ensures
        apply_kv(b, "BeatmapID"@, value) == (match int_value(value, i32::MIN as int, i32::MAX as int) {
            Ok(n) => Ok(BeatmapView { beatmap_id: n as i32, ..b }),
            Err(e) => Err(e),
        }),
{
    lemma_key_literals();
    assert("BeatmapID"@.len() != "AudioFilename"@.len());
    assert("BeatmapID"@.len() != "AudioLeadIn"@.len());
    assert("BeatmapID"@.len() != "PreviewTime"@.len());
    lemma_ne_at("BeatmapID"@, "Countdown"@, 0);
    lemma_ne_at("BeatmapID"@, "SampleSet"@, 0);
    assert("BeatmapID"@.len() != "StackLeniency"@.len());
    assert("BeatmapID"@.len() != "Mode"@.len());
    assert("BeatmapID"@.len() != "LetterBoxInBreaks"@.len());
    assert("BeatmapID"@.len() != "WidescreenStoryboard"@.len());
    lemma_ne_at("BeatmapID"@, "Bookmarks"@, 1);
    assert("BeatmapID"@.len() != "DistanceSpacing"@.len());
    assert("BeatmapID"@.len() != "BeatDivisor"@.len());
    assert("BeatmapID"@.len() != "GridSize"@.len());
    assert("BeatmapID"@.len() != "TimelineZoom"@.len());
    assert("BeatmapID"@.len() != "Title"@.len());
    assert("BeatmapID"@.len() != "TitleUnicode"@.len());
    assert("BeatmapID"@.len() != "Artist"@.len());
    assert("BeatmapID"@.len() != "ArtistUnicode"@.len());
    assert("BeatmapID"@.len() != "Creator"@.len());
    assert("BeatmapID"@.len() != "Version"@.len());
    assert("BeatmapID"@.len() != "Source"@.len());
    assert("BeatmapID"@.len() != "Tags"@.len());
}

/// What a `BeatmapSetID` line does to the beatmap read so far.
pub proof fn lemma_apply_beatmap_set_id(b: BeatmapView, value: Seq<char>)
    ensures
        apply_kv(b, "BeatmapSetID"@, value) == (match int_value(value, i32::MIN as int, i32::MAX as int) {
            Ok(n) => Ok(BeatmapView { beatmap_set_id: n as i32, ..b }),
            Err(e) => Err(e),
        }),
{
    lemma_key_literals();
    assert("BeatmapSetID"@.len() != "AudioFilename"@.len());
    assert("BeatmapSetID"@.len() != "AudioLeadIn"@.len());
    assert("BeatmapSetID"@.len() != "PreviewTime"@.len());
    assert("BeatmapSetID"@.len() != "Countdown"@.len());
    assert("BeatmapSetID"@.len() != "SampleSet"@.len());
    assert("BeatmapSetID"@.len() != "StackLeniency"@.len());
    assert("BeatmapSetID"@.len() != "Mode"@.len());
    assert("BeatmapSetID"@.len() != "LetterBoxInBreaks"@.len());
    assert("BeatmapSetID"@.len() != "WidescreenStoryboard"@.len());
    assert("BeatmapSetID"@.len() != "Bookmarks"@.len());
    assert("BeatmapSetID"@.len() != "DistanceSpacing"@.len());
    assert("BeatmapSetID"@.len() != "BeatDivisor"@.len());
    assert("BeatmapSetID"@.len() != "GridSize"@.len());
    lemma_ne_at("BeatmapSetID"@, "TimelineZoom"@, 0);
    assert("BeatmapSetID"@.len() != "Title"@.len());
    lemma_ne_at("BeatmapSetID"@, "TitleUnicode"@, 0);
    assert("BeatmapSetID"@.len() != "Artist"@.len());
    assert("BeatmapSetID"@.len() != "ArtistUnicode"@.len());
    assert("BeatmapSetID"@.len() != "Creator"@.len());
    assert("BeatmapSetID"@.len() != "Version"@.len());
    assert("BeatmapSetID"@.len() != "Source"@.len());
    assert("BeatmapSetID"@.len() != "Tags"@.len());
    assert("BeatmapSetID"@.len() != "BeatmapID"@.len());
}

/// What a `HPDrainRate` line does to the beatmap read so far.
pub proof fn lemma_apply_hp_drain_rate(b: BeatmapView, value: Seq<char>)
    ensures
        apply_kv(b, "HPDrainRate"@, value) == (match float_value(value) {
            Ok(t) => Ok(BeatmapView { difficulty: DifficultyView { hp_drain_rate: t, ..b.difficulty }, ..b }),
            Err(e) => Err(e),
        }),
{
    lemma_key_literals();
    assert("HPDrainRate"@.len() != "AudioFilename"@.len());
    lemma_ne_at("HPDrainRate"@, "AudioLeadIn"@, 0);
    lemma_ne_at("HPDrainRate"@, "PreviewTime"@, 0);
    assert("HPDrainRate"@.len() != "Countdown"@.len());
    assert("HPDrainRate"@.len() != "SampleSet"@.len());
    assert("HPDrainRate"@.len() != "StackLeniency"@.len());
    assert("HPDrainRate"@.len() != "Mode"@.len());
    assert("HPDrainRate"@.len() != "LetterBoxInBreaks"@.len());
    assert("HPDrainRate"@.len() != "WidescreenStoryboard"@.len());
    assert("HPDrainRate"@.len() != "Bookmarks"@.len());
    assert("HPDrainRate"@.len() != "DistanceSpacing"@.len());
    lemma_ne_at("HPDrainRate"@, "BeatDivisor"@, 0);
    assert("HPDrainRate"@.len() != "GridSize"@.len());
    assert("HPDrainRate"@.len() != "TimelineZoom"@.len());
    assert("HPDrainRate"@.len() != "Title"@.len());
    assert("HPDrainRate"@.len() != "TitleUnicode"@.len());
    assert("HPDrainRate"@.len() != "Artist"@.len());
    assert("HPDrainRate"@.len() != "ArtistUnicode"@.len());
    assert("HPDrainRate"@.len() != "Creator"@.len());
    assert("HPDrainRate"@.len() != "Version"@.len());
    assert("HPDrainRate"@.len() != "Source"@.len());
    assert("HPDrainRate"@.len() != "Tags"@.len());
    assert("HPDrainRate"@.len() != "BeatmapID"@.len());
    assert("HPDrainRate"@.len() != "BeatmapSetID"@.len());
}

/// What a `CircleSize` line does to the beatmap read so far.
pub proof fn lemma_apply_circle_size(b: BeatmapView, value: Seq<char>)
    ensures
        apply_kv(b, "CircleSize"@, value) == (match float_value(value) {
            Ok(t) => Ok(BeatmapView { difficulty: DifficultyView { circle_size: t, ..b.difficulty }, ..b }),
            Err(e) => Err(e),
        }),
{
    lemma_key_literals();
    assert("CircleSize"@.len() != "AudioFilename"@.len());
    assert("CircleSize"@.len() != "AudioLeadIn"@.len());
    assert("CircleSize"@.len() != "PreviewTime"@.len());
    assert("CircleSize"@.len() != "Countdown"@.len());
    assert("CircleSize"@.len() != "SampleSet"@.len());
    assert("CircleSize"@.len() != "StackLeniency"@.len());
    assert("CircleSize"@.len() != "Mode"@.len());
    assert("CircleSize"@.len() != "LetterBoxInBreaks"@.len());
    assert("CircleSize"@.len() != "WidescreenStoryboard"@.len());
    assert("CircleSize"@.len() != "Bookmarks"@.len());
    assert("CircleSize"@.len() != "DistanceSpacing"@.len());
    assert("CircleSize"@.len() != "BeatDivisor"@.len());
    assert("CircleSize"@.len() != "GridSize"@.len());
    assert("CircleSize"@.len() != "TimelineZoom"@.len());
    assert("CircleSize"@.len() != "Title"@.len());
    assert("CircleSize"@.len() != "TitleUnicode"@.len());
    assert("CircleSize"@.len() != "Artist"@.len());
    assert("CircleSize"@.len() != "ArtistUnicode"@.len());
    assert("CircleSize"@.len() != "Creator"@.len());
    assert("CircleSize"@.len() != "Version"@.len());
    assert("CircleSize"@.len() != "Source"@.len());
    assert("CircleSize"@.len() != "Tags"@.len());
    assert("CircleSize"@.len() != "BeatmapID"@.len());
    assert("CircleSize"@.len() != "BeatmapSetID"@.len());
    assert("CircleSize"@.len() != "HPDrainRate"@.len());
}

/// What a `OverallDifficulty` line does to the beatmap read so far.
pub proof fn lemma_apply_overall_difficulty(b: BeatmapView, value: Seq<char>)
    ensures
        apply_kv(b, "OverallDifficulty"@, value) == (match float_value(value) {
            Ok(t) => Ok(BeatmapView { difficulty: DifficultyView { overall_difficulty: t, ..b.difficulty }, ..b }),
            Err(e) => Err(e),
        }),
{
    lemma_key_literals();
    assert("OverallDifficulty"@.len() != "AudioFilename"@.len());
    assert("OverallDifficulty"@.len() != "AudioLeadIn"@.len());
    assert("OverallDifficulty"@.len() != "PreviewTime"@.len());
    assert("OverallDifficulty"@.len() != "Countdown"@.len());
    assert("OverallDifficulty"@.len() != "SampleSet"@.len());
    assert("OverallDifficulty"@.len() != "StackLeniency"@.len());
    assert("OverallDifficulty"@.len() != "Mode"@.len());
    lemma_ne_at("OverallDifficulty"@, "LetterBoxInBreaks"@, 0);
    assert("OverallDifficulty"@.len() != "WidescreenStoryboard"@.len());
    assert("OverallDifficulty"@.len() != "Bookmarks"@.len());
    assert("OverallDifficulty"@.len() != "DistanceSpacing"@.len());
    assert("OverallDifficulty"@.len() != "BeatDivisor"@.len());
    assert("OverallDifficulty"@.len() != "GridSize"@.len());
    assert("OverallDifficulty"@.len() != "TimelineZoom"@.len());
    assert("OverallDifficulty"@.len() != "Title"@.len());
    assert("OverallDifficulty"@.len() != "TitleUnicode"@.len());
    assert("OverallDifficulty"@.len() != "Artist"@.len());
    assert("OverallDifficulty"@.len() != "ArtistUnicode"@.len());
    assert("OverallDifficulty"@.len() != "Creator"@.len());
    assert("OverallDifficulty"@.len() != "Version"@.len());
    assert("OverallDifficulty"@.len() != "Source"@.len());
    assert("OverallDifficulty"@.len() != "Tags"@.len());
    assert("OverallDifficulty"@.len() != "BeatmapID"@.len());
    assert("OverallDifficulty"@.len() != "BeatmapSetID"@.len());
    assert("OverallDifficulty"@.len() != "HPDrainRate"@.len());
    assert("OverallDifficulty"@.len() != "CircleSize"@.len());
}

/// What a `ApproachRate` line does to the beatmap read so far.
pub proof fn lemma_apply_approach_rate(b: BeatmapView, value: Seq<char>)
    ensures
        apply_kv(b, "ApproachRate"@, value) == (match float_value(value) {
            Ok(t) => Ok(BeatmapView { difficulty: DifficultyView { approach_rate: t, ..b.difficulty }, ..b }),
            Err(e) => Err(e),
        }),
{
    lemma_key_literals();
    assert("ApproachRate"@.len() != "AudioFilename"@.len());
    assert("ApproachRate"@.len() != "AudioLeadIn"@.len());
    assert("ApproachRate"@.len() != "PreviewTime"@.len());
    assert("ApproachRate"@.len() != "Countdown"@.len());
    assert("ApproachRate"@.len() != "SampleSet"@.len());
    assert("ApproachRate"@.len() != "StackLeniency"@.len());
    assert("ApproachRate"@.len() != "Mode"@.len());
    assert("ApproachRate"@.len() != "LetterBoxInBreaks"@.len());
    assert("ApproachRate"@.len() != "WidescreenStoryboard"@.len());
    assert("ApproachRate"@.len() != "Bookmarks"@.len());
    assert("ApproachRate"@.len() != "DistanceSpacing"@.len());
    assert("ApproachRate"@.len() != "BeatDivisor"@.len());
    assert("ApproachRate"@.len() != "GridSize"@.len());
    lemma_ne_at("ApproachRate"@, "TimelineZoom"@, 0);
    assert("ApproachRate"@.len() != "Title"@.len());
    lemma_ne_at("ApproachRate"@, "TitleUnicode"@, 0);
    assert("ApproachRate"@.len() != "Artist"@.len());
    assert("ApproachRate"@.len() != "ArtistUnicode"@.len());
    assert("ApproachRate"@.len() != "Creator"@.len());
    assert("ApproachRate"@.len() != "Version"@.len());
    assert("ApproachRate"@.len() != "Source"@.len());
    assert("ApproachRate"@.len() != "Tags"@.len());
    assert("ApproachRate"@.len() != "BeatmapID"@.len());
    lemma_ne_at("ApproachRate"@, "BeatmapSetID"@, 0);
    assert("ApproachRate"@.len() != "HPDrainRate"@.len());
    assert("ApproachRate"@.len() != "CircleSize"@.len());
    assert("ApproachRate"@.len() != "OverallDifficulty"@.len());
}

/// What a `SliderMultiplier` line does to the beatmap read so far.
pub proof fn lemma_apply_slider_multiplier(b: BeatmapView, value: Seq<char>)
    ensures
        apply_kv(b, "SliderMultiplier"@, value) == (match float_value(value) {
            Ok(t) => Ok(BeatmapView { difficulty: DifficultyView { slider_multiplier: t, ..b.difficulty }, ..b }),
            Err(e) => Err(e),
        }),
{
    lemma_key_literals();
    assert("SliderMultiplier"@.len() != "AudioFilename"@.len());
    assert("SliderMultiplier"@.len() != "AudioLeadIn"@.len());
    assert("SliderMultiplier"@.len() != "PreviewTime"@.len());
    assert("SliderMultiplier"@.len() != "Countdown"@.len());
    assert("SliderMultiplier"@.len() != "SampleSet"@.len());
    assert("SliderMultiplier"@.len() != "StackLeniency"@.len());
    assert("SliderMultiplier"@.len() != "Mode"@.len());
    assert("SliderMultiplier"@.len() != "LetterBoxInBreaks"@.len());
    assert("SliderMultiplier"@.len() != "WidescreenStoryboard"@.len());
    assert("SliderMultiplier"@.len() != "Bookmarks"@.len());
    assert("SliderMultiplier"@.len() != "DistanceSpacing"@.len());
    assert("SliderMultiplier"@.len() != "BeatDivisor"@.len());
    assert("SliderMultiplier"@.len() != "GridSize"@.len());
    assert("SliderMultiplier"@.len() != "TimelineZoom"@.len());
    assert("SliderMultiplier"@.len() != "Title"@.len());
    assert("SliderMultiplier"@.len() != "TitleUnicode"@.len());
    assert("SliderMultiplier"@.len() != "Artist"@.len());
    assert("SliderMultiplier"@.len() != "ArtistUnicode"@.len());
    assert("SliderMultiplier"@.len() != "Creator"@.len());
    assert("SliderMultiplier"@.len() != "Version"@.len());
    assert("SliderMultiplier"@.len() != "Source"@.len());
    assert("SliderMultiplier"@.len() != "Tags"@.len());
    assert("SliderMultiplier"@.len() != "BeatmapID"@.len());
    assert("SliderMultiplier"@.len() != "BeatmapSetID"@.len());
    assert("SliderMultiplier"@.len() != "HPDrainRate"@.len());
    assert("SliderMultiplier"@.len() != "CircleSize"@.len());
    assert("SliderMultiplier"@.len() != "OverallDifficulty"@.len());
    assert("SliderMultiplier"@.len() != "ApproachRate"@.len());
}

/// What a `SliderTickRate` line does to the beatmap read so far.
pub proof fn lemma_apply_slider_tick_rate(b: BeatmapView, value: Seq<char>)
    ensures
        apply_kv(b, "SliderTickRate"@, value) == (match float_value(value) {
            Ok(t) => Ok(BeatmapView { difficulty: DifficultyView { slider_tick_rate: t, ..b.difficulty }, ..b }),
            Err(e) => Err(e),
        }),
{
    lemma_key_literals();
    assert("SliderTickRate"@.len() != "AudioFilename"@.len());
    assert("SliderTickRate"@.len() != "AudioLeadIn"@.len());
    assert("SliderTickRate"@.len() != "PreviewTime"@.len());
    assert("SliderTickRate"@.len() != "Countdown"@.len());
    assert("SliderTickRate"@.len() != "SampleSet"@.len());
    assert("SliderTickRate"@.len() != "StackLeniency"@.len());
    assert("SliderTickRate"@.len() != "Mode"@.len());
    assert("SliderTickRate"@.len() != "LetterBoxInBreaks"@.len());
    assert("SliderTickRate"@.len() != "WidescreenStoryboard"@.len());
    assert("SliderTickRate"@.len() != "Bookmarks"@.len());
    assert("SliderTickRate"@.len() != "DistanceSpacing"@.len());
    assert("SliderTickRate"@.len() != "BeatDivisor"@.len());
    assert("SliderTickRate"@.len() != "GridSize"@.len());
    assert("SliderTickRate"@.len() != "TimelineZoom"@.len());
    assert("SliderTickRate"@.len() != "Title"@.len());
    assert("SliderTickRate"@.len() != "TitleUnicode"@.len());
    assert("SliderTickRate"@.len() != "Artist"@.len());
    assert("SliderTickRate"@.len() != "ArtistUnicode"@.len());
    assert("SliderTickRate"@.len() != "Creator"@.len());
    assert("SliderTickRate"@.len() != "Version"@.len());
    assert("SliderTickRate"@.len() != "Source"@.len());
    assert("SliderTickRate"@.len() != "Tags"@.len());
    assert("SliderTickRate"@.len() != "BeatmapID"@.len());
    assert("SliderTickRate"@.len() != "BeatmapSetID"@.len());
    assert("SliderTickRate"@.len() != "HPDrainRate"@.len());
    assert("SliderTickRate"@.len() != "CircleSize"@.len());
    assert("SliderTickRate"@.len() != "OverallDifficulty"@.len());
    assert("SliderTickRate"@.len() != "ApproachRate"@.len());
    assert("SliderTickRate"@.len() != "SliderMultiplier"@.len());
}


/// Whether all characters of `s` are ASCII letters.
pub open spec fn all_letters(s: Seq<char>) -> bool
    decreases s.len(),
{
    s.len() == 0 || (is_ascii_letter(s[0]) && all_letters(s.drop_first()))
}

/// A sequence checked letter by letter is made of ASCII letters.
pub(crate) proof fn lemma_all_letters(s: Seq<char>)
    requires
        all_letters(s),
    ensures
        forall|i: int| 0 <= i < s.len() ==> is_ascii_letter(#[trigger] s[i]),
    decreases s.len(),
{
    if s.len() > 0 {
        lemma_all_letters(s.drop_first());
        assert forall|i: int| 0 <= i < s.len() implies is_ascii_letter(#[trigger] s[i]) by {
            if i > 0 {
                assert(s[i] == s.drop_first()[i - 1]);
            }
        }
    }
}

/// Whether `s` holds neither `\n` nor `\r`.
pub open spec fn no_break(s: Seq<char>) -> bool
    decreases s.len(),
{
    s.len() == 0 || (s[0] != '\n' && s[0] != '\r' && no_break(s.drop_first()))
}

/// A sequence checked character by character holds no line break.
pub(crate) proof fn lemma_no_break(s: Seq<char>)
    requires
        no_break(s),
    ensures
        !s.contains('\n'),
        !s.contains('\r'),
    decreases s.len(),
{
    if s.len() > 0 {
        lemma_no_break(s.drop_first());
        if s.contains('\n') {
            let i = choose|i: int| 0 <= i < s.len() && s[i] == '\n';
            if i > 0 {
                assert(s.drop_first()[i - 1] == '\n');
            }
        }
        if s.contains('\r') {
            let i = choose|i: int| 0 <= i < s.len() && s[i] == '\r';
            if i > 0 {
                assert(s.drop_first()[i - 1] == '\r');
            }
        }
    }
}

/// The name `General`.
pub open spec fn name_general() -> Seq<char> {
    seq!['G', 'e', 'n', 'e', 'r', 'a', 'l']
}

/// The name `Editor`.
pub open spec fn name_editor() -> Seq<char> {
    seq!['E', 'd', 'i', 't', 'o', 'r']
}

/// The name `Metadata`.
pub open spec fn name_metadata() -> Seq<char> {
    seq!['M', 'e', 't', 'a', 'd', 'a', 't', 'a']
}

/// The name `Difficulty`.
pub open spec fn name_difficulty() -> Seq<char> {
    seq!['D', 'i', 'f', 'f', 'i', 'c', 'u', 'l', 't', 'y']
}

/// The name `Events`.
pub open spec fn name_events() -> Seq<char> {
    seq!['E', 'v', 'e', 'n', 't', 's']
}

/// The name `TimingPoints`.
pub open spec fn name_timing() -> Seq<char> {
    seq!['T', 'i', 'm', 'i', 'n', 'g', 'P', 'o', 'i', 'n', 't', 's']
}

/// The name `Colours`.
pub open spec fn name_colours() -> Seq<char> {
    seq!['C', 'o', 'l', 'o', 'u', 'r', 's']
}

/// The name `HitObjects`.
pub open spec fn name_hitobjects() -> Seq<char> {
    seq!['H', 'i', 't', 'O', 'b', 'j', 'e', 'c', 't', 's']
}

/// The section names are made of letters.
pub(crate) proof fn lemma_section_names()
    ensures
        all_letters(name_general()),
        all_letters(name_editor()),
        all_letters(name_metadata()),
        all_letters(name_difficulty()),
        all_letters(name_events()),
        all_letters(name_timing()),
        all_letters(name_colours()),
        all_letters(name_hitobjects()),
{
    assert(all_letters(name_general())) by {
        reveal_with_fuel(all_letters, 8);
    }
    assert(all_letters(name_editor())) by {
        reveal_with_fuel(all_letters, 7);
    }
    assert(all_letters(name_metadata())) by {
        reveal_with_fuel(all_letters, 9);
    }
    assert(all_letters(name_difficulty())) by {
        reveal_with_fuel(all_letters, 11);
    }
    assert(all_letters(name_events())) by {
        reveal_with_fuel(all_letters, 7);
    }
    assert(all_letters(name_timing())) by {
        reveal_with_fuel(all_letters, 13);
    }
    assert(all_letters(name_colours())) by {
        reveal_with_fuel(all_letters, 8);
    }
    assert(all_letters(name_hitobjects())) by {
        reveal_with_fuel(all_letters, 11);
    }
}


/// The key the `[General]` line about letterboxing is written with, which
/// differs from the key it is read with in the case of one letter.
pub open spec fn letterbox_key() -> Seq<char> {
    seq!['L', 'e', 't', 't', 'e', 'r', 'b', 'o', 'x', 'I', 'n', 'B', 'r', 'e', 'a', 'k', 's']
}

/// A `LetterboxInBreaks` line, spelled as it is written, leaves the beatmap as it is.
pub(crate) proof fn lemma_letterbox_ignored(b: BeatmapView, value: Seq<char>)
    ensures
        apply_kv(b, letterbox_key(), value) == Ok::<BeatmapView, Fault>(b),
{
    lemma_key_literals();
    assert(letterbox_key().len() != "AudioFilename"@.len());
    assert(letterbox_key().len() != "AudioLeadIn"@.len());
    assert(letterbox_key().len() != "PreviewTime"@.len());
    assert(letterbox_key().len() != "Countdown"@.len());
    assert(letterbox_key().len() != "SampleSet"@.len());
    assert(letterbox_key().len() != "StackLeniency"@.len());
    assert(letterbox_key().len() != "Mode"@.len());
    lemma_ne_at(letterbox_key(), "LetterBoxInBreaks"@, 6);
    assert(letterbox_key().len() != "WidescreenStoryboard"@.len());
    assert(letterbox_key().len() != "Bookmarks"@.len());
    assert(letterbox_key().len() != "DistanceSpacing"@.len());
    assert(letterbox_key().len() != "BeatDivisor"@.len());
    assert(letterbox_key().len() != "GridSize"@.len());
    assert(letterbox_key().len() != "TimelineZoom"@.len());
    assert(letterbox_key().len() != "Title"@.len());
    assert(letterbox_key().len() != "TitleUnicode"@.len());
    assert(letterbox_key().len() != "Artist"@.len());
    assert(letterbox_key().len() != "ArtistUnicode"@.len());
    assert(letterbox_key().len() != "Creator"@.len());
    assert(letterbox_key().len() != "Version"@.len());
    assert(letterbox_key().len() != "Source"@.len());
    assert(letterbox_key().len() != "Tags"@.len());
    assert(letterbox_key().len() != "BeatmapID"@.len());
    assert(letterbox_key().len() != "BeatmapSetID"@.len());
    assert(letterbox_key().len() != "HPDrainRate"@.len());
    assert(letterbox_key().len() != "CircleSize"@.len());
    lemma_ne_at(letterbox_key(), "OverallDifficulty"@, 0);
    assert(letterbox_key().len() != "ApproachRate"@.len());
    assert(letterbox_key().len() != "SliderMultiplier"@.len());
    assert(letterbox_key().len() != "SliderTickRate"@.len());
}

/// The number of a mode names it back.
pub(crate) proof fn lemma_mode_value(m: Mode)
    ensures
        Mode::spec_from_u8(m.spec_value()) == Some(m),
{
}

/// The section before any header is none of the list sections.
pub(crate) proof fn lemma_version_section()
    ensures
        "Version"@ != "Events"@,
        "Version"@ != "HitObjects"@,
        "Version"@ != "TimingPoints"@,
{
    reveal_strlit("Version");
    reveal_strlit("Events");
    reveal_strlit("HitObjects");
    reveal_strlit("TimingPoints");
    assert("Version"@ =~= seq!['V', 'e', 'r', 's', 'i', 'o', 'n']);
    assert("Events"@ =~= seq!['E', 'v', 'e', 'n', 't', 's']);
    assert("HitObjects"@ =~= seq!['H', 'i', 't', 'O', 'b', 'j', 'e', 'c', 't', 's']);
    assert("TimingPoints"@ =~= seq!['T', 'i', 'm', 'i', 'n', 'g', 'P', 'o', 'i', 'n', 't', 's']);
    lemma_ne_at("Version"@, "HitObjects"@, 0);
    lemma_ne_at("Version"@, "TimingPoints"@, 0);
}

/// The settings sections are read as `key:value` lines.
pub(crate) proof fn lemma_plain_sections()
    ensures
        plain_section(name_general()),
        plain_section(name_editor()),
        plain_section(name_metadata()),
        plain_section(name_difficulty()),
{
    lemma_label_literals();
    lemma_ne_at(name_general(), "Version"@, 0);
    lemma_ne_at(name_general(), "Colours"@, 0);
    lemma_ne_at(name_editor(), "Events"@, 1);
    lemma_ne_at(name_difficulty(), "HitObjects"@, 0);
}

/// Whether tags written joined by spaces read back as themselves: there are
/// none, or the first is not empty and starts with a character that is not
/// white space, no tag holds a space, and the joined text is safe on a line.
pub open spec fn tags_ok(tags: Seq<Seq<char>>) -> bool {
    tags.len() == 0 || {
        &&& tags[0].len() > 0
        &&& !is_ws(tags[0][0])
        &&& forall|i: int| 0 <= i < tags.len() ==> !(#[trigger] tags[i]).contains(' ')
        &&& line_safe(join_spec(tags, ' '))
    }
}

/// A join starts with the first character of its first part.
pub(crate) proof fn lemma_join_first(f: Seq<Seq<char>>, sep: char)
    requires
        f.len() > 0,
        f[0].len() > 0,
    ensures
        join_spec(f, sep).len() > 0,
        join_spec(f, sep)[0] == f[0][0],
{
}

/// A join ends with the last character of its last part.
pub(crate) proof fn lemma_join_last(f: Seq<Seq<char>>, sep: char)
    requires
        f.len() > 0,
        f.last().len() > 0,
    ensures
        join_spec(f, sep).len() > 0,
        join_spec(f, sep).last() == f.last().last(),
{
    if f.len() > 1 {
        crate::text::lemma_join_push(f.drop_last(), f.last(), sep);
        assert(f.drop_last().push(f.last()) =~= f);
    }
}

/// Text that neither starts nor ends with white space is its own trim.
pub(crate) proof fn lemma_trim_plain(s: Seq<char>)
    requires
        s.len() > 0,
        !is_ws(s[0]),
        !is_ws(s.last()),
    ensures
        trim_ws(s) == s,
{
    assert(skip_ws(s, 0) == 0);
    assert(crate::text::skip_ws_back(s, s.len() as int) == s.len());
    assert(s.subrange(0, s.len() as int) =~= s);
}

/// Decimal text is not empty and ends with a digit.
pub(crate) proof fn lemma_decimal_last(n: int)
    ensures
        spec_decimal(n).len() > 0,
        !is_ws(spec_decimal(n).last()),
        spec_decimal(n).last() != '\r',
{
    crate::text::lemma_decimal_chars(n, ',');
    let d = spec_decimal(n);
    let c = d.last();
    if c != '-' && !crate::text::is_digit(c) {
        crate::text::lemma_decimal_chars(n, c);
        assert(d.contains(c));
    }
    if c == '-' {
        if n >= 0 {
            crate::text::lemma_nat_digits(n as nat);
            assert(crate::text::is_digit(d[d.len() - 1]));
        } else {
            crate::text::lemma_nat_digits((-n) as nat);
            let nd = crate::text::nat_digits((-n) as nat);
            assert(d == seq!['-'] + nd);
            assert(d.last() == nd.last());
            assert(crate::text::is_digit(nd[nd.len() - 1]));
        }
    }
}

/// Written bookmarks read back as themselves.
pub(crate) proof fn lemma_bookmarks_values(bs: Seq<i32>)
    ensures
        spec_bookmarks(bs.map_values(|n: i32| spec_decimal(n as int))) == Ok::<Seq<i32>, Fault>(bs),
    decreases bs.len(),
{
    let m = bs.map_values(|n: i32| spec_decimal(n as int));
    if bs.len() == 0 {
        assert(m.len() == 0);
        assert(bs =~= Seq::<i32>::empty());
    } else {
        let d = m[0];
        assert(d == spec_decimal(bs[0] as int));
        lemma_decimal_value(bs[0] as int, i32::MIN as int, i32::MAX as int);
        lemma_decimal_last(bs[0] as int);
        lemma_trim_plain(d);
        lemma_bookmarks_values(bs.drop_first());
        assert(m.drop_first() =~= bs.drop_first().map_values(|n: i32| spec_decimal(n as int)));
        assert(seq![bs[0]] + bs.drop_first() =~= bs);
    }
}

/// A written `Bookmarks` line reads back as the bookmarks.
pub(crate) proof fn lemma_bookmarks_step(st: ParseState, bs: Seq<i32>)
    requires
        plain_section(st.section),
    ensures
        step(st, "Bookmarks"@ + seq![':', ' '] + bookmarks_text(bs)) == Ok::<ParseState, Fault>(
            ParseState { section: st.section, beatmap: BeatmapView { bookmarks: bs, ..st.beatmap } },
        ),
        line_safe(bookmarks_text(bs)),
{
    lemma_keys_ok();
    let key = "Bookmarks"@;
    let m = bs.map_values(|n: i32| spec_decimal(n as int));
    let v = bookmarks_text(bs);
    assert forall|i: int| 0 <= i < m.len() implies !(#[trigger] m[i]).contains(',') && !m[i].contains('\n') by {
        crate::text::lemma_decimal_chars(bs[i] as int, ',');
        crate::text::lemma_decimal_chars(bs[i] as int, '\n');
    }
    crate::text::lemma_join_excludes(m, ',', '\n');
    if bs.len() == 0 {
        assert(m.len() == 0);
        assert(v =~= Seq::<char>::empty());
        let line = key + seq![':', ' '];
        let k = key.len() as int;
        lemma_skip_alnum_prefix(key, seq![':', ' '], 0);
        assert(line[k] == ':');
        assert(skip_ws(line, k) == k);
        assert(line[k + 1] == ' ');
        assert(skip_ws(line, k + 2) == line.len());
        assert(skip_ws(line, k + 1) == line.len());
        assert(line.subrange(k + 1, line.len() as int) =~= seq![' ']);
        assert(line.subrange(0, k) =~= key);
        assert(line[0] == key[0]);
        assert(skip_alnum(key, 0) != 0);
        assert(skip_ws(line, 0) == 0);
        assert(line + v =~= line);
        assert(kv_split(line) == Some((key, seq![' '])));
        let sp = seq![' '];
        assert(skip_ws(sp, 1) == 1);
        assert(skip_ws(sp, 0) == 1);
        assert(crate::text::skip_ws_back(sp, 0) == 0);
        assert(crate::text::skip_ws_back(sp, 1) == 0);
        assert(trim_ws(sp) =~= Seq::<char>::empty());
        crate::text::lemma_split_none(Seq::<char>::empty(), ',');
        assert(trim_ws(Seq::<char>::empty()) =~= Seq::<char>::empty());
        let e = seq![Seq::<char>::empty()];
        assert(e.drop_first() =~= Seq::<Seq<char>>::empty());
        assert(e[0] == Seq::<char>::empty());
        assert(spec_bookmarks(Seq::<Seq<char>>::empty()) == Ok::<Seq<i32>, Fault>(Seq::empty()));
        assert(trim_ws(e[0]).len() == 0);
        assert(spec_bookmarks(e) == spec_bookmarks(e.drop_first()));
        assert(spec_bookmarks(e) == Ok::<Seq<i32>, Fault>(Seq::empty()));
        lemma_apply_bookmarks(st.beatmap, seq![' ']);
        assert(bs =~= Seq::<i32>::empty());
    } else {
        assert(m[0] == spec_decimal(bs[0] as int));
        lemma_decimal_value(bs[0] as int, i32::MIN as int, i32::MAX as int);
        lemma_join_first(m, ',');
        assert(m.last() == spec_decimal(bs.last() as int));
        lemma_decimal_last(bs.last() as int);
        lemma_join_last(m, ',');
        lemma_trim_plain(v);
        crate::text::lemma_split_join_all(m, ',');
        lemma_bookmarks_values(bs);
        lemma_kv_step(st, key, seq![':', ' '], v);
        lemma_apply_bookmarks(st.beatmap, v);
    }
}

/// A written `Tags` line reads back as the tags.
pub(crate) proof fn lemma_tags_step(st: ParseState, tags: Seq<Seq<char>>)
    requires
        plain_section(st.section),
        tags_ok(tags),
        tags.len() == 0 ==> st.beatmap.tags.len() == 0,
    ensures
        step(st, "Tags"@ + seq![':'] + join_spec(tags, ' ')) == Ok::<ParseState, Fault>(
            ParseState { section: st.section, beatmap: BeatmapView { tags: tags, ..st.beatmap } },
        ),
{
    lemma_keys_ok();
    let key = "Tags"@;
    if tags.len() == 0 {
        assert(join_spec(tags, ' ') =~= Seq::<char>::empty());
        assert(key + seq![':'] + join_spec(tags, ' ') =~= key + seq![':']);
        lemma_kv_empty_step(st, key);
        assert(st.beatmap.tags =~= tags);
        assert(st.beatmap =~= BeatmapView { tags: tags, ..st.beatmap });
    } else {
        let v = join_spec(tags, ' ');
        lemma_join_first(tags, ' ');
        crate::text::lemma_split_join_all(tags, ' ');
        lemma_kv_step(st, key, seq![':'], v);
        lemma_apply_tags(st.beatmap, v);
    }
}


/// Every key written in the settings sections is a key the reader recognises as such.
pub(crate) proof fn lemma_keys_ok()
    ensures
        key_ok("AudioFilename"@),
        key_ok("AudioLeadIn"@),
        key_ok("PreviewTime"@),
        key_ok("Countdown"@),
        key_ok("SampleSet"@),
        key_ok("StackLeniency"@),
        key_ok("Mode"@),
        key_ok("LetterBoxInBreaks"@),
        key_ok("WidescreenStoryboard"@),
        key_ok("Bookmarks"@),
        key_ok("DistanceSpacing"@),
        key_ok("BeatDivisor"@),
        key_ok("GridSize"@),
        key_ok("TimelineZoom"@),
        key_ok("Title"@),
        key_ok("TitleUnicode"@),
        key_ok("Artist"@),
        key_ok("ArtistUnicode"@),
        key_ok("Creator"@),
        key_ok("Version"@),
        key_ok("Source"@),
        key_ok("Tags"@),
        key_ok("BeatmapID"@),
        key_ok("BeatmapSetID"@),
        key_ok("HPDrainRate"@),
        key_ok("CircleSize"@),
        key_ok("OverallDifficulty"@),
        key_ok("ApproachRate"@),
        key_ok("SliderMultiplier"@),
        key_ok("SliderTickRate"@),
        key_ok(letterbox_key()),
{
    lemma_key_literals();
    assert(key_ok(seq!['A', 'u', 'd', 'i', 'o', 'F', 'i', 'l', 'e', 'n', 'a', 'm', 'e'])) by {
        reveal_with_fuel(skip_alnum, 14);
    }
    assert(key_ok(seq!['A', 'u', 'd', 'i', 'o', 'L', 'e', 'a', 'd', 'I', 'n'])) by {
        reveal_with_fuel(skip_alnum, 12);
    }
    assert(key_ok(seq!['P', 'r', 'e', 'v', 'i', 'e', 'w', 'T', 'i', 'm', 'e'])) by {
        reveal_with_fuel(skip_alnum, 12);
    }
    assert(key_ok(seq!['C', 'o', 'u', 'n', 't', 'd', 'o', 'w', 'n'])) by {
        reveal_with_fuel(skip_alnum, 10);
    }
    assert(key_ok(seq!['S', 'a', 'm', 'p', 'l', 'e', 'S', 'e', 't'])) by {
        reveal_with_fuel(skip_alnum, 10);
    }
    assert(key_ok(seq!['S', 't', 'a', 'c', 'k', 'L', 'e', 'n', 'i', 'e', 'n', 'c', 'y'])) by {
        reveal_with_fuel(skip_alnum, 14);
    }
    assert(key_ok(seq!['M', 'o', 'd', 'e'])) by {
        reveal_with_fuel(skip_alnum, 5);
    }
    assert(key_ok(seq!['L', 'e', 't', 't', 'e', 'r', 'B', 'o', 'x', 'I', 'n', 'B', 'r', 'e', 'a', 'k', 's'])) by {
        reveal_with_fuel(skip_alnum, 18);
    }
    assert(key_ok(seq!['W', 'i', 'd', 'e', 's', 'c', 'r', 'e', 'e', 'n', 'S', 't', 'o', 'r', 'y', 'b', 'o', 'a', 'r', 'd'])) by {
        reveal_with_fuel(skip_alnum, 21);
    }
    assert(key_ok(seq!['B', 'o', 'o', 'k', 'm', 'a', 'r', 'k', 's'])) by {
        reveal_with_fuel(skip_alnum, 10);
    }
    assert(key_ok(seq!['D', 'i', 's', 't', 'a', 'n', 'c', 'e', 'S', 'p', 'a', 'c', 'i', 'n', 'g'])) by {
        reveal_with_fuel(skip_alnum, 16);
    }
    assert(key_ok(seq!['B', 'e', 'a', 't', 'D', 'i', 'v', 'i', 's', 'o', 'r'])) by {
        reveal_with_fuel(skip_alnum, 12);
    }
    assert(key_ok(seq!['G', 'r', 'i', 'd', 'S', 'i', 'z', 'e'])) by {
        reveal_with_fuel(skip_alnum, 9);
    }
    assert(key_ok(seq!['T', 'i', 'm', 'e', 'l', 'i', 'n', 'e', 'Z', 'o', 'o', 'm'])) by {
        reveal_with_fuel(skip_alnum, 13);
    }
    assert(key_ok(seq!['T', 'i', 't', 'l', 'e'])) by {
        reveal_with_fuel(skip_alnum, 6);
    }
    assert(key_ok(seq!['T', 'i', 't', 'l', 'e', 'U', 'n', 'i', 'c', 'o', 'd', 'e'])) by {
        reveal_with_fuel(skip_alnum, 13);
    }
    assert(key_ok(seq!['A', 'r', 't', 'i', 's', 't'])) by {
        reveal_with_fuel(skip_alnum, 7);
    }
    assert(key_ok(seq!['A', 'r', 't', 'i', 's', 't', 'U', 'n', 'i', 'c', 'o', 'd', 'e'])) by {
        reveal_with_fuel(skip_alnum, 14);
    }
    assert(key_ok(seq!['C', 'r', 'e', 'a', 't', 'o', 'r'])) by {
        reveal_with_fuel(skip_alnum, 8);
    }
    assert(key_ok(seq!['V', 'e', 'r', 's', 'i', 'o', 'n'])) by {
        reveal_with_fuel(skip_alnum, 8);
    }
    assert(key_ok(seq!['S', 'o', 'u', 'r', 'c', 'e'])) by {
        reveal_with_fuel(skip_alnum, 7);
    }
    assert(key_ok(seq!['T', 'a', 'g', 's'])) by {
        reveal_with_fuel(skip_alnum, 5);
    }
    assert(key_ok(seq!['B', 'e', 'a', 't', 'm', 'a', 'p', 'I', 'D'])) by {
        reveal_with_fuel(skip_alnum, 10);
    }
    assert(key_ok(seq!['B', 'e', 'a', 't', 'm', 'a', 'p', 'S', 'e', 't', 'I', 'D'])) by {
        reveal_with_fuel(skip_alnum, 13);
    }
    assert(key_ok(seq!['H', 'P', 'D', 'r', 'a', 'i', 'n', 'R', 'a', 't', 'e'])) by {
        reveal_with_fuel(skip_alnum, 12);
    }
    assert(key_ok(seq!['C', 'i', 'r', 'c', 'l', 'e', 'S', 'i', 'z', 'e'])) by {
        reveal_with_fuel(skip_alnum, 11);
    }
    assert(key_ok(seq!['O', 'v', 'e', 'r', 'a', 'l', 'l', 'D', 'i', 'f', 'f', 'i', 'c', 'u', 'l', 't', 'y'])) by {
        reveal_with_fuel(skip_alnum, 18);
    }
    assert(key_ok(seq!['A', 'p', 'p', 'r', 'o', 'a', 'c', 'h', 'R', 'a', 't', 'e'])) by {
        reveal_with_fuel(skip_alnum, 13);
    }
    assert(key_ok(seq!['S', 'l', 'i', 'd', 'e', 'r', 'M', 'u', 'l', 't', 'i', 'p', 'l', 'i', 'e', 'r'])) by {
        reveal_with_fuel(skip_alnum, 17);
    }
    assert(key_ok(seq!['S', 'l', 'i', 'd', 'e', 'r', 'T', 'i', 'c', 'k', 'R', 'a', 't', 'e'])) by {
        reveal_with_fuel(skip_alnum, 15);
    }
    assert(key_ok(letterbox_key())) by {
        reveal_with_fuel(skip_alnum, 18);
    }
}

/// The label `AudioFilename:` written before a value is the key `AudioFilename` and its separator.
pub(crate) proof fn lemma_label_audio_filename()
    ensures
        "AudioFilename: "@ == "AudioFilename"@ + seq![':', ' '],
{
    reveal_strlit("AudioFilename: ");
    assert("AudioFilename: "@ =~= seq!['A', 'u', 'd', 'i', 'o', 'F', 'i', 'l', 'e', 'n', 'a', 'm', 'e', ':', ' ']);
    reveal_strlit("AudioFilename");
    assert("AudioFilename"@ =~= seq!['A', 'u', 'd', 'i', 'o', 'F', 'i', 'l', 'e', 'n', 'a', 'm', 'e']);
    assert(seq!['A', 'u', 'd', 'i', 'o', 'F', 'i', 'l', 'e', 'n', 'a', 'm', 'e', ':', ' '] =~= seq!['A', 'u', 'd', 'i', 'o', 'F', 'i', 'l', 'e', 'n', 'a', 'm', 'e'] + seq![':', ' ']);
}

/// The label `AudioLeadIn:` written before a value is the key `AudioLeadIn` and its separator.
pub(crate) proof fn lemma_label_audio_lead_in()
    ensures
        "AudioLeadIn: "@ == "AudioLeadIn"@ + seq![':', ' '],
{
    reveal_strlit("AudioLeadIn: ");
    assert("AudioLeadIn: "@ =~= seq!['A', 'u', 'd', 'i', 'o', 'L', 'e', 'a', 'd', 'I', 'n', ':', ' ']);
    reveal_strlit("AudioLeadIn");
    assert("AudioLeadIn"@ =~= seq!['A', 'u', 'd', 'i', 'o', 'L', 'e', 'a', 'd', 'I', 'n']);
    assert(seq!['A', 'u', 'd', 'i', 'o', 'L', 'e', 'a', 'd', 'I', 'n', ':', ' '] =~= seq!['A', 'u', 'd', 'i', 'o', 'L', 'e', 'a', 'd', 'I', 'n'] + seq![':', ' ']);
}

/// The label `PreviewTime:` written before a value is the key `PreviewTime` and its separator.
pub(crate) proof fn lemma_label_preview_time()
    ensures
        "PreviewTime: "@ == "PreviewTime"@ + seq![':', ' '],
{
    reveal_strlit("PreviewTime: ");
    assert("PreviewTime: "@ =~= seq!['P', 'r', 'e', 'v', 'i', 'e', 'w', 'T', 'i', 'm', 'e', ':', ' ']);
    reveal_strlit("PreviewTime");
    assert("PreviewTime"@ =~= seq!['P', 'r', 'e', 'v', 'i', 'e', 'w', 'T', 'i', 'm', 'e']);
    assert(seq!['P', 'r', 'e', 'v', 'i', 'e', 'w', 'T', 'i', 'm', 'e', ':', ' '] =~= seq!['P', 'r', 'e', 'v', 'i', 'e', 'w', 'T', 'i', 'm', 'e'] + seq![':', ' ']);
}

/// The label `Countdown:` written before a value is the key `Countdown` and its separator.
pub(crate) proof fn lemma_label_countdown()
    ensures
        "Countdown: "@ == "Countdown"@ + seq![':', ' '],
{
    reveal_strlit("Countdown: ");
    assert("Countdown: "@ =~= seq!['C', 'o', 'u', 'n', 't', 'd', 'o', 'w', 'n', ':', ' ']);
    reveal_strlit("Countdown");
    assert("Countdown"@ =~= seq!['C', 'o', 'u', 'n', 't', 'd', 'o', 'w', 'n']);
    assert(seq!['C', 'o', 'u', 'n', 't', 'd', 'o', 'w', 'n', ':', ' '] =~= seq!['C', 'o', 'u', 'n', 't', 'd', 'o', 'w', 'n'] + seq![':', ' ']);
}

/// The label `SampleSet:` written before a value is the key `SampleSet` and its separator.
pub(crate) proof fn lemma_label_sample_set()
    ensures
        "SampleSet: "@ == "SampleSet"@ + seq![':', ' '],
{
    reveal_strlit("SampleSet: ");
    assert("SampleSet: "@ =~= seq!['S', 'a', 'm', 'p', 'l', 'e', 'S', 'e', 't', ':', ' ']);
    reveal_strlit("SampleSet");
    assert("SampleSet"@ =~= seq!['S', 'a', 'm', 'p', 'l', 'e', 'S', 'e', 't']);
    assert(seq!['S', 'a', 'm', 'p', 'l', 'e', 'S', 'e', 't', ':', ' '] =~= seq!['S', 'a', 'm', 'p', 'l', 'e', 'S', 'e', 't'] + seq![':', ' ']);
}

/// The label `StackLeniency:` written before a value is the key `StackLeniency` and its separator.
pub(crate) proof fn lemma_label_stack_leniency()
    ensures
        "StackLeniency: "@ == "StackLeniency"@ + seq![':', ' '],
{
    reveal_strlit("StackLeniency: ");
    assert("StackLeniency: "@ =~= seq!['S', 't', 'a', 'c', 'k', 'L', 'e', 'n', 'i', 'e', 'n', 'c', 'y', ':', ' ']);
    reveal_strlit("StackLeniency");
    assert("StackLeniency"@ =~= seq!['S', 't', 'a', 'c', 'k', 'L', 'e', 'n', 'i', 'e', 'n', 'c', 'y']);
    assert(seq!['S', 't', 'a', 'c', 'k', 'L', 'e', 'n', 'i', 'e', 'n', 'c', 'y', ':', ' '] =~= seq!['S', 't', 'a', 'c', 'k', 'L', 'e', 'n', 'i', 'e', 'n', 'c', 'y'] + seq![':', ' ']);
}

/// The label `Mode:` written before a value is the key `Mode` and its separator.
pub(crate) proof fn lemma_label_mode()
    ensures
        "Mode: "@ == "Mode"@ + seq![':', ' '],
{
    reveal_strlit("Mode: ");
    assert("Mode: "@ =~= seq!['M', 'o', 'd', 'e', ':', ' ']);
    reveal_strlit("Mode");
    assert("Mode"@ =~= seq!['M', 'o', 'd', 'e']);
    assert(seq!['M', 'o', 'd', 'e', ':', ' '] =~= seq!['M', 'o', 'd', 'e'] + seq![':', ' ']);
}

/// The label `LetterboxInBreaks:` written before a value is its key and separator.
pub(crate) proof fn lemma_label_letterbox_in_breaks()
    ensures
        "LetterboxInBreaks: "@ == letterbox_key() + seq![':', ' '],
{
    reveal_strlit("LetterboxInBreaks: ");
    assert("LetterboxInBreaks: "@ =~= seq!['L', 'e', 't', 't', 'e', 'r', 'b', 'o', 'x', 'I', 'n', 'B', 'r', 'e', 'a', 'k', 's', ':', ' ']);
    assert(seq!['L', 'e', 't', 't', 'e', 'r', 'b', 'o', 'x', 'I', 'n', 'B', 'r', 'e', 'a', 'k', 's', ':', ' '] =~= seq!['L', 'e', 't', 't', 'e', 'r', 'b', 'o', 'x', 'I', 'n', 'B', 'r', 'e', 'a', 'k', 's'] + seq![':', ' ']);
}

/// The label `WidescreenStoryboard:` written before a value is the key `WidescreenStoryboard` and its separator.
pub(crate) proof fn lemma_label_widescreen_storyboard()
    ensures
        "WidescreenStoryboard: "@ == "WidescreenStoryboard"@ + seq![':', ' '],
{
    reveal_strlit("WidescreenStoryboard: ");
    assert("WidescreenStoryboard: "@ =~= seq!['W', 'i', 'd', 'e', 's', 'c', 'r', 'e', 'e', 'n', 'S', 't', 'o', 'r', 'y', 'b', 'o', 'a', 'r', 'd', ':', ' ']);
    reveal_strlit("WidescreenStoryboard");
    assert("WidescreenStoryboard"@ =~= seq!['W', 'i', 'd', 'e', 's', 'c', 'r', 'e', 'e', 'n', 'S', 't', 'o', 'r', 'y', 'b', 'o', 'a', 'r', 'd']);
    assert(seq!['W', 'i', 'd', 'e', 's', 'c', 'r', 'e', 'e', 'n', 'S', 't', 'o', 'r', 'y', 'b', 'o', 'a', 'r', 'd', ':', ' '] =~= seq!['W', 'i', 'd', 'e', 's', 'c', 'r', 'e', 'e', 'n', 'S', 't', 'o', 'r', 'y', 'b', 'o', 'a', 'r', 'd'] + seq![':', ' ']);
}

/// The label `Bookmarks:` written before a value is the key `Bookmarks` and its separator.
pub(crate) proof fn lemma_label_bookmarks()
    ensures
        "Bookmarks: "@ == "Bookmarks"@ + seq![':', ' '],
{
    reveal_strlit("Bookmarks: ");
    assert("Bookmarks: "@ =~= seq!['B', 'o', 'o', 'k', 'm', 'a', 'r', 'k', 's', ':', ' ']);
    reveal_strlit("Bookmarks");
    assert("Bookmarks"@ =~= seq!['B', 'o', 'o', 'k', 'm', 'a', 'r', 'k', 's']);
    assert(seq!['B', 'o', 'o', 'k', 'm', 'a', 'r', 'k', 's', ':', ' '] =~= seq!['B', 'o', 'o', 'k', 'm', 'a', 'r', 'k', 's'] + seq![':', ' ']);
}

/// The label `DistanceSpacing:` written before a value is the key `DistanceSpacing` and its separator.
pub(crate) proof fn lemma_label_distance_spacing()
    ensures
        "DistanceSpacing: "@ == "DistanceSpacing"@ + seq![':', ' '],
{
    reveal_strlit("DistanceSpacing: ");
    assert("DistanceSpacing: "@ =~= seq!['D', 'i', 's', 't', 'a', 'n', 'c', 'e', 'S', 'p', 'a', 'c', 'i', 'n', 'g', ':', ' ']);
    reveal_strlit("DistanceSpacing");
    assert("DistanceSpacing"@ =~= seq!['D', 'i', 's', 't', 'a', 'n', 'c', 'e', 'S', 'p', 'a', 'c', 'i', 'n', 'g']);
    assert(seq!['D', 'i', 's', 't', 'a', 'n', 'c', 'e', 'S', 'p', 'a', 'c', 'i', 'n', 'g', ':', ' '] =~= seq!['D', 'i', 's', 't', 'a', 'n', 'c', 'e', 'S', 'p', 'a', 'c', 'i', 'n', 'g'] + seq![':', ' ']);
}

/// The label `BeatDivisor:` written before a value is the key `BeatDivisor` and its separator.
pub(crate) proof fn lemma_label_beat_divisor()
    ensures
        "BeatDivisor: "@ == "BeatDivisor"@ + seq![':', ' '],
{
    reveal_strlit("BeatDivisor: ");
    assert("BeatDivisor: "@ =~= seq!['B', 'e', 'a', 't', 'D', 'i', 'v', 'i', 's', 'o', 'r', ':', ' ']);
    reveal_strlit("BeatDivisor");
    assert("BeatDivisor"@ =~= seq!['B', 'e', 'a', 't', 'D', 'i', 'v', 'i', 's', 'o', 'r']);
    assert(seq!['B', 'e', 'a', 't', 'D', 'i', 'v', 'i', 's', 'o', 'r', ':', ' '] =~= seq!['B', 'e', 'a', 't', 'D', 'i', 'v', 'i', 's', 'o', 'r'] + seq![':', ' ']);
}

/// The label `GridSize:` written before a value is the key `GridSize` and its separator.
pub(crate) proof fn lemma_label_grid_size()
    ensures
        "GridSize: "@ == "GridSize"@ + seq![':', ' '],
{
    reveal_strlit("GridSize: ");
    assert("GridSize: "@ =~= seq!['G', 'r', 'i', 'd', 'S', 'i', 'z', 'e', ':', ' ']);
    reveal_strlit("GridSize");
    assert("GridSize"@ =~= seq!['G', 'r', 'i', 'd', 'S', 'i', 'z', 'e']);
    assert(seq!['G', 'r', 'i', 'd', 'S', 'i', 'z', 'e', ':', ' '] =~= seq!['G', 'r', 'i', 'd', 'S', 'i', 'z', 'e'] + seq![':', ' ']);
}

/// The label `TimelineZoom:` written before a value is the key `TimelineZoom` and its separator.
pub(crate) proof fn lemma_label_timeline_zoom()
    ensures
        "TimelineZoom: "@ == "TimelineZoom"@ + seq![':', ' '],
{
    reveal_strlit("TimelineZoom: ");
    assert("TimelineZoom: "@ =~= seq!['T', 'i', 'm', 'e', 'l', 'i', 'n', 'e', 'Z', 'o', 'o', 'm', ':', ' ']);
    reveal_strlit("TimelineZoom");
    assert("TimelineZoom"@ =~= seq!['T', 'i', 'm', 'e', 'l', 'i', 'n', 'e', 'Z', 'o', 'o', 'm']);
    assert(seq!['T', 'i', 'm', 'e', 'l', 'i', 'n', 'e', 'Z', 'o', 'o', 'm', ':', ' '] =~= seq!['T', 'i', 'm', 'e', 'l', 'i', 'n', 'e', 'Z', 'o', 'o', 'm'] + seq![':', ' ']);
}

/// The label `Title:` written before a value is the key `Title` and its separator.
pub(crate) proof fn lemma_label_title()
    ensures
        "Title:"@ == "Title"@ + seq![':'],
{
    reveal_strlit("Title:");
    assert("Title:"@ =~= seq!['T', 'i', 't', 'l', 'e', ':']);
    reveal_strlit("Title");
    assert("Title"@ =~= seq!['T', 'i', 't', 'l', 'e']);
    assert(seq!['T', 'i', 't', 'l', 'e', ':'] =~= seq!['T', 'i', 't', 'l', 'e'] + seq![':']);
}

/// The label `TitleUnicode:` written before a value is the key `TitleUnicode` and its separator.
pub(crate) proof fn lemma_label_title_unicode()
    ensures
        "TitleUnicode:"@ == "TitleUnicode"@ + seq![':'],
{
    reveal_strlit("TitleUnicode:");
    assert("TitleUnicode:"@ =~= seq!['T', 'i', 't', 'l', 'e', 'U', 'n', 'i', 'c', 'o', 'd', 'e', ':']);
    reveal_strlit("TitleUnicode");
    assert("TitleUnicode"@ =~= seq!['T', 'i', 't', 'l', 'e', 'U', 'n', 'i', 'c', 'o', 'd', 'e']);
    assert(seq!['T', 'i', 't', 'l', 'e', 'U', 'n', 'i', 'c', 'o', 'd', 'e', ':'] =~= seq!['T', 'i', 't', 'l', 'e', 'U', 'n', 'i', 'c', 'o', 'd', 'e'] + seq![':']);
}

/// The label `Artist:` written before a value is the key `Artist` and its separator.
pub(crate) proof fn lemma_label_artist()
    ensures
        "Artist:"@ == "Artist"@ + seq![':'],
{
    reveal_strlit("Artist:");
    assert("Artist:"@ =~= seq!['A', 'r', 't', 'i', 's', 't', ':']);
    reveal_strlit("Artist");
    assert("Artist"@ =~= seq!['A', 'r', 't', 'i', 's', 't']);
    assert(seq!['A', 'r', 't', 'i', 's', 't', ':'] =~= seq!['A', 'r', 't', 'i', 's', 't'] + seq![':']);
}

/// The label `ArtistUnicode:` written before a value is the key `ArtistUnicode` and its separator.
pub(crate) proof fn lemma_label_artist_unicode()
    ensures
        "ArtistUnicode:"@ == "ArtistUnicode"@ + seq![':'],
{
    reveal_strlit("ArtistUnicode:");
    assert("ArtistUnicode:"@ =~= seq!['A', 'r', 't', 'i', 's', 't', 'U', 'n', 'i', 'c', 'o', 'd', 'e', ':']);
    reveal_strlit("ArtistUnicode");
    assert("ArtistUnicode"@ =~= seq!['A', 'r', 't', 'i', 's', 't', 'U', 'n', 'i', 'c', 'o', 'd', 'e']);
    assert(seq!['A', 'r', 't', 'i', 's', 't', 'U', 'n', 'i', 'c', 'o', 'd', 'e', ':'] =~= seq!['A', 'r', 't', 'i', 's', 't', 'U', 'n', 'i', 'c', 'o', 'd', 'e'] + seq![':']);
}

/// The label `Creator:` written before a value is the key `Creator` and its separator.
pub(crate) proof fn lemma_label_creator()
    ensures
        "Creator:"@ == "Creator"@ + seq![':'],
{
    reveal_strlit("Creator:");
    assert("Creator:"@ =~= seq!['C', 'r', 'e', 'a', 't', 'o', 'r', ':']);
    reveal_strlit("Creator");
    assert("Creator"@ =~= seq!['C', 'r', 'e', 'a', 't', 'o', 'r']);
    assert(seq!['C', 'r', 'e', 'a', 't', 'o', 'r', ':'] =~= seq!['C', 'r', 'e', 'a', 't', 'o', 'r'] + seq![':']);
}

/// The label `Version:` written before a value is the key `Version` and its separator.
pub(crate) proof fn lemma_label_version()
    ensures
        "Version:"@ == "Version"@ + seq![':'],
{
    reveal_strlit("Version:");
    assert("Version:"@ =~= seq!['V', 'e', 'r', 's', 'i', 'o', 'n', ':']);
    reveal_strlit("Version");
    assert("Version"@ =~= seq!['V', 'e', 'r', 's', 'i', 'o', 'n']);
    assert(seq!['V', 'e', 'r', 's', 'i', 'o', 'n', ':'] =~= seq!['V', 'e', 'r', 's', 'i', 'o', 'n'] + seq![':']);
}

/// The label `Source:` written before a value is the key `Source` and its separator.
pub(crate) proof fn lemma_label_source()
    ensures
        "Source:"@ == "Source"@ + seq![':'],
{
    reveal_strlit("Source:");
    assert("Source:"@ =~= seq!['S', 'o', 'u', 'r', 'c', 'e', ':']);
    reveal_strlit("Source");
    assert("Source"@ =~= seq!['S', 'o', 'u', 'r', 'c', 'e']);
    assert(seq!['S', 'o', 'u', 'r', 'c', 'e', ':'] =~= seq!['S', 'o', 'u', 'r', 'c', 'e'] + seq![':']);
}

/// The label `Tags:` written before a value is the key `Tags` and its separator.
pub(crate) proof fn lemma_label_tags()
    ensures
        "Tags:"@ == "Tags"@ + seq![':'],
{
    reveal_strlit("Tags:");
    assert("Tags:"@ =~= seq!['T', 'a', 'g', 's', ':']);
    reveal_strlit("Tags");
    assert("Tags"@ =~= seq!['T', 'a', 'g', 's']);
    assert(seq!['T', 'a', 'g', 's', ':'] =~= seq!['T', 'a', 'g', 's'] + seq![':']);
}

/// The label `BeatmapID:` written before a value is the key `BeatmapID` and its separator.
pub(crate) proof fn lemma_label_beatmap_id()
    ensures
        "BeatmapID:"@ == "BeatmapID"@ + seq![':'],
{
    reveal_strlit("BeatmapID:");
    assert("BeatmapID:"@ =~= seq!['B', 'e', 'a', 't', 'm', 'a', 'p', 'I', 'D', ':']);
    reveal_strlit("BeatmapID");
    assert("BeatmapID"@ =~= seq!['B', 'e', 'a', 't', 'm', 'a', 'p', 'I', 'D']);
    assert(seq!['B', 'e', 'a', 't', 'm', 'a', 'p', 'I', 'D', ':'] =~= seq!['B', 'e', 'a', 't', 'm', 'a', 'p', 'I', 'D'] + seq![':']);
}

/// The label `BeatmapSetID:` written before a value is the key `BeatmapSetID` and its separator.
pub(crate) proof fn lemma_label_beatmap_set_id()
    ensures
        "BeatmapSetID:"@ == "BeatmapSetID"@ + seq![':'],
{
    reveal_strlit("BeatmapSetID:");
    assert("BeatmapSetID:"@ =~= seq!['B', 'e', 'a', 't', 'm', 'a', 'p', 'S', 'e', 't', 'I', 'D', ':']);
    reveal_strlit("BeatmapSetID");
    assert("BeatmapSetID"@ =~= seq!['B', 'e', 'a', 't', 'm', 'a', 'p', 'S', 'e', 't', 'I', 'D']);
    assert(seq!['B', 'e', 'a', 't', 'm', 'a', 'p', 'S', 'e', 't', 'I', 'D', ':'] =~= seq!['B', 'e', 'a', 't', 'm', 'a', 'p', 'S', 'e', 't', 'I', 'D'] + seq![':']);
}

/// The label `HPDrainRate:` written before a value is the key `HPDrainRate` and its separator.
pub(crate) proof fn lemma_label_hp_drain_rate()
    ensures
        "HPDrainRate:"@ == "HPDrainRate"@ + seq![':'],
{
    reveal_strlit("HPDrainRate:");
    assert("HPDrainRate:"@ =~= seq!['H', 'P', 'D', 'r', 'a', 'i', 'n', 'R', 'a', 't', 'e', ':']);
    reveal_strlit("HPDrainRate");
    assert("HPDrainRate"@ =~= seq!['H', 'P', 'D', 'r', 'a', 'i', 'n', 'R', 'a', 't', 'e']);
    assert(seq!['H', 'P', 'D', 'r', 'a', 'i', 'n', 'R', 'a', 't', 'e', ':'] =~= seq!['H', 'P', 'D', 'r', 'a', 'i', 'n', 'R', 'a', 't', 'e'] + seq![':']);
}

/// The label `CircleSize:` written before a value is the key `CircleSize` and its separator.
pub(crate) proof fn lemma_label_circle_size()
    ensures
        "CircleSize:"@ == "CircleSize"@ + seq![':'],
{
    reveal_strlit("CircleSize:");
    assert("CircleSize:"@ =~= seq!['C', 'i', 'r', 'c', 'l', 'e', 'S', 'i', 'z', 'e', ':']);
    reveal_strlit("CircleSize");
    assert("CircleSize"@ =~= seq!['C', 'i', 'r', 'c', 'l', 'e', 'S', 'i', 'z', 'e']);
    assert(seq!['C', 'i', 'r', 'c', 'l', 'e', 'S', 'i', 'z', 'e', ':'] =~= seq!['C', 'i', 'r', 'c', 'l', 'e', 'S', 'i', 'z', 'e'] + seq![':']);
}

/// The label `OverallDifficulty:` written before a value is the key `OverallDifficulty` and its separator.
pub(crate) proof fn lemma_label_overall_difficulty()
    ensures
        "OverallDifficulty:"@ == "OverallDifficulty"@ + seq![':'],
{
    reveal_strlit("OverallDifficulty:");
    assert("OverallDifficulty:"@ =~= seq!['O', 'v', 'e', 'r', 'a', 'l', 'l', 'D', 'i', 'f', 'f', 'i', 'c', 'u', 'l', 't', 'y', ':']);
    reveal_strlit("OverallDifficulty");
    assert("OverallDifficulty"@ =~= seq!['O', 'v', 'e', 'r', 'a', 'l', 'l', 'D', 'i', 'f', 'f', 'i', 'c', 'u', 'l', 't', 'y']);
    assert(seq!['O', 'v', 'e', 'r', 'a', 'l', 'l', 'D', 'i', 'f', 'f', 'i', 'c', 'u', 'l', 't', 'y', ':'] =~= seq!['O', 'v', 'e', 'r', 'a', 'l', 'l', 'D', 'i', 'f', 'f', 'i', 'c', 'u', 'l', 't', 'y'] + seq![':']);
}

/// The label `ApproachRate:` written before a value is the key `ApproachRate` and its separator.
pub(crate) proof fn lemma_label_approach_rate()
    ensures
        "ApproachRate:"@ == "ApproachRate"@ + seq![':'],
{
    reveal_strlit("ApproachRate:");
    assert("ApproachRate:"@ =~= seq!['A', 'p', 'p', 'r', 'o', 'a', 'c', 'h', 'R', 'a', 't', 'e', ':']);
    reveal_strlit("ApproachRate");
    assert("ApproachRate"@ =~= seq!['A', 'p', 'p', 'r', 'o', 'a', 'c', 'h', 'R', 'a', 't', 'e']);
    assert(seq!['A', 'p', 'p', 'r', 'o', 'a', 'c', 'h', 'R', 'a', 't', 'e', ':'] =~= seq!['A', 'p', 'p', 'r', 'o', 'a', 'c', 'h', 'R', 'a', 't', 'e'] + seq![':']);
}

/// The label `SliderMultiplier:` written before a value is the key `SliderMultiplier` and its separator.
pub(crate) proof fn lemma_label_slider_multiplier()
    ensures
        "SliderMultiplier:"@ == "SliderMultiplier"@ + seq![':'],
{
    reveal_strlit("SliderMultiplier:");
    assert("SliderMultiplier:"@ =~= seq!['S', 'l', 'i', 'd', 'e', 'r', 'M', 'u', 'l', 't', 'i', 'p', 'l', 'i', 'e', 'r', ':']);
    reveal_strlit("SliderMultiplier");
    assert("SliderMultiplier"@ =~= seq!['S', 'l', 'i', 'd', 'e', 'r', 'M', 'u', 'l', 't', 'i', 'p', 'l', 'i', 'e', 'r']);
    assert(seq!['S', 'l', 'i', 'd', 'e', 'r', 'M', 'u', 'l', 't', 'i', 'p', 'l', 'i', 'e', 'r', ':'] =~= seq!['S', 'l', 'i', 'd', 'e', 'r', 'M', 'u', 'l', 't', 'i', 'p', 'l', 'i', 'e', 'r'] + seq![':']);
}

/// The label `SliderTickRate:` written before a value is the key `SliderTickRate` and its separator.
pub(crate) proof fn lemma_label_slider_tick_rate()
    ensures
        "SliderTickRate:"@ == "SliderTickRate"@ + seq![':'],
{
    reveal_strlit("SliderTickRate:");
    assert("SliderTickRate:"@ =~= seq!['S', 'l', 'i', 'd', 'e', 'r', 'T', 'i', 'c', 'k', 'R', 'a', 't', 'e', ':']);
    reveal_strlit("SliderTickRate");
    assert("SliderTickRate"@ =~= seq!['S', 'l', 'i', 'd', 'e', 'r', 'T', 'i', 'c', 'k', 'R', 'a', 't', 'e']);
    assert(seq!['S', 'l', 'i', 'd', 'e', 'r', 'T', 'i', 'c', 'k', 'R', 'a', 't', 'e', ':'] =~= seq!['S', 'l', 'i', 'd', 'e', 'r', 'T', 'i', 'c', 'k', 'R', 'a', 't', 'e'] + seq![':']);
}

/// The header `[General]` is the section name in brackets.
pub(crate) proof fn lemma_header_general()
    ensures
        "[General]"@ == seq!['['] + name_general() + seq![']'],
{
    reveal_strlit("[General]");
    assert("[General]"@ =~= seq!['[', 'G', 'e', 'n', 'e', 'r', 'a', 'l', ']']);
    assert(seq!['[', 'G', 'e', 'n', 'e', 'r', 'a', 'l', ']'] =~= seq!['['] + name_general() + seq![']']);
}

/// The header `[Editor]` is the section name in brackets.
pub(crate) proof fn lemma_header_editor()
    ensures
        "[Editor]"@ == seq!['['] + name_editor() + seq![']'],
{
    reveal_strlit("[Editor]");
    assert("[Editor]"@ =~= seq!['[', 'E', 'd', 'i', 't', 'o', 'r', ']']);
    assert(seq!['[', 'E', 'd', 'i', 't', 'o', 'r', ']'] =~= seq!['['] + name_editor() + seq![']']);
}

/// The header `[Metadata]` is the section name in brackets.
pub(crate) proof fn lemma_header_metadata()
    ensures
        "[Metadata]"@ == seq!['['] + name_metadata() + seq![']'],
{
    reveal_strlit("[Metadata]");
    assert("[Metadata]"@ =~= seq!['[', 'M', 'e', 't', 'a', 'd', 'a', 't', 'a', ']']);
    assert(seq!['[', 'M', 'e', 't', 'a', 'd', 'a', 't', 'a', ']'] =~= seq!['['] + name_metadata() + seq![']']);
}

/// The header `[Difficulty]` is the section name in brackets.
pub(crate) proof fn lemma_header_difficulty()
    ensures
        "[Difficulty]"@ == seq!['['] + name_difficulty() + seq![']'],
{
    reveal_strlit("[Difficulty]");
    assert("[Difficulty]"@ =~= seq!['[', 'D', 'i', 'f', 'f', 'i', 'c', 'u', 'l', 't', 'y', ']']);
    assert(seq!['[', 'D', 'i', 'f', 'f', 'i', 'c', 'u', 'l', 't', 'y', ']'] =~= seq!['['] + name_difficulty() + seq![']']);
}

/// The header `[Events]` is the section name in brackets.
pub(crate) proof fn lemma_header_events()
    ensures
        "[Events]"@ == seq!['['] + name_events() + seq![']'],
{
    reveal_strlit("[Events]");
    assert("[Events]"@ =~= seq!['[', 'E', 'v', 'e', 'n', 't', 's', ']']);
    assert(seq!['[', 'E', 'v', 'e', 'n', 't', 's', ']'] =~= seq!['['] + name_events() + seq![']']);
}

/// The header `[TimingPoints]` is the section name in brackets.
pub(crate) proof fn lemma_header_timing()
    ensures
        "[TimingPoints]"@ == seq!['['] + name_timing() + seq![']'],
{
    reveal_strlit("[TimingPoints]");
    assert("[TimingPoints]"@ =~= seq!['[', 'T', 'i', 'm', 'i', 'n', 'g', 'P', 'o', 'i', 'n', 't', 's', ']']);
    assert(seq!['[', 'T', 'i', 'm', 'i', 'n', 'g', 'P', 'o', 'i', 'n', 't', 's', ']'] =~= seq!['['] + name_timing() + seq![']']);
}

/// The header `[Colours]` is the section name in brackets.
pub(crate) proof fn lemma_header_colours()
    ensures
        "[Colours]"@ == seq!['['] + name_colours() + seq![']'],
{
    reveal_strlit("[Colours]");
    assert("[Colours]"@ =~= seq!['[', 'C', 'o', 'l', 'o', 'u', 'r', 's', ']']);
    assert(seq!['[', 'C', 'o', 'l', 'o', 'u', 'r', 's', ']'] =~= seq!['['] + name_colours() + seq![']']);
}

/// The header `[HitObjects]` is the section name in brackets.
pub(crate) proof fn lemma_header_hitobjects()
    ensures
        "[HitObjects]"@ == seq!['['] + name_hitobjects() + seq![']'],
{
    reveal_strlit("[HitObjects]");
    assert("[HitObjects]"@ =~= seq!['[', 'H', 'i', 't', 'O', 'b', 'j', 'e', 'c', 't', 's', ']']);
    assert(seq!['[', 'H', 'i', 't', 'O', 'b', 'j', 'e', 'c', 't', 's', ']'] =~= seq!['['] + name_hitobjects() + seq![']']);
}


/// The version line starts with the prefix the reader looks for.
pub(crate) proof fn lemma_version_label()
    ensures
        "osu file format v"@ == version_prefix(),
{
    reveal_strlit("osu file format v");
    assert("osu file format v"@ =~= version_prefix());
}

/// Reading the lines from `k` on, when line `k` takes the state `st` to
/// `st2`, is reading the lines from `k + 1` on in `st2`.
pub(crate) proof fn lemma_fold_skip(ls: Seq<Seq<char>>, k: int, st: ParseState, st2: ParseState, ln: nat)
    requires
        0 <= k < ls.len(),
        step(st, ls[k]) == Ok::<ParseState, Fault>(st2),
    ensures
        fold_lines(ls.skip(k), st, ln) == fold_lines(ls.skip(k + 1), st2, ln + 1),
{
    assert(ls.skip(k)[0] == ls[k]);
    assert(ls.skip(k).drop_first() =~= ls.skip(k + 1));
}

/// A key is made of letters and digits.
pub(crate) proof fn lemma_key_chars(k: Seq<char>)
    requires
        key_ok(k),
    ensures
        forall|i: int| 0 <= i < k.len() ==> is_ascii_alnum(#[trigger] k[i]),
{
    assert forall|i: int| 0 <= i < k.len() implies is_ascii_alnum(#[trigger] k[i]) by {
        lemma_skip_alnum_all(k, 0, i);
    }
}

/// Everything skipped as alphanumeric is alphanumeric.
proof fn lemma_skip_alnum_all(s: Seq<char>, from: int, i: int)
    requires
        0 <= from <= i < skip_alnum(s, from),
        skip_alnum(s, from) <= s.len(),
    ensures
        is_ascii_alnum(s[i]),
    decreases i - from,
{
    if from < s.len() && is_ascii_alnum(s[from]) && from < i {
        lemma_skip_alnum_all(s, from + 1, i);
    }
}

/// A `key: value` line is safe on a line when its value is.
pub(crate) proof fn lemma_kv_line_safe(key: Seq<char>, sep: Seq<char>, value: Seq<char>)
    requires
        key_ok(key),
        sep == seq![':'] || sep == seq![':', ' '],
        line_safe(value),
    ensures
        line_safe(key + sep + value),
{
    lemma_key_chars(key);
    let line = key + sep + value;
    if line.contains('\n') {
        let i = choose|i: int| 0 <= i < line.len() && line[i] == '\n';
        if i < key.len() {
            assert(line[i] == key[i]);
        } else if i >= key.len() + sep.len() {
            assert(value[i - key.len() - sep.len()] == '\n');
        } else {
            assert(line[i] == sep[i - key.len()]);
        }
    }
    if value.len() > 0 {
        assert(line.last() == value.last());
    } else {
        assert(line.last() == sep.last());
    }
}

/// A section header is safe on a line.
pub(crate) proof fn lemma_header_line_safe(name: Seq<char>)
    requires
        forall|i: int| 0 <= i < name.len() ==> is_ascii_letter(#[trigger] name[i]),
    ensures
        line_safe(seq!['['] + name + seq![']']),
{
    let line = seq!['['] + name + seq![']'];
    if line.contains('\n') {
        let i = choose|i: int| 0 <= i < line.len() && line[i] == '\n';
        if 0 < i < line.len() - 1 {
            assert(line[i] == name[i - 1]);
        }
    }
}

} // verus!
