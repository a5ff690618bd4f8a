//! The older readers of `.osu` text. `Beatmap::from_osz` reads settings,
//! the format version and colours line by line, as `Beatmap::from_str` does,
//! but keeps the timing-point and hit-object lines to read them after the
//! last line, reads the `[Events]` section as settings, and reports errors
//! without their line. `Beatmap::deserialize_osz`, the oldest, reads every
//! section but those of the format version, timing points and hit objects as
//! settings, knows no difficulty setting, and refuses a text without a
//! format version.

use crate::beatmap::{
    apply_editor, apply_editor_at, apply_general, apply_general_at, apply_kv, apply_kv_at, apply_metadata,
    apply_metadata_at, blank_at, copy_range, default_beatmap, finish, header_bounds, initial_state, int_value,
    is_blank, kv_bounds, kv_split, line_at, line_bounds, next_line_start, section_header, section_is,
    sort_lists, version_at, version_line, Beatmap, BeatmapView, ParseState,
};
use crate::color::{parse_osz_color_chars, spec_osz_color_line};
use crate::enums::Millis;
use crate::errors::{Fault, LineFault, ParseError};
use crate::hitobject::{parse_hitobject_chars, spec_parse_hitobject, HitObject, HitObjectView};
use crate::hitobject::prepend_some;
use crate::text::{bounds_within, pieces, spec_parse_int, split_spec};
use crate::timing::{parse_timing_point_chars, spec_parse_timing_point, TimingPoint, TimingPointView};
use vstd::prelude::*;

verus! {

/// The state of the older reader: the current section, the beatmap read so
/// far, and the timing-point and hit-object lines kept for later.
pub struct OszState {
    pub section: Seq<char>,
    pub beatmap: BeatmapView,
    pub timing: Seq<Seq<char>>,
    pub objects: Seq<Seq<char>>,
}

/// The state before the first line: the section `Version`, a new beatmap and
/// no kept line.
pub open spec fn osz_initial() -> OszState {
    OszState { section: "Version"@, beatmap: default_beatmap(), timing: Seq::empty(), objects: Seq::empty() }
}

/// A lead-in or preview time as this reader reads it: a `u32`. The beatmap
/// holds the time in an `i32`, so a value above `i32::MAX` makes the text
/// malformed.
pub open spec fn osz_millis(value: Seq<char>) -> Result<Millis, Fault> {
    match int_value(value, 0, u32::MAX as int) {
        Ok(n) => if n <= i32::MAX {
            Ok(Millis(n as i32))
        } else {
            Err(Fault::Malformed)
        },
        Err(e) => Err(e),
    }
}

/// The effect of a `key: value` line in this reader: the lead-in and the
/// preview time are `u32`s, bookmarks that fail to read make the text
/// malformed (the reader unwraps each number), and the other keys act as in
/// [`apply_kv`].
pub open spec fn osz_apply_kv(b: BeatmapView, key: Seq<char>, value: Seq<char>) -> Result<BeatmapView, Fault> {
    if key == "AudioLeadIn"@ {
        match osz_millis(value) {
            Ok(m) => Ok(BeatmapView { audio_leadin: m, ..b }),
            Err(e) => Err(e),
        }
    } else if key == "PreviewTime"@ {
        match osz_millis(value) {
            Ok(m) => Ok(BeatmapView { preview_time: m, ..b }),
            Err(e) => Err(e),
        }
    } else if key == "Bookmarks"@ {
        match apply_kv(b, key, value) {
            Ok(b2) => Ok(b2),
            Err(_) => Err(Fault::Malformed),
        }
    } else {
        apply_kv(b, key, value)
    }
}

/// The effect of a line that is neither a section header nor blank, by
/// section: `HitObjects` and `TimingPoints` keep the line, `Version` reads the
/// format version line, `Colours` adds a colour, and any other section reads
/// `key: value` lines.
pub open spec fn osz_content(st: OszState, line: Seq<char>) -> Result<OszState, Fault> {
    if st.section == "HitObjects"@ {
        Ok(OszState { objects: st.objects.push(line), ..st })
    } else if st.section == "TimingPoints"@ {
        Ok(OszState { timing: st.timing.push(line), ..st })
    } else if st.section == "Version"@ {
        match version_line(line) {
            None => Ok(st),
            Some(Ok(v)) => Ok(OszState { beatmap: BeatmapView { version: v, ..st.beatmap }, ..st }),
            Some(Err(f)) => Err(f),
        }
    } else if st.section == "Colours"@ {
        match spec_osz_color_line(line) {
            Ok(c) => Ok(OszState { beatmap: BeatmapView { colors: st.beatmap.colors.push(c), ..st.beatmap }, ..st }),
            Err(f) => Err(f),
        }
    } else {
        match kv_split(line) {
            None => Ok(st),
            Some((key, value)) => match osz_apply_kv(st.beatmap, key, value) {
                Ok(b2) => Ok(OszState { beatmap: b2, ..st }),
                Err(f) => Err(f),
            },
        }
    }
}

/// The effect of one line: a section header switches the section, a blank
/// line changes nothing, any other line goes to its section.
pub open spec fn osz_step(st: OszState, line: Seq<char>) -> Result<OszState, Fault> {
    match section_header(line) {
        Some(name) => Ok(OszState { section: name, ..st }),
        None => if is_blank(line) {
            Ok(st)
        } else {
            osz_content(st, line)
        },
    }
}

/// Reading the lines of `s` from `start` on, in state `st`: the state after
/// the last line, or how the first line that fails fails.
pub open spec fn osz_run(s: Seq<char>, start: int, st: OszState) -> Result<OszState, Fault>
    decreases s.len() - start,
{
    if start < 0 || start >= s.len() {
        Ok(st)
    } else {
        proof {
            crate::text::lemma_find_char(s, '\n', start);
        }
        match osz_step(st, line_at(s, start)) {
            Ok(st2) => osz_run(s, next_line_start(s, start), st2),
            Err(f) => Err(f),
        }
    }
}

/// Reading kept timing-point lines in order, up to the first that fails.
pub open spec fn osz_timing_points(ls: Seq<Seq<char>>) -> Result<Seq<TimingPointView>, Fault>
    decreases ls.len(),
{
    if ls.len() == 0 {
        Ok(Seq::empty())
    } else {
        match osz_timing_points(ls.drop_last()) {
            Err(f) => Err(f),
            Ok(ts) => match spec_parse_timing_point(ls.last()) {
                Ok(t) => Ok(ts.push(t)),
                Err(f) => Err(f),
            },
        }
    }
}

/// Reading kept hit-object lines in order, up to the first that fails.
pub open spec fn osz_hit_objects(ls: Seq<Seq<char>>) -> Result<Seq<HitObjectView>, Fault>
    decreases ls.len(),
{
    if ls.len() == 0 {
        Ok(Seq::empty())
    } else {
        match osz_hit_objects(ls.drop_last()) {
            Err(f) => Err(f),
            Ok(hs) => match spec_parse_hitobject(ls.last()) {
                Ok(h) => Ok(hs.push(h)),
                Err(f) => Err(f),
            },
        }
    }
}

/// Reading a beatmap with the older reader: the lines in order from a new
/// beatmap in the section `Version`, then the kept timing points, then the
/// kept hit objects, each list stably sorted by time.
pub open spec fn spec_parse_osz(s: Seq<char>) -> Result<BeatmapView, Fault> {
    match osz_run(s, 0, osz_initial()) {
        Err(f) => Err(f),
        Ok(st) => match osz_timing_points(st.timing) {
            Err(f) => Err(f),
            Ok(tps) => match osz_hit_objects(st.objects) {
                Err(f) => Err(f),
                Ok(hos) => Ok(finish(BeatmapView { timing_points: tps, hit_objects: hos, ..st.beatmap })),
            },
        },
    }
}

proof fn lemma_timing_err_extends(ls: Seq<Seq<char>>, k: int)
    requires
        0 <= k <= ls.len(),
        osz_timing_points(ls.take(k)) is Err,
    ensures
        osz_timing_points(ls) == osz_timing_points(ls.take(k)),
    decreases ls.len() - k,
{
    if k < ls.len() {
        assert(ls.take(k + 1).drop_last() =~= ls.take(k));
        lemma_timing_err_extends(ls, k + 1);
    } else {
        assert(ls.take(k) =~= ls);
    }
}

proof fn lemma_objects_err_extends(ls: Seq<Seq<char>>, k: int)
    requires
        0 <= k <= ls.len(),
        osz_hit_objects(ls.take(k)) is Err,
    ensures
        osz_hit_objects(ls) == osz_hit_objects(ls.take(k)),
    decreases ls.len() - k,
{
    if k < ls.len() {
        assert(ls.take(k + 1).drop_last() =~= ls.take(k));
        lemma_objects_err_extends(ls, k + 1);
    } else {
        assert(ls.take(k) =~= ls);
    }
}

fn osz_apply_kv_at(bm: &mut Beatmap, v: &Vec<char>, k0: usize, k1: usize, v0: usize, v1: usize) -> (r: Result<(), LineFault>)
    requires
        k0 <= k1 <= v@.len(),
        v0 <= v1 <= v@.len(),
    ensures
        match osz_apply_kv(old(bm).view(), v@.subrange(k0 as int, k1 as int), v@.subrange(v0 as int, v1 as int)) {
            Ok(b) => r is Ok && final(bm).view() == b,
            Err(f) => r matches Err(e) && e.view() == f,
        },
{
    let lead = crate::text::range_is(v, k0, k1, "AudioLeadIn");
    let preview = crate::text::range_is(v, k0, k1, "PreviewTime");
    if lead || preview {
        match crate::text::parse_int(v, v0, v1, 0, u32::MAX as i128) {
            Ok(n) => {
                if n <= i32::MAX as i128 {
                    if lead {
                        bm.audio_leadin = Millis(n as i32);
                    } else {
                        bm.preview_time = Millis(n as i32);
                    }
                    Ok(())
                } else {
                    Err(LineFault::Malformed)
                }
            },
            Err(k) => Err(LineFault::Failed(ParseError::ParseInt(k))),
        }
    } else if crate::text::range_is(v, k0, k1, "Bookmarks") {
        match apply_kv_at(bm, v, k0, k1, v0, v1) {
            Ok(()) => Ok(()),
            Err(_) => Err(LineFault::Malformed),
        }
    } else {
        apply_kv_at(bm, v, k0, k1, v0, v1)
    }
}

fn osz_content_at(
    bm: &mut Beatmap,
    section: &Vec<char>,
    timing: &mut Vec<(usize, usize)>,
    objects: &mut Vec<(usize, usize)>,
    v: &Vec<char>,
    lo: usize,
    hi: usize,
) -> (r: Result<(), LineFault>)
    requires
        lo <= hi <= v@.len(),
    ensures
        match osz_content(
            OszState {
                section: section@,
                beatmap: old(bm).view(),
                timing: pieces(v@, old(timing)@),
                objects: pieces(v@, old(objects)@),
            },
            v@.subrange(lo as int, hi as int),
        ) {
            Ok(st) => r is Ok && final(bm).view() == st.beatmap && pieces(v@, final(timing)@) == st.timing
                && pieces(v@, final(objects)@) == st.objects,
            Err(f) => r matches Err(e) && e.view() == f,
        },
        final(timing)@ == old(timing)@ || final(timing)@ == old(timing)@.push((lo, hi)),
        final(objects)@ == old(objects)@ || final(objects)@ == old(objects)@.push((lo, hi)),
{
    let ghost line = v@.subrange(lo as int, hi as int);
    if section_is(section, "HitObjects") {
        let ghost before = old(objects)@;
        objects.push((lo, hi));
        assert(pieces(v@, objects@) =~= pieces(v@, before).push(line));
        Ok(())
    } else if section_is(section, "TimingPoints") {
        let ghost before = old(timing)@;
        timing.push((lo, hi));
        assert(pieces(v@, timing@) =~= pieces(v@, before).push(line));
        Ok(())
    } else if section_is(section, "Version") {
        match version_at(v, lo, hi) {
            None => Ok(()),
            Some(Ok(n)) => {
                bm.version = n;
                Ok(())
            },
            Some(Err(e)) => Err(e),
        }
    } else if section_is(section, "Colours") {
        let l = copy_range(v, lo, hi);
        match parse_osz_color_chars(&l) {
            Ok(c) => {
                let ghost b = bm.view();
                bm.colors.push(c);
                assert(bm.view() =~= BeatmapView { colors: b.colors.push(c), ..b });
                Ok(())
            },
            Err(e) => Err(e),
        }
    } else {
        match kv_bounds(v, lo, hi) {
            None => Ok(()),
            Some((k0, k1, v0, v1)) => osz_apply_kv_at(bm, v, k0, k1, v0, v1),
        }
    }
}

fn osz_step_at(
    bm: &mut Beatmap,
    section: &mut Vec<char>,
    timing: &mut Vec<(usize, usize)>,
    objects: &mut Vec<(usize, usize)>,
    v: &Vec<char>,
    lo: usize,
    hi: usize,
) -> (r: Result<(), LineFault>)
    requires
        lo <= hi <= v@.len(),
    ensures
        match osz_step(
            OszState {
                section: old(section)@,
                beatmap: old(bm).view(),
                timing: pieces(v@, old(timing)@),
                objects: pieces(v@, old(objects)@),
            },
            v@.subrange(lo as int, hi as int),
        ) {
            Ok(st) => r is Ok && final(bm).view() == st.beatmap && final(section)@ == st.section
                && pieces(v@, final(timing)@) == st.timing && pieces(v@, final(objects)@) == st.objects,
            Err(f) => r matches Err(e) && e.view() == f,
        },
        final(timing)@ == old(timing)@ || final(timing)@ == old(timing)@.push((lo, hi)),
        final(objects)@ == old(objects)@ || final(objects)@ == old(objects)@.push((lo, hi)),
{
    match header_bounds(v, lo, hi) {
        Some((a, b)) => {
            *section = copy_range(v, a, b);
            Ok(())
        },
        None => {
            if blank_at(v, lo, hi) {
                Ok(())
            } else {
                osz_content_at(bm, section, timing, objects, v, lo, hi)
            }
        },
    }
}

/// Reads the kept timing-point lines `parts` of `v`.
fn read_osz_timing_points(v: &Vec<char>, parts: &Vec<(usize, usize)>) -> (r: Result<Vec<TimingPoint>, LineFault>)
    requires
        bounds_within(parts@, v@.len()),
    ensures
        match osz_timing_points(pieces(v@, parts@)) {
            Ok(ts) => r matches Ok(out) && out@.map_values(|t: TimingPoint| t.view()) == ts,
            Err(f) => r matches Err(e) && e.view() == f,
        },
{
    let ghost ls = pieces(v@, parts@);
    let mut out: Vec<TimingPoint> = Vec::new();
    let mut i: usize = 0;
    assert(ls.take(0) =~= Seq::<Seq<char>>::empty());
    assert(out@.map_values(|t: TimingPoint| t.view()) =~= Seq::<TimingPointView>::empty());
    while i < parts.len()
        invariant
            i <= parts@.len(),
            ls == pieces(v@, parts@),
            bounds_within(parts@, v@.len()),
            osz_timing_points(ls.take(i as int)) == Ok::<Seq<TimingPointView>, Fault>(
                out@.map_values(|t: TimingPoint| t.view()),
            ),
        decreases parts@.len() - i,
    {
        let (lo, hi) = parts[i];
        assert(parts@[i as int].0 <= parts@[i as int].1 <= v@.len());
        let l = copy_range(v, lo, hi);
        assert(ls.take(i + 1).drop_last() =~= ls.take(i as int));
        assert(ls.take(i + 1).last() == l@);
        match parse_timing_point_chars(&l) {
            Ok(t) => {
                let ghost before = out@.map_values(|t: TimingPoint| t.view());
                let ghost tv = t.view();
                out.push(t);
                assert(out@.map_values(|t: TimingPoint| t.view()) =~= before.push(tv));
            },
            Err(e) => {
                proof {
                    lemma_timing_err_extends(ls, i + 1);
                }
                return Err(e);
            },
        }
        i = i + 1;
    }
    assert(ls.take(i as int) =~= ls);
    Ok(out)
}

/// Reads the kept hit-object lines `parts` of `v`.
fn read_osz_hit_objects(v: &Vec<char>, parts: &Vec<(usize, usize)>) -> (r: Result<Vec<HitObject>, LineFault>)
    requires
        bounds_within(parts@, v@.len()),
    ensures
        match osz_hit_objects(pieces(v@, parts@)) {
            Ok(hs) => r matches Ok(out) && out@.map_values(|h: HitObject| h.view()) == hs,
            Err(f) => r matches Err(e) && e.view() == f,
        },
{
    let ghost ls = pieces(v@, parts@);
    let mut out: Vec<HitObject> = Vec::new();
    let mut i: usize = 0;
    assert(ls.take(0) =~= Seq::<Seq<char>>::empty());
    assert(out@.map_values(|h: HitObject| h.view()) =~= Seq::<HitObjectView>::empty());
    while i < parts.len()
        invariant
            i <= parts@.len(),
            ls == pieces(v@, parts@),
            bounds_within(parts@, v@.len()),
            osz_hit_objects(ls.take(i as int)) == Ok::<Seq<HitObjectView>, Fault>(
                out@.map_values(|h: HitObject| h.view()),
            ),
        decreases parts@.len() - i,
    {
        let (lo, hi) = parts[i];
        assert(parts@[i as int].0 <= parts@[i as int].1 <= v@.len());
        let l = copy_range(v, lo, hi);
        assert(ls.take(i + 1).drop_last() =~= ls.take(i as int));
        assert(ls.take(i + 1).last() == l@);
        match parse_hitobject_chars(&l) {
            Ok(h) => {
                let ghost before = out@.map_values(|h: HitObject| h.view());
                let ghost hv = h.view();
                out.push(h);
                assert(out@.map_values(|h: HitObject| h.view()) =~= before.push(hv));
            },
            Err(e) => {
                proof {
                    lemma_objects_err_extends(ls, i + 1);
                }
                return Err(e);
            },
        }
        i = i + 1;
    }
    assert(ls.take(i as int) =~= ls);
    Ok(out)
}

/// Reads the beatmap text `v` with the older reader (see [`spec_parse_osz`]).
pub fn parse_osz_chars(v: &Vec<char>) -> (r: Result<Beatmap, LineFault>)
    ensures
        match spec_parse_osz(v@) {
            Ok(b) => r matches Ok(bm) && bm.view() == b,
            Err(f) => r matches Err(e) && e.view() == f,
        },
{
    let mut bm = Beatmap::default();
    let mut section = crate::text::str_chars("Version");
    let mut timing: Vec<(usize, usize)> = Vec::new();
    let mut objects: Vec<(usize, usize)> = Vec::new();
    let mut start: usize = 0;
    assert(pieces(v@, timing@) =~= Seq::<Seq<char>>::empty());
    assert(pieces(v@, objects@) =~= Seq::<Seq<char>>::empty());
    while start < v.len()
        invariant
            start <= v@.len(),
            bounds_within(timing@, v@.len()),
            bounds_within(objects@, v@.len()),
            osz_run(v@, 0, osz_initial()) == osz_run(
                v@,
                start as int,
                OszState {
                    section: section@,
                    beatmap: bm.view(),
                    timing: pieces(v@, timing@),
                    objects: pieces(v@, objects@),
                },
            ),
        decreases v@.len() - start,
    {
        let (lo, hi, next) = line_bounds(v, start);
        match osz_step_at(&mut bm, &mut section, &mut timing, &mut objects, v, lo, hi) {
            Ok(()) => {},
            Err(e) => return Err(e),
        }
        start = next;
    }
    let ghost b = bm.view();
    let tps = read_osz_timing_points(v, &timing)?;
    let hos = read_osz_hit_objects(v, &objects)?;
    bm.timing_points = tps;
    bm.hit_objects = hos;
    assert(bm.view() =~= BeatmapView {
        timing_points: bm.timing_points@.map_values(|t: TimingPoint| t.view()),
        hit_objects: bm.hit_objects@.map_values(|h: HitObject| h.view()),
        ..b
    });
    sort_lists(&mut bm);
    Ok(bm)
}

impl Beatmap {
    /// Reads a beatmap from the text of a `.osu` file with the older reader
    /// (see [`spec_parse_osz`]): its errors carry no line.
    pub fn from_osz(input: &str) -> (r: Result<Beatmap, ParseError>)
        requires
            !(spec_parse_osz(input@) matches Err(Fault::Malformed)),
        ensures
            match spec_parse_osz(input@) {
                Ok(b) => r matches Ok(bm) && bm.view() == b,
                Err(Fault::Failed(e)) => r matches Err(g) && g.view() == e,
                Err(Fault::Malformed) => false,
            },
    {
        let v = crate::text::str_chars(input);
        match parse_osz_chars(&v) {
            Ok(bm) => Ok(bm),
            Err(LineFault::Failed(e)) => Err(e),
            Err(LineFault::Malformed) => {
                proof {
                    assert(false);
                }
                Err(ParseError::MissingColorComponent)
            },
        }
    }

    /// Reads a beatmap with the older reader, or returns `None` when the text
    /// is malformed for it: a line lacks a field, a colour line has no ` : `,
    /// a bookmark is no number, or a time does not fit the beatmap.
    pub fn from_osz_checked(input: &str) -> (r: Option<Result<Beatmap, ParseError>>)
        ensures
            match spec_parse_osz(input@) {
                Ok(b) => r matches Some(Ok(bm)) && bm.view() == b,
                Err(Fault::Failed(e)) => r matches Some(Err(g)) && g.view() == e,
                Err(Fault::Malformed) => r is None,
            },
    {
        let v = crate::text::str_chars(input);
        match parse_osz_chars(&v) {
            Ok(bm) => Some(Ok(bm)),
            Err(LineFault::Failed(e)) => Some(Err(e)),
            Err(LineFault::Malformed) => None,
        }
    }
}

/// Bookmarks as the oldest reader reads them: every `,`-separated piece of
/// the value is an `i32`, or the reader panics (`None`).
pub open spec fn plain_bookmarks(parts: Seq<Seq<char>>) -> Option<Seq<i32>>
    decreases parts.len(),
{
    if parts.len() == 0 {
        Some(Seq::empty())
    } else {
        match spec_parse_int(parts[0], i32::MIN as int, i32::MAX as int) {
            Ok(n) => prepend_some(seq![n as i32], plain_bookmarks(parts.drop_first())),
            Err(_) => None,
        }
    }
}

/// The effect of a `key: value` line in the oldest reader: the lead-in and
/// the preview time are `u32`s, bookmarks are read with
/// [`plain_bookmarks`], the grid size is any `u8`, the keys of the
/// `[General]`, `[Editor]` and `[Metadata]` sections otherwise act as in
/// [`apply_kv`], and every other key (the difficulty settings among them)
/// changes nothing.
pub open spec fn plain_apply_kv(b: BeatmapView, key: Seq<char>, value: Seq<char>) -> Result<BeatmapView, Fault> {
    if key == "AudioLeadIn"@ {
        match osz_millis(value) {
            Ok(m) => Ok(BeatmapView { audio_leadin: m, ..b }),
            Err(e) => Err(e),
        }
    } else if key == "PreviewTime"@ {
        match osz_millis(value) {
            Ok(m) => Ok(BeatmapView { preview_time: m, ..b }),
            Err(e) => Err(e),
        }
    } else if key == "Bookmarks"@ {
        match plain_bookmarks(split_spec(value, ',')) {
            Some(bs) => Ok(BeatmapView { bookmarks: bs, ..b }),
            None => Err(Fault::Malformed),
        }
    } else if key == "GridSize"@ {
        match int_value(value, 0, u8::MAX as int) {
            Ok(n) => Ok(BeatmapView { grid_size: n as u8, ..b }),
            Err(e) => Err(e),
        }
    } else {
        match apply_general(b, key, value) {
            Some(r) => r,
            None => match apply_editor(b, key, value) {
                Some(r) => r,
                None => match apply_metadata(b, key, value) {
                    Some(r) => r,
                    None => Ok(b),
                },
            },
        }
    }
}

/// The effect of a line that is neither a section header nor blank in the
/// oldest reader: `HitObjects` and `TimingPoints` add one item each,
/// `Version` reads the format version line, and every other section
/// (`Events` and `Colours` among them) reads `key: value` lines.
pub open spec fn plain_content(st: ParseState, line: Seq<char>) -> Result<ParseState, Fault> {
    let b = st.beatmap;
    if st.section == "HitObjects"@ {
        match spec_parse_hitobject(line) {
            Ok(h) => Ok(ParseState { section: st.section, beatmap: BeatmapView { hit_objects: b.hit_objects.push(h), ..b } }),
            Err(f) => Err(f),
        }
    } else if st.section == "TimingPoints"@ {
        match spec_parse_timing_point(line) {
            Ok(t) => Ok(ParseState { section: st.section, beatmap: BeatmapView { timing_points: b.timing_points.push(t), ..b } }),
            Err(f) => Err(f),
        }
    } else if st.section == "Version"@ {
        match version_line(line) {
            None => Ok(st),
            Some(Ok(v)) => Ok(ParseState { section: st.section, beatmap: BeatmapView { version: v, ..b } }),
            Some(Err(f)) => Err(f),
        }
    } else {
        match kv_split(line) {
            None => Ok(st),
            Some((key, value)) => match plain_apply_kv(b, key, value) {
                Ok(b2) => Ok(ParseState { section: st.section, beatmap: b2 }),
                Err(f) => Err(f),
            },
        }
    }
}

/// The effect of one line in the oldest reader.
pub open spec fn plain_step(st: ParseState, line: Seq<char>) -> Result<ParseState, Fault> {
    match section_header(line) {
        Some(name) => Ok(ParseState { section: name, beatmap: st.beatmap }),
        None => if is_blank(line) {
            Ok(st)
        } else {
            plain_content(st, line)
        },
    }
}

/// Reading the lines of `s` from `start` on with the oldest reader.
pub open spec fn plain_run(s: Seq<char>, start: int, st: ParseState) -> Result<ParseState, Fault>
    decreases s.len() - start,
{
    if start < 0 || start >= s.len() {
        Ok(st)
    } else {
        proof {
            crate::text::lemma_find_char(s, '\n', start);
        }
        match plain_step(st, line_at(s, start)) {
            Ok(st2) => plain_run(s, next_line_start(s, start), st2),
            Err(f) => Err(f),
        }
    }
}

/// How the oldest reader fails, as a specification: on a line, or for want
/// of a format version.
pub enum DeserializeFault {
    Line(Fault),
    MissingVersion,
}

/// Reading a beatmap with the oldest reader: the lines in order from a new
/// beatmap in the section `Version`; a beatmap whose version is still 0 is
/// refused; the timing points and hit objects are then sorted by time
/// (this library keeps items of equal time in the order of the text).
pub open spec fn spec_deserialize_osz(s: Seq<char>) -> Result<BeatmapView, DeserializeFault> {
    match plain_run(s, 0, initial_state()) {
        Err(f) => Err(DeserializeFault::Line(f)),
        Ok(st) => if st.beatmap.version == 0 {
            Err(DeserializeFault::MissingVersion)
        } else {
            Ok(finish(st.beatmap))
        },
    }
}

/// Why the oldest reader refused a text.
#[derive(Debug)]
pub enum DeserializeError {
    /// A line could not be read.
    Parse(ParseError),
    /// The text has no format version line, or gives version 0.
    MissingVersion,
}

fn plain_bookmarks_at(v: &Vec<char>, lo: usize, hi: usize) -> (r: Option<Vec<i32>>)
    requires
        lo <= hi <= v@.len(),
    ensures
        match plain_bookmarks(split_spec(v@.subrange(lo as int, hi as int), ',')) {
            Some(bs) => r matches Some(out) && out@ == bs,
            None => r is None,
        },
{
    let parts = crate::text::split_char(v, lo, hi, ',');
    let ghost ps = pieces(v@, parts@);
    let mut out: Vec<i32> = Vec::new();
    let mut i: usize = 0;
    assert(ps.skip(0) =~= ps);
    while i < parts.len()
        invariant
            i <= parts@.len(),
            bounds_within(parts@, v@.len()),
            ps == pieces(v@, parts@),
            ps == split_spec(v@.subrange(lo as int, hi as int), ','),
            plain_bookmarks(ps) == prepend_some(out@, plain_bookmarks(ps.skip(i as int))),
        decreases parts@.len() - i,
    {
        let (c, d) = parts[i];
        assert(parts@[i as int].0 <= parts@[i as int].1 <= v@.len());
        assert(ps.skip(i as int)[0] == v@.subrange(c as int, d as int));
        assert(ps.skip(i as int).drop_first() =~= ps.skip(i + 1));
        let n = match crate::text::parse_int(v, c, d, i32::MIN as i128, i32::MAX as i128) {
            Ok(n) => n as i32,
            Err(_) => return None,
        };
        proof {
            match plain_bookmarks(ps.skip(i + 1)) {
                Some(rest) => {
                    assert(out@.push(n) + rest =~= out@ + (seq![n] + rest));
                },
                None => {},
            }
        }
        out.push(n);
        i = i + 1;
    }
    assert(ps.skip(i as int) =~= Seq::<Seq<char>>::empty());
    assert(out@ + Seq::<i32>::empty() =~= out@);
    Some(out)
}

fn plain_apply_kv_at(bm: &mut Beatmap, v: &Vec<char>, k0: usize, k1: usize, v0: usize, v1: usize) -> (r: Result<(), LineFault>)
    requires
        k0 <= k1 <= v@.len(),
        v0 <= v1 <= v@.len(),
    ensures
        match plain_apply_kv(old(bm).view(), v@.subrange(k0 as int, k1 as int), v@.subrange(v0 as int, v1 as int)) {
            Ok(b) => r is Ok && final(bm).view() == b,
            Err(f) => r matches Err(e) && e.view() == f,
        },
{
    let lead = crate::text::range_is(v, k0, k1, "AudioLeadIn");
    let preview = crate::text::range_is(v, k0, k1, "PreviewTime");
    if lead || preview {
        return match crate::text::parse_int(v, v0, v1, 0, u32::MAX as i128) {
            Ok(n) => {
                if n <= i32::MAX as i128 {
                    if lead {
                        bm.audio_leadin = Millis(n as i32);
                    } else {
                        bm.preview_time = Millis(n as i32);
                    }
                    Ok(())
                } else {
                    Err(LineFault::Malformed)
                }
            },
            Err(k) => Err(LineFault::Failed(ParseError::ParseInt(k))),
        };
    }
    if crate::text::range_is(v, k0, k1, "Bookmarks") {
        return match plain_bookmarks_at(v, v0, v1) {
            Some(bs) => {
                bm.bookmarks = bs;
                Ok(())
            },
            None => Err(LineFault::Malformed),
        };
    }
    if crate::text::range_is(v, k0, k1, "GridSize") {
        return match crate::text::parse_int(v, v0, v1, 0, u8::MAX as i128) {
            Ok(n) => {
                bm.grid_size = n as u8;
                Ok(())
            },
            Err(k) => Err(LineFault::Failed(ParseError::ParseInt(k))),
        };
    }
    match apply_general_at(bm, v, k0, k1, v0, v1) {
        Some(r) => return r,
        None => {},
    }
    match apply_editor_at(bm, v, k0, k1, v0, v1) {
        Some(r) => return r,
        None => {},
    }
    match apply_metadata_at(bm, v, k0, k1, v0, v1) {
        Some(r) => return r,
        None => {},
    }
    Ok(())
}

fn plain_content_at(bm: &mut Beatmap, section: &Vec<char>, v: &Vec<char>, lo: usize, hi: usize) -> (r: Result<(), LineFault>)
    requires
        lo <= hi <= v@.len(),
    ensures
        match plain_content(ParseState { section: section@, beatmap: old(bm).view() }, v@.subrange(lo as int, hi as int)) {
            Ok(st) => r is Ok && final(bm).view() == st.beatmap,
            Err(f) => r matches Err(e) && e.view() == f,
        },
{
    let ghost b = old(bm).view();
    if section_is(section, "HitObjects") {
        let line = copy_range(v, lo, hi);
        let h = parse_hitobject_chars(&line)?;
        let ghost hv = h.view();
        bm.hit_objects.push(h);
        assert(bm.view().hit_objects =~= b.hit_objects.push(hv));
        assert(bm.view() =~= BeatmapView { hit_objects: b.hit_objects.push(hv), ..b });
        Ok(())
    } else if section_is(section, "TimingPoints") {
        let line = copy_range(v, lo, hi);
        let t = parse_timing_point_chars(&line)?;
        let ghost tv = t.view();
        bm.timing_points.push(t);
        assert(bm.view().timing_points =~= b.timing_points.push(tv));
        assert(bm.view() =~= BeatmapView { timing_points: b.timing_points.push(tv), ..b });
        Ok(())
    } else if section_is(section, "Version") {
        match version_at(v, lo, hi) {
            None => Ok(()),
            Some(Ok(n)) => {
                bm.version = n;
                Ok(())
            },
            Some(Err(e)) => Err(e),
        }
    } else {
        match kv_bounds(v, lo, hi) {
            None => Ok(()),
            Some((k0, k1, v0, v1)) => plain_apply_kv_at(bm, v, k0, k1, v0, v1),
        }
    }
}

fn plain_step_at(bm: &mut Beatmap, section: &mut Vec<char>, v: &Vec<char>, lo: usize, hi: usize) -> (r: Result<(), LineFault>)
    requires
        lo <= hi <= v@.len(),
    ensures
        match plain_step(ParseState { section: old(section)@, beatmap: old(bm).view() }, v@.subrange(lo as int, hi as int)) {
            Ok(st) => r is Ok && final(bm).view() == st.beatmap && final(section)@ == st.section,
            Err(f) => r matches Err(e) && e.view() == f,
        },
{
    match header_bounds(v, lo, hi) {
        Some((a, b)) => {
            *section = copy_range(v, a, b);
            Ok(())
        },
        None => {
            if blank_at(v, lo, hi) {
                Ok(())
            } else {
                plain_content_at(bm, section, v, lo, hi)
            }
        },
    }
}

/// Reads the beatmap text `v` with the oldest reader (see
/// [`spec_deserialize_osz`]); `None` stands for a missing version.
pub fn deserialize_osz_chars(v: &Vec<char>) -> (r: Result<Beatmap, Option<LineFault>>)
    ensures
        match spec_deserialize_osz(v@) {
            Ok(b) => r matches Ok(bm) && bm.view() == b,
            Err(DeserializeFault::Line(f)) => r matches Err(Some(e)) && e.view() == f,
            Err(DeserializeFault::MissingVersion) => r matches Err(None),
        },
{
    let mut bm = Beatmap::default();
    let mut section = crate::text::str_chars("Version");
    let mut start: usize = 0;
    while start < v.len()
        invariant
            start <= v@.len(),
            plain_run(v@, 0, initial_state()) == plain_run(
                v@,
                start as int,
                ParseState { section: section@, beatmap: bm.view() },
            ),
        decreases v@.len() - start,
    {
        let (lo, hi, next) = line_bounds(v, start);
        match plain_step_at(&mut bm, &mut section, v, lo, hi) {
            Ok(()) => {},
            Err(e) => return Err(Some(e)),
        }
        start = next;
    }
    if bm.version == 0 {
        return Err(None);
    }
    sort_lists(&mut bm);
    Ok(bm)
}

impl Beatmap {
    /// Reads a beatmap from the text of a `.osu` file with the oldest reader
    /// (see [`spec_deserialize_osz`]): it reads no difficulty setting, no
    /// event and no colour, and refuses a text without a format version.
    pub fn deserialize_osz(input: String) -> (r: Result<Beatmap, DeserializeError>)
        requires
            !(spec_deserialize_osz(input@) matches Err(DeserializeFault::Line(Fault::Malformed))),
        ensures
            match spec_deserialize_osz(input@) {
                Ok(b) => r matches Ok(bm) && bm.view() == b,
                Err(DeserializeFault::Line(Fault::Failed(e))) => r matches Err(DeserializeError::Parse(g))
                    && g.view() == e,
                Err(DeserializeFault::Line(Fault::Malformed)) => false,
                Err(DeserializeFault::MissingVersion) => r matches Err(DeserializeError::MissingVersion),
            },
    {
        let v = crate::text::str_chars(input.as_str());
        match deserialize_osz_chars(&v) {
            Ok(bm) => Ok(bm),
            Err(Some(LineFault::Failed(e))) => Err(DeserializeError::Parse(e)),
            Err(Some(LineFault::Malformed)) => {
                proof {
                    assert(false);
                }
                Err(DeserializeError::MissingVersion)
            },
            Err(None) => Err(DeserializeError::MissingVersion),
        }
    }

    /// Reads a beatmap with the oldest reader, or returns `None` when the text
    /// is malformed for it: a line lacks a field, a bookmark is no number, or
    /// a time does not fit the beatmap.
    pub fn deserialize_osz_checked(input: String) -> (r: Option<Result<Beatmap, DeserializeError>>)
        ensures
            match spec_deserialize_osz(input@) {
                Ok(b) => r matches Some(Ok(bm)) && bm.view() == b,
                Err(DeserializeFault::Line(Fault::Failed(e))) => r matches Some(Err(DeserializeError::Parse(g)))
                    && g.view() == e,
                Err(DeserializeFault::Line(Fault::Malformed)) => r is None,
                Err(DeserializeFault::MissingVersion) => r matches Some(Err(DeserializeError::MissingVersion)),
            },
    {
        let v = crate::text::str_chars(input.as_str());
        match deserialize_osz_chars(&v) {
            Ok(bm) => Some(Ok(bm)),
            Err(Some(LineFault::Failed(e))) => Some(Err(DeserializeError::Parse(e))),
            Err(Some(LineFault::Malformed)) => None,
            Err(None) => Some(Err(DeserializeError::MissingVersion)),
        }
    }
}

} // verus!
