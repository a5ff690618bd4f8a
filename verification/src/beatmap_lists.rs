//! The list sections a beatmap is written with (events, timing points,
//! colours, hit objects) read back as the lists they were written from: the
//! proof, item by item.

use crate::beatmap::{
    colour_lines, combo_line, event_lines, hitobject_lines, is_ascii_letter, is_blank, is_comment, section_header,
    step, timing_lines, BeatmapView, ParseState,
};
use crate::beatmap_roundtrip::{
    fold_lines, lemma_decimal_value, lemma_fold_concat, lemma_header_colours, lemma_header_events,
    lemma_header_hitobjects, lemma_header_line_safe, lemma_header_step, lemma_header_timing,
    lemma_all_letters, lemma_section_names, line_safe, name_colours, name_difficulty,
    name_events, name_hitobjects, name_timing,
};
use crate::color::{color_roundtrip, spec_color_str, Color};
use crate::errors::Fault;
use crate::events::{event_roundtrip, event_text_roundtrips, spec_event_text, EventView};
use crate::hitobject::{
    hitobject_fields, hitobject_roundtrip, hitobject_text_roundtrips, lemma_hitobject_text_excludes,
    spec_hitobject_text, HitObjectView,
};
use crate::text::{is_ws, skip_ws, spec_decimal};
use crate::timing::{
    spec_timing_point_text, timing_point_fields, timing_point_roundtrip, TimingPointView,
};
use vstd::prelude::*;

verus! {

/// Whether the line of an event reads back as the event: it parses back,
/// is safe on a line, and is neither a section header, nor blank, nor a
/// comment.
pub open spec fn event_line_ok(e: EventView) -> bool {
    let t = spec_event_text(e);
    &&& event_text_roundtrips(e)
    &&& line_safe(t)
    &&& section_header(t) is None
    &&& !is_blank(t)
    &&& !is_comment(t)
}

/// Whether the line of a hit object reads back as the hit object.
pub open spec fn hitobject_line_ok(h: HitObjectView) -> bool {
    hitobject_text_roundtrips(h) && line_safe(h.sample_info.filename)
}

pub(crate) proof fn lemma_list_section_names()
    ensures
        name_events() == "Events"@,
        name_timing() == "TimingPoints"@,
        name_colours() == "Colours"@,
        name_hitobjects() == "HitObjects"@,
        "Events"@ != "HitObjects"@,
        "Events"@ != "TimingPoints"@,
        "Events"@ != "Colours"@,
        "HitObjects"@ != "TimingPoints"@,
        "HitObjects"@ != "Colours"@,
        "TimingPoints"@ != "Colours"@,
        "Version"@ != "Colours"@,
        "Version"@ != "HitObjects"@,
        "Version"@ != "TimingPoints"@,
        "Version"@ != "Events"@,
{
    reveal_strlit("Events");
    reveal_strlit("TimingPoints");
    reveal_strlit("Colours");
    reveal_strlit("HitObjects");
    reveal_strlit("Version");
    assert("Events"@ =~= name_events());
    assert("TimingPoints"@ =~= name_timing());
    assert("Colours"@ =~= name_colours());
    assert("HitObjects"@ =~= name_hitobjects());
    assert("Version"@ =~= seq!['V', 'e', 'r', 's', 'i', 'o', 'n']);
    assert("Version"@[0] != "Colours"@[0]);
    assert("Version"@[0] != "HitObjects"@[0]);
    assert("Version"@[0] != "TimingPoints"@[0]);
}

/// A line that starts with a character other than `[` or white space is
/// neither a section header nor blank.
proof fn lemma_plain_start(t: Seq<char>)
    requires
        t.len() > 0,
        t[0] != '[',
        !is_ws(t[0]),
    ensures
        section_header(t) is None,
        !is_blank(t),
{
    assert(skip_ws(t, 0) == 0);
}

pub(crate) proof fn lemma_timing_line(t: TimingPointView)
    requires
        crate::text::is_float_text(t.mpb),
    ensures
        line_safe(spec_timing_point_text(t)),
        section_header(spec_timing_point_text(t)) is None,
        !is_blank(spec_timing_point_text(t)),
        !is_ascii_letter(spec_timing_point_text(t)[0]),
        crate::timing::spec_parse_timing_point(spec_timing_point_text(t)) == Ok::<TimingPointView, Fault>(t),
{
    let f = timing_point_fields(t);
    let text = spec_timing_point_text(t);
    timing_point_roundtrip(t);
    lemma_decimal_value(t.time.0 as int, i32::MIN as int, i32::MAX as int);
    crate::beatmap_roundtrip::lemma_join_first(f, ',');
    assert(f.last() == (if t.kiai { seq!['1'] } else { seq!['0'] }));
    crate::beatmap_roundtrip::lemma_join_last(f, ',');
    lemma_plain_start(text);
    assert forall|i: int| 0 <= i < f.len() implies !(#[trigger] f[i]).contains('\n') by {
        if i == 1 {
            crate::text::lemma_float_text_excludes(t.mpb, '\n');
        } else if i == 6 || i == 7 {
            if f[i].contains('\n') {
                assert(f[i][0] == '\n');
            }
        } else {
            crate::text::lemma_decimal_chars(t.time.0 as int, '\n');
            crate::text::lemma_decimal_chars(t.meter as int, '\n');
            crate::text::lemma_decimal_chars(t.sample_set.spec_value() as int, '\n');
            crate::text::lemma_decimal_chars(t.sample_index as int, '\n');
            crate::text::lemma_decimal_chars(t.volume as int, '\n');
        }
    }
    crate::text::lemma_join_excludes(f, ',', '\n');
}

pub(crate) proof fn lemma_hitobject_line(h: HitObjectView)
    requires
        hitobject_line_ok(h),
    ensures
        line_safe(spec_hitobject_text(h)),
        section_header(spec_hitobject_text(h)) is None,
        !is_blank(spec_hitobject_text(h)),
        !is_ascii_letter(spec_hitobject_text(h)[0]),
        crate::hitobject::spec_parse_hitobject(spec_hitobject_text(h)) == Ok::<HitObjectView, Fault>(h),
{
    let f = hitobject_fields(h);
    let text = spec_hitobject_text(h);
    hitobject_roundtrip(h);
    lemma_decimal_value(h.pos.x as int, i32::MIN as int, i32::MAX as int);
    crate::beatmap_roundtrip::lemma_join_first(f, ',');
    lemma_plain_start(text);
    lemma_hitobject_text_excludes(h, '\n');
    let hs = crate::hitsounds::spec_hitsample_str(h.sample_info);
    assert(f.last() == hs);
    let d = spec_decimal(h.sample_info.sample_volume as int);
    let front = spec_decimal(h.sample_info.sample_set.spec_value() as int) + seq![':'] + spec_decimal(
        h.sample_info.addition_set.spec_value() as int,
    ) + seq![':'] + spec_decimal(h.sample_info.custom_index as int) + seq![':'] + d + seq![':'];
    assert(hs =~= front + h.sample_info.filename);
    if h.sample_info.filename.len() > 0 {
        assert(hs.last() == h.sample_info.filename.last());
    } else {
        assert(hs.last() == ':');
    }
    crate::beatmap_roundtrip::lemma_join_last(f, ',');
}

pub(crate) proof fn lemma_combo_line(i: int, c: Color)
    requires
        i >= 0,
    ensures
        line_safe(combo_line(i, c)),
        section_header(combo_line(i, c)) is None,
        !is_blank(combo_line(i, c)),
        crate::color::spec_parse_color_line(combo_line(i, c)) == Ok::<Color, Fault>(c),
{
    reveal_strlit("Combo");
    reveal_strlit(" : ");
    let label = "Combo"@ + spec_decimal(i + 1);
    let cs = spec_color_str(c);
    assert("Combo"@ =~= seq!['C', 'o', 'm', 'b', 'o']);
    assert(" : "@ =~= seq![' ', ':', ' ']);
    let line = combo_line(i, c);
    assert(line =~= label + seq![' ', ':', ' '] + cs);
    crate::text::lemma_decimal_chars(i + 1, ' ');
    crate::text::lemma_decimal_chars(i + 1, '\n');
    assert(!label.contains(' ')) by {
        if label.contains(' ') {
            let k = choose|k: int| 0 <= k < label.len() && label[k] == ' ';
            if k >= 5 {
                assert(spec_decimal(i + 1)[k - 5] == ' ');
            }
        }
    }
    color_roundtrip(label, c);
    assert(line[0] == 'C');
    lemma_plain_start(line);
    crate::text::lemma_decimal_chars(c.red as int, '\n');
    crate::text::lemma_decimal_chars(c.green as int, '\n');
    crate::text::lemma_decimal_chars(c.blue as int, '\n');
    lemma_decimal_value(c.blue as int, 0, 255);
    assert(!line.contains('\n')) by {
        if line.contains('\n') {
            let k = choose|k: int| 0 <= k < line.len() && line[k] == '\n';
            let n1 = label.len() as int;
            if k < 5 {
            } else if k < n1 {
                assert(spec_decimal(i + 1)[k - 5] == '\n');
            } else if k < n1 + 3 {
            } else {
                let r = spec_decimal(c.red as int);
                let g = spec_decimal(c.green as int);
                let kk = k - n1 - 3;
                assert(cs[kk] == '\n');
                if kk < r.len() {
                    assert(r[kk] == '\n');
                } else if kk == r.len() {
                } else if kk < r.len() + 1 + g.len() {
                    assert(g[kk - r.len() - 1] == '\n');
                } else if kk == r.len() + 1 + g.len() {
                } else {
                    assert(spec_decimal(c.blue as int)[kk - r.len() - 2 - g.len()] == '\n');
                }
            }
        }
    }
    assert(line.last() == spec_decimal(c.blue as int).last());
}

/// Reading the lines of events in the `[Events]` section adds the events.
proof fn lemma_fold_event_items(evs: Seq<EventView>, st: ParseState, ln: nat)
    requires
        st.section == name_events(),
        forall|i: int| 0 <= i < evs.len() ==> event_line_ok(#[trigger] evs[i]),
    ensures
        fold_lines(evs.map_values(|e: EventView| spec_event_text(e)), st, ln) == Ok::<ParseState, (nat, Fault)>(
            ParseState { section: st.section, beatmap: BeatmapView { events: st.beatmap.events + evs, ..st.beatmap } },
        ),
    decreases evs.len(),
{
    let m = evs.map_values(|e: EventView| spec_event_text(e));
    if evs.len() == 0 {
        assert(st.beatmap.events + evs =~= st.beatmap.events);
        assert(st.beatmap =~= BeatmapView { events: st.beatmap.events + evs, ..st.beatmap });
    } else {
        let e = evs[0];
        assert(event_line_ok(e));
        assert(m[0] == spec_event_text(e));
        lemma_list_section_names();
        event_roundtrip(e);
        let st2 = ParseState { section: st.section, beatmap: BeatmapView { events: st.beatmap.events.push(e), ..st.beatmap } };
        assert(step(st, m[0]) == Ok::<ParseState, Fault>(st2));
        let rest = evs.drop_first();
        assert forall|i: int| 0 <= i < rest.len() implies event_line_ok(#[trigger] rest[i]) by {
            assert(rest[i] == evs[i + 1]);
        }
        lemma_fold_event_items(rest, st2, ln + 1);
        assert(m.drop_first() =~= rest.map_values(|e: EventView| spec_event_text(e)));
        assert(st.beatmap.events.push(e) + rest =~= st.beatmap.events + evs);
    }
}

/// Reading the lines of timing points in the `[TimingPoints]` section adds
/// the timing points.
proof fn lemma_fold_timing_items(tps: Seq<TimingPointView>, st: ParseState, ln: nat)
    requires
        st.section == name_timing(),
        forall|i: int| 0 <= i < tps.len() ==> crate::text::is_float_text(#[trigger] tps[i].mpb),
    ensures
        fold_lines(tps.map_values(|t: TimingPointView| spec_timing_point_text(t)), st, ln) == Ok::<ParseState, (nat, Fault)>(
            ParseState {
                section: st.section,
                beatmap: BeatmapView { timing_points: st.beatmap.timing_points + tps, ..st.beatmap },
            },
        ),
    decreases tps.len(),
{
    let m = tps.map_values(|t: TimingPointView| spec_timing_point_text(t));
    if tps.len() == 0 {
        assert(st.beatmap.timing_points + tps =~= st.beatmap.timing_points);
        assert(st.beatmap =~= BeatmapView { timing_points: st.beatmap.timing_points + tps, ..st.beatmap });
    } else {
        let t = tps[0];
        assert(m[0] == spec_timing_point_text(t));
        lemma_list_section_names();
        lemma_timing_line(t);
        let st2 = ParseState {
            section: st.section,
            beatmap: BeatmapView { timing_points: st.beatmap.timing_points.push(t), ..st.beatmap },
        };
        assert(step(st, m[0]) == Ok::<ParseState, Fault>(st2));
        let rest = tps.drop_first();
        assert forall|i: int| 0 <= i < rest.len() implies crate::text::is_float_text(#[trigger] rest[i].mpb) by {
            assert(rest[i] == tps[i + 1]);
        }
        lemma_fold_timing_items(rest, st2, ln + 1);
        assert(m.drop_first() =~= rest.map_values(|t: TimingPointView| spec_timing_point_text(t)));
        assert(st.beatmap.timing_points.push(t) + rest =~= st.beatmap.timing_points + tps);
    }
}

/// Reading the lines of hit objects in the `[HitObjects]` section adds the
/// hit objects.
proof fn lemma_fold_hitobject_items(hos: Seq<HitObjectView>, st: ParseState, ln: nat)
    requires
        st.section == name_hitobjects(),
        forall|i: int| 0 <= i < hos.len() ==> hitobject_line_ok(#[trigger] hos[i]),
    ensures
        fold_lines(hos.map_values(|h: HitObjectView| spec_hitobject_text(h)), st, ln) == Ok::<ParseState, (nat, Fault)>(
            ParseState {
                section: st.section,
                beatmap: BeatmapView { hit_objects: st.beatmap.hit_objects + hos, ..st.beatmap },
            },
        ),
    decreases hos.len(),
{
    let m = hos.map_values(|h: HitObjectView| spec_hitobject_text(h));
    if hos.len() == 0 {
        assert(st.beatmap.hit_objects + hos =~= st.beatmap.hit_objects);
        assert(st.beatmap =~= BeatmapView { hit_objects: st.beatmap.hit_objects + hos, ..st.beatmap });
    } else {
        let h = hos[0];
        assert(hitobject_line_ok(h));
        assert(m[0] == spec_hitobject_text(h));
        lemma_list_section_names();
        lemma_hitobject_line(h);
        let st2 = ParseState {
            section: st.section,
            beatmap: BeatmapView { hit_objects: st.beatmap.hit_objects.push(h), ..st.beatmap },
        };
        assert(step(st, m[0]) == Ok::<ParseState, Fault>(st2));
        let rest = hos.drop_first();
        assert forall|i: int| 0 <= i < rest.len() implies hitobject_line_ok(#[trigger] rest[i]) by {
            assert(rest[i] == hos[i + 1]);
        }
        lemma_fold_hitobject_items(rest, st2, ln + 1);
        assert(m.drop_first() =~= rest.map_values(|h: HitObjectView| spec_hitobject_text(h)));
        assert(st.beatmap.hit_objects.push(h) + rest =~= st.beatmap.hit_objects + hos);
    }
}

/// Reading the combo lines from index `k` on adds the colours from `k` on.
#[verifier::rlimit(40)]
proof fn lemma_fold_combo_items(cs: Seq<Color>, k: int, st: ParseState, ln: nat)
    requires
        0 <= k <= cs.len(),
        st.section == name_colours(),
    ensures
        fold_lines(Seq::new(cs.len(), |i: int| combo_line(i, cs[i])).skip(k), st, ln) == Ok::<ParseState, (nat, Fault)>(
            ParseState { section: st.section, beatmap: BeatmapView { colors: st.beatmap.colors + cs.skip(k), ..st.beatmap } },
        ),
    decreases cs.len() - k,
{
    let m = Seq::new(cs.len(), |i: int| combo_line(i, cs[i]));
    if k == cs.len() {
        assert(m.skip(k) =~= Seq::<Seq<char>>::empty());
        assert(st.beatmap.colors + cs.skip(k) =~= st.beatmap.colors);
        assert(st.beatmap =~= BeatmapView { colors: st.beatmap.colors + cs.skip(k), ..st.beatmap });
    } else {
        let c = cs[k];
        assert(m.skip(k)[0] == combo_line(k, c));
        lemma_list_section_names();
        lemma_combo_line(k, c);
        let st2 = ParseState { section: st.section, beatmap: BeatmapView { colors: st.beatmap.colors.push(c), ..st.beatmap } };
        assert(step(st, m.skip(k)[0]) == Ok::<ParseState, Fault>(st2));
        lemma_fold_combo_items(cs, k + 1, st2, ln + 1);
        assert(m.skip(k).drop_first() =~= m.skip(k + 1));
        assert(st.beatmap.colors.push(c) + cs.skip(k + 1) =~= st.beatmap.colors + cs.skip(k));
    }
}

/// Reading a section made of a header line, item lines and a blank line.
proof fn lemma_fold_section(hdr: Seq<char>, items: Seq<Seq<char>>, st: ParseState, mid: ParseState, ln: nat)
    requires
        step(st, hdr) == Ok::<ParseState, Fault>(ParseState { section: mid.section, beatmap: st.beatmap }),
    ensures
        fold_lines(seq![hdr] + items + seq![Seq::<char>::empty()], st, ln) == match fold_lines(
            items,
            ParseState { section: mid.section, beatmap: st.beatmap },
            ln + 1,
        ) {
            Ok(s2) => Ok(s2),
            Err(e) => Err(e),
        },
{
    let st1 = ParseState { section: mid.section, beatmap: st.beatmap };
    lemma_fold_concat(seq![hdr] + items, seq![Seq::<char>::empty()], st, ln);
    lemma_fold_concat(seq![hdr], items, st, ln);
    assert(seq![hdr].drop_first() =~= Seq::<Seq<char>>::empty());
    assert(seq![hdr][0] == hdr);
    assert(fold_lines(Seq::<Seq<char>>::empty(), st1, ln + 1) == Ok::<ParseState, (nat, Fault)>(st1));
    assert(fold_lines(seq![hdr], st, ln) == Ok::<ParseState, (nat, Fault)>(st1));
    match fold_lines(items, st1, ln + 1) {
        Ok(s2) => {
            let e = seq![Seq::<char>::empty()];
            assert(e[0] == Seq::<char>::empty());
            assert(step(s2, Seq::<char>::empty()) == Ok::<ParseState, Fault>(s2));
            assert(e.drop_first() =~= Seq::<Seq<char>>::empty());
            assert(fold_lines(Seq::<Seq<char>>::empty(), s2, ln + 1 + items.len() + 1) == Ok::<ParseState, (nat, Fault)>(s2));
            assert(fold_lines(e, s2, ln + 1 + items.len()) == Ok::<ParseState, (nat, Fault)>(s2));
        },
        Err(e) => {},
    }
}

proof fn lemma_header_section_step(st: ParseState, name: Seq<char>)
    requires
        name.len() > 0,
        crate::beatmap_roundtrip::all_letters(name),
    ensures
        step(st, seq!['['] + name + seq![']']) == Ok::<ParseState, Fault>(ParseState { section: name, beatmap: st.beatmap }),
        line_safe(seq!['['] + name + seq![']']),
{
    lemma_all_letters(name);
    lemma_header_step(st, name);
    lemma_header_line_safe(name);
}

/// Reading the `[Events]` section adds the events.
pub(crate) proof fn lemma_fold_events(b: BeatmapView, b1: BeatmapView, ln: nat)
    requires
        forall|i: int| 0 <= i < b.events.len() ==> event_line_ok(#[trigger] b.events[i]),
    ensures
        fold_lines(event_lines(b), ParseState { section: name_difficulty(), beatmap: b1 }, ln) == Ok::<ParseState, (nat, Fault)>(
            ParseState { section: name_events(), beatmap: BeatmapView { events: b1.events + b.events, ..b1 } },
        ),
        forall|i: int| 0 <= i < event_lines(b).len() ==> line_safe(#[trigger] event_lines(b)[i]),
{
    let st = ParseState { section: name_difficulty(), beatmap: b1 };
    lemma_section_names();
    lemma_header_events();
    lemma_header_section_step(st, name_events());
    let items = b.events.map_values(|e: EventView| spec_event_text(e));
    lemma_fold_section("[Events]"@, items, st, ParseState { section: name_events(), beatmap: b1 }, ln);
    lemma_fold_event_items(b.events, ParseState { section: name_events(), beatmap: b1 }, ln + 1);
    let ls = event_lines(b);
    assert forall|i: int| 0 <= i < ls.len() implies line_safe(#[trigger] ls[i]) by {
        if 1 <= i < ls.len() - 1 {
            assert(ls[i] == items[i - 1]);
            assert(event_line_ok(b.events[i - 1]));
        }
    }
}

/// Reading the `[TimingPoints]` section adds the timing points.
pub(crate) proof fn lemma_fold_timing(b: BeatmapView, b1: BeatmapView, ln: nat)
    requires
        forall|i: int| 0 <= i < b.timing_points.len() ==> crate::text::is_float_text(#[trigger] b.timing_points[i].mpb),
    ensures
        fold_lines(timing_lines(b), ParseState { section: name_events(), beatmap: b1 }, ln) == Ok::<ParseState, (nat, Fault)>(
            ParseState {
                section: name_timing(),
                beatmap: BeatmapView { timing_points: b1.timing_points + b.timing_points, ..b1 },
            },
        ),
        forall|i: int| 0 <= i < timing_lines(b).len() ==> line_safe(#[trigger] timing_lines(b)[i]),
{
    let st = ParseState { section: name_events(), beatmap: b1 };
    lemma_section_names();
    lemma_header_timing();
    lemma_header_section_step(st, name_timing());
    let items = b.timing_points.map_values(|t: TimingPointView| spec_timing_point_text(t));
    lemma_fold_section("[TimingPoints]"@, items, st, ParseState { section: name_timing(), beatmap: b1 }, ln);
    lemma_fold_timing_items(b.timing_points, ParseState { section: name_timing(), beatmap: b1 }, ln + 1);
    let ls = timing_lines(b);
    assert forall|i: int| 0 <= i < ls.len() implies line_safe(#[trigger] ls[i]) by {
        if 1 <= i < ls.len() - 1 {
            assert(ls[i] == items[i - 1]);
            lemma_timing_line(b.timing_points[i - 1]);
        }
    }
}

/// Reading the `[Colours]` section adds the colours.
#[verifier::rlimit(40)]
pub(crate) proof fn lemma_fold_colours(b: BeatmapView, b1: BeatmapView, ln: nat)
    ensures
        fold_lines(colour_lines(b), ParseState { section: name_timing(), beatmap: b1 }, ln) == Ok::<ParseState, (nat, Fault)>(
            ParseState { section: name_colours(), beatmap: BeatmapView { colors: b1.colors + b.colors, ..b1 } },
        ),
        forall|i: int| 0 <= i < colour_lines(b).len() ==> line_safe(#[trigger] colour_lines(b)[i]),
{
    let st = ParseState { section: name_timing(), beatmap: b1 };
    lemma_section_names();
    lemma_header_colours();
    lemma_header_section_step(st, name_colours());
    let items = Seq::new(b.colors.len(), |i: int| combo_line(i, b.colors[i]));
    lemma_fold_section("[Colours]"@, items, st, ParseState { section: name_colours(), beatmap: b1 }, ln);
    lemma_fold_combo_items(b.colors, 0, ParseState { section: name_colours(), beatmap: b1 }, ln + 1);
    assert(items.skip(0) =~= items);
    assert(b.colors.skip(0) =~= b.colors);
    let ls = colour_lines(b);
    assert forall|i: int| 0 <= i < ls.len() implies line_safe(#[trigger] ls[i]) by {
        if 1 <= i < ls.len() - 1 {
            assert(ls[i] == items[i - 1]);
            lemma_combo_line(i - 1, b.colors[i - 1]);
        }
    }
}

/// Reading the `[HitObjects]` section adds the hit objects.
pub(crate) proof fn lemma_fold_hitobjects(b: BeatmapView, b1: BeatmapView, ln: nat)
    requires
        forall|i: int| 0 <= i < b.hit_objects.len() ==> hitobject_line_ok(#[trigger] b.hit_objects[i]),
    ensures
        fold_lines(hitobject_lines(b), ParseState { section: name_colours(), beatmap: b1 }, ln) == Ok::<ParseState, (nat, Fault)>(
            ParseState {
                section: name_hitobjects(),
                beatmap: BeatmapView { hit_objects: b1.hit_objects + b.hit_objects, ..b1 },
            },
        ),
        forall|i: int| 0 <= i < hitobject_lines(b).len() ==> line_safe(#[trigger] hitobject_lines(b)[i]),
{
    let st = ParseState { section: name_colours(), beatmap: b1 };
    lemma_section_names();
    lemma_header_hitobjects();
    lemma_header_section_step(st, name_hitobjects());
    let items = b.hit_objects.map_values(|h: HitObjectView| spec_hitobject_text(h));
    lemma_fold_section("[HitObjects]"@, items, st, ParseState { section: name_hitobjects(), beatmap: b1 }, ln);
    lemma_fold_hitobject_items(b.hit_objects, ParseState { section: name_hitobjects(), beatmap: b1 }, ln + 1);
    let ls = hitobject_lines(b);
    assert forall|i: int| 0 <= i < ls.len() implies line_safe(#[trigger] ls[i]) by {
        if 1 <= i < ls.len() - 1 {
            assert(ls[i] == items[i - 1]);
            lemma_hitobject_line(b.hit_objects[i - 1]);
        }
    }
}

} // verus!
