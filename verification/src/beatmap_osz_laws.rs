//! What the older reader gives back of the text `Beatmap::as_osz` writes: the
//! beatmap without its events. The proof follows the reading of the same
//! lines by `Beatmap::from_str`, line by line, and shows that the older
//! reader keeps step with it.

use crate::beatmap::{
    apply_difficulty, apply_editor, apply_general, apply_kv, apply_metadata, as_osz_events, as_osz_lines, beatmap_lines, colour_lines, combo_line,
    difficulty_lines, editor_lines, finish, general_lines, hitobject_keys, hitobject_lines, initial_state,
    is_blank, kv_split, line_at, lines_text, lemma_lines_text_concat, metadata_lines, next_line_start,
    section_header, spec_as_osz_text, step, timing_keys, timing_lines, BeatmapView, ParseState,
};
use crate::beatmap_laws::{
    beatmap_text_roundtrips, lemma_fold_all, lemma_fold_settings, lemma_lines_safe, lemma_read_back,
    lemma_sorted_identity, read_settings,
};
use crate::beatmap_lists::{lemma_combo_line, lemma_hitobject_line, lemma_timing_line};
use crate::beatmap_osz::{
    osz_hit_objects, osz_initial, osz_run, osz_step, osz_timing_points, spec_parse_osz, OszState,
};
use crate::beatmap_roundtrip::{
    fold_lines, lemma_decimal_value, lemma_find_char_at, lemma_fold_concat, lemma_header_step, lemma_keys_ok,
    lemma_kv_line, lemma_label_literals, lemma_section_names, line_safe, name_difficulty, name_events,
};
use crate::color::{spec_osz_color_line, spec_parse_color_line};
use crate::errors::Fault;
use crate::hitobject::spec_parse_hitobject;
use crate::timing::spec_parse_timing_point;
use crate::hitobject::HitObjectView;
use crate::text::{decimal_roundtrip, spec_decimal};
use crate::timing::TimingPointView;
use vstd::prelude::*;

verus! {

/// Reading lines one after the other with the older reader.
pub open spec fn osz_fold(ls: Seq<Seq<char>>, st: OszState) -> Result<OszState, Fault>
    decreases ls.len(),
{
    if ls.len() == 0 {
        Ok(st)
    } else {
        match osz_step(st, ls[0]) {
            Ok(st2) => osz_fold(ls.drop_first(), st2),
            Err(f) => Err(f),
        }
    }
}

/// Whether a `key: value` line that sets the lead-in or the preview time
/// holds the decimal text of a number from 0 to `i32::MAX`, which both readers
/// read alike.
pub open spec fn kv_fits(l: Seq<char>) -> bool {
    match kv_split(l) {
        Some((k, v)) => (k == "AudioLeadIn"@ || k == "PreviewTime"@) ==> exists|n: int|
            0 <= n <= i32::MAX && v == #[trigger] spec_decimal(n),
        None => true,
    }
}

/// Whether both readers read the line `l` alike in section `sec`: the line
/// fits (see [`kv_fits`]), and in the `[Events]` section it is a header or
/// blank.
pub open spec fn line_fits(sec: Seq<char>, l: Seq<char>) -> bool {
    &&& (sec == "Events"@ ==> (section_header(l) is Some || is_blank(l)))
    &&& kv_fits(l)
}

/// Whether every line of `ls` fits the section in which `Beatmap::from_str`
/// reads it from state `st`.
pub open spec fn fits_all(ls: Seq<Seq<char>>, st: ParseState) -> bool
    decreases ls.len(),
{
    if ls.len() == 0 {
        true
    } else {
        line_fits(st.section, ls[0]) && match step(st, ls[0]) {
            Ok(st2) => fits_all(ls.drop_first(), st2),
            Err(_) => true,
        }
    }
}

/// Whether the state `o` of the older reader keeps step with the state `st`
/// of `Beatmap::from_str`: same section, same beatmap but for its timing
/// points and hit objects, and kept lines that read as those.
pub open spec fn mirrors(o: OszState, st: ParseState) -> bool {
    &&& o.section == st.section
    &&& o.beatmap == without_lists(st.beatmap)
    &&& osz_timing_points(o.timing) == Ok::<Seq<TimingPointView>, Fault>(st.beatmap.timing_points)
    &&& osz_hit_objects(o.objects) == Ok::<Seq<HitObjectView>, Fault>(st.beatmap.hit_objects)
}

proof fn lemma_osz_run_lines(ls: Seq<Seq<char>>, k: int, st: OszState)
    requires
        0 <= k <= ls.len(),
        forall|i: int| 0 <= i < ls.len() ==> line_safe(#[trigger] ls[i]),
    ensures
        osz_run(lines_text(ls), lines_text(ls.take(k)).len() as int, st) == osz_fold(ls.skip(k), st),
    decreases ls.len() - k,
{
    let t = lines_text(ls);
    if k == ls.len() {
        assert(ls.take(k) =~= ls);
        assert(ls.skip(k) =~= Seq::<Seq<char>>::empty());
    } else {
        let a = lines_text(ls.take(k));
        let l = ls[k];
        let c = lines_text(ls.skip(k + 1));
        assert(ls.take(k + 1).drop_last() =~= ls.take(k));
        assert(lines_text(ls.take(k + 1)) == a + l + seq!['\n']);
        lemma_lines_text_concat(ls.take(k + 1), ls.skip(k + 1));
        assert(ls.take(k + 1) + ls.skip(k + 1) =~= ls);
        assert(t == a + l + seq!['\n'] + c);
        let off = a.len() as int;
        let e = off + l.len();
        assert(line_safe(ls[k]));
        assert forall|i: int| off <= i < e implies t[i] != '\n' by {
            assert(t[i] == l[i - off]);
        }
        assert(t[e] == '\n');
        lemma_find_char_at(t, '\n', off, e);
        assert(t.subrange(off, e) =~= l);
        assert(line_at(t, off) == l);
        assert(next_line_start(t, off) == lines_text(ls.take(k + 1)).len());
        assert(ls.skip(k)[0] == l);
        assert(ls.skip(k).drop_first() =~= ls.skip(k + 1));
        match osz_step(st, l) {
            Ok(st2) => {
                lemma_osz_run_lines(ls, k + 1, st2);
            },
            Err(f) => {},
        }
    }
}

#[verifier::rlimit(40)]
proof fn lemma_apply_general_lists(b: BeatmapView, k: Seq<char>, v: Seq<char>)
    ensures
        apply_general(without_lists(b), k, v) == match apply_general(b, k, v) {
            Some(Ok(b2)) => Some(Ok::<BeatmapView, Fault>(without_lists(b2))),
            Some(Err(f)) => Some(Err(f)),
            None => None,
        },
        match apply_general(b, k, v) {
            Some(Ok(b2)) => b2.timing_points == b.timing_points && b2.hit_objects == b.hit_objects,
            _ => true,
        },
{
}

#[verifier::rlimit(40)]
proof fn lemma_apply_editor_lists(b: BeatmapView, k: Seq<char>, v: Seq<char>)
    ensures
        apply_editor(without_lists(b), k, v) == match apply_editor(b, k, v) {
            Some(Ok(b2)) => Some(Ok::<BeatmapView, Fault>(without_lists(b2))),
            Some(Err(f)) => Some(Err(f)),
            None => None,
        },
        match apply_editor(b, k, v) {
            Some(Ok(b2)) => b2.timing_points == b.timing_points && b2.hit_objects == b.hit_objects,
            _ => true,
        },
{
}

#[verifier::rlimit(40)]
proof fn lemma_apply_metadata_lists(b: BeatmapView, k: Seq<char>, v: Seq<char>)
    ensures
        apply_metadata(without_lists(b), k, v) == match apply_metadata(b, k, v) {
            Some(Ok(b2)) => Some(Ok::<BeatmapView, Fault>(without_lists(b2))),
            Some(Err(f)) => Some(Err(f)),
            None => None,
        },
        match apply_metadata(b, k, v) {
            Some(Ok(b2)) => b2.timing_points == b.timing_points && b2.hit_objects == b.hit_objects,
            _ => true,
        },
{
}

#[verifier::rlimit(40)]
proof fn lemma_apply_difficulty_lists(b: BeatmapView, k: Seq<char>, v: Seq<char>)
    ensures
        apply_difficulty(without_lists(b), k, v) == match apply_difficulty(b, k, v) {
            Some(Ok(b2)) => Some(Ok::<BeatmapView, Fault>(without_lists(b2))),
            Some(Err(f)) => Some(Err(f)),
            None => None,
        },
        match apply_difficulty(b, k, v) {
            Some(Ok(b2)) => b2.timing_points == b.timing_points && b2.hit_objects == b.hit_objects,
            _ => true,
        },
{
}

/// A beatmap without its timing points and hit objects.
pub open spec fn without_lists(b: BeatmapView) -> BeatmapView {
    BeatmapView { timing_points: Seq::<TimingPointView>::empty(), hit_objects: Seq::<HitObjectView>::empty(), ..b }
}

proof fn lemma_apply_kv_lists(b: BeatmapView, k: Seq<char>, v: Seq<char>)
    ensures
        apply_kv(without_lists(b), k, v) == match apply_kv(b, k, v) {
            Ok(b2) => Ok::<BeatmapView, Fault>(without_lists(b2)),
            Err(f) => Err(f),
        },
        match apply_kv(b, k, v) {
            Ok(b2) => b2.timing_points == b.timing_points && b2.hit_objects == b.hit_objects,
            Err(_) => true,
        },
{
    lemma_apply_general_lists(b, k, v);
    lemma_apply_editor_lists(b, k, v);
    lemma_apply_metadata_lists(b, k, v);
    lemma_apply_difficulty_lists(b, k, v);
}

#[verifier::rlimit(40)]
proof fn lemma_step_mirrors(o: OszState, st: ParseState, l: Seq<char>)
    requires
        mirrors(o, st),
        step(st, l) is Ok,
        line_fits(st.section, l),
    ensures
        osz_step(o, l) is Ok,
        mirrors(osz_step(o, l)->Ok_0, step(st, l)->Ok_0),
{
    let b = st.beatmap;
    if section_header(l) is Some {
        assert(mirrors(osz_step(o, l)->Ok_0, step(st, l)->Ok_0));
    } else if is_blank(l) {
        assert(mirrors(osz_step(o, l)->Ok_0, step(st, l)->Ok_0));
    } else if st.section == "Events"@ {
    } else if st.section == "HitObjects"@ {
        let h = spec_parse_hitobject(l)->Ok_0;
        assert(o.objects.push(l).drop_last() =~= o.objects);
        assert(o.objects.push(l).last() == l);
        assert(without_lists(BeatmapView { hit_objects: b.hit_objects.push(h), ..b }) == without_lists(b));
        assert(mirrors(osz_step(o, l)->Ok_0, step(st, l)->Ok_0));
    } else if st.section == "TimingPoints"@ {
        let t = spec_parse_timing_point(l)->Ok_0;
        assert(o.timing.push(l).drop_last() =~= o.timing);
        assert(o.timing.push(l).last() == l);
        assert(without_lists(BeatmapView { timing_points: b.timing_points.push(t), ..b }) == without_lists(b));
        assert(mirrors(osz_step(o, l)->Ok_0, step(st, l)->Ok_0));
    } else if st.section == "Version"@ {
        assert(mirrors(osz_step(o, l)->Ok_0, step(st, l)->Ok_0));
    } else if st.section == "Colours"@ {
        let c = spec_parse_color_line(l)->Ok_0;
        assert(spec_osz_color_line(l) == spec_parse_color_line(l));
        assert(without_lists(BeatmapView { colors: b.colors.push(c), ..b }) == BeatmapView { colors: b.colors.push(c), ..without_lists(b) });
        assert(mirrors(osz_step(o, l)->Ok_0, step(st, l)->Ok_0));
    } else {
        match kv_split(l) {
            None => {
                assert(mirrors(osz_step(o, l)->Ok_0, step(st, l)->Ok_0));
            },
            Some((k, v)) => {
                lemma_apply_kv_lists(b, k, v);
                let b2 = apply_kv(b, k, v)->Ok_0;
                assert(step(st, l) == Ok::<ParseState, Fault>(ParseState { section: st.section, beatmap: b2 }));
                if k == "AudioLeadIn"@ || k == "PreviewTime"@ {
                    let n = choose|n: int| 0 <= n <= i32::MAX && v == #[trigger] spec_decimal(n);
                    decimal_roundtrip(n, i32::MIN as int, i32::MAX as int);
                    decimal_roundtrip(n, 0, u32::MAX as int);
                    reveal_strlit("AudioFilename");
                    reveal_strlit("AudioLeadIn");
                    reveal_strlit("PreviewTime");
                    assert("AudioFilename"@.len() == 13);
                    assert("AudioLeadIn"@[0] == 'A' && "PreviewTime"@[0] == 'P');
                    assert(crate::beatmap_osz::osz_apply_kv(o.beatmap, k, v) == Ok::<BeatmapView, Fault>(without_lists(b2)));
                } else if k == "Bookmarks"@ {
                    assert(crate::beatmap_osz::osz_apply_kv(o.beatmap, k, v) == Ok::<BeatmapView, Fault>(without_lists(b2)));
                } else {
                    assert(crate::beatmap_osz::osz_apply_kv(o.beatmap, k, v) == Ok::<BeatmapView, Fault>(without_lists(b2)));
                }
                assert(osz_step(o, l) == Ok::<OszState, Fault>(OszState { beatmap: without_lists(b2), ..o }));
                assert(mirrors(osz_step(o, l)->Ok_0, step(st, l)->Ok_0));
            },
        }
    }
}

proof fn lemma_fold_mirrors(ls: Seq<Seq<char>>, o: OszState, st: ParseState, ln: nat)
    requires
        mirrors(o, st),
        fits_all(ls, st),
        fold_lines(ls, st, ln) is Ok,
    ensures
        osz_fold(ls, o) is Ok,
        mirrors(osz_fold(ls, o)->Ok_0, fold_lines(ls, st, ln)->Ok_0),
    decreases ls.len(),
{
    if ls.len() > 0 {
        lemma_step_mirrors(o, st, ls[0]);
        let st2 = step(st, ls[0])->Ok_0;
        let o2 = osz_step(o, ls[0])->Ok_0;
        lemma_fold_mirrors(ls.drop_first(), o2, st2, ln + 1);
    }
}

proof fn lemma_fits_concat(a: Seq<Seq<char>>, b: Seq<Seq<char>>, st: ParseState, ln: nat)
    requires
        fits_all(a, st),
        match fold_lines(a, st, ln) {
            Ok(st2) => fits_all(b, st2),
            Err(_) => true,
        },
    ensures
        fits_all(a + b, st),
    decreases a.len(),
{
    if a.len() == 0 {
        assert(a + b =~= b);
    } else {
        assert((a + b)[0] == a[0]);
        assert((a + b).drop_first() =~= a.drop_first() + b);
        match step(st, a[0]) {
            Ok(st2) => lemma_fits_concat(a.drop_first(), b, st2, ln + 1),
            Err(_) => {},
        }
    }
}

/// Lines that fit, none of which is the `[Events]` header, fit from any
/// state outside `[Events]`, and from `[Events]` when they start with a header.
proof fn lemma_fits_lines(ls: Seq<Seq<char>>, st: ParseState)
    requires
        forall|i: int| 0 <= i < ls.len() ==> kv_fits(#[trigger] ls[i]),
        forall|i: int| 0 <= i < ls.len() ==> section_header(#[trigger] ls[i]) != Some("Events"@),
        st.section == "Events"@ && ls.len() > 0 ==> section_header(ls[0]) is Some,
    ensures
        fits_all(ls, st),
    decreases ls.len(),
{
    if ls.len() > 0 {
        let l = ls[0];
        assert(kv_fits(ls[0]));
        assert(section_header(ls[0]) != Some("Events"@));
        match step(st, l) {
            Ok(st2) => {
                assert forall|i: int| 0 <= i < ls.drop_first().len() implies kv_fits(#[trigger] ls.drop_first()[i]) by {
                    assert(ls.drop_first()[i] == ls[i + 1]);
                }
                assert forall|i: int| 0 <= i < ls.drop_first().len() implies section_header(
                    #[trigger] ls.drop_first()[i],
                ) != Some("Events"@) by {
                    assert(ls.drop_first()[i] == ls[i + 1]);
                }
                lemma_fits_lines(ls.drop_first(), st2);
            },
            Err(_) => {},
        }
    }
}

/// A line that differs at `i` from both `AudioLeadIn` and `PreviewTime` fits.
proof fn lemma_fits_unlike(l: Seq<char>, i: int)
    requires
        0 <= i < 11,
        i < l.len(),
        l[i] != seq!['A', 'u', 'd', 'i', 'o', 'L', 'e', 'a', 'd', 'I', 'n'][i],
        l[i] != seq!['P', 'r', 'e', 'v', 'i', 'e', 'w', 'T', 'i', 'm', 'e'][i],
    ensures
        kv_fits(l),
{
    reveal_strlit("AudioLeadIn");
    reveal_strlit("PreviewTime");
    assert("AudioLeadIn"@ =~= seq!['A', 'u', 'd', 'i', 'o', 'L', 'e', 'a', 'd', 'I', 'n']);
    assert("PreviewTime"@ =~= seq!['P', 'r', 'e', 'v', 'i', 'e', 'w', 'T', 'i', 'm', 'e']);
    match kv_split(l) {
        Some((k, v)) => {
            if k == "AudioLeadIn"@ || k == "PreviewTime"@ {
                assert(k[i] == l[i]);
            }
        },
        None => {},
    }
}

/// A line that starts with neither `[` nor is `[Events]` is not the
/// `[Events]` header.
proof fn lemma_not_events(l: Seq<char>)
    requires
        l.len() == 0 || l[0] != '[' || l.len() != 8 || l[2] != 'v',
    ensures
        section_header(l) != Some("Events"@),
{
    reveal_strlit("Events");
    assert("Events"@ =~= seq!['E', 'v', 'e', 'n', 't', 's']);
    if section_header(l) == Some("Events"@) {
        assert(l.subrange(1, l.len() - 1)[1] == l[2]);
    }
}

/// The decimal text of a number from 0 to `i32::MAX` after the key `key`
/// and its separator fits.
proof fn lemma_fits_time(key: Seq<char>, n: int)
    requires
        key == "AudioLeadIn"@ || key == "PreviewTime"@,
        0 <= n <= i32::MAX,
    ensures
        kv_fits(key + seq![':', ' '] + spec_decimal(n)),
        section_header(key + seq![':', ' '] + spec_decimal(n)) != Some("Events"@),
{
    lemma_keys_ok();
    lemma_decimal_value(n, i32::MIN as int, i32::MAX as int);
    lemma_kv_line(key, seq![':', ' '], spec_decimal(n));
    reveal_strlit("AudioLeadIn");
    reveal_strlit("PreviewTime");
    assert("AudioLeadIn"@ =~= seq!['A', 'u', 'd', 'i', 'o', 'L', 'e', 'a', 'd', 'I', 'n']);
    assert("PreviewTime"@ =~= seq!['P', 'r', 'e', 'v', 'i', 'e', 'w', 'T', 'i', 'm', 'e']);
    let l = key + seq![':', ' '] + spec_decimal(n);
    assert(l[0] == key[0]);
    lemma_not_events(l);
}

#[verifier::rlimit(60)]
proof fn lemma_settings_fit(b: BeatmapView)
    requires
        beatmap_text_roundtrips(b),
        b.audio_leadin.0 >= 0,
        b.preview_time.0 >= 0,
    ensures
        forall|i: int| 0 <= i < (general_lines(b) + editor_lines(b) + metadata_lines(b) + difficulty_lines(b)).len()
            ==> kv_fits(#[trigger] (general_lines(b) + editor_lines(b) + metadata_lines(b) + difficulty_lines(b))[i]),
        forall|i: int| 0 <= i < (general_lines(b) + editor_lines(b) + metadata_lines(b) + difficulty_lines(b)).len()
            ==> section_header(#[trigger] (general_lines(b) + editor_lines(b) + metadata_lines(b) + difficulty_lines(b))[i]) != Some("Events"@),
{
    lemma_label_literals();
    let g = general_lines(b);
    let e = editor_lines(b);
    let m = metadata_lines(b);
    let d = difficulty_lines(b);
    let p = g + e + m + d;
    assert forall|i: int| 0 <= i < g.len() implies kv_fits(#[trigger] g[i]) && section_header(g[i]) != Some("Events"@) by {
        let l = g[i];
        if i == 1 || i == 12 {
            assert(l.len() == 0);
        } else if i == 3 {
            lemma_fits_unlike(l, 5);
            lemma_not_events(l);
        } else if i == 4 {
            assert(l =~= "AudioLeadIn"@ + seq![':', ' '] + spec_decimal(b.audio_leadin.0 as int)) by {
                reveal_strlit("AudioLeadIn");
            }
            lemma_fits_time("AudioLeadIn"@, b.audio_leadin.0 as int);
        } else if i == 5 {
            assert(l =~= "PreviewTime"@ + seq![':', ' '] + spec_decimal(b.preview_time.0 as int)) by {
                reveal_strlit("PreviewTime");
            }
            lemma_fits_time("PreviewTime"@, b.preview_time.0 as int);
        } else {
            lemma_fits_unlike(l, 0);
            lemma_not_events(l);
        }
    }
    assert forall|i: int| 0 <= i < e.len() implies kv_fits(#[trigger] e[i]) && section_header(e[i]) != Some("Events"@) by {
        let l = e[i];
        if i == 6 {
            assert(l.len() == 0);
        } else {
            lemma_fits_unlike(l, 0);
            lemma_not_events(l);
        }
    }
    assert forall|i: int| 0 <= i < m.len() implies kv_fits(#[trigger] m[i]) && section_header(m[i]) != Some("Events"@) by {
        let l = m[i];
        if i == 11 {
            assert(l.len() == 0);
        } else if i == 3 || i == 4 {
            lemma_fits_unlike(l, 2);
            lemma_not_events(l);
        } else {
            lemma_fits_unlike(l, 0);
            lemma_not_events(l);
        }
    }
    assert forall|i: int| 0 <= i < d.len() implies kv_fits(#[trigger] d[i]) && section_header(d[i]) != Some("Events"@) by {
        let l = d[i];
        if i == 4 {
            lemma_fits_unlike(l, 1);
            lemma_not_events(l);
        } else {
            lemma_fits_unlike(l, 0);
            lemma_not_events(l);
        }
    }
    assert forall|i: int| 0 <= i < p.len() implies kv_fits(#[trigger] p[i]) && section_header(p[i]) != Some("Events"@) by {
        if i < g.len() {
            assert(p[i] == g[i]);
        } else if i < g.len() + e.len() {
            assert(p[i] == e[i - g.len()]);
        } else if i < g.len() + e.len() + m.len() {
            assert(p[i] == m[i - g.len() - e.len()]);
        } else {
            assert(p[i] == d[i - g.len() - e.len() - m.len()]);
        }
    }
}

#[verifier::rlimit(40)]
proof fn lemma_lists_fit(b: BeatmapView)
    requires
        beatmap_text_roundtrips(b),
    ensures
        forall|i: int| 0 <= i < (timing_lines(b) + colour_lines(b) + hitobject_lines(b).drop_last()).len()
            ==> kv_fits(#[trigger] (timing_lines(b) + colour_lines(b) + hitobject_lines(b).drop_last())[i]),
        forall|i: int| 0 <= i < (timing_lines(b) + colour_lines(b) + hitobject_lines(b).drop_last()).len()
            ==> section_header(#[trigger] (timing_lines(b) + colour_lines(b) + hitobject_lines(b).drop_last())[i]) != Some("Events"@),
        section_header((timing_lines(b) + colour_lines(b) + hitobject_lines(b).drop_last())[0]) is Some,
{
    lemma_label_literals();
    let t = timing_lines(b);
    let c = colour_lines(b);
    let h = hitobject_lines(b).drop_last();
    let q = t + c + h;
    assert forall|i: int| 0 <= i < t.len() implies kv_fits(#[trigger] t[i]) && section_header(t[i]) != Some("Events"@) by {
        let l = t[i];
        if i == 0 {
            lemma_fits_unlike(l, 0);
            lemma_not_events(l);
        } else if i == t.len() - 1 {
            assert(l.len() == 0);
        } else {
            lemma_timing_line(b.timing_points[i - 1]);
            lemma_fits_unlike(l, 0);
        }
    }
    assert forall|i: int| 0 <= i < c.len() implies kv_fits(#[trigger] c[i]) && section_header(c[i]) != Some("Events"@) by {
        let l = c[i];
        if i == 0 {
            lemma_fits_unlike(l, 0);
            lemma_not_events(l);
        } else if i == c.len() - 1 {
            assert(l.len() == 0);
        } else {
            lemma_combo_line(i - 1, b.colors[i - 1]);
            assert(l == combo_line(i - 1, b.colors[i - 1]));
            assert(l[0] == 'C');
            lemma_fits_unlike(l, 0);
        }
    }
    assert forall|i: int| 0 <= i < h.len() implies kv_fits(#[trigger] h[i]) && section_header(h[i]) != Some("Events"@) by {
        let l = h[i];
        if i == 0 {
            lemma_fits_unlike(l, 0);
            lemma_not_events(l);
        } else {
            lemma_hitobject_line(b.hit_objects[i - 1]);
            lemma_fits_unlike(l, 0);
        }
    }
    assert forall|i: int| 0 <= i < q.len() implies kv_fits(#[trigger] q[i]) && section_header(q[i]) != Some("Events"@) by {
        if i < t.len() {
            assert(q[i] == t[i]);
        } else if i < t.len() + c.len() {
            assert(q[i] == c[i - t.len()]);
        } else {
            assert(q[i] == h[i - t.len() - c.len()]);
        }
    }
    assert(q[0] == t[0]);
    lemma_section_names();
    crate::beatmap_roundtrip::lemma_header_timing();
}

/// The lines of the text that `Beatmap::as_osz` writes for `b`, whose last
/// line is empty, without that line.
pub open spec fn osz_written_lines(b: BeatmapView) -> Seq<Seq<char>> {
    beatmap_lines(BeatmapView { events: Seq::empty(), ..b }).drop_last()
}

#[verifier::rlimit(100)]
proof fn lemma_written_lines_read(b: BeatmapView)
    requires
        beatmap_text_roundtrips(b),
        b.events.len() == 0,
    ensures
        fold_lines(beatmap_lines(b).drop_last(), initial_state(), 0) == Ok::<ParseState, (nat, Fault)>(
            ParseState { section: crate::beatmap_roundtrip::name_hitobjects(), beatmap: b },
        ),
        forall|i: int| 0 <= i < beatmap_lines(b).drop_last().len() ==> line_safe(#[trigger] beatmap_lines(b).drop_last()[i]),
{
    let ls = beatmap_lines(b);
    let dl = ls.drop_last();
    assert(ls =~= dl + seq![Seq::<char>::empty()]);
    lemma_fold_all(b);
    lemma_read_back(b);
    lemma_lines_safe(b);
    lemma_fold_concat(dl, seq![Seq::<char>::empty()], initial_state(), 0);
    reveal_with_fuel(fold_lines, 2);
    match fold_lines(dl, initial_state(), 0) {
        Ok(s2) => {
            crate::beatmap_roundtrip::lemma_blank_step(s2);
        },
        Err(_) => {},
    }
    assert forall|i: int| 0 <= i < dl.len() implies line_safe(#[trigger] dl[i]) by {
        assert(dl[i] == ls[i]);
    }
}

#[verifier::rlimit(100)]
proof fn lemma_written_lines_fit(b: BeatmapView)
    requires
        beatmap_text_roundtrips(b),
        b.events.len() == 0,
        b.audio_leadin.0 >= 0,
        b.preview_time.0 >= 0,
    ensures
        fits_all(beatmap_lines(b).drop_last(), initial_state()),
{
    let p = general_lines(b) + editor_lines(b) + metadata_lines(b) + difficulty_lines(b);
    let ev = as_osz_events();
    let q = timing_lines(b) + colour_lines(b) + hitobject_lines(b).drop_last();
    let dl = beatmap_lines(b).drop_last();
    assert(crate::beatmap::event_lines(b) =~= ev);
    assert(dl =~= p + (ev + q));
    let s0 = initial_state();
    lemma_settings_fit(b);
    crate::beatmap_lists::lemma_list_section_names();
    assert(s0.section != "Events"@);
    lemma_fits_lines(p, s0);
    lemma_fold_settings(b);
    let sd = ParseState { section: name_difficulty(), beatmap: read_settings(b) };
    let se = ParseState { section: name_events(), beatmap: read_settings(b) };
    lemma_label_literals();
    lemma_section_names();
    crate::beatmap_roundtrip::lemma_header_events();
    lemma_header_step(sd, name_events());
    assert(ev[0] == seq!['['] + name_events() + seq![']']);
    assert(ev[1] == Seq::<char>::empty());
    lemma_fits_unlike(ev[0], 0);
    assert(name_events() =~= "Events"@);
    assert(sd.section != "Events"@);
    reveal_with_fuel(fits_all, 3);
    reveal_with_fuel(fold_lines, 3);
    assert(ev.drop_first().drop_first() =~= Seq::<Seq<char>>::empty());
    assert(ev.drop_first()[0] == ev[1]);
    assert(fits_all(ev, sd));
    assert(fold_lines(ev, sd, p.len()) == Ok::<ParseState, (nat, Fault)>(se));
    lemma_lists_fit(b);
    lemma_fits_lines(q, se);
    lemma_fits_concat(ev, q, sd, p.len());
    lemma_fits_concat(p, ev + q, s0, 0);
}

/// The text that `Beatmap::as_osz` writes reads back with `Beatmap::from_osz`
/// as the beatmap without its events, when the beatmap without its events
/// reads back from its current text (see [`beatmap_text_roundtrips`]) and
/// its lead-in and preview time are not negative (the older reader reads
/// them as unsigned numbers).
#[verifier::rlimit(100)]
pub proof fn as_osz_roundtrip(b: BeatmapView)
    requires
        beatmap_text_roundtrips(BeatmapView { events: Seq::empty(), ..b }),
        b.audio_leadin.0 >= 0,
        b.preview_time.0 >= 0,
    ensures
        spec_parse_osz(spec_as_osz_text(b)) == Ok::<BeatmapView, Fault>(BeatmapView { events: Seq::empty(), ..b }),
{
    let b1 = BeatmapView { events: Seq::empty(), ..b };
    let dl = beatmap_lines(b1).drop_last();
    assert(crate::beatmap::event_lines(b1) =~= as_osz_events());
    assert(as_osz_lines(b) =~= beatmap_lines(b1));
    assert(spec_as_osz_text(b) == lines_text(dl));
    let s0 = initial_state();
    lemma_written_lines_read(b1);
    lemma_written_lines_fit(b1);
    let o0 = osz_initial();
    assert(o0.beatmap =~= without_lists(s0.beatmap));
    lemma_fold_mirrors(dl, o0, s0, 0);
    let o = osz_fold(dl, o0)->Ok_0;
    lemma_osz_run_lines(dl, 0, o0);
    assert(dl.take(0) =~= Seq::<Seq<char>>::empty());
    assert(dl.skip(0) =~= dl);
    lemma_sorted_identity(b1.timing_points, timing_keys(b1.timing_points));
    lemma_sorted_identity(b1.hit_objects, hitobject_keys(b1.hit_objects));
    assert(BeatmapView { timing_points: b1.timing_points, hit_objects: b1.hit_objects, ..o.beatmap } =~= b1);
    assert(finish(b1) =~= b1);
}

proof fn lemma_time_key_literals()
    ensures
        "AudioLeadIn"@ != "AudioFilename"@,
        "PreviewTime"@ != "AudioFilename"@,
        "PreviewTime"@ != "AudioLeadIn"@,
        "AudioLeadIn"@ != "Bookmarks"@,
        "PreviewTime"@ != "Bookmarks"@,
        "AudioLeadIn"@ != "GridSize"@,
        "PreviewTime"@ != "GridSize"@,
{
    reveal_strlit("AudioLeadIn");
    reveal_strlit("PreviewTime");
    reveal_strlit("AudioFilename");
    reveal_strlit("Bookmarks");
    reveal_strlit("GridSize");
    assert("AudioLeadIn"@.len() == 11);
    assert("PreviewTime"@.len() == 11);
    assert("AudioFilename"@.len() == 13);
    assert("Bookmarks"@.len() == 9);
    assert("GridSize"@.len() == 8);
    assert("PreviewTime"@[0] != "AudioLeadIn"@[0]);
}

/// Reading `AudioLeadIn: n` sets the lead-in to `n`, and `PreviewTime: n`
/// the preview time to `n`, each leaving every other setting as it was.
pub proof fn time_keys_set_their_times(b: BeatmapView, n: int)
    requires
        i32::MIN <= n <= i32::MAX,
    ensures
        apply_kv(b, "AudioLeadIn"@, spec_decimal(n)) == Ok::<BeatmapView, Fault>(
            BeatmapView { audio_leadin: crate::enums::Millis(n as i32), ..b },
        ),
        apply_kv(b, "PreviewTime"@, spec_decimal(n)) == Ok::<BeatmapView, Fault>(
            BeatmapView { preview_time: crate::enums::Millis(n as i32), ..b },
        ),
{
    lemma_time_key_literals();
    decimal_roundtrip(n, i32::MIN as int, i32::MAX as int);
}

/// The older readers read `AudioLeadIn: n` as the lead-in `n` and
/// `PreviewTime: n` as the preview time `n`, for every `n` from 0 to
/// `i32::MAX`, each leaving every other setting as it was.
pub proof fn older_time_keys_set_their_times(b: BeatmapView, n: int)
    requires
        0 <= n <= i32::MAX,
    ensures
        crate::beatmap_osz::plain_apply_kv(b, "AudioLeadIn"@, spec_decimal(n)) == Ok::<BeatmapView, Fault>(
            BeatmapView { audio_leadin: crate::enums::Millis(n as i32), ..b },
        ),
        crate::beatmap_osz::plain_apply_kv(b, "PreviewTime"@, spec_decimal(n)) == Ok::<BeatmapView, Fault>(
            BeatmapView { preview_time: crate::enums::Millis(n as i32), ..b },
        ),
        crate::beatmap_osz::osz_apply_kv(b, "AudioLeadIn"@, spec_decimal(n)) == Ok::<BeatmapView, Fault>(
            BeatmapView { audio_leadin: crate::enums::Millis(n as i32), ..b },
        ),
        crate::beatmap_osz::osz_apply_kv(b, "PreviewTime"@, spec_decimal(n)) == Ok::<BeatmapView, Fault>(
            BeatmapView { preview_time: crate::enums::Millis(n as i32), ..b },
        ),
{
    lemma_time_key_literals();
    decimal_roundtrip(n, 0, u32::MAX as int);
}

} // verus!
