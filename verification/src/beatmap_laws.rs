//! What holds of reading and writing beatmaps as a whole.

use crate::beatmap::{beatmap_lines, colour_lines, default_beatmap, difficulty_lines, editor_lines, event_lines, finish, general_lines, hitobject_keys, hitobject_lines, initial_state, metadata_lines, sorted_by, spec_beatmap_text, spec_parse_beatmap, timing_keys, timing_lines, BeatmapView, ParseState};
use crate::beatmap_lists::{
    event_line_ok, hitobject_line_ok, lemma_fold_colours, lemma_fold_events, lemma_fold_hitobjects,
    lemma_fold_timing,
};
use crate::beatmap_roundtrip::{fold_lines, lemma_fold_concat, lemma_run_lines, line_safe, name_difficulty, name_hitobjects, spaced_value_ok, tags_ok, value_ok};
use crate::beatmap_sections::{
    difficulty_result, editor_result, general_result, lemma_fold_difficulty, lemma_fold_editor,
    lemma_fold_general, lemma_fold_metadata, metadata_result,
};
use crate::enums::GridSize;
use crate::errors::Fault;
use crate::sorting::{is_sorted, stable_order, stable_order_of_sorted, stable_order_properties};
use crate::text::is_float_text;
use vstd::prelude::*;

verus! {

/// What the text of a beatmap needs to read back as the beatmap:
/// - letterboxing off (its line is written with the key `LetterboxInBreaks`
///   and read with the key `LetterBoxInBreaks`, so it is never read back);
/// - a grid size of 4, 8, 16 or 32 (reading refuses any other);
/// - an audio file name that is not empty and does not start with white
///   space, and other texts that are empty or do not start with white space,
///   none holding a line break;
/// - floating-point settings that are the text of floats;
/// - tags without spaces, the first not empty;
/// - events, timing points and hit objects whose lines read back as
///   themselves (see [`event_line_ok`], [`hitobject_line_ok`]);
/// - timing points and hit objects already in order of time (reading sorts
///   them).
pub open spec fn beatmap_text_roundtrips(b: BeatmapView) -> bool {
    &&& !b.letterbox_in_breaks
    &&& GridSize::is_grid_size(b.grid_size)
    &&& spaced_value_ok(b.audio_filename)
    &&& is_float_text(b.stack_leniency)
    &&& is_float_text(b.distance_spacing)
    &&& is_float_text(b.timeline_zoom)
    &&& is_float_text(b.difficulty.hp_drain_rate)
    &&& is_float_text(b.difficulty.circle_size)
    &&& is_float_text(b.difficulty.overall_difficulty)
    &&& is_float_text(b.difficulty.approach_rate)
    &&& is_float_text(b.difficulty.slider_multiplier)
    &&& is_float_text(b.difficulty.slider_tick_rate)
    &&& value_ok(b.title)
    &&& value_ok(b.title_unicode)
    &&& value_ok(b.artist)
    &&& value_ok(b.artist_unicode)
    &&& value_ok(b.creator)
    &&& value_ok(b.difficulty_name)
    &&& value_ok(b.source)
    &&& tags_ok(b.tags)
    &&& forall|i: int| 0 <= i < b.events.len() ==> event_line_ok(#[trigger] b.events[i])
    &&& forall|i: int| 0 <= i < b.timing_points.len() ==> is_float_text(#[trigger] b.timing_points[i].mpb)
    &&& forall|i: int| 0 <= i < b.hit_objects.len() ==> hitobject_line_ok(#[trigger] b.hit_objects[i])
    &&& is_sorted(timing_keys(b.timing_points))
    &&& is_sorted(hitobject_keys(b.hit_objects))
}

proof fn lemma_safe_concat(a: Seq<Seq<char>>, b: Seq<Seq<char>>)
    requires
        forall|i: int| 0 <= i < a.len() ==> line_safe(#[trigger] a[i]),
        forall|i: int| 0 <= i < b.len() ==> line_safe(#[trigger] b[i]),
    ensures
        forall|i: int| 0 <= i < (a + b).len() ==> line_safe(#[trigger] (a + b)[i]),
{
    assert forall|i: int| 0 <= i < (a + b).len() implies line_safe(#[trigger] (a + b)[i]) by {
        if i < a.len() {
            assert((a + b)[i] == a[i]);
        } else {
            assert((a + b)[i] == b[i - a.len()]);
        }
    }
}

pub(crate) proof fn lemma_sorted_identity<T>(xs: Seq<T>, keys: Seq<i32>)
    requires
        keys.len() == xs.len(),
        is_sorted(keys),
    ensures
        sorted_by(xs, keys) == xs,
{
    stable_order_of_sorted(keys, keys.len());
    assert(sorted_by(xs, keys) =~= xs);
}

/// The beatmap read from the first sections of the text of `b`, up to the
/// `[Difficulty]` section.
pub open spec fn read_settings(b: BeatmapView) -> BeatmapView {
    difficulty_result(b, metadata_result(b, editor_result(b, general_result(b, default_beatmap()))))
}

/// The beatmap read from the whole text of `b`, before sorting.
pub open spec fn read_all(b: BeatmapView) -> BeatmapView {
    let b4 = read_settings(b);
    BeatmapView {
        events: b4.events + b.events,
        timing_points: b4.timing_points + b.timing_points,
        colors: b4.colors + b.colors,
        hit_objects: b4.hit_objects + b.hit_objects,
        ..b4
    }
}

#[verifier::rlimit(40)]
pub(crate) proof fn lemma_fold_settings(b: BeatmapView)
    requires
        beatmap_text_roundtrips(b),
    ensures
        fold_lines(general_lines(b) + editor_lines(b) + metadata_lines(b) + difficulty_lines(b), initial_state(), 0)
            == Ok::<ParseState, (nat, Fault)>(ParseState { section: name_difficulty(), beatmap: read_settings(b) }),
{
    let d = default_beatmap();
    let b1 = general_result(b, d);
    let b2 = editor_result(b, b1);
    let b3 = metadata_result(b, b2);
    let g = general_lines(b);
    let e = editor_lines(b);
    let m = metadata_lines(b);
    let df = difficulty_lines(b);
    let s0 = initial_state();
    lemma_fold_general(b, d, 0);
    lemma_fold_editor(b, b1, g.len());
    lemma_fold_metadata(b, b2, (g + e).len());
    lemma_fold_difficulty(b, b3, (g + e + m).len());
    lemma_fold_concat(g, e, s0, 0);
    lemma_fold_concat(g + e, m, s0, 0);
    lemma_fold_concat(g + e + m, df, s0, 0);
}

#[verifier::rlimit(40)]
proof fn lemma_fold_lists(b: BeatmapView, ln: nat)
    requires
        beatmap_text_roundtrips(b),
    ensures
        fold_lines(event_lines(b) + timing_lines(b) + colour_lines(b) + hitobject_lines(b), ParseState {
            section: name_difficulty(),
            beatmap: read_settings(b),
        }, ln) == Ok::<ParseState, (nat, Fault)>(ParseState { section: name_hitobjects(), beatmap: read_all(b) }),
{
    let b4 = read_settings(b);
    let b5 = BeatmapView { events: b4.events + b.events, ..b4 };
    let b6 = BeatmapView { timing_points: b5.timing_points + b.timing_points, ..b5 };
    let b7 = BeatmapView { colors: b6.colors + b.colors, ..b6 };
    let ev = event_lines(b);
    let t = timing_lines(b);
    let c = colour_lines(b);
    let h = hitobject_lines(b);
    let s4 = ParseState { section: name_difficulty(), beatmap: b4 };
    lemma_fold_events(b, b4, ln);
    lemma_fold_timing(b, b5, ln + ev.len());
    lemma_fold_colours(b, b6, ln + (ev + t).len());
    lemma_fold_hitobjects(b, b7, ln + (ev + t + c).len());
    lemma_fold_concat(ev, t, s4, ln);
    lemma_fold_concat(ev + t, c, s4, ln);
    lemma_fold_concat(ev + t + c, h, s4, ln);
    assert(BeatmapView { hit_objects: b7.hit_objects + b.hit_objects, ..b7 } =~= read_all(b));
}

#[verifier::rlimit(40)]
pub(crate) proof fn lemma_lines_safe(b: BeatmapView)
    requires
        beatmap_text_roundtrips(b),
    ensures
        forall|i: int| 0 <= i < beatmap_lines(b).len() ==> line_safe(#[trigger] beatmap_lines(b)[i]),
{
    let d = default_beatmap();
    let g = general_lines(b);
    let e = editor_lines(b);
    let m = metadata_lines(b);
    let df = difficulty_lines(b);
    let ev = event_lines(b);
    let t = timing_lines(b);
    let c = colour_lines(b);
    let h = hitobject_lines(b);
    lemma_fold_general(b, d, 0);
    lemma_fold_editor(b, d, 0);
    lemma_fold_metadata(b, d, 0);
    lemma_fold_difficulty(b, d, 0);
    lemma_fold_events(b, d, 0);
    lemma_fold_timing(b, d, 0);
    lemma_fold_colours(b, d, 0);
    lemma_fold_hitobjects(b, d, 0);
    lemma_safe_concat(g, e);
    lemma_safe_concat(g + e, m);
    lemma_safe_concat(g + e + m, df);
    lemma_safe_concat(g + e + m + df, ev);
    lemma_safe_concat(g + e + m + df + ev, t);
    lemma_safe_concat(g + e + m + df + ev + t, c);
    lemma_safe_concat(g + e + m + df + ev + t + c, h);
}

pub(crate) proof fn lemma_fold_all(b: BeatmapView)
    requires
        beatmap_text_roundtrips(b),
    ensures
        fold_lines(beatmap_lines(b), initial_state(), 0) == Ok::<ParseState, (nat, Fault)>(
            ParseState { section: name_hitobjects(), beatmap: read_all(b) },
        ),
{
    let a = general_lines(b) + editor_lines(b) + metadata_lines(b) + difficulty_lines(b);
    let z = event_lines(b) + timing_lines(b) + colour_lines(b) + hitobject_lines(b);
    assert(beatmap_lines(b) =~= a + z);
    lemma_fold_settings(b);
    lemma_fold_lists(b, a.len());
    lemma_fold_concat(a, z, initial_state(), 0);
}

pub(crate) proof fn lemma_read_back(b: BeatmapView)
    requires
        beatmap_text_roundtrips(b),
    ensures
        read_all(b) == b,
{
    let r = read_all(b);
    assert(r.events =~= b.events);
    assert(r.timing_points =~= b.timing_points);
    assert(r.colors =~= b.colors);
    assert(r.hit_objects =~= b.hit_objects);
    assert(r.difficulty =~= b.difficulty);
    assert(r =~= b);
}

/// The text a beatmap is written as reads back as the beatmap, under the
/// conditions of [`beatmap_text_roundtrips`].
pub proof fn beatmap_roundtrip(b: BeatmapView)
    requires
        beatmap_text_roundtrips(b),
    ensures
        spec_parse_beatmap(spec_beatmap_text(b)) == Ok::<BeatmapView, (nat, Fault)>(b),
{
    let ls = beatmap_lines(b);
    lemma_fold_all(b);
    lemma_lines_safe(b);
    lemma_read_back(b);
    lemma_run_lines(ls, 0, initial_state(), 0);
    assert(ls.take(0) =~= Seq::<Seq<char>>::empty());
    assert(ls.skip(0) =~= ls);
    lemma_sorted_identity(b.timing_points, timing_keys(b.timing_points));
    lemma_sorted_identity(b.hit_objects, hitobject_keys(b.hit_objects));
    assert(finish(b) =~= b);
}

/// A beatmap that is read has its timing points and its hit objects in order
/// of time, keeping the order of the file among those with equal times.
pub proof fn parsed_lists_sorted(s: Seq<char>)
    requires
        spec_parse_beatmap(s) is Ok,
    ensures
        is_sorted(timing_keys(spec_parse_beatmap(s)->Ok_0.timing_points)),
        is_sorted(hitobject_keys(spec_parse_beatmap(s)->Ok_0.hit_objects)),
{
    let b = spec_parse_beatmap(s)->Ok_0;
    let raw = match crate::beatmap::run(s, 0, initial_state(), 0) {
        Ok(st) => st.beatmap,
        Err(_) => default_beatmap(),
    };
    let tk = timing_keys(raw.timing_points);
    let hk = hitobject_keys(raw.hit_objects);
    stable_order_properties(tk, tk.len());
    stable_order_properties(hk, hk.len());
    let to = stable_order(tk, tk.len());
    let ho = stable_order(hk, hk.len());
    assert(timing_keys(b.timing_points) =~= crate::sorting::keys_at(tk, to));
    assert(hitobject_keys(b.hit_objects) =~= crate::sorting::keys_at(hk, ho));
}

} // verus!
