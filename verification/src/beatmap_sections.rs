//! The sections a beatmap is written with read back as the settings they
//! were written from: the proof, line by line.

use crate::beatmap::{
    bookmarks_text, difficulty_lines, editor_lines, flag_text, general_lines, metadata_lines,
    sample_set_name, step, version_prefix, BeatmapView, DifficultyView, ParseState,
};
use crate::beatmap_roundtrip::{
    line_safe, lemma_kv_line_safe, lemma_header_line_safe, fold_lines, lemma_all_letters, lemma_apply_approach_rate, lemma_apply_artist, lemma_apply_artist_unicode, lemma_apply_audio_filename, lemma_apply_audio_lead_in, lemma_apply_beat_divisor, lemma_apply_beatmap_id, lemma_apply_beatmap_set_id, lemma_apply_circle_size, lemma_apply_countdown, lemma_apply_creator, lemma_apply_distance_spacing, lemma_apply_grid_size, lemma_apply_hp_drain_rate, lemma_apply_mode, lemma_apply_overall_difficulty, lemma_apply_preview_time, lemma_apply_sample_set, lemma_apply_slider_multiplier, lemma_apply_slider_tick_rate, lemma_apply_source, lemma_apply_stack_leniency, lemma_apply_timeline_zoom, lemma_apply_title, lemma_apply_title_unicode, lemma_apply_version, lemma_apply_widescreen_storyboard, lemma_blank_step, lemma_bookmarks_step, lemma_decimal_value, lemma_flag_value, lemma_float_value, lemma_fold_skip, lemma_header_difficulty, lemma_header_editor, lemma_header_general, lemma_header_metadata, lemma_header_step, lemma_keys_ok, lemma_kv_empty_step, lemma_kv_step, lemma_label_approach_rate, lemma_label_artist, lemma_label_artist_unicode, lemma_label_audio_filename, lemma_label_audio_lead_in, lemma_label_beat_divisor, lemma_label_beatmap_id, lemma_label_beatmap_set_id, lemma_label_bookmarks, lemma_label_circle_size, lemma_label_countdown, lemma_label_creator, lemma_label_distance_spacing, lemma_label_grid_size, lemma_label_hp_drain_rate, lemma_label_letterbox_in_breaks, lemma_label_mode, lemma_label_overall_difficulty, lemma_label_preview_time, lemma_label_sample_set, lemma_label_slider_multiplier, lemma_label_slider_tick_rate, lemma_label_source, lemma_label_stack_leniency, lemma_label_tags, lemma_label_timeline_zoom, lemma_label_title, lemma_label_title_unicode, lemma_label_version, lemma_label_widescreen_storyboard, lemma_letterbox_ignored, lemma_mode_value, lemma_plain_sections, lemma_sample_set_value, lemma_section_names, lemma_tags_step, lemma_version_label, lemma_version_line, lemma_version_section, letterbox_key, name_difficulty, name_editor, name_general, name_metadata, plain_section, spaced_value_ok, tags_ok, value_ok,
};
use crate::enums::GridSize;
use crate::errors::Fault;
use crate::text::{join_spec, spec_decimal};
use vstd::prelude::*;

verus! {

/// Line 0 of the written `[General]` section is safe to read, and reading it sets what it was written from.
pub(crate) proof fn lemma_general_line_0(b: BeatmapView, st: ParseState)
    requires
        spaced_value_ok(b.audio_filename),
        crate::text::is_float_text(b.stack_leniency),
        st.section == "Version"@,
    ensures
        line_safe(general_lines(b)[0]),
        step(st, general_lines(b)[0]) == Ok::<ParseState, Fault>(ParseState { section: st.section, beatmap: BeatmapView { version: b.version, ..st.beatmap } }),
{
    let l = general_lines(b)[0];
    lemma_version_section();
    lemma_version_label();
    lemma_version_line(b.version);
    assert(l == version_prefix() + spec_decimal(b.version as int));
}

/// Line 1 of the written `[General]` section is safe to read, and reading it sets what it was written from.
pub(crate) proof fn lemma_general_line_1(b: BeatmapView, st: ParseState)
    requires
        spaced_value_ok(b.audio_filename),
        crate::text::is_float_text(b.stack_leniency),
    ensures
        line_safe(general_lines(b)[1]),
        step(st, general_lines(b)[1]) == Ok::<ParseState, Fault>(st),
{
    let l = general_lines(b)[1];
    assert(l == Seq::<char>::empty());
    lemma_blank_step(st);
    assert(!Seq::<char>::empty().contains('\n'));
}

/// Line 2 of the written `[General]` section is safe to read, and reading it sets what it was written from.
pub(crate) proof fn lemma_general_line_2(b: BeatmapView, st: ParseState)
    requires
        spaced_value_ok(b.audio_filename),
        crate::text::is_float_text(b.stack_leniency),
    ensures
        line_safe(general_lines(b)[2]),
        step(st, general_lines(b)[2]) == Ok::<ParseState, Fault>(ParseState { section: name_general(), beatmap: st.beatmap }),
{
    let l = general_lines(b)[2];
    lemma_section_names();
    lemma_all_letters(name_general());
    lemma_header_general();
    assert(l == seq!['['] + name_general() + seq![']']);
    lemma_header_step(st, name_general());
    lemma_header_line_safe(name_general());
}

/// Line 3 of the written `[General]` section is safe to read, and reading it sets what it was written from.
pub(crate) proof fn lemma_general_line_3(b: BeatmapView, st: ParseState)
    requires
        spaced_value_ok(b.audio_filename),
        crate::text::is_float_text(b.stack_leniency),
        plain_section(st.section),
    ensures
        line_safe(general_lines(b)[3]),
        step(st, general_lines(b)[3]) == Ok::<ParseState, Fault>(ParseState { section: st.section, beatmap: BeatmapView { audio_filename: b.audio_filename, ..st.beatmap } }),
{
    let l = general_lines(b)[3];
    lemma_keys_ok();
    lemma_label_audio_filename();
    
    assert(l =~= "AudioFilename"@ + seq![':', ' '] + b.audio_filename);
    lemma_kv_step(st, "AudioFilename"@, seq![':', ' '], b.audio_filename);
    lemma_apply_audio_filename(st.beatmap, b.audio_filename);
    lemma_kv_line_safe("AudioFilename"@, seq![':', ' '], b.audio_filename);
}

/// Line 4 of the written `[General]` section is safe to read, and reading it sets what it was written from.
pub(crate) proof fn lemma_general_line_4(b: BeatmapView, st: ParseState)
    requires
        spaced_value_ok(b.audio_filename),
        crate::text::is_float_text(b.stack_leniency),
        plain_section(st.section),
    ensures
        line_safe(general_lines(b)[4]),
        step(st, general_lines(b)[4]) == Ok::<ParseState, Fault>(ParseState { section: st.section, beatmap: BeatmapView { audio_leadin: b.audio_leadin, ..st.beatmap } }),
{
    let l = general_lines(b)[4];
    lemma_keys_ok();
    lemma_label_audio_lead_in();
    lemma_decimal_value(b.audio_leadin.0 as int, i32::MIN as int, i32::MAX as int);
    assert(l =~= "AudioLeadIn"@ + seq![':', ' '] + spec_decimal(b.audio_leadin.0 as int));
    lemma_kv_step(st, "AudioLeadIn"@, seq![':', ' '], spec_decimal(b.audio_leadin.0 as int));
    lemma_apply_audio_lead_in(st.beatmap, spec_decimal(b.audio_leadin.0 as int));
    lemma_kv_line_safe("AudioLeadIn"@, seq![':', ' '], spec_decimal(b.audio_leadin.0 as int));
}

/// Line 5 of the written `[General]` section is safe to read, and reading it sets what it was written from.
pub(crate) proof fn lemma_general_line_5(b: BeatmapView, st: ParseState)
    requires
        spaced_value_ok(b.audio_filename),
        crate::text::is_float_text(b.stack_leniency),
        plain_section(st.section),
    ensures
        line_safe(general_lines(b)[5]),
        step(st, general_lines(b)[5]) == Ok::<ParseState, Fault>(ParseState { section: st.section, beatmap: BeatmapView { preview_time: b.preview_time, ..st.beatmap } }),
{
    let l = general_lines(b)[5];
    lemma_keys_ok();
    lemma_label_preview_time();
    lemma_decimal_value(b.preview_time.0 as int, i32::MIN as int, i32::MAX as int);
    assert(l =~= "PreviewTime"@ + seq![':', ' '] + spec_decimal(b.preview_time.0 as int));
    lemma_kv_step(st, "PreviewTime"@, seq![':', ' '], spec_decimal(b.preview_time.0 as int));
    lemma_apply_preview_time(st.beatmap, spec_decimal(b.preview_time.0 as int));
    lemma_kv_line_safe("PreviewTime"@, seq![':', ' '], spec_decimal(b.preview_time.0 as int));
}

/// Line 6 of the written `[General]` section is safe to read, and reading it sets what it was written from.
pub(crate) proof fn lemma_general_line_6(b: BeatmapView, st: ParseState)
    requires
        spaced_value_ok(b.audio_filename),
        crate::text::is_float_text(b.stack_leniency),
        plain_section(st.section),
    ensures
        line_safe(general_lines(b)[6]),
        step(st, general_lines(b)[6]) == Ok::<ParseState, Fault>(ParseState { section: st.section, beatmap: BeatmapView { countdown: b.countdown, ..st.beatmap } }),
{
    let l = general_lines(b)[6];
    lemma_keys_ok();
    lemma_label_countdown();
    lemma_flag_value(b.countdown);
    assert(l =~= "Countdown"@ + seq![':', ' '] + flag_text(b.countdown));
    lemma_kv_step(st, "Countdown"@, seq![':', ' '], flag_text(b.countdown));
    lemma_apply_countdown(st.beatmap, flag_text(b.countdown));
    lemma_kv_line_safe("Countdown"@, seq![':', ' '], flag_text(b.countdown));
}

/// Line 7 of the written `[General]` section is safe to read, and reading it sets what it was written from.
pub(crate) proof fn lemma_general_line_7(b: BeatmapView, st: ParseState)
    requires
        spaced_value_ok(b.audio_filename),
        crate::text::is_float_text(b.stack_leniency),
        plain_section(st.section),
    ensures
        line_safe(general_lines(b)[7]),
        step(st, general_lines(b)[7]) == Ok::<ParseState, Fault>(ParseState { section: st.section, beatmap: BeatmapView { sample_set: b.sample_set, ..st.beatmap } }),
{
    let l = general_lines(b)[7];
    lemma_keys_ok();
    lemma_label_sample_set();
    lemma_sample_set_value(b.sample_set);
    assert(l =~= "SampleSet"@ + seq![':', ' '] + sample_set_name(b.sample_set));
    lemma_kv_step(st, "SampleSet"@, seq![':', ' '], sample_set_name(b.sample_set));
    lemma_apply_sample_set(st.beatmap, sample_set_name(b.sample_set));
    lemma_kv_line_safe("SampleSet"@, seq![':', ' '], sample_set_name(b.sample_set));
}

/// Line 8 of the written `[General]` section is safe to read, and reading it sets what it was written from.
pub(crate) proof fn lemma_general_line_8(b: BeatmapView, st: ParseState)
    requires
        spaced_value_ok(b.audio_filename),
        crate::text::is_float_text(b.stack_leniency),
        plain_section(st.section),
    ensures
        line_safe(general_lines(b)[8]),
        step(st, general_lines(b)[8]) == Ok::<ParseState, Fault>(ParseState { section: st.section, beatmap: BeatmapView { stack_leniency: b.stack_leniency, ..st.beatmap } }),
{
    let l = general_lines(b)[8];
    lemma_keys_ok();
    lemma_label_stack_leniency();
    lemma_float_value(b.stack_leniency);
    assert(l =~= "StackLeniency"@ + seq![':', ' '] + b.stack_leniency);
    lemma_kv_step(st, "StackLeniency"@, seq![':', ' '], b.stack_leniency);
    lemma_apply_stack_leniency(st.beatmap, b.stack_leniency);
    lemma_kv_line_safe("StackLeniency"@, seq![':', ' '], b.stack_leniency);
}

/// Line 9 of the written `[General]` section is safe to read, and reading it sets what it was written from.
pub(crate) proof fn lemma_general_line_9(b: BeatmapView, st: ParseState)
    requires
        spaced_value_ok(b.audio_filename),
        crate::text::is_float_text(b.stack_leniency),
        plain_section(st.section),
    ensures
        line_safe(general_lines(b)[9]),
        step(st, general_lines(b)[9]) == Ok::<ParseState, Fault>(ParseState { section: st.section, beatmap: BeatmapView { mode: b.mode, ..st.beatmap } }),
{
    let l = general_lines(b)[9];
    lemma_keys_ok();
    lemma_label_mode();
    lemma_decimal_value(b.mode.spec_value() as int, 0, u8::MAX as int);
    lemma_mode_value(b.mode);
    assert(l =~= "Mode"@ + seq![':', ' '] + spec_decimal(b.mode.spec_value() as int));
    lemma_kv_step(st, "Mode"@, seq![':', ' '], spec_decimal(b.mode.spec_value() as int));
    lemma_apply_mode(st.beatmap, spec_decimal(b.mode.spec_value() as int));
    lemma_kv_line_safe("Mode"@, seq![':', ' '], spec_decimal(b.mode.spec_value() as int));
}

/// Line 10 of the written `[General]` section is safe to read, and reading it sets what it was written from.
pub(crate) proof fn lemma_general_line_10(b: BeatmapView, st: ParseState)
    requires
        spaced_value_ok(b.audio_filename),
        crate::text::is_float_text(b.stack_leniency),
        plain_section(st.section),
    ensures
        line_safe(general_lines(b)[10]),
        step(st, general_lines(b)[10]) == Ok::<ParseState, Fault>(st),
{
    let l = general_lines(b)[10];
    lemma_keys_ok();
    lemma_label_letterbox_in_breaks();
    lemma_flag_value(b.letterbox_in_breaks);
    assert(l =~= letterbox_key() + seq![':', ' '] + flag_text(b.letterbox_in_breaks));
    lemma_kv_step(st, letterbox_key(), seq![':', ' '], flag_text(b.letterbox_in_breaks));
    lemma_letterbox_ignored(st.beatmap, flag_text(b.letterbox_in_breaks));
    lemma_kv_line_safe(letterbox_key(), seq![':', ' '], flag_text(b.letterbox_in_breaks));
}

/// Line 11 of the written `[General]` section is safe to read, and reading it sets what it was written from.
pub(crate) proof fn lemma_general_line_11(b: BeatmapView, st: ParseState)
    requires
        spaced_value_ok(b.audio_filename),
        crate::text::is_float_text(b.stack_leniency),
        plain_section(st.section),
    ensures
        line_safe(general_lines(b)[11]),
        step(st, general_lines(b)[11]) == Ok::<ParseState, Fault>(ParseState { section: st.section, beatmap: BeatmapView { widescreen_storyboard: b.widescreen_storyboard, ..st.beatmap } }),
{
    let l = general_lines(b)[11];
    lemma_keys_ok();
    lemma_label_widescreen_storyboard();
    lemma_flag_value(b.widescreen_storyboard);
    assert(l =~= "WidescreenStoryboard"@ + seq![':', ' '] + flag_text(b.widescreen_storyboard));
    lemma_kv_step(st, "WidescreenStoryboard"@, seq![':', ' '], flag_text(b.widescreen_storyboard));
    lemma_apply_widescreen_storyboard(st.beatmap, flag_text(b.widescreen_storyboard));
    lemma_kv_line_safe("WidescreenStoryboard"@, seq![':', ' '], flag_text(b.widescreen_storyboard));
}

/// Line 12 of the written `[General]` section is safe to read, and reading it sets what it was written from.
pub(crate) proof fn lemma_general_line_12(b: BeatmapView, st: ParseState)
    requires
        spaced_value_ok(b.audio_filename),
        crate::text::is_float_text(b.stack_leniency),
    ensures
        line_safe(general_lines(b)[12]),
        step(st, general_lines(b)[12]) == Ok::<ParseState, Fault>(st),
{
    let l = general_lines(b)[12];
    assert(l == Seq::<char>::empty());
    lemma_blank_step(st);
    assert(!Seq::<char>::empty().contains('\n'));
}

/// Line 0 of the written `[Editor]` section is safe to read, and reading it sets what it was written from.
pub(crate) proof fn lemma_editor_line_0(b: BeatmapView, st: ParseState)
    requires
        crate::text::is_float_text(b.distance_spacing),
        crate::text::is_float_text(b.timeline_zoom),
        GridSize::is_grid_size(b.grid_size),
    ensures
        line_safe(editor_lines(b)[0]),
        step(st, editor_lines(b)[0]) == Ok::<ParseState, Fault>(ParseState { section: name_editor(), beatmap: st.beatmap }),
{
    let l = editor_lines(b)[0];
    lemma_section_names();
    lemma_all_letters(name_editor());
    lemma_header_editor();
    assert(l == seq!['['] + name_editor() + seq![']']);
    lemma_header_step(st, name_editor());
    lemma_header_line_safe(name_editor());
}

/// Line 1 of the written `[Editor]` section is safe to read, and reading it sets what it was written from.
pub(crate) proof fn lemma_editor_line_1(b: BeatmapView, st: ParseState)
    requires
        crate::text::is_float_text(b.distance_spacing),
        crate::text::is_float_text(b.timeline_zoom),
        GridSize::is_grid_size(b.grid_size),
        plain_section(st.section),
    ensures
        line_safe(editor_lines(b)[1]),
        step(st, editor_lines(b)[1]) == Ok::<ParseState, Fault>(ParseState { section: st.section, beatmap: BeatmapView { bookmarks: b.bookmarks, ..st.beatmap } }),
{
    let l = editor_lines(b)[1];
    lemma_label_bookmarks();
    lemma_bookmarks_step(st, b.bookmarks);
    assert(l =~= "Bookmarks"@ + seq![':', ' '] + bookmarks_text(b.bookmarks));
    lemma_keys_ok();
    lemma_kv_line_safe("Bookmarks"@, seq![':', ' '], bookmarks_text(b.bookmarks));
}

/// Line 2 of the written `[Editor]` section is safe to read, and reading it sets what it was written from.
pub(crate) proof fn lemma_editor_line_2(b: BeatmapView, st: ParseState)
    requires
        crate::text::is_float_text(b.distance_spacing),
        crate::text::is_float_text(b.timeline_zoom),
        GridSize::is_grid_size(b.grid_size),
        plain_section(st.section),
    ensures
        line_safe(editor_lines(b)[2]),
        step(st, editor_lines(b)[2]) == Ok::<ParseState, Fault>(ParseState { section: st.section, beatmap: BeatmapView { distance_spacing: b.distance_spacing, ..st.beatmap } }),
{
    let l = editor_lines(b)[2];
    lemma_keys_ok();
    lemma_label_distance_spacing();
    lemma_float_value(b.distance_spacing);
    assert(l =~= "DistanceSpacing"@ + seq![':', ' '] + b.distance_spacing);
    lemma_kv_step(st, "DistanceSpacing"@, seq![':', ' '], b.distance_spacing);
    lemma_apply_distance_spacing(st.beatmap, b.distance_spacing);
    lemma_kv_line_safe("DistanceSpacing"@, seq![':', ' '], b.distance_spacing);
}

/// Line 3 of the written `[Editor]` section is safe to read, and reading it sets what it was written from.
pub(crate) proof fn lemma_editor_line_3(b: BeatmapView, st: ParseState)
    requires
        crate::text::is_float_text(b.distance_spacing),
        crate::text::is_float_text(b.timeline_zoom),
        GridSize::is_grid_size(b.grid_size),
        plain_section(st.section),
    ensures
        line_safe(editor_lines(b)[3]),
        step(st, editor_lines(b)[3]) == Ok::<ParseState, Fault>(ParseState { section: st.section, beatmap: BeatmapView { beat_divisor: b.beat_divisor, ..st.beatmap } }),
{
    let l = editor_lines(b)[3];
    lemma_keys_ok();
    lemma_label_beat_divisor();
    lemma_decimal_value(b.beat_divisor as int, 0, u8::MAX as int);
    assert(l =~= "BeatDivisor"@ + seq![':', ' '] + spec_decimal(b.beat_divisor as int));
    lemma_kv_step(st, "BeatDivisor"@, seq![':', ' '], spec_decimal(b.beat_divisor as int));
    lemma_apply_beat_divisor(st.beatmap, spec_decimal(b.beat_divisor as int));
    lemma_kv_line_safe("BeatDivisor"@, seq![':', ' '], spec_decimal(b.beat_divisor as int));
}

/// Line 4 of the written `[Editor]` section is safe to read, and reading it sets what it was written from.
pub(crate) proof fn lemma_editor_line_4(b: BeatmapView, st: ParseState)
    requires
        crate::text::is_float_text(b.distance_spacing),
        crate::text::is_float_text(b.timeline_zoom),
        GridSize::is_grid_size(b.grid_size),
        plain_section(st.section),
    ensures
        line_safe(editor_lines(b)[4]),
        step(st, editor_lines(b)[4]) == Ok::<ParseState, Fault>(ParseState { section: st.section, beatmap: BeatmapView { grid_size: b.grid_size, ..st.beatmap } }),
{
    let l = editor_lines(b)[4];
    lemma_keys_ok();
    lemma_label_grid_size();
    lemma_decimal_value(b.grid_size as int, 0, u8::MAX as int);
    assert(l =~= "GridSize"@ + seq![':', ' '] + spec_decimal(b.grid_size as int));
    lemma_kv_step(st, "GridSize"@, seq![':', ' '], spec_decimal(b.grid_size as int));
    lemma_apply_grid_size(st.beatmap, spec_decimal(b.grid_size as int));
    lemma_kv_line_safe("GridSize"@, seq![':', ' '], spec_decimal(b.grid_size as int));
}

/// Line 5 of the written `[Editor]` section is safe to read, and reading it sets what it was written from.
pub(crate) proof fn lemma_editor_line_5(b: BeatmapView, st: ParseState)
    requires
        crate::text::is_float_text(b.distance_spacing),
        crate::text::is_float_text(b.timeline_zoom),
        GridSize::is_grid_size(b.grid_size),
        plain_section(st.section),
    ensures
        line_safe(editor_lines(b)[5]),
        step(st, editor_lines(b)[5]) == Ok::<ParseState, Fault>(ParseState { section: st.section, beatmap: BeatmapView { timeline_zoom: b.timeline_zoom, ..st.beatmap } }),
{
    let l = editor_lines(b)[5];
    lemma_keys_ok();
    lemma_label_timeline_zoom();
    lemma_float_value(b.timeline_zoom);
    assert(l =~= "TimelineZoom"@ + seq![':', ' '] + b.timeline_zoom);
    lemma_kv_step(st, "TimelineZoom"@, seq![':', ' '], b.timeline_zoom);
    lemma_apply_timeline_zoom(st.beatmap, b.timeline_zoom);
    lemma_kv_line_safe("TimelineZoom"@, seq![':', ' '], b.timeline_zoom);
}

/// Line 6 of the written `[Editor]` section is safe to read, and reading it sets what it was written from.
pub(crate) proof fn lemma_editor_line_6(b: BeatmapView, st: ParseState)
    requires
        crate::text::is_float_text(b.distance_spacing),
        crate::text::is_float_text(b.timeline_zoom),
        GridSize::is_grid_size(b.grid_size),
    ensures
        line_safe(editor_lines(b)[6]),
        step(st, editor_lines(b)[6]) == Ok::<ParseState, Fault>(st),
{
    let l = editor_lines(b)[6];
    assert(l == Seq::<char>::empty());
    lemma_blank_step(st);
    assert(!Seq::<char>::empty().contains('\n'));
}

/// Line 0 of the written `[Metadata]` section is safe to read, and reading it sets what it was written from.
pub(crate) proof fn lemma_metadata_line_0(b: BeatmapView, st: ParseState)
    requires
        value_ok(b.title),
        value_ok(b.title_unicode),
        value_ok(b.artist),
        value_ok(b.artist_unicode),
        value_ok(b.creator),
        value_ok(b.difficulty_name),
        value_ok(b.source),
        tags_ok(b.tags),
    ensures
        line_safe(metadata_lines(b)[0]),
        step(st, metadata_lines(b)[0]) == Ok::<ParseState, Fault>(ParseState { section: name_metadata(), beatmap: st.beatmap }),
{
    let l = metadata_lines(b)[0];
    lemma_section_names();
    lemma_all_letters(name_metadata());
    lemma_header_metadata();
    assert(l == seq!['['] + name_metadata() + seq![']']);
    lemma_header_step(st, name_metadata());
    lemma_header_line_safe(name_metadata());
}

/// Line 1 of the written `[Metadata]` section is safe to read, and reading it sets what it was written from.
pub(crate) proof fn lemma_metadata_line_1(b: BeatmapView, st: ParseState)
    requires
        value_ok(b.title),
        value_ok(b.title_unicode),
        value_ok(b.artist),
        value_ok(b.artist_unicode),
        value_ok(b.creator),
        value_ok(b.difficulty_name),
        value_ok(b.source),
        tags_ok(b.tags),
        plain_section(st.section),
        b.title.len() == 0 ==> st.beatmap.title.len() == 0,
    ensures
        line_safe(metadata_lines(b)[1]),
        step(st, metadata_lines(b)[1]) == Ok::<ParseState, Fault>(ParseState { section: st.section, beatmap: BeatmapView { title: b.title, ..st.beatmap } }),
{
    let l = metadata_lines(b)[1];
    lemma_keys_ok();
    lemma_label_title();
    if b.title.len() == 0 {
        assert(l =~= "Title"@ + seq![':']);
        lemma_kv_empty_step(st, "Title"@);
        assert(st.beatmap.title =~= b.title);
        assert(st.beatmap =~= BeatmapView { title: b.title, ..st.beatmap });
    } else {
        assert(l =~= "Title"@ + seq![':'] + b.title);
        lemma_kv_step(st, "Title"@, seq![':'], b.title);
        lemma_apply_title(st.beatmap, b.title);
    }
    lemma_kv_line_safe("Title"@, seq![':'], b.title);
}

/// Line 2 of the written `[Metadata]` section is safe to read, and reading it sets what it was written from.
pub(crate) proof fn lemma_metadata_line_2(b: BeatmapView, st: ParseState)
    requires
        value_ok(b.title),
        value_ok(b.title_unicode),
        value_ok(b.artist),
        value_ok(b.artist_unicode),
        value_ok(b.creator),
        value_ok(b.difficulty_name),
        value_ok(b.source),
        tags_ok(b.tags),
        plain_section(st.section),
        b.title_unicode.len() == 0 ==> st.beatmap.title_unicode.len() == 0,
    ensures
        line_safe(metadata_lines(b)[2]),
        step(st, metadata_lines(b)[2]) == Ok::<ParseState, Fault>(ParseState { section: st.section, beatmap: BeatmapView { title_unicode: b.title_unicode, ..st.beatmap } }),
{
    let l = metadata_lines(b)[2];
    lemma_keys_ok();
    lemma_label_title_unicode();
    if b.title_unicode.len() == 0 {
        assert(l =~= "TitleUnicode"@ + seq![':']);
        lemma_kv_empty_step(st, "TitleUnicode"@);
        assert(st.beatmap.title_unicode =~= b.title_unicode);
        assert(st.beatmap =~= BeatmapView { title_unicode: b.title_unicode, ..st.beatmap });
    } else {
        assert(l =~= "TitleUnicode"@ + seq![':'] + b.title_unicode);
        lemma_kv_step(st, "TitleUnicode"@, seq![':'], b.title_unicode);
        lemma_apply_title_unicode(st.beatmap, b.title_unicode);
    }
    lemma_kv_line_safe("TitleUnicode"@, seq![':'], b.title_unicode);
}

/// Line 3 of the written `[Metadata]` section is safe to read, and reading it sets what it was written from.
pub(crate) proof fn lemma_metadata_line_3(b: BeatmapView, st: ParseState)
    requires
        value_ok(b.title),
        value_ok(b.title_unicode),
        value_ok(b.artist),
        value_ok(b.artist_unicode),
        value_ok(b.creator),
        value_ok(b.difficulty_name),
        value_ok(b.source),
        tags_ok(b.tags),
        plain_section(st.section),
        b.artist.len() == 0 ==> st.beatmap.artist.len() == 0,
    ensures
        line_safe(metadata_lines(b)[3]),
        step(st, metadata_lines(b)[3]) == Ok::<ParseState, Fault>(ParseState { section: st.section, beatmap: BeatmapView { artist: b.artist, ..st.beatmap } }),
{
    let l = metadata_lines(b)[3];
    lemma_keys_ok();
    lemma_label_artist();
    if b.artist.len() == 0 {
        assert(l =~= "Artist"@ + seq![':']);
        lemma_kv_empty_step(st, "Artist"@);
        assert(st.beatmap.artist =~= b.artist);
        assert(st.beatmap =~= BeatmapView { artist: b.artist, ..st.beatmap });
    } else {
        assert(l =~= "Artist"@ + seq![':'] + b.artist);
        lemma_kv_step(st, "Artist"@, seq![':'], b.artist);
        lemma_apply_artist(st.beatmap, b.artist);
    }
    lemma_kv_line_safe("Artist"@, seq![':'], b.artist);
}

/// Line 4 of the written `[Metadata]` section is safe to read, and reading it sets what it was written from.
pub(crate) proof fn lemma_metadata_line_4(b: BeatmapView, st: ParseState)
    requires
        value_ok(b.title),
        value_ok(b.title_unicode),
        value_ok(b.artist),
        value_ok(b.artist_unicode),
        value_ok(b.creator),
        value_ok(b.difficulty_name),
        value_ok(b.source),
        tags_ok(b.tags),
        plain_section(st.section),
        b.artist_unicode.len() == 0 ==> st.beatmap.artist_unicode.len() == 0,
    ensures
        line_safe(metadata_lines(b)[4]),
        step(st, metadata_lines(b)[4]) == Ok::<ParseState, Fault>(ParseState { section: st.section, beatmap: BeatmapView { artist_unicode: b.artist_unicode, ..st.beatmap } }),
{
    let l = metadata_lines(b)[4];
    lemma_keys_ok();
    lemma_label_artist_unicode();
    if b.artist_unicode.len() == 0 {
        assert(l =~= "ArtistUnicode"@ + seq![':']);
        lemma_kv_empty_step(st, "ArtistUnicode"@);
        assert(st.beatmap.artist_unicode =~= b.artist_unicode);
        assert(st.beatmap =~= BeatmapView { artist_unicode: b.artist_unicode, ..st.beatmap });
    } else {
        assert(l =~= "ArtistUnicode"@ + seq![':'] + b.artist_unicode);
        lemma_kv_step(st, "ArtistUnicode"@, seq![':'], b.artist_unicode);
        lemma_apply_artist_unicode(st.beatmap, b.artist_unicode);
    }
    lemma_kv_line_safe("ArtistUnicode"@, seq![':'], b.artist_unicode);
}

/// Line 5 of the written `[Metadata]` section is safe to read, and reading it sets what it was written from.
pub(crate) proof fn lemma_metadata_line_5(b: BeatmapView, st: ParseState)
    requires
        value_ok(b.title),
        value_ok(b.title_unicode),
        value_ok(b.artist),
        value_ok(b.artist_unicode),
        value_ok(b.creator),
        value_ok(b.difficulty_name),
        value_ok(b.source),
        tags_ok(b.tags),
        plain_section(st.section),
        b.creator.len() == 0 ==> st.beatmap.creator.len() == 0,
    ensures
        line_safe(metadata_lines(b)[5]),
        step(st, metadata_lines(b)[5]) == Ok::<ParseState, Fault>(ParseState { section: st.section, beatmap: BeatmapView { creator: b.creator, ..st.beatmap } }),
{
    let l = metadata_lines(b)[5];
    lemma_keys_ok();
    lemma_label_creator();
    if b.creator.len() == 0 {
        assert(l =~= "Creator"@ + seq![':']);
        lemma_kv_empty_step(st, "Creator"@);
        assert(st.beatmap.creator =~= b.creator);
        assert(st.beatmap =~= BeatmapView { creator: b.creator, ..st.beatmap });
    } else {
        assert(l =~= "Creator"@ + seq![':'] + b.creator);
        lemma_kv_step(st, "Creator"@, seq![':'], b.creator);
        lemma_apply_creator(st.beatmap, b.creator);
    }
    lemma_kv_line_safe("Creator"@, seq![':'], b.creator);
}

/// Line 6 of the written `[Metadata]` section is safe to read, and reading it sets what it was written from.
pub(crate) proof fn lemma_metadata_line_6(b: BeatmapView, st: ParseState)
    requires
        value_ok(b.title),
        value_ok(b.title_unicode),
        value_ok(b.artist),
        value_ok(b.artist_unicode),
        value_ok(b.creator),
        value_ok(b.difficulty_name),
        value_ok(b.source),
        tags_ok(b.tags),
        plain_section(st.section),
        b.difficulty_name.len() == 0 ==> st.beatmap.difficulty_name.len() == 0,
    ensures
        line_safe(metadata_lines(b)[6]),
        step(st, metadata_lines(b)[6]) == Ok::<ParseState, Fault>(ParseState { section: st.section, beatmap: BeatmapView { difficulty_name: b.difficulty_name, ..st.beatmap } }),
{
    let l = metadata_lines(b)[6];
    lemma_keys_ok();
    lemma_label_version();
    if b.difficulty_name.len() == 0 {
        assert(l =~= "Version"@ + seq![':']);
        lemma_kv_empty_step(st, "Version"@);
        assert(st.beatmap.difficulty_name =~= b.difficulty_name);
        assert(st.beatmap =~= BeatmapView { difficulty_name: b.difficulty_name, ..st.beatmap });
    } else {
        assert(l =~= "Version"@ + seq![':'] + b.difficulty_name);
        lemma_kv_step(st, "Version"@, seq![':'], b.difficulty_name);
        lemma_apply_version(st.beatmap, b.difficulty_name);
    }
    lemma_kv_line_safe("Version"@, seq![':'], b.difficulty_name);
}

/// Line 7 of the written `[Metadata]` section is safe to read, and reading it sets what it was written from.
pub(crate) proof fn lemma_metadata_line_7(b: BeatmapView, st: ParseState)
    requires
        value_ok(b.title),
        value_ok(b.title_unicode),
        value_ok(b.artist),
        value_ok(b.artist_unicode),
        value_ok(b.creator),
        value_ok(b.difficulty_name),
        value_ok(b.source),
        tags_ok(b.tags),
        plain_section(st.section),
        b.source.len() == 0 ==> st.beatmap.source.len() == 0,
    ensures
        line_safe(metadata_lines(b)[7]),
        step(st, metadata_lines(b)[7]) == Ok::<ParseState, Fault>(ParseState { section: st.section, beatmap: BeatmapView { source: b.source, ..st.beatmap } }),
{
    let l = metadata_lines(b)[7];
    lemma_keys_ok();
    lemma_label_source();
    if b.source.len() == 0 {
        assert(l =~= "Source"@ + seq![':']);
        lemma_kv_empty_step(st, "Source"@);
        assert(st.beatmap.source =~= b.source);
        assert(st.beatmap =~= BeatmapView { source: b.source, ..st.beatmap });
    } else {
        assert(l =~= "Source"@ + seq![':'] + b.source);
        lemma_kv_step(st, "Source"@, seq![':'], b.source);
        lemma_apply_source(st.beatmap, b.source);
    }
    lemma_kv_line_safe("Source"@, seq![':'], b.source);
}

/// Line 8 of the written `[Metadata]` section is safe to read, and reading it sets what it was written from.
pub(crate) proof fn lemma_metadata_line_8(b: BeatmapView, st: ParseState)
    requires
        value_ok(b.title),
        value_ok(b.title_unicode),
        value_ok(b.artist),
        value_ok(b.artist_unicode),
        value_ok(b.creator),
        value_ok(b.difficulty_name),
        value_ok(b.source),
        tags_ok(b.tags),
        plain_section(st.section),
        b.tags.len() == 0 ==> st.beatmap.tags.len() == 0,
    ensures
        line_safe(metadata_lines(b)[8]),
        step(st, metadata_lines(b)[8]) == Ok::<ParseState, Fault>(ParseState { section: st.section, beatmap: BeatmapView { tags: b.tags, ..st.beatmap } }),
{
    let l = metadata_lines(b)[8];
    lemma_label_tags();
    lemma_tags_step(st, b.tags);
    assert(l =~= "Tags"@ + seq![':'] + join_spec(b.tags, ' '));
    lemma_keys_ok();
    if b.tags.len() == 0 {
        assert(join_spec(b.tags, ' ') =~= Seq::<char>::empty());
    }
    lemma_kv_line_safe("Tags"@, seq![':'], join_spec(b.tags, ' '));
}

/// Line 9 of the written `[Metadata]` section is safe to read, and reading it sets what it was written from.
pub(crate) proof fn lemma_metadata_line_9(b: BeatmapView, st: ParseState)
    requires
        value_ok(b.title),
        value_ok(b.title_unicode),
        value_ok(b.artist),
        value_ok(b.artist_unicode),
        value_ok(b.creator),
        value_ok(b.difficulty_name),
        value_ok(b.source),
        tags_ok(b.tags),
        plain_section(st.section),
    ensures
        line_safe(metadata_lines(b)[9]),
        step(st, metadata_lines(b)[9]) == Ok::<ParseState, Fault>(ParseState { section: st.section, beatmap: BeatmapView { beatmap_id: b.beatmap_id, ..st.beatmap } }),
{
    let l = metadata_lines(b)[9];
    lemma_keys_ok();
    lemma_label_beatmap_id();
    lemma_decimal_value(b.beatmap_id as int, i32::MIN as int, i32::MAX as int);
    assert(l =~= "BeatmapID"@ + seq![':'] + spec_decimal(b.beatmap_id as int));
    lemma_kv_step(st, "BeatmapID"@, seq![':'], spec_decimal(b.beatmap_id as int));
    lemma_apply_beatmap_id(st.beatmap, spec_decimal(b.beatmap_id as int));
    lemma_kv_line_safe("BeatmapID"@, seq![':'], spec_decimal(b.beatmap_id as int));
}

/// Line 10 of the written `[Metadata]` section is safe to read, and reading it sets what it was written from.
pub(crate) proof fn lemma_metadata_line_10(b: BeatmapView, st: ParseState)
    requires
        value_ok(b.title),
        value_ok(b.title_unicode),
        value_ok(b.artist),
        value_ok(b.artist_unicode),
        value_ok(b.creator),
        value_ok(b.difficulty_name),
        value_ok(b.source),
        tags_ok(b.tags),
        plain_section(st.section),
    ensures
        line_safe(metadata_lines(b)[10]),
        step(st, metadata_lines(b)[10]) == Ok::<ParseState, Fault>(ParseState { section: st.section, beatmap: BeatmapView { beatmap_set_id: b.beatmap_set_id, ..st.beatmap } }),
{
    let l = metadata_lines(b)[10];
    lemma_keys_ok();
    lemma_label_beatmap_set_id();
    lemma_decimal_value(b.beatmap_set_id as int, i32::MIN as int, i32::MAX as int);
    assert(l =~= "BeatmapSetID"@ + seq![':'] + spec_decimal(b.beatmap_set_id as int));
    lemma_kv_step(st, "BeatmapSetID"@, seq![':'], spec_decimal(b.beatmap_set_id as int));
    lemma_apply_beatmap_set_id(st.beatmap, spec_decimal(b.beatmap_set_id as int));
    lemma_kv_line_safe("BeatmapSetID"@, seq![':'], spec_decimal(b.beatmap_set_id as int));
}

/// Line 11 of the written `[Metadata]` section is safe to read, and reading it sets what it was written from.
pub(crate) proof fn lemma_metadata_line_11(b: BeatmapView, st: ParseState)
    requires
        value_ok(b.title),
        value_ok(b.title_unicode),
        value_ok(b.artist),
        value_ok(b.artist_unicode),
        value_ok(b.creator),
        value_ok(b.difficulty_name),
        value_ok(b.source),
        tags_ok(b.tags),
    ensures
        line_safe(metadata_lines(b)[11]),
        step(st, metadata_lines(b)[11]) == Ok::<ParseState, Fault>(st),
{
    let l = metadata_lines(b)[11];
    assert(l == Seq::<char>::empty());
    lemma_blank_step(st);
    assert(!Seq::<char>::empty().contains('\n'));
}

/// Line 0 of the written `[Difficulty]` section is safe to read, and reading it sets what it was written from.
pub(crate) proof fn lemma_difficulty_line_0(b: BeatmapView, st: ParseState)
    requires
        crate::text::is_float_text(b.difficulty.hp_drain_rate),
        crate::text::is_float_text(b.difficulty.circle_size),
        crate::text::is_float_text(b.difficulty.overall_difficulty),
        crate::text::is_float_text(b.difficulty.approach_rate),
        crate::text::is_float_text(b.difficulty.slider_multiplier),
        crate::text::is_float_text(b.difficulty.slider_tick_rate),
    ensures
        line_safe(difficulty_lines(b)[0]),
        step(st, difficulty_lines(b)[0]) == Ok::<ParseState, Fault>(ParseState { section: name_difficulty(), beatmap: st.beatmap }),
{
    let l = difficulty_lines(b)[0];
    lemma_section_names();
    lemma_all_letters(name_difficulty());
    lemma_header_difficulty();
    assert(l == seq!['['] + name_difficulty() + seq![']']);
    lemma_header_step(st, name_difficulty());
    lemma_header_line_safe(name_difficulty());
}

/// Line 1 of the written `[Difficulty]` section is safe to read, and reading it sets what it was written from.
pub(crate) proof fn lemma_difficulty_line_1(b: BeatmapView, st: ParseState)
    requires
        crate::text::is_float_text(b.difficulty.hp_drain_rate),
        crate::text::is_float_text(b.difficulty.circle_size),
        crate::text::is_float_text(b.difficulty.overall_difficulty),
        crate::text::is_float_text(b.difficulty.approach_rate),
        crate::text::is_float_text(b.difficulty.slider_multiplier),
        crate::text::is_float_text(b.difficulty.slider_tick_rate),
        plain_section(st.section),
    ensures
        line_safe(difficulty_lines(b)[1]),
        step(st, difficulty_lines(b)[1]) == Ok::<ParseState, Fault>(ParseState { section: st.section, beatmap: BeatmapView { difficulty: DifficultyView { hp_drain_rate: b.difficulty.hp_drain_rate, ..st.beatmap.difficulty }, ..st.beatmap } }),
{
    let l = difficulty_lines(b)[1];
    lemma_keys_ok();
    lemma_label_hp_drain_rate();
    lemma_float_value(b.difficulty.hp_drain_rate);
    assert(l =~= "HPDrainRate"@ + seq![':'] + b.difficulty.hp_drain_rate);
    lemma_kv_step(st, "HPDrainRate"@, seq![':'], b.difficulty.hp_drain_rate);
    lemma_apply_hp_drain_rate(st.beatmap, b.difficulty.hp_drain_rate);
    lemma_kv_line_safe("HPDrainRate"@, seq![':'], b.difficulty.hp_drain_rate);
}

/// Line 2 of the written `[Difficulty]` section is safe to read, and reading it sets what it was written from.
pub(crate) proof fn lemma_difficulty_line_2(b: BeatmapView, st: ParseState)
    requires
        crate::text::is_float_text(b.difficulty.hp_drain_rate),
        crate::text::is_float_text(b.difficulty.circle_size),
        crate::text::is_float_text(b.difficulty.overall_difficulty),
        crate::text::is_float_text(b.difficulty.approach_rate),
        crate::text::is_float_text(b.difficulty.slider_multiplier),
        crate::text::is_float_text(b.difficulty.slider_tick_rate),
        plain_section(st.section),
    ensures
        line_safe(difficulty_lines(b)[2]),
        step(st, difficulty_lines(b)[2]) == Ok::<ParseState, Fault>(ParseState { section: st.section, beatmap: BeatmapView { difficulty: DifficultyView { circle_size: b.difficulty.circle_size, ..st.beatmap.difficulty }, ..st.beatmap } }),
{
    let l = difficulty_lines(b)[2];
    lemma_keys_ok();
    lemma_label_circle_size();
    lemma_float_value(b.difficulty.circle_size);
    assert(l =~= "CircleSize"@ + seq![':'] + b.difficulty.circle_size);
    lemma_kv_step(st, "CircleSize"@, seq![':'], b.difficulty.circle_size);
    lemma_apply_circle_size(st.beatmap, b.difficulty.circle_size);
    lemma_kv_line_safe("CircleSize"@, seq![':'], b.difficulty.circle_size);
}

/// Line 3 of the written `[Difficulty]` section is safe to read, and reading it sets what it was written from.
pub(crate) proof fn lemma_difficulty_line_3(b: BeatmapView, st: ParseState)
    requires
        crate::text::is_float_text(b.difficulty.hp_drain_rate),
        crate::text::is_float_text(b.difficulty.circle_size),
        crate::text::is_float_text(b.difficulty.overall_difficulty),
        crate::text::is_float_text(b.difficulty.approach_rate),
        crate::text::is_float_text(b.difficulty.slider_multiplier),
        crate::text::is_float_text(b.difficulty.slider_tick_rate),
        plain_section(st.section),
    ensures
        line_safe(difficulty_lines(b)[3]),
        step(st, difficulty_lines(b)[3]) == Ok::<ParseState, Fault>(ParseState { section: st.section, beatmap: BeatmapView { difficulty: DifficultyView { overall_difficulty: b.difficulty.overall_difficulty, ..st.beatmap.difficulty }, ..st.beatmap } }),
{
    let l = difficulty_lines(b)[3];
    lemma_keys_ok();
    lemma_label_overall_difficulty();
    lemma_float_value(b.difficulty.overall_difficulty);
    assert(l =~= "OverallDifficulty"@ + seq![':'] + b.difficulty.overall_difficulty);
    lemma_kv_step(st, "OverallDifficulty"@, seq![':'], b.difficulty.overall_difficulty);
    lemma_apply_overall_difficulty(st.beatmap, b.difficulty.overall_difficulty);
    lemma_kv_line_safe("OverallDifficulty"@, seq![':'], b.difficulty.overall_difficulty);
}

/// Line 4 of the written `[Difficulty]` section is safe to read, and reading it sets what it was written from.
pub(crate) proof fn lemma_difficulty_line_4(b: BeatmapView, st: ParseState)
    requires
        crate::text::is_float_text(b.difficulty.hp_drain_rate),
        crate::text::is_float_text(b.difficulty.circle_size),
        crate::text::is_float_text(b.difficulty.overall_difficulty),
        crate::text::is_float_text(b.difficulty.approach_rate),
        crate::text::is_float_text(b.difficulty.slider_multiplier),
        crate::text::is_float_text(b.difficulty.slider_tick_rate),
        plain_section(st.section),
    ensures
        line_safe(difficulty_lines(b)[4]),
        step(st, difficulty_lines(b)[4]) == Ok::<ParseState, Fault>(ParseState { section: st.section, beatmap: BeatmapView { difficulty: DifficultyView { approach_rate: b.difficulty.approach_rate, ..st.beatmap.difficulty }, ..st.beatmap } }),
{
    let l = difficulty_lines(b)[4];
    lemma_keys_ok();
    lemma_label_approach_rate();
    lemma_float_value(b.difficulty.approach_rate);
    assert(l =~= "ApproachRate"@ + seq![':'] + b.difficulty.approach_rate);
    lemma_kv_step(st, "ApproachRate"@, seq![':'], b.difficulty.approach_rate);
    lemma_apply_approach_rate(st.beatmap, b.difficulty.approach_rate);
    lemma_kv_line_safe("ApproachRate"@, seq![':'], b.difficulty.approach_rate);
}

/// Line 5 of the written `[Difficulty]` section is safe to read, and reading it sets what it was written from.
pub(crate) proof fn lemma_difficulty_line_5(b: BeatmapView, st: ParseState)
    requires
        crate::text::is_float_text(b.difficulty.hp_drain_rate),
        crate::text::is_float_text(b.difficulty.circle_size),
        crate::text::is_float_text(b.difficulty.overall_difficulty),
        crate::text::is_float_text(b.difficulty.approach_rate),
        crate::text::is_float_text(b.difficulty.slider_multiplier),
        crate::text::is_float_text(b.difficulty.slider_tick_rate),
        plain_section(st.section),
    ensures
        line_safe(difficulty_lines(b)[5]),
        step(st, difficulty_lines(b)[5]) == Ok::<ParseState, Fault>(ParseState { section: st.section, beatmap: BeatmapView { difficulty: DifficultyView { slider_multiplier: b.difficulty.slider_multiplier, ..st.beatmap.difficulty }, ..st.beatmap } }),
{
    let l = difficulty_lines(b)[5];
    lemma_keys_ok();
    lemma_label_slider_multiplier();
    lemma_float_value(b.difficulty.slider_multiplier);
    assert(l =~= "SliderMultiplier"@ + seq![':'] + b.difficulty.slider_multiplier);
    lemma_kv_step(st, "SliderMultiplier"@, seq![':'], b.difficulty.slider_multiplier);
    lemma_apply_slider_multiplier(st.beatmap, b.difficulty.slider_multiplier);
    lemma_kv_line_safe("SliderMultiplier"@, seq![':'], b.difficulty.slider_multiplier);
}

/// Line 6 of the written `[Difficulty]` section is safe to read, and reading it sets what it was written from.
pub(crate) proof fn lemma_difficulty_line_6(b: BeatmapView, st: ParseState)
    requires
        crate::text::is_float_text(b.difficulty.hp_drain_rate),
        crate::text::is_float_text(b.difficulty.circle_size),
        crate::text::is_float_text(b.difficulty.overall_difficulty),
        crate::text::is_float_text(b.difficulty.approach_rate),
        crate::text::is_float_text(b.difficulty.slider_multiplier),
        crate::text::is_float_text(b.difficulty.slider_tick_rate),
        plain_section(st.section),
    ensures
        line_safe(difficulty_lines(b)[6]),
        step(st, difficulty_lines(b)[6]) == Ok::<ParseState, Fault>(ParseState { section: st.section, beatmap: BeatmapView { difficulty: DifficultyView { slider_tick_rate: b.difficulty.slider_tick_rate, ..st.beatmap.difficulty }, ..st.beatmap } }),
{
    let l = difficulty_lines(b)[6];
    lemma_keys_ok();
    lemma_label_slider_tick_rate();
    lemma_float_value(b.difficulty.slider_tick_rate);
    assert(l =~= "SliderTickRate"@ + seq![':'] + b.difficulty.slider_tick_rate);
    lemma_kv_step(st, "SliderTickRate"@, seq![':'], b.difficulty.slider_tick_rate);
    lemma_apply_slider_tick_rate(st.beatmap, b.difficulty.slider_tick_rate);
    lemma_kv_line_safe("SliderTickRate"@, seq![':'], b.difficulty.slider_tick_rate);
}

/// What the lines of `general_lines(b)` set in `b0`.
pub open spec fn general_result(b: BeatmapView, b0: BeatmapView) -> BeatmapView {
    BeatmapView { version: b.version, audio_filename: b.audio_filename, audio_leadin: b.audio_leadin, preview_time: b.preview_time, countdown: b.countdown, sample_set: b.sample_set, stack_leniency: b.stack_leniency, mode: b.mode, widescreen_storyboard: b.widescreen_storyboard, ..b0 }
}

/// Reading the lines of `general_lines(b)`.
pub(crate) proof fn lemma_fold_general(b: BeatmapView, b0: BeatmapView, ln: nat)
    requires
        spaced_value_ok(b.audio_filename),
        crate::text::is_float_text(b.stack_leniency),
    ensures
        forall|i: int| 0 <= i < general_lines(b).len() ==> line_safe(#[trigger] general_lines(b)[i]),
        fold_lines(general_lines(b), ParseState { section: "Version"@, beatmap: b0 }, ln) == Ok::<ParseState, (nat, Fault)>(
            ParseState { section: name_general(), beatmap: general_result(b, b0) },
        ),
{
    let ls = general_lines(b);
    lemma_plain_sections();
    let s0 = ParseState { section: "Version"@, beatmap: b0 };
    assert(ls.skip(0) =~= ls);
    let s1 = ParseState { section: s0.section, beatmap: BeatmapView { version: b.version, ..s0.beatmap } };
    lemma_general_line_0(b, s0);
    lemma_fold_skip(ls, 0, s0, s1, ln + 0);
    let s2 = s1;
    lemma_general_line_1(b, s1);
    lemma_fold_skip(ls, 1, s1, s2, ln + 1);
    let s3 = ParseState { section: name_general(), beatmap: s2.beatmap };
    lemma_general_line_2(b, s2);
    lemma_fold_skip(ls, 2, s2, s3, ln + 2);
    let s4 = ParseState { section: s3.section, beatmap: BeatmapView { audio_filename: b.audio_filename, ..s3.beatmap } };
    lemma_general_line_3(b, s3);
    lemma_fold_skip(ls, 3, s3, s4, ln + 3);
    let s5 = ParseState { section: s4.section, beatmap: BeatmapView { audio_leadin: b.audio_leadin, ..s4.beatmap } };
    lemma_general_line_4(b, s4);
    lemma_fold_skip(ls, 4, s4, s5, ln + 4);
    let s6 = ParseState { section: s5.section, beatmap: BeatmapView { preview_time: b.preview_time, ..s5.beatmap } };
    lemma_general_line_5(b, s5);
    lemma_fold_skip(ls, 5, s5, s6, ln + 5);
    let s7 = ParseState { section: s6.section, beatmap: BeatmapView { countdown: b.countdown, ..s6.beatmap } };
    lemma_general_line_6(b, s6);
    lemma_fold_skip(ls, 6, s6, s7, ln + 6);
    let s8 = ParseState { section: s7.section, beatmap: BeatmapView { sample_set: b.sample_set, ..s7.beatmap } };
    lemma_general_line_7(b, s7);
    lemma_fold_skip(ls, 7, s7, s8, ln + 7);
    let s9 = ParseState { section: s8.section, beatmap: BeatmapView { stack_leniency: b.stack_leniency, ..s8.beatmap } };
    lemma_general_line_8(b, s8);
    lemma_fold_skip(ls, 8, s8, s9, ln + 8);
    let s10 = ParseState { section: s9.section, beatmap: BeatmapView { mode: b.mode, ..s9.beatmap } };
    lemma_general_line_9(b, s9);
    lemma_fold_skip(ls, 9, s9, s10, ln + 9);
    let s11 = s10;
    lemma_general_line_10(b, s10);
    lemma_fold_skip(ls, 10, s10, s11, ln + 10);
    let s12 = ParseState { section: s11.section, beatmap: BeatmapView { widescreen_storyboard: b.widescreen_storyboard, ..s11.beatmap } };
    lemma_general_line_11(b, s11);
    lemma_fold_skip(ls, 11, s11, s12, ln + 11);
    let s13 = s12;
    lemma_general_line_12(b, s12);
    lemma_fold_skip(ls, 12, s12, s13, ln + 12);
    assert(ls.skip(13) =~= Seq::<Seq<char>>::empty());
    assert(s13.beatmap =~= general_result(b, b0));
    assert forall|i: int| 0 <= i < ls.len() implies line_safe(#[trigger] ls[i]) by {
        if i == 0 {
        } else if i == 1 {
        } else if i == 2 {
        } else if i == 3 {
        } else if i == 4 {
        } else if i == 5 {
        } else if i == 6 {
        } else if i == 7 {
        } else if i == 8 {
        } else if i == 9 {
        } else if i == 10 {
        } else if i == 11 {
        } else if i == 12 {
        }
    }
}

/// What the lines of `editor_lines(b)` set in `b0`.
pub open spec fn editor_result(b: BeatmapView, b0: BeatmapView) -> BeatmapView {
    BeatmapView { bookmarks: b.bookmarks, distance_spacing: b.distance_spacing, beat_divisor: b.beat_divisor, grid_size: b.grid_size, timeline_zoom: b.timeline_zoom, ..b0 }
}

/// Reading the lines of `editor_lines(b)`.
pub(crate) proof fn lemma_fold_editor(b: BeatmapView, b0: BeatmapView, ln: nat)
    requires
        crate::text::is_float_text(b.distance_spacing),
        crate::text::is_float_text(b.timeline_zoom),
        GridSize::is_grid_size(b.grid_size),
    ensures
        forall|i: int| 0 <= i < editor_lines(b).len() ==> line_safe(#[trigger] editor_lines(b)[i]),
        fold_lines(editor_lines(b), ParseState { section: name_general(), beatmap: b0 }, ln) == Ok::<ParseState, (nat, Fault)>(
            ParseState { section: name_editor(), beatmap: editor_result(b, b0) },
        ),
{
    let ls = editor_lines(b);
    lemma_plain_sections();
    let s0 = ParseState { section: name_general(), beatmap: b0 };
    assert(ls.skip(0) =~= ls);
    let s1 = ParseState { section: name_editor(), beatmap: s0.beatmap };
    lemma_editor_line_0(b, s0);
    lemma_fold_skip(ls, 0, s0, s1, ln + 0);
    let s2 = ParseState { section: s1.section, beatmap: BeatmapView { bookmarks: b.bookmarks, ..s1.beatmap } };
    lemma_editor_line_1(b, s1);
    lemma_fold_skip(ls, 1, s1, s2, ln + 1);
    let s3 = ParseState { section: s2.section, beatmap: BeatmapView { distance_spacing: b.distance_spacing, ..s2.beatmap } };
    lemma_editor_line_2(b, s2);
    lemma_fold_skip(ls, 2, s2, s3, ln + 2);
    let s4 = ParseState { section: s3.section, beatmap: BeatmapView { beat_divisor: b.beat_divisor, ..s3.beatmap } };
    lemma_editor_line_3(b, s3);
    lemma_fold_skip(ls, 3, s3, s4, ln + 3);
    let s5 = ParseState { section: s4.section, beatmap: BeatmapView { grid_size: b.grid_size, ..s4.beatmap } };
    lemma_editor_line_4(b, s4);
    lemma_fold_skip(ls, 4, s4, s5, ln + 4);
    let s6 = ParseState { section: s5.section, beatmap: BeatmapView { timeline_zoom: b.timeline_zoom, ..s5.beatmap } };
    lemma_editor_line_5(b, s5);
    lemma_fold_skip(ls, 5, s5, s6, ln + 5);
    let s7 = s6;
    lemma_editor_line_6(b, s6);
    lemma_fold_skip(ls, 6, s6, s7, ln + 6);
    assert(ls.skip(7) =~= Seq::<Seq<char>>::empty());
    assert(s7.beatmap =~= editor_result(b, b0));
    assert forall|i: int| 0 <= i < ls.len() implies line_safe(#[trigger] ls[i]) by {
        if i == 0 {
        } else if i == 1 {
        } else if i == 2 {
        } else if i == 3 {
        } else if i == 4 {
        } else if i == 5 {
        } else if i == 6 {
        }
    }
}

/// What the lines of `metadata_lines(b)` set in `b0`.
pub open spec fn metadata_result(b: BeatmapView, b0: BeatmapView) -> BeatmapView {
    BeatmapView { title: b.title, title_unicode: b.title_unicode, artist: b.artist, artist_unicode: b.artist_unicode, creator: b.creator, difficulty_name: b.difficulty_name, source: b.source, tags: b.tags, beatmap_id: b.beatmap_id, beatmap_set_id: b.beatmap_set_id, ..b0 }
}

/// Reading the lines of `metadata_lines(b)`.
pub(crate) proof fn lemma_fold_metadata(b: BeatmapView, b0: BeatmapView, ln: nat)
    requires
        value_ok(b.title),
        value_ok(b.title_unicode),
        value_ok(b.artist),
        value_ok(b.artist_unicode),
        value_ok(b.creator),
        value_ok(b.difficulty_name),
        value_ok(b.source),
        tags_ok(b.tags),
        b0.title.len() == 0,
        b0.title_unicode.len() == 0,
        b0.artist.len() == 0,
        b0.artist_unicode.len() == 0,
        b0.creator.len() == 0,
        b0.difficulty_name.len() == 0,
        b0.source.len() == 0,
        b0.tags.len() == 0,
    ensures
        forall|i: int| 0 <= i < metadata_lines(b).len() ==> line_safe(#[trigger] metadata_lines(b)[i]),
        fold_lines(metadata_lines(b), ParseState { section: name_editor(), beatmap: b0 }, ln) == Ok::<ParseState, (nat, Fault)>(
            ParseState { section: name_metadata(), beatmap: metadata_result(b, b0) },
        ),
{
    let ls = metadata_lines(b);
    lemma_plain_sections();
    let s0 = ParseState { section: name_editor(), beatmap: b0 };
    assert(ls.skip(0) =~= ls);
    let s1 = ParseState { section: name_metadata(), beatmap: s0.beatmap };
    lemma_metadata_line_0(b, s0);
    lemma_fold_skip(ls, 0, s0, s1, ln + 0);
    let s2 = ParseState { section: s1.section, beatmap: BeatmapView { title: b.title, ..s1.beatmap } };
    lemma_metadata_line_1(b, s1);
    lemma_fold_skip(ls, 1, s1, s2, ln + 1);
    let s3 = ParseState { section: s2.section, beatmap: BeatmapView { title_unicode: b.title_unicode, ..s2.beatmap } };
    lemma_metadata_line_2(b, s2);
    lemma_fold_skip(ls, 2, s2, s3, ln + 2);
    let s4 = ParseState { section: s3.section, beatmap: BeatmapView { artist: b.artist, ..s3.beatmap } };
    lemma_metadata_line_3(b, s3);
    lemma_fold_skip(ls, 3, s3, s4, ln + 3);
    let s5 = ParseState { section: s4.section, beatmap: BeatmapView { artist_unicode: b.artist_unicode, ..s4.beatmap } };
    lemma_metadata_line_4(b, s4);
    lemma_fold_skip(ls, 4, s4, s5, ln + 4);
    let s6 = ParseState { section: s5.section, beatmap: BeatmapView { creator: b.creator, ..s5.beatmap } };
    lemma_metadata_line_5(b, s5);
    lemma_fold_skip(ls, 5, s5, s6, ln + 5);
    let s7 = ParseState { section: s6.section, beatmap: BeatmapView { difficulty_name: b.difficulty_name, ..s6.beatmap } };
    lemma_metadata_line_6(b, s6);
    lemma_fold_skip(ls, 6, s6, s7, ln + 6);
    let s8 = ParseState { section: s7.section, beatmap: BeatmapView { source: b.source, ..s7.beatmap } };
    lemma_metadata_line_7(b, s7);
    lemma_fold_skip(ls, 7, s7, s8, ln + 7);
    let s9 = ParseState { section: s8.section, beatmap: BeatmapView { tags: b.tags, ..s8.beatmap } };
    lemma_metadata_line_8(b, s8);
    lemma_fold_skip(ls, 8, s8, s9, ln + 8);
    let s10 = ParseState { section: s9.section, beatmap: BeatmapView { beatmap_id: b.beatmap_id, ..s9.beatmap } };
    lemma_metadata_line_9(b, s9);
    lemma_fold_skip(ls, 9, s9, s10, ln + 9);
    let s11 = ParseState { section: s10.section, beatmap: BeatmapView { beatmap_set_id: b.beatmap_set_id, ..s10.beatmap } };
    lemma_metadata_line_10(b, s10);
    lemma_fold_skip(ls, 10, s10, s11, ln + 10);
    let s12 = s11;
    lemma_metadata_line_11(b, s11);
    lemma_fold_skip(ls, 11, s11, s12, ln + 11);
    assert(ls.skip(12) =~= Seq::<Seq<char>>::empty());
    assert(s12.beatmap =~= metadata_result(b, b0));
    assert forall|i: int| 0 <= i < ls.len() implies line_safe(#[trigger] ls[i]) by {
        if i == 0 {
        } else if i == 1 {
        } else if i == 2 {
        } else if i == 3 {
        } else if i == 4 {
        } else if i == 5 {
        } else if i == 6 {
        } else if i == 7 {
        } else if i == 8 {
        } else if i == 9 {
        } else if i == 10 {
        } else if i == 11 {
        }
    }
}

/// What the lines of `difficulty_lines(b)` set in `b0`.
pub open spec fn difficulty_result(b: BeatmapView, b0: BeatmapView) -> BeatmapView {
    BeatmapView { difficulty: b.difficulty, ..b0 }
}

/// Reading the lines of `difficulty_lines(b)`.
#[verifier::rlimit(40)]
pub(crate) proof fn lemma_fold_difficulty(b: BeatmapView, b0: BeatmapView, ln: nat)
    requires
        crate::text::is_float_text(b.difficulty.hp_drain_rate),
        crate::text::is_float_text(b.difficulty.circle_size),
        crate::text::is_float_text(b.difficulty.overall_difficulty),
        crate::text::is_float_text(b.difficulty.approach_rate),
        crate::text::is_float_text(b.difficulty.slider_multiplier),
        crate::text::is_float_text(b.difficulty.slider_tick_rate),
    ensures
        forall|i: int| 0 <= i < difficulty_lines(b).len() ==> line_safe(#[trigger] difficulty_lines(b)[i]),
        fold_lines(difficulty_lines(b), ParseState { section: name_metadata(), beatmap: b0 }, ln) == Ok::<ParseState, (nat, Fault)>(
            ParseState { section: name_difficulty(), beatmap: difficulty_result(b, b0) },
        ),
{
    let ls = difficulty_lines(b);
    lemma_plain_sections();
    let s0 = ParseState { section: name_metadata(), beatmap: b0 };
    assert(ls.skip(0) =~= ls);
    let s1 = ParseState { section: name_difficulty(), beatmap: s0.beatmap };
    lemma_difficulty_line_0(b, s0);
    lemma_fold_skip(ls, 0, s0, s1, ln + 0);
    let s2 = ParseState { section: s1.section, beatmap: BeatmapView { difficulty: DifficultyView { hp_drain_rate: b.difficulty.hp_drain_rate, ..s1.beatmap.difficulty }, ..s1.beatmap } };
    lemma_difficulty_line_1(b, s1);
    lemma_fold_skip(ls, 1, s1, s2, ln + 1);
    let s3 = ParseState { section: s2.section, beatmap: BeatmapView { difficulty: DifficultyView { circle_size: b.difficulty.circle_size, ..s2.beatmap.difficulty }, ..s2.beatmap } };
    lemma_difficulty_line_2(b, s2);
    lemma_fold_skip(ls, 2, s2, s3, ln + 2);
    let s4 = ParseState { section: s3.section, beatmap: BeatmapView { difficulty: DifficultyView { overall_difficulty: b.difficulty.overall_difficulty, ..s3.beatmap.difficulty }, ..s3.beatmap } };
    lemma_difficulty_line_3(b, s3);
    lemma_fold_skip(ls, 3, s3, s4, ln + 3);
    let s5 = ParseState { section: s4.section, beatmap: BeatmapView { difficulty: DifficultyView { approach_rate: b.difficulty.approach_rate, ..s4.beatmap.difficulty }, ..s4.beatmap } };
    lemma_difficulty_line_4(b, s4);
    lemma_fold_skip(ls, 4, s4, s5, ln + 4);
    let s6 = ParseState { section: s5.section, beatmap: BeatmapView { difficulty: DifficultyView { slider_multiplier: b.difficulty.slider_multiplier, ..s5.beatmap.difficulty }, ..s5.beatmap } };
    lemma_difficulty_line_5(b, s5);
    lemma_fold_skip(ls, 5, s5, s6, ln + 5);
    let s7 = ParseState { section: s6.section, beatmap: BeatmapView { difficulty: DifficultyView { slider_tick_rate: b.difficulty.slider_tick_rate, ..s6.beatmap.difficulty }, ..s6.beatmap } };
    lemma_difficulty_line_6(b, s6);
    lemma_fold_skip(ls, 6, s6, s7, ln + 6);
    assert(ls.skip(7) =~= Seq::<Seq<char>>::empty());
    assert(s7.beatmap =~= difficulty_result(b, b0));
    assert forall|i: int| 0 <= i < ls.len() implies line_safe(#[trigger] ls[i]) by {
        if i == 0 {
        } else if i == 1 {
        } else if i == 2 {
        } else if i == 3 {
        } else if i == 4 {
        } else if i == 5 {
        } else if i == 6 {
        }
    }
}

} // verus!
