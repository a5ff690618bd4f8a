use libosu::beatmap::Beatmap;
use libosu::beatmap_osz::DeserializeError;
use libosu::enums::Mode;
use libosu::errors::ParseError;
use libosu::events::Event;
use libosu::hitobject::{HitObjectKind, SliderSplineKind};
use libosu::hitsounds::SampleSet;
use libosu::text::{FloatErrorKind, IntErrorKind};
use libosu::timing::TimingPointKind;

const MAP: &str = "osu file format v14

[General]
AudioFilename: audio.mp3
AudioLeadIn: 0
PreviewTime: 45000
Countdown: 0
SampleSet: Soft
StackLeniency: 0.7
Mode: 0
LetterboxInBreaks: 0
WidescreenStoryboard: 1

[Editor]
Bookmarks: 1000,2000
DistanceSpacing: 1.2
BeatDivisor: 4
GridSize: 8
TimelineZoom: 2

[Metadata]
Title:Song
TitleUnicode:Song
Artist:Artist
ArtistUnicode:Artist
Creator:Mapper
Version:Hard
Source:
Tags:tag1 tag2
BeatmapID:123
BeatmapSetID:45

[Difficulty]
HPDrainRate:5
CircleSize:4
OverallDifficulty:7
ApproachRate:9
SliderMultiplier:1.4
SliderTickRate:1

[Events]
//Background and Video events
0,0,\"bg.jpg\",0,0
2,10000,12000

[TimingPoints]
500,300,4,2,0,60,1,0
100,-100,4,2,0,60,0,1

[Colours]
Combo1 : 255,0,0
Combo2 : 0,255,0

[HitObjects]
256,192,1000,5,0,0:0:0:0:
100,100,500,2,2,B|200:200|300:100,1,140,2|0,0:0|1:2,0:0:0:0:
256,192,2000,12,0,3000,0:0:0:0:
";

#[test]
fn beatmap_reads_every_section() {
    let b = Beatmap::from_str(MAP).unwrap();
    assert_eq!(b.version, 14);
    assert_eq!(b.audio_filename, "audio.mp3");
    assert_eq!(b.preview_time.0, 45000);
    assert!(!b.countdown);
    assert_eq!(b.sample_set, SampleSet::Soft);
    assert_eq!(b.stack_leniency, "0.7");
    assert_eq!(b.mode, Mode::Osu);
    assert!(!b.letterbox_in_breaks);
    assert!(b.widescreen_storyboard);
    assert_eq!(b.bookmarks, vec![1000, 2000]);
    assert_eq!(b.distance_spacing, "1.2");
    assert_eq!(b.beat_divisor, 4);
    assert_eq!(b.grid_size, 8);
    assert_eq!(b.title, "Song");
    assert_eq!(b.creator, "Mapper");
    assert_eq!(b.difficulty_name, "Hard");
    assert_eq!(b.source, "");
    assert_eq!(b.tags, vec!["tag1".to_string(), "tag2".to_string()]);
    assert_eq!(b.beatmap_id, 123);
    assert_eq!(b.beatmap_set_id, 45);
    assert_eq!(b.difficulty.slider_multiplier, "1.4");
    assert_eq!(b.difficulty.approach_rate, "9");
    assert_eq!(b.events.len(), 2);
    match &b.events[0] {
        Event::Background(bg) => {
            assert_eq!(bg.filename, "bg.jpg");
            assert_eq!(bg.offset.x, 0);
        }
        other => panic!("unexpected event {:?}", other),
    }
    match &b.events[1] {
        Event::Break(br) => {
            assert_eq!(br.start_time.0, 10000);
            assert_eq!(br.end_time.0, 12000);
        }
        other => panic!("unexpected event {:?}", other),
    }
    assert_eq!(b.colors.len(), 2);
    assert_eq!((b.colors[1].red, b.colors[1].green, b.colors[1].blue), (0, 255, 0));
}

#[test]
fn beatmap_sorts_timing_points_and_hit_objects_by_time() {
    let b = Beatmap::from_str(MAP).unwrap();
    assert_eq!(b.timing_points[0].time.0, 100);
    assert_eq!(b.timing_points[0].kind, TimingPointKind::Inherited);
    assert!(b.timing_points[0].kiai);
    assert_eq!(b.timing_points[1].time.0, 500);
    assert_eq!(b.timing_points[1].kind, TimingPointKind::Uninherited);
    let times: Vec<i32> = b.hit_objects.iter().map(|h| h.start_time.0).collect();
    assert_eq!(times, vec![500, 1000, 2000]);
    match &b.hit_objects[0].kind {
        HitObjectKind::Slider(s) => {
            assert_eq!(s.kind, SliderSplineKind::Bezier);
            assert_eq!(s.control_points.len(), 2);
            assert_eq!((s.control_points[1].x, s.control_points[1].y), (300, 100));
            assert_eq!(s.pixel_length, "140");
            assert_eq!(s.edge_additions.len(), 2);
            assert_eq!(s.edge_additions[0].bits(), 2);
            assert_eq!(s.edge_samplesets[1], (SampleSet::Normal, SampleSet::Soft));
        }
        _ => panic!("expected a slider"),
    }
    match &b.hit_objects[2].kind {
        HitObjectKind::Spinner(sp) => assert_eq!(sp.end_time.0, 3000),
        _ => panic!("expected a spinner"),
    }
    assert!(b.hit_objects[2].new_combo);
}

#[test]
fn sorting_keeps_equal_times_in_file_order() {
    let text = "[HitObjects]\n5,0,300,1,0\n1,0,100,1,0\n2,0,300,1,0\n3,0,100,1,0\n";
    let b = Beatmap::from_str(text).unwrap();
    let xs: Vec<(i32, i32)> = b.hit_objects.iter().map(|h| (h.start_time.0, h.pos.x)).collect();
    assert_eq!(xs, vec![(100, 1), (100, 3), (300, 5), (300, 2)]);
}

#[test]
fn written_beatmap_reads_back() {
    let b = Beatmap::from_str(MAP).unwrap();
    let stage1 = b.to_string();
    let b2 = Beatmap::from_str(&stage1).unwrap();
    let stage2 = b2.to_string();
    assert_eq!(stage1, stage2);
    assert_eq!(b2.title, b.title);
    assert_eq!(b2.tags, b.tags);
    assert_eq!(b2.hit_objects.len(), b.hit_objects.len());
    assert_eq!(b2.timing_points.len(), b.timing_points.len());
    assert_eq!(b2.events.len(), b.events.len());
    assert_eq!(b2.colors.len(), b.colors.len());
    assert_eq!(b2.bookmarks, b.bookmarks);
}

#[test]
fn written_beatmap_starts_with_the_version_and_general_section() {
    let b = Beatmap::from_str(MAP).unwrap();
    let text = b.to_string();
    assert!(text.starts_with("osu file format v14\n\n[General]\nAudioFilename: audio.mp3\n"));
    assert!(text.contains("\nLetterboxInBreaks: 0\n"));
    assert!(text.contains("\nCombo2 : 0,255,0\n"));
    assert!(text.ends_with("[HitObjects]\n100,100,500,2,2,B|200:200|300:100,1,140,2|0,0:0|1:2,0:0:0:0:\n256,192,1000,5,0,0:0:0:0:\n256,192,2000,12,0,3000,0:0:0:0:\n\n"));
}

#[test]
fn new_beatmap_has_its_defaults() {
    let b = Beatmap::default();
    assert_eq!(b.stack_leniency, "0.7");
    assert_eq!(b.beat_divisor, 1);
    assert_eq!(b.grid_size, 1);
    assert_eq!(b.beatmap_set_id, -1);
    assert_eq!(b.sample_set, SampleSet::Default);
    assert!(b.hit_objects.is_empty());
}

#[test]
fn written_new_beatmap_is_refused_for_its_grid_size() {
    let text = Beatmap::default().to_string();
    let err = Beatmap::from_str(&text).unwrap_err();
    assert_eq!(err.inner, ParseError::InvalidGridSize(1));
    assert_eq!(err.line, 18);
}

#[test]
fn letterboxing_is_read_with_its_own_key_only() {
    let b = Beatmap::from_str("[General]\nLetterBoxInBreaks: 1\n").unwrap();
    assert!(b.letterbox_in_breaks);
    let b = Beatmap::from_str("[General]\nLetterboxInBreaks: 1\n").unwrap();
    assert!(!b.letterbox_in_breaks);
}

#[test]
fn beatmap_errors_carry_their_line() {
    let err = Beatmap::from_str("[General]\nMode: 7\n").unwrap_err();
    assert_eq!((err.line, err.inner), (2, ParseError::InvalidGameMode(7)));
    let err = Beatmap::from_str("\n\n[General]\nSampleSet: Loud").unwrap_err();
    assert_eq!((err.line, err.inner), (4, ParseError::InvalidSampleSetString("Loud".to_string())));
    let err = Beatmap::from_str("[Editor]\nGridSize: 5\n").unwrap_err();
    assert_eq!((err.line, err.inner), (2, ParseError::InvalidGridSize(5)));
    let err = Beatmap::from_str("[General]\nAudioLeadIn: abc\n").unwrap_err();
    assert_eq!((err.line, err.inner), (2, ParseError::ParseInt(IntErrorKind::InvalidDigit)));
    let err = Beatmap::from_str("[General]\nStackLeniency: x\n").unwrap_err();
    assert_eq!((err.line, err.inner), (2, ParseError::ParseFloat(FloatErrorKind::Invalid)));
    let err = Beatmap::from_str("[Colours]\nCombo1 255,0,0\n").unwrap_err();
    assert_eq!((err.line, err.inner), (2, ParseError::MissingColorComponent));
    let err = Beatmap::from_str("osu file format v99999999999\n").unwrap_err();
    assert_eq!((err.line, err.inner), (1, ParseError::ParseInt(IntErrorKind::PosOverflow)));
    let err = Beatmap::from_str("[HitObjects]\n1,2,3,0,0\n").unwrap_err();
    assert_eq!((err.line, err.inner), (2, ParseError::InvalidObjectType(0)));
    let err = Beatmap::from_str("[Editor]\nBookmarks: 1, x\n").unwrap_err();
    assert_eq!((err.line, err.inner), (2, ParseError::ParseInt(IntErrorKind::InvalidDigit)));
}

#[test]
fn malformed_beatmap_lines_are_reported_as_such() {
    assert!(Beatmap::from_str_checked("[HitObjects]\n1,2\n").is_none());
    assert!(Beatmap::from_str_checked("[TimingPoints]\n100,300,4,9,0,60,1,0\n").is_none());
    assert!(Beatmap::from_str_checked(MAP).unwrap().is_ok());
}

#[test]
fn key_value_lines_read_their_value() {
    let b = Beatmap::from_str("[General]\r\nAudioFilename :   song.ogg\r\n[Metadata]\r\nTitle:\r\nArtist:  \r\n").unwrap();
    assert_eq!(b.audio_filename, "song.ogg");
    assert_eq!(b.title, "");
    assert_eq!(b.artist, " ");
}

#[test]
fn version_line_is_read_only_in_its_section() {
    let b = Beatmap::from_str("osu file format v9\n[General]\nosu file format v3\n").unwrap();
    assert_eq!(b.version, 9);
    let b = Beatmap::from_str("osu file format v\nosu file format v1x\n").unwrap();
    assert_eq!(b.version, 0);
}

#[test]
fn key_value_lines_apply_in_any_other_section() {
    let b = Beatmap::from_str("[Fonts]\nTitle:Hidden\nNoSuchKey: 3\n[Metadata]\nNoSuchKey:4\n").unwrap();
    assert_eq!(b.title, "Hidden");
}

#[test]
fn rosu_reads_the_written_beatmap() {
    let b = Beatmap::from_str(MAP).unwrap();
    let m = match b.convert_to_rosu_beatmap() {
        Ok(m) => m,
        Err(e) => panic!("rosu-pp refused the text: {:?}", e),
    };
    assert_eq!(m.beatmap().version, 14);
    let r = m.into_beatmap();
    assert_eq!(r.version, 14);
    assert_eq!(r.hit_objects.len(), 3);
    assert_eq!((r.n_circles, r.n_sliders, r.n_spinners), (1, 1, 1));
    assert_eq!(r.ar, 9.0);
    assert_eq!(r.od, 7.0);
    assert_eq!(r.cs, 4.0);
    assert_eq!(r.slider_mult, 1.4);
}

#[test]
fn older_layout_writes_the_settings_and_lists_only() {
    let b = Beatmap::from_str(MAP).unwrap();
    let text = b.serialize_osz().unwrap();
    let mut expected = String::from(
        "osu file format v14\n\n[General]\nAudioFilename: audio.mp3\nAudioLeadIn: 0\n\
PreviewTime: 45000\nCountdown: 0\nSampleSet: Soft\nStackLeniency: 0.7\nMode: 0\n\
LetterBoxInBreaks: 0\nWidescreenStoryboard: 1\n\n[Editor]\nBookmarks: 1000,2000\n\
DistanceSpacing: 1.2\nBeatDivisor: 4\nGridSize: 8\nTimelineZoom: 2\n\n[Metadata]\n\
Title:Song\nTitleUnicode:Song\nArtist:Artist\nArtistUnicode:Artist\nCreator:Mapper\n\
Version:Hard\nSource:\nTags:tag1 tag2\nBeatmapID:123\nBeatmapSetID:45\n\n\
[Difficulty]\n\n[Events]\n\n[TimingPoints]\n",
    );
    for tp in b.timing_points.iter() {
        expected.push_str(&tp.to_string());
        expected.push('\n');
    }
    expected.push_str("\n[Colours]\n\n[HitObjects]\n");
    for ho in b.hit_objects.iter() {
        expected.push_str(&ho.as_osz().unwrap());
        expected.push('\n');
    }
    assert_eq!(text, expected);
    assert!(text.ends_with("256,192,2000,12,0,3000,0:0:0:0:\n"));
}

#[test]
fn as_osz_writes_the_text_without_events_or_last_newline() {
    let b = Beatmap::from_str(MAP).unwrap();
    let text = b.as_osz().unwrap();
    let full = b.to_string();
    let events_start = full.find("[Events]\n").unwrap();
    let timing_start = full.find("[TimingPoints]\n").unwrap();
    let mut expected = String::from(&full[..events_start]);
    expected.push_str("[Events]\n\n");
    expected.push_str(&full[timing_start..]);
    expected.pop();
    assert_eq!(text, expected);
    assert!(text.contains("[Difficulty]\nHPDrainRate:5\nCircleSize:4\n"));
    assert!(text.contains("SliderTickRate:1\n[Events]\n\n[TimingPoints]\n"));
    assert!(text.contains("[Colours]\nCombo1 : 255,0,0\nCombo2 : 0,255,0\n\n[HitObjects]\n"));
    assert!(text.ends_with("256,192,2000,12,0,3000,0:0:0:0:\n"));
    assert!(!text.contains("bg.jpg"));
}

#[test]
fn older_reader_reads_settings_lists_and_colours_but_no_events() {
    let b = Beatmap::from_osz(MAP).unwrap();
    let c = Beatmap::from_str(MAP).unwrap();
    assert_eq!(b.version, 14);
    assert_eq!(b.title, "Song");
    assert_eq!(b.bookmarks, vec![1000, 2000]);
    assert!(b.events.is_empty());
    assert_eq!(b.colors.len(), 2);
    assert_eq!(b.timing_points.len(), 2);
    assert_eq!(b.timing_points[0].time.0, 100);
    assert_eq!(b.timing_points[1].time.0, 500);
    assert_eq!(b.hit_objects.len(), 3);
    assert_eq!(b.hit_objects[0].start_time.0, 500);
    assert_eq!(b.hit_objects[2].start_time.0, 2000);
    assert_eq!(b.as_osz().unwrap(), c.as_osz().unwrap());
}

#[test]
fn older_reader_reads_events_as_settings() {
    let b = Beatmap::from_osz("[Events]\nTitle: Odd\n0,0,\"bg.jpg\",0,0\n").unwrap();
    assert_eq!(b.title, "Odd");
    assert!(b.events.is_empty());
}

#[test]
fn older_reader_errors() {
    assert_eq!(
        Beatmap::from_osz("osu file format v14\n[General]\nMode: 7\n").unwrap_err(),
        ParseError::InvalidGameMode(7)
    );
    assert_eq!(
        Beatmap::from_osz("[General]\nAudioLeadIn: -5\n").unwrap_err(),
        ParseError::ParseInt(IntErrorKind::InvalidDigit)
    );
    assert_eq!(Beatmap::from_osz("[General]\nPreviewTime: 3000\n").unwrap().preview_time.0, 3000);
    let text = "[HitObjects]\n0,0,0,0,0\n[General]\nMode: 9\n";
    assert_eq!(Beatmap::from_osz(text).unwrap_err(), ParseError::InvalidGameMode(9));
    let err = Beatmap::from_str(text).unwrap_err();
    assert_eq!(err.line, 2);
    assert_eq!(err.inner, ParseError::InvalidObjectType(0));
    assert!(Beatmap::from_osz_checked("[Editor]\nBookmarks: 1,x\n").is_none());
    assert!(Beatmap::from_osz_checked("[Colours]\nCombo1: 1,2,3\n").is_none());
    assert!(Beatmap::from_osz_checked("[General]\nAudioLeadIn: 3000000000\n").is_none());
    assert!(Beatmap::from_osz_checked("[Colours]\nCombo1 : 1,2,3\n").unwrap().is_ok());
}

#[test]
fn oldest_reader_reads_settings_and_lists_only() {
    let b = Beatmap::deserialize_osz(MAP.to_string()).unwrap();
    let d = Beatmap::default();
    assert_eq!(b.version, 14);
    assert_eq!(b.title, "Song");
    assert_eq!(b.bookmarks, vec![1000, 2000]);
    assert_eq!(b.grid_size, 8);
    assert_eq!(b.difficulty.hp_drain_rate, d.difficulty.hp_drain_rate);
    assert_eq!(b.difficulty.slider_multiplier, d.difficulty.slider_multiplier);
    assert!(b.events.is_empty());
    assert!(b.colors.is_empty());
    assert_eq!(b.timing_points.len(), 2);
    assert_eq!(b.timing_points[0].time.0, 100);
    assert_eq!(b.hit_objects.len(), 3);
    assert_eq!(b.hit_objects[0].start_time.0, 500);
}

#[test]
fn oldest_reader_errors() {
    assert!(matches!(
        Beatmap::deserialize_osz("[General]\nMode: 1\n".to_string()),
        Err(DeserializeError::MissingVersion)
    ));
    match Beatmap::deserialize_osz("osu file format v14\n[General]\nMode: 7\n".to_string()) {
        Err(DeserializeError::Parse(e)) => assert_eq!(e, ParseError::InvalidGameMode(7)),
        _ => panic!("expected a parse error"),
    }
    let text = "osu file format v14\n[Editor]\nGridSize: 5\n";
    assert_eq!(Beatmap::deserialize_osz(text.to_string()).unwrap().grid_size, 5);
    assert_eq!(Beatmap::from_str(text).unwrap_err().inner, ParseError::InvalidGridSize(5));
    let text = "osu file format v14\n[Editor]\nBookmarks: 1000, 2000\n";
    assert!(Beatmap::deserialize_osz_checked(text.to_string()).is_none());
    assert_eq!(Beatmap::from_str(text).unwrap().bookmarks, vec![1000, 2000]);
}

#[test]
fn as_osz_text_reads_back_with_the_older_reader() {
    let b = Beatmap::from_str(MAP).unwrap();
    let text = b.as_osz().unwrap();
    let c = Beatmap::from_osz(&text).unwrap();
    assert!(c.events.is_empty());
    assert_eq!(c.title, b.title);
    assert_eq!(c.audio_leadin, b.audio_leadin);
    assert_eq!(c.preview_time, b.preview_time);
    assert_eq!(c.bookmarks, b.bookmarks);
    assert_eq!(c.colors, b.colors);
    assert_eq!(c.timing_points.len(), b.timing_points.len());
    assert_eq!(c.hit_objects.len(), b.hit_objects.len());
    assert_eq!(c.as_osz().unwrap(), text);
}
