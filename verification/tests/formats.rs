use libosu::api::RankStatus;
use libosu::db::Db;
use libosu::enums::{Grade, GridSize, Mode, Mods, RankedStatus};
use libosu::hitsounds::SampleSet;
use libosu::replay::{Replay, ReplayError};
use std::io::Write;

fn push_string(out: &mut Vec<u8>, s: &str) {
    out.push(0x0b);
    out.push(s.len() as u8);
    out.extend_from_slice(s.as_bytes());
}

fn lzma(data: &[u8]) -> Vec<u8> {
    let opts = xz2::stream::LzmaOptions::new_preset(6).unwrap();
    let stream = xz2::stream::Stream::new_lzma_encoder(&opts).unwrap();
    let mut enc = xz2::write::XzEncoder::new_stream(Vec::new(), stream);
    enc.write_all(data).unwrap();
    enc.finish().unwrap()
}

fn replay_bytes(mode: u8, mods: u32, actions: &[u8], score_id: u64) -> Vec<u8> {
    replay_with_stream(mode, mods, &lzma(actions), score_id)
}

fn replay_with_stream(mode: u8, mods: u32, compressed: &[u8], score_id: u64) -> Vec<u8> {
    let mut out = vec![mode];
    out.extend_from_slice(&20200304u32.to_le_bytes());
    push_string(&mut out, "4190b795c2847f9eae06a0651493d6e2");
    push_string(&mut out, "FGSky");
    push_string(&mut out, "e8983dbdb53360e5d19cbe5de5de49a7");
    for count in [330u16, 24, 0, 87, 21, 0] {
        out.extend_from_slice(&count.to_le_bytes());
    }
    out.extend_from_slice(&7756117u32.to_le_bytes());
    out.extend_from_slice(&527u16.to_le_bytes());
    out.push(0);
    out.extend_from_slice(&mods.to_le_bytes());
    push_string(&mut out, "");
    out.extend_from_slice(&637441288088683788u64.to_le_bytes());
    out.extend_from_slice(&(compressed.len() as u32).to_le_bytes());
    out.extend_from_slice(compressed);
    out.extend_from_slice(&score_id.to_le_bytes());
    out
}

#[test]
fn replay_reads_header_actions_and_tail() {
    let data = replay_bytes(0, 24, b"1|32.1|300.734|0,-12345|0|0|734243", 3017707256);
    let replay = match Replay::parse_checked(&data) {
        Some(Ok(r)) => r,
        _ => panic!("the replay is well formed"),
    };
    assert_eq!(replay.mode, Mode::Osu);
    assert_eq!(replay.version, 20200304);
    assert_eq!(replay.beatmap_hash, "4190b795c2847f9eae06a0651493d6e2");
    assert_eq!(replay.player_username, "FGSky");
    assert_eq!(replay.count_300, 330);
    assert_eq!(replay.count_100, 24);
    assert_eq!(replay.count_geki, 87);
    assert_eq!(replay.count_katu, 21);
    assert_eq!(replay.score, 7756117);
    assert_eq!(replay.max_combo, 527);
    assert!(!replay.perfect);
    assert_eq!(replay.mods, 24);
    assert_eq!(replay.actions.len(), 2);
    assert_eq!(replay.actions[1].time, -12345);
    assert_eq!(replay.actions[1].buttons, 734243);
    assert_eq!(replay.score_id, 3017707256);
    assert_eq!(replay.target_practice_total_accuracy, None);

    let skipped = Replay::parse_skip_actions(&data).unwrap();
    assert!(skipped.actions.is_empty());
    assert_eq!(skipped.score_id, 3017707256);
}

#[test]
fn replay_with_target_practice_reads_the_accuracy_bits() {
    let mut data = replay_bytes(0, 0x80_0000, b"", 7);
    data.extend_from_slice(&0.75f64.to_bits().to_le_bytes());
    let replay = Replay::parse_skip_actions(&data).unwrap();
    assert_eq!(replay.score_id, 7);
    assert_eq!(
        replay.target_practice_total_accuracy.map(f64::from_bits),
        Some(0.75)
    );
}

#[test]
fn replay_errors() {
    let data = replay_bytes(4, 0, b"", 0);
    assert!(matches!(Replay::parse_checked(&data), Some(Err(ReplayError::UnknownGameMode(4)))));
    let stream = lzma(b"1|2|3|4");
    let broken = replay_with_stream(0, 0, &stream[..stream.len() / 2], 0);
    assert!(matches!(Replay::parse_checked(&broken), Some(Err(ReplayError::Decompress))));
    assert!(matches!(Replay::parse_skip_actions(&[0u8, 1, 2]), Err(ReplayError::Read(_))));
}

#[test]
fn empty_database_reads_its_header() {
    let mut data = Vec::new();
    data.extend_from_slice(&20201210u32.to_le_bytes());
    data.extend_from_slice(&62u32.to_le_bytes());
    data.push(1);
    data.extend_from_slice(&637441288088683788u64.to_le_bytes());
    push_string(&mut data, "vernonlim");
    data.extend_from_slice(&0u32.to_le_bytes());
    data.push(3);
    let db = Db::parse(&data).unwrap();
    assert_eq!(db.version, 20201210);
    assert_eq!(db.folder_count, 62);
    assert!(db.account_unlocked);
    assert_eq!(db.unlocked_date, 637441288088683788);
    assert_eq!(db.player_name, "vernonlim");
    assert_eq!(db.beatmap_count, 0);
    assert!(db.beatmaps.is_empty());
    assert_eq!(db.permissions, 3);
}

#[test]
fn mod_bits() {
    assert_eq!(Mods::none().bits(), 0);
    assert_eq!(Mods::no_fail().bits(), 1);
    assert_eq!(Mods::hidden().bits(), 8);
    assert_eq!(Mods::double_time().bits(), 64);
    assert_eq!(Mods::nightcore().bits(), 512);
    assert_eq!(Mods::flashlight().bits(), 1024);
    assert_eq!(Mods::target_practice().bits(), 8388608);
    assert_eq!(Mods::key2().bits(), 268435456);
    assert_eq!(Mods::key_mod().bits(), 1015808);
    assert_eq!(Mods::free_mod_allowed().bits(), 2077883);
    let hddt = Mods::hidden().union(Mods::double_time());
    assert_eq!(hddt.bits(), 72);
    assert!(hddt.contains(Mods::hidden()));
    assert!(!hddt.contains(Mods::hidden().union(Mods::hard_rock())));
    assert!(hddt.intersects(Mods::hidden().union(Mods::hard_rock())));
    assert!(!hddt.intersects(Mods::easy()));
    assert_eq!(Mods::from_bits(0x2000_0000), None);
    assert_eq!(Mods::from_bits(72), Some(hddt));
}

#[test]
fn numbers_read_back_as_their_values() {
    for m in [Mode::Osu, Mode::Taiko, Mode::Catch, Mode::Mania] {
        assert_eq!(Mode::from_u8(m.value()), Some(m));
    }
    for r in [RankedStatus::Unknown, RankedStatus::Ranked, RankedStatus::Loved] {
        assert_eq!(RankedStatus::from_u8(r.value()), Some(r));
    }
    for g in [Grade::SS, Grade::SH, Grade::A, Grade::F] {
        assert_eq!(Grade::from_u8(g.value()), Some(g));
    }
    for g in [GridSize::Tiny, GridSize::Small, GridSize::Medium, GridSize::Large] {
        assert_eq!(GridSize::from_u8(g.value()), Some(g));
    }
    for s in [SampleSet::Default, SampleSet::Normal, SampleSet::Soft, SampleSet::Drum] {
        assert_eq!(SampleSet::from_u32(s.value()), Some(s));
    }
    for s in [RankStatus::Graveyard, RankStatus::Pending, RankStatus::Loved] {
        assert_eq!(RankStatus::from_value(s.value()), Some(s));
    }
    assert_eq!(Grade::from_u8(10), None);
    assert_eq!(RankedStatus::from_u8(8), None);
}

fn push_u32(out: &mut Vec<u8>, v: u32) {
    out.extend_from_slice(&v.to_le_bytes());
}

fn cached_beatmap(out: &mut Vec<u8>) {
    cached_beatmap_of(out, 20201210);
}

fn cached_beatmap_of(out: &mut Vec<u8>, version: u32) {
    if version < 20191106 {
        push_u32(out, 1234);
    }
    for s in ["Drop", "Drop", "TRICK or TREAT", "TRICK or TREAT", "vernonlim", "Hard", "audio.mp3", "0123456789abcdef", "map.osu"] {
        push_string(out, s);
    }
    out.push(4); // ranked
    for c in [566u16, 147, 1] {
        out.extend_from_slice(&c.to_le_bytes());
    }
    out.extend_from_slice(&637441576105762815u64.to_le_bytes());
    for f in [9.0f32, 4.0, 5.0, 8.0] {
        push_u32(out, f.to_bits());
    }
    out.extend_from_slice(&1.4f64.to_bits().to_le_bytes());
    if version >= 20140609 {
        // osu!standard star ratings: one entry
        push_u32(out, 1);
        out.push(0x08);
        push_u32(out, 72);
        out.push(0x0D);
        out.extend_from_slice(&5.5f64.to_bits().to_le_bytes());
        for _ in 0..3 {
            push_u32(out, 0);
        }
    }
    out.extend_from_slice(&93i32.to_le_bytes()); // drain time in seconds
    out.extend_from_slice(&34109i32.to_le_bytes());
    out.extend_from_slice(&9203i32.to_le_bytes());
    // one timing point
    push_u32(out, 1);
    out.extend_from_slice(&300.0f64.to_bits().to_le_bytes());
    out.extend_from_slice(&10335.0f64.to_bits().to_le_bytes());
    out.push(1);
    push_u32(out, 1989137);
    push_u32(out, 952626);
    push_u32(out, 0);
    out.extend_from_slice(&[0, 9, 9, 9]); // grades
    out.extend_from_slice(&0u16.to_le_bytes());
    push_u32(out, 0.7f32.to_bits());
    out.push(0); // mode
    push_string(out, "");
    push_string(out, "tag1 tag2");
    out.extend_from_slice(&0u16.to_le_bytes());
    push_string(out, "");
    out.push(1);
    out.extend_from_slice(&0u64.to_le_bytes());
    out.push(0);
    push_string(out, "folder");
    out.extend_from_slice(&5u64.to_le_bytes());
    out.extend_from_slice(&[0, 1, 0, 0, 0]);
    if version < 20140609 {
        out.extend_from_slice(&9u16.to_le_bytes());
    }
    push_u32(out, 77);
    out.push(12);
}

fn database_of(version: u32) -> Vec<u8> {
    let mut data = Vec::new();
    push_u32(&mut data, version);
    push_u32(&mut data, 1);
    data.push(0);
    data.extend_from_slice(&0u64.to_le_bytes());
    push_string(&mut data, "player");
    push_u32(&mut data, 1);
    cached_beatmap_of(&mut data, version);
    data.push(4);
    data
}

#[test]
fn old_databases_have_no_star_ratings_and_keep_size_and_unknown() {
    let db = Db::parse(&database_of(20140000)).unwrap();
    let b = &db.beatmaps[0];
    assert_eq!(b.size, Some(1234));
    assert!(b.std_star_rating.is_empty());
    assert!(b.std_taiko_rating.is_empty());
    assert!(b.std_ctb_rating.is_empty());
    assert!(b.std_mania_rating.is_empty());
    assert_eq!(b.drain_time.0, 93000);
    assert_eq!(b.unknown, Some(9));
    assert_eq!(b.unknown_modification_date, 77);
    assert_eq!(b.mania_scrollspeed, 12);
    assert_eq!(db.permissions, 4);

    let db = Db::parse(&database_of(20150000)).unwrap();
    let b = &db.beatmaps[0];
    assert_eq!(b.size, Some(1234));
    assert_eq!(b.std_star_rating.len(), 1);
    assert_eq!(b.unknown, None);
    assert_eq!(db.permissions, 4);
}

#[test]
fn database_reads_a_cached_beatmap() {
    let mut data = Vec::new();
    push_u32(&mut data, 20201210);
    push_u32(&mut data, 62);
    data.push(1);
    data.extend_from_slice(&0u64.to_le_bytes());
    push_string(&mut data, "vernonlim");
    push_u32(&mut data, 1);
    cached_beatmap(&mut data);
    data.push(0);
    let db = match Db::parse_checked(&data) {
        Some(Ok(db)) => db,
        _ => panic!("the database is well formed"),
    };
    assert_eq!(db.beatmaps.len(), 1);
    let b = &db.beatmaps[0];
    assert_eq!(b.size, None);
    assert_eq!(b.artist_name, "Drop");
    assert_eq!(b.song_title, "TRICK or TREAT");
    assert_eq!(b.creator_name, "vernonlim");
    assert_eq!(b.beatmap_file_name, "map.osu");
    assert_eq!(b.ranked_status, RankedStatus::Ranked);
    assert_eq!((b.hitcircle_count, b.slider_count, b.spinner_count), (566, 147, 1));
    assert_eq!(f32::from_bits(b.approach_rate_bits), 9.0);
    assert_eq!(f64::from_bits(b.slider_velocity_bits), 1.4);
    assert_eq!(b.std_star_rating.len(), 1);
    assert_eq!(b.std_star_rating[0].0.bits(), 72);
    assert_eq!(f64::from_bits(b.std_star_rating[0].1), 5.5);
    assert!(b.std_mania_rating.is_empty());
    assert_eq!(b.drain_time.0, 93000);
    assert_eq!(b.total_time.0, 34109);
    assert_eq!(b.preview_time.0, 9203);
    assert_eq!(b.timing_points.len(), 1);
    assert_eq!(f64::from_bits(b.timing_points[0].offset_bits), 10335.0);
    assert!(b.timing_points[0].is_uninherited);
    assert_eq!(b.beatmap_id, 1989137);
    assert_eq!(b.beatmap_set_id, 952626);
    assert_eq!(b.std_grade, Grade::SS);
    assert_eq!(b.taiko_grade, Grade::NoGrade);
    assert_eq!(b.mode, Mode::Osu);
    assert_eq!(b.tags, "tag1 tag2");
    assert!(b.is_unplayed);
    assert!(!b.is_osz2);
    assert_eq!(b.folder_name, "folder");
    assert_eq!(b.last_checked, 5);
    assert!(b.ignore_beatmap_skin);
    assert!(!b.ignore_beatmap_sounds);
    assert_eq!(b.unknown, None);
    assert_eq!(b.unknown_modification_date, 77);
    assert_eq!(b.mania_scrollspeed, 12);
    assert_eq!(db.permissions, 0);
}

#[test]
fn database_errors() {
    let mut data = Vec::new();
    push_u32(&mut data, 20201210);
    push_u32(&mut data, 62);
    data.push(1);
    data.extend_from_slice(&0u64.to_le_bytes());
    push_string(&mut data, "vernonlim");
    push_u32(&mut data, 1);
    let mut entry = Vec::new();
    cached_beatmap(&mut entry);
    // a ranked status byte beyond the statuses is malformed; it follows
    // nine strings of 99 bytes in all
    let ranked_at = 99;
    let mut bad = data.clone();
    let mut bad_entry = entry.clone();
    bad_entry[ranked_at] = 8;
    bad.extend_from_slice(&bad_entry);
    bad.push(0);
    assert!(Db::parse_checked(&bad).is_none());
    // input that ends inside a field
    let mut short = data.clone();
    short.extend_from_slice(&entry[..entry.len() - 1]);
    assert!(matches!(Db::parse_checked(&short), Some(Err(_))));
}
