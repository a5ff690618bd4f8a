use libosu::color::{color_str, parse_color, Color};
use libosu::errors::ParseError;
use libosu::events::{BackgroundEvent, Event};
use libosu::hitobject::{HitObject, HitObjectKind, SliderSplineKind};
use libosu::hitsounds::{hitsample_str, parse_hitsample, parse_hitsample_checked, Additions, SampleSet};
use libosu::math::Point;
use libosu::text::{FloatErrorKind, IntErrorKind};
use libosu::timing::{TimingPoint, TimingPointKind};

#[test]
fn timing_point_line_reads_and_writes_back() {
    let line = "100,-100,4,2,0,60,0,1";
    let tp = TimingPoint::from_str(line).unwrap();
    assert_eq!(tp.time.0, 100);
    assert_eq!(tp.mpb, "-100");
    assert_eq!(tp.meter, 4);
    assert_eq!(tp.sample_set, SampleSet::Soft);
    assert_eq!(tp.volume, 60);
    assert_eq!(tp.kind, TimingPointKind::Inherited);
    assert!(tp.kiai);
    assert_eq!(tp.to_string(), line);
    let again = TimingPoint::from_str(&tp.to_string()).unwrap();
    assert_eq!(again.to_string(), line);
}

#[test]
fn timing_point_flags_are_normalised_when_written() {
    let tp = TimingPoint::from_str("0,333.33,3,1,2,100,7,5").unwrap();
    assert_eq!(tp.kind, TimingPointKind::Uninherited);
    assert!(tp.kiai);
    assert_eq!(tp.to_string(), "0,333.33,3,1,2,100,1,1");
}

#[test]
fn timing_point_errors() {
    assert_eq!(TimingPoint::from_str("x,1,4,1,0,50,1,0").unwrap_err(), ParseError::ParseInt(IntErrorKind::InvalidDigit));
    assert_eq!(TimingPoint::from_str("0,abc,4,1,0,50,1,0").unwrap_err(), ParseError::ParseFloat(FloatErrorKind::Invalid));
    assert_eq!(TimingPoint::from_str("0,,4,1,0,50,1,0").unwrap_err(), ParseError::ParseFloat(FloatErrorKind::Empty));
    assert_eq!(TimingPoint::from_str("0,1,4,1,0,70000,1,0").unwrap_err(), ParseError::ParseInt(IntErrorKind::PosOverflow));
    assert!(TimingPoint::from_str_checked("0,1,4,1,0,50").is_none());
    assert!(TimingPoint::from_str_checked("0,1,4,4,0,50,1,0").is_none());
    assert!(TimingPoint::from_str_checked("0,1e3,4,1,0,50,1,0").unwrap().is_ok());
    assert!(TimingPoint::from_str_checked("0,-inf,4,1,0,50,1,0").unwrap().is_ok());
}

#[test]
fn circle_line_reads_and_writes_back() {
    let line = "256,192,1000,5,2,1:2:3:70:kick.wav";
    let h = HitObject::from_osz(line).unwrap();
    assert_eq!((h.pos.x, h.pos.y), (256, 192));
    assert_eq!(h.start_time.0, 1000);
    assert!(h.new_combo);
    assert_eq!(h.skip_color, 0);
    assert_eq!(h.additions.bits(), 2);
    assert!(matches!(h.kind, HitObjectKind::Circle));
    assert_eq!(h.sample_info.sample_set, SampleSet::Normal);
    assert_eq!(h.sample_info.addition_set, SampleSet::Soft);
    assert_eq!(h.sample_info.custom_index, 3);
    assert_eq!(h.sample_info.sample_volume, 70);
    assert_eq!(h.sample_info.filename, "kick.wav");
    assert_eq!(h.as_osz().unwrap(), line);
}

#[test]
fn circle_without_hit_sample_gets_the_default_one() {
    let h = HitObject::from_osz("1,2,3,1,0").unwrap();
    assert_eq!(h.sample_info.sample_set, SampleSet::Default);
    assert_eq!(h.sample_info.filename, "");
    assert_eq!(h.as_osz().unwrap(), "1,2,3,1,0,0:0:0:0:");
}

#[test]
fn slider_line_reads_and_writes_back() {
    let line = "100,100,500,6,0,P|150:200|300:100,2,240.5,2|0|8,0:0|1:2|3:3,0:0:0:0:";
    let h = HitObject::from_osz(line).unwrap();
    match &h.kind {
        HitObjectKind::Slider(s) => {
            assert_eq!(s.kind, SliderSplineKind::Perfect);
            assert_eq!(s.num_repeats, 2);
            assert_eq!(s.pixel_length, "240.5");
            assert_eq!(s.control_points, vec![Point { x: 150, y: 200 }, Point { x: 300, y: 100 }]);
            assert_eq!(s.edge_additions.len(), 3);
            assert_eq!(s.edge_additions[2].bits(), 8);
            assert_eq!(s.edge_samplesets, vec![(SampleSet::Default, SampleSet::Default), (SampleSet::Normal, SampleSet::Soft), (SampleSet::Drum, SampleSet::Drum)]);
        }
        _ => panic!("expected a slider"),
    }
    assert!(h.new_combo);
    assert_eq!(h.as_osz().unwrap(), line);
}

#[test]
fn slider_without_edges_gets_one_default_edge() {
    let h = HitObject::from_osz("0,0,0,2,0,L|10:10,1,50").unwrap();
    match &h.kind {
        HitObjectKind::Slider(s) => {
            assert_eq!(s.edge_additions.len(), 1);
            assert_eq!(s.edge_additions[0].bits(), 0);
            assert_eq!(s.edge_samplesets, vec![(SampleSet::Default, SampleSet::Default)]);
        }
        _ => panic!("expected a slider"),
    }
    assert_eq!(h.as_osz().unwrap(), "0,0,0,2,0,L|10:10,1,50,0,0:0,0:0:0:0:");
}

#[test]
fn spinner_line_reads_and_writes_back() {
    let line = "256,192,2000,12,4,3000,0:0:0:0:";
    let h = HitObject::from_osz(line).unwrap();
    match &h.kind {
        HitObjectKind::Spinner(sp) => assert_eq!(sp.end_time.0, 3000),
        _ => panic!("expected a spinner"),
    }
    assert_eq!(h.additions.bits(), 4);
    assert_eq!(h.as_osz().unwrap(), line);
}

#[test]
fn colours_to_skip_are_kept_in_the_type_bits() {
    let h = HitObject::from_osz("0,0,0,37,0").unwrap();
    assert_eq!(h.skip_color, 2);
    assert!(h.new_combo);
    assert_eq!(h.obj_type(), 37);
    assert_eq!(h.as_osz().unwrap(), "0,0,0,37,0,0:0:0:0:");
    let back = HitObject::from_osz(&h.as_osz().unwrap()).unwrap();
    assert_eq!(back.skip_color, 2);
    assert!(back.new_combo);
}

#[test]
fn read_object_writes_back_as_itself() {
    let h = HitObject::from_osz("256,192,1000,101,2").unwrap();
    assert_eq!((h.pos.x, h.pos.y), (256, 192));
    assert_eq!(h.start_time.0, 1000);
    assert!(matches!(h.kind, HitObjectKind::Circle));
    assert!(h.new_combo);
    assert_eq!(h.skip_color, 6);
    assert_eq!(h.additions, Additions::whistle());
    assert!(h.timing_point.is_none());
    assert_eq!(h.sample_info.sample_set, SampleSet::Default);
    assert_eq!(h.sample_info.addition_set, SampleSet::Default);
    assert_eq!(h.sample_info.custom_index, 0);
    assert_eq!(h.sample_info.sample_volume, 0);
    assert_eq!(h.sample_info.filename, "");
    let line = h.as_osz().unwrap();
    assert_eq!(line, "256,192,1000,101,2,0:0:0:0:");
    let back = HitObject::from_osz(&line).unwrap();
    assert_eq!((back.pos.x, back.pos.y), (256, 192));
    assert_eq!(back.start_time.0, 1000);
    assert!(matches!(back.kind, HitObjectKind::Circle));
    assert!(back.new_combo);
    assert_eq!(back.skip_color, 6);
    assert_eq!(back.additions, Additions::whistle());
    assert!(back.timing_point.is_none());
    assert_eq!(back.as_osz().unwrap(), line);
}

#[test]
fn slider_without_control_points_is_read_but_not_written_back() {
    let h = HitObject::from_osz("0,0,0,2,0,B,1,100").unwrap();
    match &h.kind {
        HitObjectKind::Slider(sl) => assert!(sl.control_points.is_empty()),
        _ => panic!("not a slider"),
    }
    let line = h.as_osz().unwrap();
    assert_eq!(line, "0,0,0,2,0,B|,1,100,0,0:0,0:0:0:0:");
    assert!(HitObject::from_osz_checked(&line).is_none());
}

#[test]
fn hit_object_errors() {
    assert_eq!(HitObject::from_osz("0,0,0,0,0").unwrap_err(), ParseError::InvalidObjectType(0));
    assert_eq!(HitObject::from_osz("0,0,0,2,0,X|1:1,1,50").unwrap_err(), ParseError::InvalidSliderType("X".to_string()));
    assert_eq!(HitObject::from_osz("a,0,0,1,0").unwrap_err(), ParseError::ParseInt(IntErrorKind::InvalidDigit));
    assert_eq!(HitObject::from_osz("0,0,0,2,0,L|1:1,1,q").unwrap_err(), ParseError::ParseFloat(FloatErrorKind::Invalid));
    assert_eq!(HitObject::from_osz("0,0,0,2,0,L|1:1,1,5,x").unwrap_err(), ParseError::ParseInt(IntErrorKind::InvalidDigit));
    assert_eq!(HitObject::from_osz("0,0,0,1,0,x:0:0:0:").unwrap_err(), ParseError::ParseInt(IntErrorKind::InvalidDigit));
    assert!(HitObject::from_osz_checked("0,0,0,1").is_none());
    assert!(HitObject::from_osz_checked("0,0,0,1,1").is_none());
    assert!(HitObject::from_osz_checked("0,0,0,2,0,L|1,1,50").is_none());
    assert!(HitObject::from_osz_checked("0,0,0,2,0,L|1:1,1,50,2,0:9").is_none());
    assert!(HitObject::from_osz_checked("0,0,0,8,0").is_none());
}

#[test]
fn hit_sample_reads_and_writes_back() {
    let h = parse_hitsample("3:1:0:55:drum.wav").unwrap();
    assert_eq!(h.sample_set, SampleSet::Drum);
    assert_eq!(h.addition_set, SampleSet::Normal);
    assert_eq!(h.sample_volume, 55);
    assert_eq!(hitsample_str(&h), "3:1:0:55:drum.wav");
    assert_eq!(parse_hitsample("1:1:-1:0:").unwrap().custom_index, -1);
    assert_eq!(parse_hitsample("1:1:x:0:").unwrap_err(), ParseError::ParseInt(IntErrorKind::InvalidDigit));
    assert!(parse_hitsample_checked("1:1:0:0").is_none());
    assert!(parse_hitsample_checked("7:1:0:0:").is_none());
}

#[test]
fn additions_are_whistle_finish_and_clap() {
    assert_eq!(Additions::whistle().bits(), 2);
    assert_eq!(Additions::finish().bits(), 4);
    assert_eq!(Additions::clap().bits(), 8);
    assert_eq!(Additions::from_bits(14).map(|a| a.bits()), Some(14));
    assert!(Additions::from_bits(1).is_none());
    assert_eq!(SampleSet::from_u32(2), Some(SampleSet::Soft));
    assert_eq!(SampleSet::Drum.value(), 3);
    assert_eq!(SampleSet::from_u32(4), None);
}

#[test]
fn colour_line_reads_and_writes_back() {
    let c = Color::from_str("Combo1 : 12,34,56").unwrap();
    assert_eq!(c, Color::new(12, 34, 56));
    assert_eq!(c.to_string(), "12,34,56");
    assert_eq!(color_str(&c), "12,34,56");
    assert_eq!(parse_color("Combo7 : 1,2,3").unwrap(), Color::new(1, 2, 3));
    assert_eq!(Color::from_str("Combo1 12,34,56").unwrap_err(), ParseError::MissingColorComponent);
    assert_eq!(Color::from_str("Combo1 : 300,0,0").unwrap_err(), ParseError::ParseInt(IntErrorKind::PosOverflow));
    assert!(Color::from_str_checked("Combo1 : 1,2").is_none());
}

#[test]
fn event_lines_read_and_write_back() {
    let e = Event::from_str("0,0,\"bg.png\",10,-20").unwrap();
    assert_eq!(e, Event::Background(BackgroundEvent { filename: "bg.png".to_string(), offset: Point { x: 10, y: -20 } }));
    assert_eq!(e.to_string(), "0,0,\"bg.png\",10,-20");
    let v = Event::from_str("Video,500,\"intro.avi\"").unwrap();
    assert_eq!(v.to_string(), "1,500,\"intro.avi\",0,0");
    let b = Event::from_str("Break,100,200").unwrap();
    assert_eq!(b.to_string(), "2,100,200");
    let s = Event::from_str("Sprite,Foreground,Centre,\"x.png\",320,240").unwrap();
    assert_eq!(s, Event::Storyboard("Sprite,Foreground,Centre,\"x.png\",320,240".to_string()));
    assert_eq!(Event::from_str("2,a,3").unwrap_err(), ParseError::ParseInt(IntErrorKind::InvalidDigit));
    assert!(Event::from_str_checked("2,5").is_none());
}

#[test]
fn integer_points_add_subtract_multiply_and_negate() {
    let a = Point::new(3, -4);
    let b = Point::new(10, 2);
    assert_eq!(a.plus(b), Point::new(13, -2));
    assert_eq!(a.minus(b), Point::new(-7, -6));
    assert_eq!(a.times(b), Point::new(30, -8));
    assert_eq!(a.scaled(3), Point::new(9, -12));
    assert_eq!(a.negated(), Point::new(-3, 4));
    assert_eq!(a.dot(b), 22);
}
