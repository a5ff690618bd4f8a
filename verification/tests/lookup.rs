use libosu::beatmap::Beatmap;
use libosu::enums::Millis;
use libosu::lookup::slider_combo;

const TIMED: &str = "osu file format v14

[TimingPoints]
0,500,4,2,0,60,1,0
1000,-50,4,2,0,60,0,0
2000,400,3,2,0,60,1,0
3000,-200,4,2,0,60,0,0

[HitObjects]
256,192,500,1,0,0:0:0:0:
256,192,1000,1,0,0:0:0:0:
256,192,2500,1,0,0:0:0:0:
256,192,3000,1,0,0:0:0:0:
";

fn timed() -> Beatmap {
    Beatmap::from_str(TIMED).unwrap()
}

#[test]
fn timing_point_of_a_time_starts_strictly_before_it() {
    let b = timed();
    assert!(b.locate_timing_point(Millis(0)).is_none());
    assert_eq!(b.locate_timing_point(Millis(1)).unwrap().time, Millis(0));
    assert_eq!(b.locate_timing_point(Millis(1000)).unwrap().time, Millis(0));
    let tp = b.locate_timing_point(Millis(2500)).unwrap();
    assert_eq!(tp.time, Millis(2000));
    assert_eq!(tp.meter, 3);
    assert_eq!(tp.mpb, "400");
    assert_eq!(b.locate_timing_point(Millis(99999)).unwrap().time, Millis(3000));
}

#[test]
fn hit_object_at_a_time() {
    let b = timed();
    assert_eq!(b.locate_hitobject(Millis(2500)).unwrap().start_time, Millis(2500));
    assert!(b.locate_hitobject(Millis(2499)).is_none());
    let all = b.get_hitobjects();
    assert_eq!(all.len(), 4);
    assert_eq!(all[3].start_time, Millis(3000));
}

#[test]
fn timing_points_in_effect() {
    let b = timed();
    assert_eq!(b.timing_point_at(Millis(-5)), None);
    assert_eq!(b.timing_point_at(Millis(0)), Some(0));
    assert_eq!(b.timing_point_at(Millis(1000)), Some(1));
    assert_eq!(b.timing_point_at(Millis(2999)), Some(2));
    assert_eq!(b.timing_point_at(Millis(5000)), Some(3));
    assert_eq!(b.uninherited_point_at(Millis(-1)), None);
    assert_eq!(b.uninherited_point_at(Millis(1500)), Some(0));
    assert_eq!(b.uninherited_point_at(Millis(2000)), Some(2));
    assert_eq!(b.uninherited_point_at(Millis(3500)), Some(2));
}

#[test]
fn double_iter_pairs_each_object_with_its_timing_point() {
    let b = timed();
    assert_eq!(b.double_iter(), vec![(0, 0), (1, 1), (2, 2), (3, 3)]);
}

#[test]
fn double_iter_uses_the_first_point_for_early_objects() {
    let text = "osu file format v14

[TimingPoints]
100,500,4,2,0,60,1,0
200,500,4,2,0,60,1,0

[HitObjects]
256,192,50,1,0,0:0:0:0:
256,192,150,1,0,0:0:0:0:
256,192,200,1,0,0:0:0:0:
";
    let b = Beatmap::from_str(text).unwrap();
    assert_eq!(b.double_iter(), vec![(0, 0), (1, 0), (2, 1)]);
}

#[test]
fn double_iter_is_empty_without_timing_points() {
    let text = "osu file format v14

[HitObjects]
256,192,50,1,0,0:0:0:0:
";
    let b = Beatmap::from_str(text).unwrap();
    assert_eq!(b.hit_objects.len(), 1);
    assert!(b.double_iter().is_empty());
}

#[test]
fn combo_parts_count_circles_and_spinners_and_list_sliders() {
    let text = "osu file format v14

[TimingPoints]
0,500,4,2,0,60,1,0
1000,-50,4,2,0,60,0,0

[HitObjects]
256,192,100,1,0,0:0:0:0:
100,100,500,2,0,L|200:200,1,140
256,192,1200,12,0,3000,0:0:0:0:
100,100,1500,2,0,L|200:200,2,140
";
    let b = Beatmap::from_str(text).unwrap();
    let (singles, sliders) = b.max_combo_parts();
    assert_eq!(singles, 2);
    assert_eq!(sliders, vec![(1, 0), (3, 1)]);

    let no_points = Beatmap::from_str("osu file format v14\n\n[HitObjects]\n256,192,100,1,0,0:0:0:0:\n").unwrap();
    assert_eq!(no_points.max_combo_parts(), (1, vec![]));
}

#[test]
fn slider_combo_values() {
    assert_eq!(slider_combo(1, 1), 2);
    assert_eq!(slider_combo(3, 2), 7);
    assert_eq!(slider_combo(0, 1), 1);
    assert_eq!(slider_combo(-5, 1), 0);
    assert_eq!(slider_combo(0, 0), 1);
}
