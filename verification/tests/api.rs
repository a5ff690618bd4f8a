use libosu::api::{user_recent_url, RankStatus, UserLookup};
use libosu::enums::{Mode, Mods};
use libosu::pp::{accuracy_fraction, PPCalcParams, ScoreVersion};

#[test]
fn user_lookup_text() {
    assert_eq!(UserLookup::from(2688103u32).to_string(), "2688103");
    assert_eq!(UserLookup::from("IOException").to_string(), "IOException");
    assert_eq!(UserLookup::from(0u32), UserLookup::Id(0));
    assert_eq!(UserLookup::from("a b"), UserLookup::Name("a b".to_string()));
}

#[test]
fn recent_scores_address_defaults() {
    let url = user_recent_url("KEY", &UserLookup::Name("peppy".to_string()), None, None);
    assert_eq!(
        url,
        "https://osu.ppy.sh/api/get_user_recent?k=KEY&u=peppy&m=0&limit=10"
    );
}

#[test]
fn recent_scores_address_with_mode_and_limit() {
    let url = user_recent_url("k", &UserLookup::Id(2), Some(Mode::Mania), Some(50));
    assert_eq!(url, "https://osu.ppy.sh/api/get_user_recent?k=k&u=2&m=3&limit=50");
    let url = user_recent_url("k", &UserLookup::Id(2), Some(Mode::Taiko), Some(0));
    assert_eq!(url, "https://osu.ppy.sh/api/get_user_recent?k=k&u=2&m=1&limit=0");
}

#[test]
fn rank_status_values() {
    assert_eq!(RankStatus::Graveyard.value(), -2);
    assert_eq!(RankStatus::Wip.value(), -1);
    assert_eq!(RankStatus::Loved.value(), 4);
    assert_eq!(RankStatus::from_value(1), Some(RankStatus::Ranked));
    assert_eq!(RankStatus::from_value(3), Some(RankStatus::Qualified));
    assert_eq!(RankStatus::from_value(5), None);
    assert_eq!(RankStatus::from_value(-3), None);
}

#[test]
fn accuracy_fraction_counts() {
    assert_eq!(accuracy_fraction(0, 0, 0, 0), (0, 0));
    assert_eq!(accuracy_fraction(10, 0, 0, 0), (60, 60));
    assert_eq!(accuracy_fraction(1, 1, 1, 1), (9, 24));
    assert_eq!(
        accuracy_fraction(u32::MAX, u32::MAX, u32::MAX, u32::MAX),
        (9 * u32::MAX as u64, 24 * u32::MAX as u64)
    );
}

#[test]
fn pp_params_hold_their_values() {
    let p = PPCalcParams {
        combo: 100,
        n300: 90,
        n100: 5,
        n50: 1,
        nmiss: 0,
        mode: Mode::Osu,
        mods: Mods::empty(),
        score_version: ScoreVersion::V1,
    };
    let q = p;
    assert_eq!(q.combo, 100);
    assert_eq!(q.mods.bits(), 0);
}
