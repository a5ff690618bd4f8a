//! Beatmaps: reading and writing the text of `.osu` files.

use crate::color::{spec_color_str, spec_parse_color_line, Color};
use crate::enums::{GridSize, Millis, Mode};
use crate::errors::{float_fault, int_fault, Fault, LineFault, ParseError, ParseErrorView};
use crate::events::{spec_parse_event, Event, EventView};
use crate::hitobject::{spec_parse_hitobject, HitObject, HitObjectView};
use crate::hitsounds::SampleSet;
use crate::sorting::stable_order;
use crate::text::{join_spec, spec_decimal, find_char, is_unicode_digit, skip_ws, spec_check_float, spec_parse_int, split_spec, trim_ws};
use crate::timing::{spec_parse_timing_point, TimingPoint, TimingPointView};
use vstd::prelude::*;

verus! {

/// The difficulty settings of a beatmap. Each is a floating-point number,
/// kept as its text.
#[derive(Debug, Clone)]
pub struct Difficulty {
    /// HP drain rate.
    pub hp_drain_rate: String,
    /// Circle size (the number of keys in osu!mania).
    pub circle_size: String,
    /// Overall difficulty.
    pub overall_difficulty: String,
    /// Approach rate.
    pub approach_rate: String,
    /// Slider multiplier.
    pub slider_multiplier: String,
    /// Slider tick rate.
    pub slider_tick_rate: String,
}

/// The difficulty settings, as a specification.
#[verifier::ext_equal]
pub struct DifficultyView {
    pub hp_drain_rate: Seq<char>,
    pub circle_size: Seq<char>,
    pub overall_difficulty: Seq<char>,
    pub approach_rate: Seq<char>,
    pub slider_multiplier: Seq<char>,
    pub slider_tick_rate: Seq<char>,
}

impl Difficulty {
    /// The settings as a specification.
    pub open spec fn view(&self) -> DifficultyView {
        DifficultyView {
            hp_drain_rate: self.hp_drain_rate@,
            circle_size: self.circle_size@,
            overall_difficulty: self.overall_difficulty@,
            approach_rate: self.approach_rate@,
            slider_multiplier: self.slider_multiplier@,
            slider_tick_rate: self.slider_tick_rate@,
        }
    }
}

/// A beatmap set. It holds no data of its own.
#[derive(Debug)]
pub struct BeatmapSet {}

/// A beatmap. Its floating-point settings are kept as their text.
#[derive(Debug, Clone)]
pub struct Beatmap {
    /// The version of the file format.
    pub version: u32,
    /// The audio file, relative to the beatmap file.
    pub audio_filename: String,
    /// Silence added before the audio starts.
    pub audio_leadin: Millis,
    /// Where the song preview starts.
    pub preview_time: Millis,
    /// Whether the countdown is shown.
    pub countdown: bool,
    /// The default sample set of hit objects.
    pub sample_set: SampleSet,
    /// Stacking leniency.
    pub stack_leniency: String,
    /// The game mode.
    pub mode: Mode,
    /// Whether breaks are letterboxed.
    pub letterbox_in_breaks: bool,
    /// Whether the storyboard is widescreen.
    pub widescreen_storyboard: bool,
    /// The difficulty settings.
    pub difficulty: Difficulty,
    /// Editor bookmarks.
    pub bookmarks: Vec<i32>,
    /// The editor's distance spacing.
    pub distance_spacing: String,
    /// The editor's beat divisor.
    pub beat_divisor: u8,
    /// The editor's grid size.
    pub grid_size: u8,
    /// The editor's timeline zoom.
    pub timeline_zoom: String,
    /// The title (ASCII).
    pub title: String,
    /// The title (Unicode).
    pub title_unicode: String,
    /// The artist (ASCII).
    pub artist: String,
    /// The artist (Unicode).
    pub artist_unicode: String,
    /// The creator of the beatmap.
    pub creator: String,
    /// The name of the difficulty.
    pub difficulty_name: String,
    /// Where the song comes from.
    pub source: String,
    /// Search tags.
    pub tags: Vec<String>,
    /// The beatmap's id.
    pub beatmap_id: i32,
    /// The id of the beatmap set.
    pub beatmap_set_id: i32,
    /// Backgrounds, videos, breaks and storyboard lines.
    pub events: Vec<Event>,
    /// Combo colours.
    pub colors: Vec<Color>,
    /// Hit objects, by time.
    pub hit_objects: Vec<HitObject>,
    /// Timing points, by time.
    pub timing_points: Vec<TimingPoint>,
}

/// A beatmap, as a specification.
#[verifier::ext_equal]
pub struct BeatmapView {
    pub version: u32,
    pub audio_filename: Seq<char>,
    pub audio_leadin: Millis,
    pub preview_time: Millis,
    pub countdown: bool,
    pub sample_set: SampleSet,
    pub stack_leniency: Seq<char>,
    pub mode: Mode,
    pub letterbox_in_breaks: bool,
    pub widescreen_storyboard: bool,
    pub difficulty: DifficultyView,
    pub bookmarks: Seq<i32>,
    pub distance_spacing: Seq<char>,
    pub beat_divisor: u8,
    pub grid_size: u8,
    pub timeline_zoom: Seq<char>,
    pub title: Seq<char>,
    pub title_unicode: Seq<char>,
    pub artist: Seq<char>,
    pub artist_unicode: Seq<char>,
    pub creator: Seq<char>,
    pub difficulty_name: Seq<char>,
    pub source: Seq<char>,
    pub tags: Seq<Seq<char>>,
    pub beatmap_id: i32,
    pub beatmap_set_id: i32,
    pub events: Seq<EventView>,
    pub colors: Seq<Color>,
    pub hit_objects: Seq<HitObjectView>,
    pub timing_points: Seq<TimingPointView>,
}

impl Beatmap {
    /// The beatmap as a specification.
    pub open spec fn view(&self) -> BeatmapView {
        BeatmapView {
            version: self.version,
            audio_filename: self.audio_filename@,
            audio_leadin: self.audio_leadin,
            preview_time: self.preview_time,
            countdown: self.countdown,
            sample_set: self.sample_set,
            stack_leniency: self.stack_leniency@,
            mode: self.mode,
            letterbox_in_breaks: self.letterbox_in_breaks,
            widescreen_storyboard: self.widescreen_storyboard,
            difficulty: self.difficulty.view(),
            bookmarks: self.bookmarks@,
            distance_spacing: self.distance_spacing@,
            beat_divisor: self.beat_divisor,
            grid_size: self.grid_size,
            timeline_zoom: self.timeline_zoom@,
            title: self.title@,
            title_unicode: self.title_unicode@,
            artist: self.artist@,
            artist_unicode: self.artist_unicode@,
            creator: self.creator@,
            difficulty_name: self.difficulty_name@,
            source: self.source@,
            tags: self.tags@.map_values(|t: String| t@),
            beatmap_id: self.beatmap_id,
            beatmap_set_id: self.beatmap_set_id,
            events: self.events@.map_values(|e: Event| e.view()),
            colors: self.colors@,
            hit_objects: self.hit_objects@.map_values(|h: HitObject| h.view()),
            timing_points: self.timing_points@.map_values(|t: TimingPoint| t.view()),
        }
    }
}

/// The difficulty settings of a new beatmap: all zero.
pub open spec fn default_difficulty() -> DifficultyView {
    DifficultyView {
        hp_drain_rate: seq!['0'],
        circle_size: seq!['0'],
        overall_difficulty: seq!['0'],
        approach_rate: seq!['0'],
        slider_multiplier: seq!['0'],
        slider_tick_rate: seq!['0'],
    }
}

/// A new, empty beatmap: stacking leniency 0.7, beat divisor 1, grid size
/// 1, beatmap set id -1, and zero or empty everywhere else.
pub open spec fn default_beatmap() -> BeatmapView {
    BeatmapView {
        version: 0,
        audio_filename: Seq::empty(),
        audio_leadin: Millis(0),
        preview_time: Millis(0),
        countdown: false,
        sample_set: SampleSet::Default,
        stack_leniency: seq!['0', '.', '7'],
        mode: Mode::Osu,
        letterbox_in_breaks: false,
        widescreen_storyboard: false,
        difficulty: default_difficulty(),
        bookmarks: Seq::empty(),
        distance_spacing: seq!['0'],
        beat_divisor: 1,
        grid_size: 1,
        timeline_zoom: seq!['0'],
        title: Seq::empty(),
        title_unicode: Seq::empty(),
        artist: Seq::empty(),
        artist_unicode: Seq::empty(),
        creator: Seq::empty(),
        difficulty_name: Seq::empty(),
        source: Seq::empty(),
        tags: Seq::empty(),
        beatmap_id: 0,
        beatmap_set_id: -1i32,
        events: Seq::empty(),
        colors: Seq::empty(),
        hit_objects: Seq::empty(),
        timing_points: Seq::empty(),
    }
}

fn zero_text() -> (r: String)
    ensures
        r@ == seq!['0'],
{
    let mut v: Vec<char> = Vec::new();
    v.push('0');
    crate::text::chars_to_string(&v, 0, 1)
}

impl Default for Beatmap {
    fn default() -> (r: Beatmap)
        ensures
            r.view() == default_beatmap(),
    {
        let mut leniency: Vec<char> = Vec::new();
        leniency.push('0');
        leniency.push('.');
        leniency.push('7');
        let r = Beatmap {
            version: 0,
            audio_filename: String::new(),
            audio_leadin: Millis(0),
            preview_time: Millis(0),
            countdown: false,
            sample_set: SampleSet::Default,
            stack_leniency: crate::text::chars_to_string(&leniency, 0, 3),
            mode: Mode::Osu,
            letterbox_in_breaks: false,
            widescreen_storyboard: false,
            difficulty: Difficulty {
                hp_drain_rate: zero_text(),
                circle_size: zero_text(),
                overall_difficulty: zero_text(),
                approach_rate: zero_text(),
                slider_multiplier: zero_text(),
                slider_tick_rate: zero_text(),
            },
            bookmarks: Vec::new(),
            distance_spacing: zero_text(),
            beat_divisor: 1,
            grid_size: 1,
            timeline_zoom: zero_text(),
            title: String::new(),
            title_unicode: String::new(),
            artist: String::new(),
            artist_unicode: String::new(),
            creator: String::new(),
            difficulty_name: String::new(),
            source: String::new(),
            tags: Vec::new(),
            beatmap_id: 0,
            beatmap_set_id: -1,
            events: Vec::new(),
            colors: Vec::new(),
            hit_objects: Vec::new(),
            timing_points: Vec::new(),
        };
        assert(leniency@ =~= seq!['0', '.', '7']);
        assert(r.view().tags =~= Seq::<Seq<char>>::empty());
        assert(r.view().events =~= Seq::<EventView>::empty());
        assert(r.view().hit_objects =~= Seq::<HitObjectView>::empty());
        assert(r.view().timing_points =~= Seq::<TimingPointView>::empty());
        assert(r.view().title =~= Seq::<char>::empty());
        assert(r.view() =~= default_beatmap());
        r
    }
}

/// The line that starts at `start` of `s`: up to the next `\n` (or the end),
/// without the `\n` and a `\r` before it, as `BufRead::lines` gives it.
pub open spec fn line_at(s: Seq<char>, start: int) -> Seq<char> {
    let e = find_char(s, '\n', start);
    let l = s.subrange(start, e);
    if e < s.len() && l.len() > 0 && l.last() == '\r' {
        l.drop_last()
    } else {
        l
    }
}

/// Where the line after the one that starts at `start` starts: after the
/// next `\n`, or at the end.
pub open spec fn next_line_start(s: Seq<char>, start: int) -> int {
    let e = find_char(s, '\n', start);
    if e < s.len() {
        e + 1
    } else {
        s.len() as int
    }
}

/// Whether `c` is an ASCII letter.
pub open spec fn is_ascii_letter(c: char) -> bool {
    ('A' <= c && c <= 'Z') || ('a' <= c && c <= 'z')
}

/// Whether `c` is an ASCII letter or digit.
pub open spec fn is_ascii_alnum(c: char) -> bool {
    is_ascii_letter(c) || ('0' <= c && c <= '9')
}

/// The name of a section header `[Name]` (one or more ASCII letters), if
/// `line` is one.
pub open spec fn section_header(line: Seq<char>) -> Option<Seq<char>> {
    if line.len() >= 3 && line[0] == '[' && line.last() == ']' && (forall|i: int|
        1 <= i < line.len() - 1 ==> is_ascii_letter(#[trigger] line[i])) {
        Some(line.subrange(1, line.len() - 1))
    } else {
        None
    }
}

/// Whether `line` is empty or white space only.
pub open spec fn is_blank(line: Seq<char>) -> bool {
    skip_ws(line, 0) == line.len()
}

/// The prefix of the format version line.
pub open spec fn version_prefix() -> Seq<char> {
    seq!['o', 's', 'u', ' ', 'f', 'i', 'l', 'e', ' ', 'f', 'o', 'r', 'm', 'a', 't', ' ', 'v']
}

/// Reading the format version line `osu file format v<digits>`: `None` when
/// `line` is not one (the digits may be those of any script), else the
/// digits read as a `u32`.
pub open spec fn version_line(line: Seq<char>) -> Option<Result<u32, Fault>> {
    let n = version_prefix().len() as int;
    if line.len() > n && line.subrange(0, n) == version_prefix() && (forall|i: int|
        n <= i < line.len() ==> is_unicode_digit(#[trigger] line[i])) {
        match spec_parse_int(line.subrange(n, line.len() as int), 0, u32::MAX as int) {
            Ok(v) => Some(Ok(v as u32)),
            Err(k) => Some(Err(int_fault(k))),
        }
    } else {
        None
    }
}

/// The index of the first character of `s` at or after `from` that is not
/// an ASCII letter or digit, or the length of `s`.
pub open spec fn skip_alnum(s: Seq<char>, from: int) -> int
    decreases s.len() - from,
{
    if from < 0 || from >= s.len() {
        s.len() as int
    } else if !is_ascii_alnum(s[from]) {
        from
    } else {
        skip_alnum(s, from + 1)
    }
}

/// Splitting a `key: value` line: the key is one or more ASCII letters and
/// digits, then white space, `:`, white space, and the value is the rest,
/// at least one character (a line that ends in white space after the `:`
/// keeps its last character as the value).
pub open spec fn kv_split(line: Seq<char>) -> Option<(Seq<char>, Seq<char>)> {
    let k = skip_alnum(line, 0);
    let j = skip_ws(line, k);
    if k == 0 || j >= line.len() || line[j] != ':' || j + 1 >= line.len() {
        None
    } else {
        let w = skip_ws(line, j + 1);
        let start = if w == line.len() {
            line.len() - 1
        } else {
            w
        };
        Some((line.subrange(0, k), line.subrange(start, line.len() as int)))
    }
}

/// Whether `line` starts with `//`.
pub open spec fn is_comment(line: Seq<char>) -> bool {
    line.len() >= 2 && line[0] == '/' && line[1] == '/'
}

proof fn lemma_skip_alnum(s: Seq<char>, from: int)
    requires
        0 <= from <= s.len(),
    ensures
        from <= skip_alnum(s, from) <= s.len(),
        skip_alnum(s, from) < s.len() ==> !is_ascii_alnum(s[skip_alnum(s, from)]),
    decreases s.len() - from,
{
    if from < s.len() && is_ascii_alnum(s[from]) {
        lemma_skip_alnum(s, from + 1);
    }
}

/// The bounds of the line that starts at `start` of `v`, and the start of
/// the next one.
pub(crate) fn line_bounds(v: &Vec<char>, start: usize) -> (r: (usize, usize, usize))
    requires
        start < v@.len(),
    ensures
        start <= r.0 <= r.1 <= v@.len(),
        r.0 == start,
        v@.subrange(r.0 as int, r.1 as int) == line_at(v@, start as int),
        r.2 == next_line_start(v@, start as int),
        start < r.2 <= v@.len(),
{
    let mut e = start;
    while e < v.len() && v[e] != '\n'
        invariant
            start <= e <= v@.len(),
            find_char(v@, '\n', start as int) == find_char(v@, '\n', e as int),
        decreases v@.len() - e,
    {
        e = e + 1;
    }
    proof {
        crate::text::lemma_find_char(v@, '\n', start as int);
    }
    let ghost l = v@.subrange(start as int, e as int);
    if e < v.len() && e > start && v[e - 1] == '\r' {
        assert(l.last() == v@[e - 1]);
        assert(l.drop_last() =~= v@.subrange(start as int, e - 1));
        (start, e - 1, e + 1)
    } else if e < v.len() {
        proof {
            if e > start {
                assert(l.last() == v@[e - 1]);
            }
        }
        (start, e, e + 1)
    } else {
        (start, e, e)
    }
}

fn ascii_letter(c: char) -> (r: bool)
    ensures
        r == is_ascii_letter(c),
{
    ('A' <= c && c <= 'Z') || ('a' <= c && c <= 'z')
}

/// The bounds of the name of the section header `v[lo..hi]`, if it is one.
pub(crate) fn header_bounds(v: &Vec<char>, lo: usize, hi: usize) -> (r: Option<(usize, usize)>)
    requires
        lo <= hi <= v@.len(),
    ensures
        match section_header(v@.subrange(lo as int, hi as int)) {
            Some(name) => r matches Some(b) && b.0 <= b.1 <= v@.len() && v@.subrange(
                b.0 as int,
                b.1 as int,
            ) == name,
            None => r is None,
        },
{
    let ghost l = v@.subrange(lo as int, hi as int);
    if hi - lo < 3 || v[lo] != '[' || v[hi - 1] != ']' {
        proof {
            if hi - lo >= 3 {
                assert(l[0] == v@[lo as int] && l.last() == v@[hi - 1]);
            }
        }
        return None;
    }
    assert(l[0] == v@[lo as int] && l.last() == v@[hi - 1]);
    let mut i = lo + 1;
    while i < hi - 1
        invariant
            lo + 1 <= i <= hi - 1,
            hi <= v@.len(),
            hi - lo >= 3,
            l == v@.subrange(lo as int, hi as int),
            forall|k: int| 1 <= k < i - lo ==> is_ascii_letter(#[trigger] l[k]),
        decreases hi - i,
    {
        assert(l[i - lo] == v@[i as int]);
        if !ascii_letter(v[i]) {
            return None;
        }
        i = i + 1;
    }
    assert(l.subrange(1, l.len() - 1) =~= v@.subrange(lo + 1, hi - 1));
    Some((lo + 1, hi - 1))
}

/// Whether `v[lo..hi]` is empty or white space only.
pub(crate) fn blank_at(v: &Vec<char>, lo: usize, hi: usize) -> (r: bool)
    requires
        lo <= hi <= v@.len(),
    ensures
        r == is_blank(v@.subrange(lo as int, hi as int)),
{
    crate::text::skip_ws_at(v, lo, lo, hi) == hi
}

/// Reads the format version line `v[lo..hi]` (see [`version_line`]).
pub(crate) fn version_at(v: &Vec<char>, lo: usize, hi: usize) -> (r: Option<Result<u32, LineFault>>)
    requires
        lo <= hi <= v@.len(),
    ensures
        match version_line(v@.subrange(lo as int, hi as int)) {
            None => r is None,
            Some(Ok(n)) => r matches Some(Ok(m)) && m == n,
            Some(Err(f)) => r matches Some(Err(g)) && g.view() == f,
        },
{
    let ghost l = v@.subrange(lo as int, hi as int);
    let prefix = crate::text::str_chars("osu file format v");
    proof {
        reveal_strlit("osu file format v");
        assert(prefix@ =~= version_prefix());
    }
    let n = prefix.len();
    if hi - lo <= n {
        return None;
    }
    let mut i: usize = 0;
    while i < n
        invariant
            i <= n == prefix@.len() == version_prefix().len(),
            prefix@ == version_prefix(),
            lo + n < hi <= v@.len(),
            l == v@.subrange(lo as int, hi as int),
            forall|k: int| 0 <= k < i ==> l[k] == prefix@[k],
        decreases n - i,
    {
        assert(l[i as int] == v@[lo + i]);
        if v[lo + i] != prefix[i] {
            assert(l.subrange(0, n as int)[i as int] != version_prefix()[i as int]);
            return None;
        }
        i = i + 1;
    }
    assert(l.subrange(0, n as int) =~= version_prefix());
    let mut j = lo + n;
    while j < hi
        invariant
            lo + n <= j <= hi <= v@.len(),
            n == version_prefix().len(),
            l == v@.subrange(lo as int, hi as int),
            forall|k: int| n <= k < j - lo ==> is_unicode_digit(#[trigger] l[k]),
        decreases hi - j,
    {
        assert(l[j - lo] == v@[j as int]);
        if !crate::text::unicode_digit(v[j]) {
            return None;
        }
        j = j + 1;
    }
    assert(l.subrange(n as int, l.len() as int) =~= v@.subrange(lo + n, hi as int));
    match crate::text::parse_int(v, lo + n, hi, 0, u32::MAX as i128) {
        Ok(x) => Some(Ok(x as u32)),
        Err(k) => Some(Err(LineFault::Failed(ParseError::ParseInt(k)))),
    }
}

fn ascii_alnum(c: char) -> (r: bool)
    ensures
        r == is_ascii_alnum(c),
{
    ('A' <= c && c <= 'Z') || ('a' <= c && c <= 'z') || ('0' <= c && c <= '9')
}

/// The bounds of the key and the value of the `key: value` line `v[lo..hi]`
/// (see [`kv_split`]).
pub(crate) fn kv_bounds(v: &Vec<char>, lo: usize, hi: usize) -> (r: Option<(usize, usize, usize, usize)>)
    requires
        lo <= hi <= v@.len(),
    ensures
        match kv_split(v@.subrange(lo as int, hi as int)) {
            None => r is None,
            Some((key, value)) => r matches Some(b) && b.0 <= b.1 <= v@.len() && b.2 <= b.3
                <= v@.len() && v@.subrange(b.0 as int, b.1 as int) == key && v@.subrange(
                b.2 as int,
                b.3 as int,
            ) == value,
        },
{
    let ghost l = v@.subrange(lo as int, hi as int);
    let mut k = lo;
    while k < hi && ascii_alnum(v[k])
        invariant
            lo <= k <= hi <= v@.len(),
            l == v@.subrange(lo as int, hi as int),
            skip_alnum(l, 0) == skip_alnum(l, k - lo),
        decreases hi - k,
    {
        assert(l[k - lo] == v@[k as int]);
        k = k + 1;
    }
    if k < hi {
        assert(l[k - lo] == v@[k as int]);
    }
    assert(skip_alnum(l, 0) == k - lo);
    let j = crate::text::skip_ws_at(v, lo, k, hi);
    if k == lo || j >= hi || v[j] != ':' || j + 1 >= hi {
        proof {
            if j < hi {
                assert(l[j - lo] == v@[j as int]);
            }
        }
        return None;
    }
    assert(l[j - lo] == v@[j as int]);
    let w = crate::text::skip_ws_at(v, lo, j + 1, hi);
    let start = if w == hi {
        hi - 1
    } else {
        w
    };
    assert(l.subrange(0, k - lo) =~= v@.subrange(lo as int, k as int));
    assert(l.subrange(start - lo, l.len() as int) =~= v@.subrange(start as int, hi as int));
    Some((lo, k, start, hi))
}

/// Whether `v[lo..hi]` starts with `//`.
fn comment_at(v: &Vec<char>, lo: usize, hi: usize) -> (r: bool)
    requires
        lo <= hi <= v@.len(),
    ensures
        r == is_comment(v@.subrange(lo as int, hi as int)),
{
    let ghost l = v@.subrange(lo as int, hi as int);
    if hi - lo >= 2 {
        assert(l[0] == v@[lo as int] && l[1] == v@[lo + 1]);
        v[lo] == '/' && v[lo + 1] == '/'
    } else {
        false
    }
}

/// Reading a value as an integer in `[min, max]`.
pub open spec fn int_value(value: Seq<char>, min: int, max: int) -> Result<int, Fault> {
    match spec_parse_int(value, min, max) {
        Ok(n) => Ok(n),
        Err(k) => Err(int_fault(k)),
    }
}

/// Reading a value as a floating-point number, kept as its text.
pub open spec fn float_value(value: Seq<char>) -> Result<Seq<char>, Fault> {
    match spec_check_float(value) {
        Ok(_) => Ok(value),
        Err(k) => Err(float_fault(k)),
    }
}

/// The sample set named by `value`: `None` (the default), `Normal`, `Soft`
/// or `Drum`.
pub open spec fn sample_set_named(value: Seq<char>) -> Option<SampleSet> {
    if value == "None"@ {
        Some(SampleSet::Default)
    } else if value == "Normal"@ {
        Some(SampleSet::Normal)
    } else if value == "Soft"@ {
        Some(SampleSet::Soft)
    } else if value == "Drum"@ {
        Some(SampleSet::Drum)
    } else {
        None
    }
}

/// Reading bookmarks from the `,`-separated pieces of the trimmed value:
/// pieces that are blank are skipped, the others are read as `i32`s in
/// order, up to the first that fails.
pub open spec fn spec_bookmarks(parts: Seq<Seq<char>>) -> Result<Seq<i32>, Fault>
    decreases parts.len(),
{
    if parts.len() == 0 {
        Ok(Seq::empty())
    } else {
        let t = trim_ws(parts[0]);
        if t.len() == 0 {
            spec_bookmarks(parts.drop_first())
        } else {
            match int_value(t, i32::MIN as int, i32::MAX as int) {
                Err(e) => Err(e),
                Ok(n) => match spec_bookmarks(parts.drop_first()) {
                    Ok(rest) => Ok(seq![n as i32] + rest),
                    Err(e) => Err(e),
                },
            }
        }
    }
}

fn sample_set_at(v: &Vec<char>, lo: usize, hi: usize) -> (r: Option<SampleSet>)
    requires
        lo <= hi <= v@.len(),
    ensures
        r == sample_set_named(v@.subrange(lo as int, hi as int)),
{
    if crate::text::range_is(v, lo, hi, "None") {
        Some(SampleSet::Default)
    } else if crate::text::range_is(v, lo, hi, "Normal") {
        Some(SampleSet::Normal)
    } else if crate::text::range_is(v, lo, hi, "Soft") {
        Some(SampleSet::Soft)
    } else if crate::text::range_is(v, lo, hi, "Drum") {
        Some(SampleSet::Drum)
    } else {
        None
    }
}

fn parse_bookmarks(v: &Vec<char>, lo: usize, hi: usize) -> (r: Result<Vec<i32>, LineFault>)
    requires
        lo <= hi <= v@.len(),
    ensures
        match spec_bookmarks(split_spec(trim_ws(v@.subrange(lo as int, hi as int)), ',')) {
            Ok(bs) => r matches Ok(out) && out@ == bs,
            Err(f) => r matches Err(e) && e.view() == f,
        },
{
    let (a, b) = crate::text::trim_bounds(v, lo, hi);
    let parts = crate::text::split_char(v, a, b, ',');
    let ghost ps = crate::text::pieces(v@, parts@);
    let mut out: Vec<i32> = Vec::new();
    let mut i: usize = 0;
    assert(ps.skip(0) =~= ps);
    while i < parts.len()
        invariant
            i <= parts@.len(),
            crate::text::bounds_within(parts@, v@.len()),
            ps == crate::text::pieces(v@, parts@),
            ps == split_spec(trim_ws(v@.subrange(lo as int, hi as int)), ','),
            spec_bookmarks(ps) == crate::hitobject::prepend_list(out@, spec_bookmarks(ps.skip(i as int))),
        decreases parts@.len() - i,
    {
        let (c, d) = parts[i];
        assert(parts@[i as int].0 <= parts@[i as int].1 <= v@.len());
        assert(ps.skip(i as int)[0] == v@.subrange(c as int, d as int));
        assert(ps.skip(i as int).drop_first() =~= ps.skip(i + 1));
        let (e, f) = crate::text::trim_bounds(v, c, d);
        if e < f {
            let n = match crate::text::parse_int(v, e, f, i32::MIN as i128, i32::MAX as i128) {
                Ok(n) => n as i32,
                Err(k) => return Err(LineFault::Failed(ParseError::ParseInt(k))),
            };
            proof {
                match spec_bookmarks(ps.skip(i + 1)) {
                    Ok(rest) => {
                        assert(out@.push(n) + rest =~= out@ + (seq![n] + rest));
                    },
                    Err(_) => {},
                }
            }
            out.push(n);
        }
        i = i + 1;
    }
    assert(ps.skip(i as int) =~= Seq::<Seq<char>>::empty());
    assert(out@ + Seq::<i32>::empty() =~= out@);
    Ok(out)
}

fn split_tags(v: &Vec<char>, lo: usize, hi: usize) -> (r: Vec<String>)
    requires
        lo <= hi <= v@.len(),
    ensures
        r@.map_values(|t: String| t@) == split_spec(v@.subrange(lo as int, hi as int), ' '),
{
    let parts = crate::text::split_char(v, lo, hi, ' ');
    let ghost ps = crate::text::pieces(v@, parts@);
    let mut out: Vec<String> = Vec::new();
    let mut i: usize = 0;
    while i < parts.len()
        invariant
            i <= parts@.len(),
            crate::text::bounds_within(parts@, v@.len()),
            ps == crate::text::pieces(v@, parts@),
            ps == split_spec(v@.subrange(lo as int, hi as int), ' '),
            out@.map_values(|t: String| t@) == ps.take(i as int),
        decreases parts@.len() - i,
    {
        let (c, d) = parts[i];
        assert(parts@[i as int].0 <= parts@[i as int].1 <= v@.len());
        let t = crate::text::chars_to_string(v, c, d);
        assert(ps[i as int] == v@.subrange(c as int, d as int));
        let ghost before = out@;
        out.push(t);
        assert(out@.map_values(|t: String| t@) =~= before.map_values(|t: String| t@).push(t@));
        assert(ps.take(i + 1) =~= ps.take(i as int).push(ps[i as int]));
        i = i + 1;
    }
    assert(ps.take(i as int) =~= ps);
    out
}

/// The effect of the `key: value` line on a beatmap, for the keys of the
/// `[General]` section; `None` for other keys.
pub open spec fn apply_general(b: BeatmapView, key: Seq<char>, value: Seq<char>) -> Option<Result<BeatmapView, Fault>> {
    if key == "AudioFilename"@ {
        Some(Ok(BeatmapView { audio_filename: value, ..b }))
    } else if key == "AudioLeadIn"@ {
        Some(match int_value(value, i32::MIN as int, i32::MAX as int) {
            Ok(n) => Ok(BeatmapView { audio_leadin: Millis(n as i32), ..b }),
            Err(e) => Err(e),
        })
    } else if key == "PreviewTime"@ {
        Some(match int_value(value, i32::MIN as int, i32::MAX as int) {
            Ok(n) => Ok(BeatmapView { preview_time: Millis(n as i32), ..b }),
            Err(e) => Err(e),
        })
    } else if key == "Countdown"@ {
        Some(match int_value(value, 0, u8::MAX as int) {
            Ok(n) => Ok(BeatmapView { countdown: n != 0, ..b }),
            Err(e) => Err(e),
        })
    } else if key == "SampleSet"@ {
        Some(match sample_set_named(value) {
            Some(ss) => Ok(BeatmapView { sample_set: ss, ..b }),
            None => Err(Fault::Failed(ParseErrorView::InvalidSampleSetString(value))),
        })
    } else if key == "StackLeniency"@ {
        Some(match float_value(value) {
            Ok(t) => Ok(BeatmapView { stack_leniency: t, ..b }),
            Err(e) => Err(e),
        })
    } else if key == "Mode"@ {
        Some(match int_value(value, 0, u8::MAX as int) {
            Ok(n) => match Mode::spec_from_u8(n as u8) {
                Some(m) => Ok(BeatmapView { mode: m, ..b }),
                None => Err(Fault::Failed(ParseErrorView::InvalidGameMode(n as u8))),
            },
            Err(e) => Err(e),
        })
    } else if key == "LetterBoxInBreaks"@ {
        Some(match int_value(value, 0, u8::MAX as int) {
            Ok(n) => Ok(BeatmapView { letterbox_in_breaks: n != 0, ..b }),
            Err(e) => Err(e),
        })
    } else if key == "WidescreenStoryboard"@ {
        Some(match int_value(value, 0, u8::MAX as int) {
            Ok(n) => Ok(BeatmapView { widescreen_storyboard: n != 0, ..b }),
            Err(e) => Err(e),
        })
    } else {
        None
    }
}

pub(crate) fn apply_general_at(bm: &mut Beatmap, v: &Vec<char>, k0: usize, k1: usize, v0: usize, v1: usize) -> (r: Option<Result<(), LineFault>>)
    requires
        k0 <= k1 <= v@.len(),
        v0 <= v1 <= v@.len(),
    ensures
        match apply_general(old(bm).view(), v@.subrange(k0 as int, k1 as int), v@.subrange(v0 as int, v1 as int)) {
            None => r is None && final(bm).view() == old(bm).view(),
            Some(Ok(b)) => r matches Some(Ok(_)) && final(bm).view() == b,
            Some(Err(f)) => r matches Some(Err(e)) && e.view() == f,
        },
{
    if crate::text::range_is(v, k0, k1, "AudioFilename") {
        bm.audio_filename = crate::text::chars_to_string(v, v0, v1);
        return Some(Ok(()));
    }
    if crate::text::range_is(v, k0, k1, "AudioLeadIn") {
        return match crate::text::parse_int(v, v0, v1, i32::MIN as i128, i32::MAX as i128) {
            Ok(n) => {
                bm.audio_leadin = Millis(n as i32);
                Some(Ok(()))
            },
            Err(k) => Some(Err(LineFault::Failed(ParseError::ParseInt(k)))),
        };
    }
    if crate::text::range_is(v, k0, k1, "PreviewTime") {
        return match crate::text::parse_int(v, v0, v1, i32::MIN as i128, i32::MAX as i128) {
            Ok(n) => {
                bm.preview_time = Millis(n as i32);
                Some(Ok(()))
            },
            Err(k) => Some(Err(LineFault::Failed(ParseError::ParseInt(k)))),
        };
    }
    if crate::text::range_is(v, k0, k1, "Countdown") {
        return match crate::text::parse_int(v, v0, v1, 0, u8::MAX as i128) {
            Ok(n) => {
                bm.countdown = n != 0;
                Some(Ok(()))
            },
            Err(k) => Some(Err(LineFault::Failed(ParseError::ParseInt(k)))),
        };
    }
    if crate::text::range_is(v, k0, k1, "SampleSet") {
        return match sample_set_at(v, v0, v1) {
            Some(ss) => {
                bm.sample_set = ss;
                Some(Ok(()))
            },
            None => Some(Err(LineFault::Failed(ParseError::InvalidSampleSetString(crate::text::chars_to_string(v, v0, v1))))),
        };
    }
    if crate::text::range_is(v, k0, k1, "StackLeniency") {
        return match crate::text::check_float(v, v0, v1) {
            Ok(()) => {
                bm.stack_leniency = crate::text::chars_to_string(v, v0, v1);
                Some(Ok(()))
            },
            Err(k) => Some(Err(LineFault::Failed(ParseError::ParseFloat(k)))),
        };
    }
    if crate::text::range_is(v, k0, k1, "Mode") {
        return match crate::text::parse_int(v, v0, v1, 0, u8::MAX as i128) {
            Ok(n) => {
                match Mode::from_u8(n as u8) {
                    Some(m) => {
                        bm.mode = m;
                        Some(Ok(()))
                    },
                    None => Some(Err(LineFault::Failed(ParseError::InvalidGameMode(n as u8)))),
                }
            },
            Err(k) => Some(Err(LineFault::Failed(ParseError::ParseInt(k)))),
        };
    }
    if crate::text::range_is(v, k0, k1, "LetterBoxInBreaks") {
        return match crate::text::parse_int(v, v0, v1, 0, u8::MAX as i128) {
            Ok(n) => {
                bm.letterbox_in_breaks = n != 0;
                Some(Ok(()))
            },
            Err(k) => Some(Err(LineFault::Failed(ParseError::ParseInt(k)))),
        };
    }
    if crate::text::range_is(v, k0, k1, "WidescreenStoryboard") {
        return match crate::text::parse_int(v, v0, v1, 0, u8::MAX as i128) {
            Ok(n) => {
                bm.widescreen_storyboard = n != 0;
                Some(Ok(()))
            },
            Err(k) => Some(Err(LineFault::Failed(ParseError::ParseInt(k)))),
        };
    }
    None
}

/// The effect of the `key: value` line on a beatmap, for the keys of the
/// `[Editor]` section; `None` for other keys.
pub open spec fn apply_editor(b: BeatmapView, key: Seq<char>, value: Seq<char>) -> Option<Result<BeatmapView, Fault>> {
    if key == "Bookmarks"@ {
        Some(match spec_bookmarks(split_spec(trim_ws(value), ',')) {
            Ok(bs) => Ok(BeatmapView { bookmarks: bs, ..b }),
            Err(e) => Err(e),
        })
    } else if key == "DistanceSpacing"@ {
        Some(match float_value(value) {
            Ok(t) => Ok(BeatmapView { distance_spacing: t, ..b }),
            Err(e) => Err(e),
        })
    } else if key == "BeatDivisor"@ {
        Some(match int_value(value, 0, u8::MAX as int) {
            Ok(n) => Ok(BeatmapView { beat_divisor: n as u8, ..b }),
            Err(e) => Err(e),
        })
    } else if key == "GridSize"@ {
        Some(match int_value(value, 0, u8::MAX as int) {
            Ok(n) => if GridSize::is_grid_size(n as u8) {
                Ok(BeatmapView { grid_size: n as u8, ..b })
            } else {
                Err(Fault::Failed(ParseErrorView::InvalidGridSize(n as u8)))
            },
            Err(e) => Err(e),
        })
    } else if key == "TimelineZoom"@ {
        Some(match float_value(value) {
            Ok(t) => Ok(BeatmapView { timeline_zoom: t, ..b }),
            Err(e) => Err(e),
        })
    } else {
        None
    }
}

pub(crate) fn apply_editor_at(bm: &mut Beatmap, v: &Vec<char>, k0: usize, k1: usize, v0: usize, v1: usize) -> (r: Option<Result<(), LineFault>>)
    requires
        k0 <= k1 <= v@.len(),
        v0 <= v1 <= v@.len(),
    ensures
        match apply_editor(old(bm).view(), v@.subrange(k0 as int, k1 as int), v@.subrange(v0 as int, v1 as int)) {
            None => r is None && final(bm).view() == old(bm).view(),
            Some(Ok(b)) => r matches Some(Ok(_)) && final(bm).view() == b,
            Some(Err(f)) => r matches Some(Err(e)) && e.view() == f,
        },
{
    if crate::text::range_is(v, k0, k1, "Bookmarks") {
        return match parse_bookmarks(v, v0, v1) {
            Ok(bs) => {
                bm.bookmarks = bs;
                Some(Ok(()))
            },
            Err(e) => Some(Err(e)),
        };
    }
    if crate::text::range_is(v, k0, k1, "DistanceSpacing") {
        return match crate::text::check_float(v, v0, v1) {
            Ok(()) => {
                bm.distance_spacing = crate::text::chars_to_string(v, v0, v1);
                Some(Ok(()))
            },
            Err(k) => Some(Err(LineFault::Failed(ParseError::ParseFloat(k)))),
        };
    }
    if crate::text::range_is(v, k0, k1, "BeatDivisor") {
        return match crate::text::parse_int(v, v0, v1, 0, u8::MAX as i128) {
            Ok(n) => {
                bm.beat_divisor = n as u8;
                Some(Ok(()))
            },
            Err(k) => Some(Err(LineFault::Failed(ParseError::ParseInt(k)))),
        };
    }
    if crate::text::range_is(v, k0, k1, "GridSize") {
        return match crate::text::parse_int(v, v0, v1, 0, u8::MAX as i128) {
            Ok(n) => {
                match GridSize::from_u8(n as u8) {
                    Some(_) => {
                        bm.grid_size = n as u8;
                        Some(Ok(()))
                    },
                    None => Some(Err(LineFault::Failed(ParseError::InvalidGridSize(n as u8)))),
                }
            },
            Err(k) => Some(Err(LineFault::Failed(ParseError::ParseInt(k)))),
        };
    }
    if crate::text::range_is(v, k0, k1, "TimelineZoom") {
        return match crate::text::check_float(v, v0, v1) {
            Ok(()) => {
                bm.timeline_zoom = crate::text::chars_to_string(v, v0, v1);
                Some(Ok(()))
            },
            Err(k) => Some(Err(LineFault::Failed(ParseError::ParseFloat(k)))),
        };
    }
    None
}

/// The effect of the `key: value` line on a beatmap, for the keys of the
/// `[Metadata]` section; `None` for other keys.
pub open spec fn apply_metadata(b: BeatmapView, key: Seq<char>, value: Seq<char>) -> Option<Result<BeatmapView, Fault>> {
    if key == "Title"@ {
        Some(Ok(BeatmapView { title: value, ..b }))
    } else if key == "TitleUnicode"@ {
        Some(Ok(BeatmapView { title_unicode: value, ..b }))
    } else if key == "Artist"@ {
        Some(Ok(BeatmapView { artist: value, ..b }))
    } else if key == "ArtistUnicode"@ {
        Some(Ok(BeatmapView { artist_unicode: value, ..b }))
    } else if key == "Creator"@ {
        Some(Ok(BeatmapView { creator: value, ..b }))
    } else if key == "Version"@ {
        Some(Ok(BeatmapView { difficulty_name: value, ..b }))
    } else if key == "Source"@ {
        Some(Ok(BeatmapView { source: value, ..b }))
    } else if key == "Tags"@ {
        Some(Ok(BeatmapView { tags: split_spec(value, ' '), ..b }))
    } else if key == "BeatmapID"@ {
        Some(match int_value(value, i32::MIN as int, i32::MAX as int) {
            Ok(n) => Ok(BeatmapView { beatmap_id: n as i32, ..b }),
            Err(e) => Err(e),
        })
    } else if key == "BeatmapSetID"@ {
        Some(match int_value(value, i32::MIN as int, i32::MAX as int) {
            Ok(n) => Ok(BeatmapView { beatmap_set_id: n as i32, ..b }),
            Err(e) => Err(e),
        })
    } else {
        None
    }
}

pub(crate) fn apply_metadata_at(bm: &mut Beatmap, v: &Vec<char>, k0: usize, k1: usize, v0: usize, v1: usize) -> (r: Option<Result<(), LineFault>>)
    requires
        k0 <= k1 <= v@.len(),
        v0 <= v1 <= v@.len(),
    ensures
        match apply_metadata(old(bm).view(), v@.subrange(k0 as int, k1 as int), v@.subrange(v0 as int, v1 as int)) {
            None => r is None && final(bm).view() == old(bm).view(),
            Some(Ok(b)) => r matches Some(Ok(_)) && final(bm).view() == b,
            Some(Err(f)) => r matches Some(Err(e)) && e.view() == f,
        },
{
    if crate::text::range_is(v, k0, k1, "Title") {
        bm.title = crate::text::chars_to_string(v, v0, v1);
        return Some(Ok(()));
    }
    if crate::text::range_is(v, k0, k1, "TitleUnicode") {
        bm.title_unicode = crate::text::chars_to_string(v, v0, v1);
        return Some(Ok(()));
    }
    if crate::text::range_is(v, k0, k1, "Artist") {
        bm.artist = crate::text::chars_to_string(v, v0, v1);
        return Some(Ok(()));
    }
    if crate::text::range_is(v, k0, k1, "ArtistUnicode") {
        bm.artist_unicode = crate::text::chars_to_string(v, v0, v1);
        return Some(Ok(()));
    }
    if crate::text::range_is(v, k0, k1, "Creator") {
        bm.creator = crate::text::chars_to_string(v, v0, v1);
        return Some(Ok(()));
    }
    if crate::text::range_is(v, k0, k1, "Version") {
        bm.difficulty_name = crate::text::chars_to_string(v, v0, v1);
        return Some(Ok(()));
    }
    if crate::text::range_is(v, k0, k1, "Source") {
        bm.source = crate::text::chars_to_string(v, v0, v1);
        return Some(Ok(()));
    }
    if crate::text::range_is(v, k0, k1, "Tags") {
        bm.tags = split_tags(v, v0, v1);
        return Some(Ok(()));
    }
    if crate::text::range_is(v, k0, k1, "BeatmapID") {
        return match crate::text::parse_int(v, v0, v1, i32::MIN as i128, i32::MAX as i128) {
            Ok(n) => {
                bm.beatmap_id = n as i32;
                Some(Ok(()))
            },
            Err(k) => Some(Err(LineFault::Failed(ParseError::ParseInt(k)))),
        };
    }
    if crate::text::range_is(v, k0, k1, "BeatmapSetID") {
        return match crate::text::parse_int(v, v0, v1, i32::MIN as i128, i32::MAX as i128) {
            Ok(n) => {
                bm.beatmap_set_id = n as i32;
                Some(Ok(()))
            },
            Err(k) => Some(Err(LineFault::Failed(ParseError::ParseInt(k)))),
        };
    }
    None
}

/// The effect of the `key: value` line on a beatmap, for the keys of the
/// `[Difficulty]` section; `None` for other keys.
pub open spec fn apply_difficulty(b: BeatmapView, key: Seq<char>, value: Seq<char>) -> Option<Result<BeatmapView, Fault>> {
    if key == "HPDrainRate"@ {
        Some(match float_value(value) {
            Ok(t) => Ok(BeatmapView { difficulty: DifficultyView { hp_drain_rate: t, ..b.difficulty }, ..b }),
            Err(e) => Err(e),
        })
    } else if key == "CircleSize"@ {
        Some(match float_value(value) {
            Ok(t) => Ok(BeatmapView { difficulty: DifficultyView { circle_size: t, ..b.difficulty }, ..b }),
            Err(e) => Err(e),
        })
    } else if key == "OverallDifficulty"@ {
        Some(match float_value(value) {
            Ok(t) => Ok(BeatmapView { difficulty: DifficultyView { overall_difficulty: t, ..b.difficulty }, ..b }),
            Err(e) => Err(e),
        })
    } else if key == "ApproachRate"@ {
        Some(match float_value(value) {
            Ok(t) => Ok(BeatmapView { difficulty: DifficultyView { approach_rate: t, ..b.difficulty }, ..b }),
            Err(e) => Err(e),
        })
    } else if key == "SliderMultiplier"@ {
        Some(match float_value(value) {
            Ok(t) => Ok(BeatmapView { difficulty: DifficultyView { slider_multiplier: t, ..b.difficulty }, ..b }),
            Err(e) => Err(e),
        })
    } else if key == "SliderTickRate"@ {
        Some(match float_value(value) {
            Ok(t) => Ok(BeatmapView { difficulty: DifficultyView { slider_tick_rate: t, ..b.difficulty }, ..b }),
            Err(e) => Err(e),
        })
    } else {
        None
    }
}

fn apply_difficulty_at(bm: &mut Beatmap, v: &Vec<char>, k0: usize, k1: usize, v0: usize, v1: usize) -> (r: Option<Result<(), LineFault>>)
    requires
        k0 <= k1 <= v@.len(),
        v0 <= v1 <= v@.len(),
    ensures
        match apply_difficulty(old(bm).view(), v@.subrange(k0 as int, k1 as int), v@.subrange(v0 as int, v1 as int)) {
            None => r is None && final(bm).view() == old(bm).view(),
            Some(Ok(b)) => r matches Some(Ok(_)) && final(bm).view() == b,
            Some(Err(f)) => r matches Some(Err(e)) && e.view() == f,
        },
{
    if crate::text::range_is(v, k0, k1, "HPDrainRate") {
        return match crate::text::check_float(v, v0, v1) {
            Ok(()) => {
                bm.difficulty.hp_drain_rate = crate::text::chars_to_string(v, v0, v1);
                Some(Ok(()))
            },
            Err(k) => Some(Err(LineFault::Failed(ParseError::ParseFloat(k)))),
        };
    }
    if crate::text::range_is(v, k0, k1, "CircleSize") {
        return match crate::text::check_float(v, v0, v1) {
            Ok(()) => {
                bm.difficulty.circle_size = crate::text::chars_to_string(v, v0, v1);
                Some(Ok(()))
            },
            Err(k) => Some(Err(LineFault::Failed(ParseError::ParseFloat(k)))),
        };
    }
    if crate::text::range_is(v, k0, k1, "OverallDifficulty") {
        return match crate::text::check_float(v, v0, v1) {
            Ok(()) => {
                bm.difficulty.overall_difficulty = crate::text::chars_to_string(v, v0, v1);
                Some(Ok(()))
            },
            Err(k) => Some(Err(LineFault::Failed(ParseError::ParseFloat(k)))),
        };
    }
    if crate::text::range_is(v, k0, k1, "ApproachRate") {
        return match crate::text::check_float(v, v0, v1) {
            Ok(()) => {
                bm.difficulty.approach_rate = crate::text::chars_to_string(v, v0, v1);
                Some(Ok(()))
            },
            Err(k) => Some(Err(LineFault::Failed(ParseError::ParseFloat(k)))),
        };
    }
    if crate::text::range_is(v, k0, k1, "SliderMultiplier") {
        return match crate::text::check_float(v, v0, v1) {
            Ok(()) => {
                bm.difficulty.slider_multiplier = crate::text::chars_to_string(v, v0, v1);
                Some(Ok(()))
            },
            Err(k) => Some(Err(LineFault::Failed(ParseError::ParseFloat(k)))),
        };
    }
    if crate::text::range_is(v, k0, k1, "SliderTickRate") {
        return match crate::text::check_float(v, v0, v1) {
            Ok(()) => {
                bm.difficulty.slider_tick_rate = crate::text::chars_to_string(v, v0, v1);
                Some(Ok(()))
            },
            Err(k) => Some(Err(LineFault::Failed(ParseError::ParseFloat(k)))),
        };
    }
    None
}

/// The effect of a `key: value` line on a beatmap: keys that name no setting
/// change nothing.
pub open spec fn apply_kv(b: BeatmapView, key: Seq<char>, value: Seq<char>) -> Result<BeatmapView, Fault> {
    match apply_general(b, key, value) {
        Some(r) => r,
        None => match apply_editor(b, key, value) {
            Some(r) => r,
            None => match apply_metadata(b, key, value) {
                Some(r) => r,
                None => match apply_difficulty(b, key, value) {
                    Some(r) => r,
                    None => Ok(b),
                },
            },
        },
    }
}

/// The state of reading a beatmap: the current section and the beatmap read
/// so far.
pub struct ParseState {
    pub section: Seq<char>,
    pub beatmap: BeatmapView,
}

/// The state before the first line: the section `Version`, a new beatmap.
pub open spec fn initial_state() -> ParseState {
    ParseState { section: "Version"@, beatmap: default_beatmap() }
}

/// The effect of a line that is neither a section header nor blank, by
/// section: `Events` (lines starting with `//` are comments), `HitObjects`,
/// `TimingPoints` and `Colours` add one item each, `Version` reads the
/// format version line, and any other section reads `key: value` lines.
pub open spec fn apply_content(st: ParseState, line: Seq<char>) -> Result<ParseState, Fault> {
    let b = st.beatmap;
    if st.section == "Events"@ {
        if is_comment(line) {
            Ok(st)
        } else {
            match spec_parse_event(line) {
                Ok(e) => Ok(ParseState { section: st.section, beatmap: BeatmapView { events: b.events.push(e), ..b } }),
                Err(f) => Err(f),
            }
        }
    } else if st.section == "HitObjects"@ {
        match spec_parse_hitobject(line) {
            Ok(h) => Ok(ParseState { section: st.section, beatmap: BeatmapView { hit_objects: b.hit_objects.push(h), ..b } }),
            Err(f) => Err(f),
        }
    } else if st.section == "TimingPoints"@ {
        match spec_parse_timing_point(line) {
            Ok(t) => Ok(ParseState { section: st.section, beatmap: BeatmapView { timing_points: b.timing_points.push(t), ..b } }),
            Err(f) => Err(f),
        }
    } else if st.section == "Version"@ {
        match version_line(line) {
            None => Ok(st),
            Some(Ok(v)) => Ok(ParseState { section: st.section, beatmap: BeatmapView { version: v, ..b } }),
            Some(Err(f)) => Err(f),
        }
    } else if st.section == "Colours"@ {
        match spec_parse_color_line(line) {
            Ok(c) => Ok(ParseState { section: st.section, beatmap: BeatmapView { colors: b.colors.push(c), ..b } }),
            Err(f) => Err(f),
        }
    } else {
        match kv_split(line) {
            None => Ok(st),
            Some((key, value)) => match apply_kv(b, key, value) {
                Ok(b2) => Ok(ParseState { section: st.section, beatmap: b2 }),
                Err(f) => Err(f),
            },
        }
    }
}

/// The effect of one line: a section header switches the section, a blank
/// line changes nothing, any other line goes to its section.
pub open spec fn step(st: ParseState, line: Seq<char>) -> Result<ParseState, Fault> {
    match section_header(line) {
        Some(name) => Ok(ParseState { section: name, beatmap: st.beatmap }),
        None => if is_blank(line) {
            Ok(st)
        } else {
            apply_content(st, line)
        },
    }
}

/// Reading the lines of `s` from `start` on, in state `st`, after `ln`
/// lines: the state after the last line, or the number of the first line
/// that fails and how it fails.
pub open spec fn run(s: Seq<char>, start: int, st: ParseState, ln: nat) -> Result<ParseState, (nat, Fault)>
    decreases s.len() - start,
{
    if start < 0 || start >= s.len() {
        Ok(st)
    } else {
        proof {
            crate::text::lemma_find_char(s, '\n', start);
        }
        match step(st, line_at(s, start)) {
            Ok(st2) => run(s, next_line_start(s, start), st2, ln + 1),
            Err(f) => Err((ln + 1, f)),
        }
    }
}

/// The times of timing points.
pub open spec fn timing_keys(tps: Seq<TimingPointView>) -> Seq<i32> {
    tps.map_values(|t: TimingPointView| t.time.0)
}

/// The times of hit objects.
pub open spec fn hitobject_keys(hos: Seq<HitObjectView>) -> Seq<i32> {
    hos.map_values(|h: HitObjectView| h.start_time.0)
}

/// `xs` stably sorted by `keys`.
pub open spec fn sorted_by<T>(xs: Seq<T>, keys: Seq<i32>) -> Seq<T> {
    stable_order(keys, keys.len()).map_values(|j: int| xs[j])
}

/// The beatmap read, with its timing points and hit objects stably sorted by
/// time.
pub open spec fn finish(b: BeatmapView) -> BeatmapView {
    BeatmapView {
        timing_points: sorted_by(b.timing_points, timing_keys(b.timing_points)),
        hit_objects: sorted_by(b.hit_objects, hitobject_keys(b.hit_objects)),
        ..b
    }
}

/// Reading a beatmap from its text, line by line from a new beatmap in the
/// section `Version`: the beatmap, or the number of the first line that
/// fails (counting from 1) and how it fails.
pub open spec fn spec_parse_beatmap(s: Seq<char>) -> Result<BeatmapView, (nat, Fault)> {
    match run(s, 0, initial_state(), 0) {
        Ok(st) => Ok(finish(st.beatmap)),
        Err(e) => Err(e),
    }
}

pub(crate) fn copy_range(v: &Vec<char>, lo: usize, hi: usize) -> (r: Vec<char>)
    requires
        lo <= hi <= v@.len(),
    ensures
        r@ == v@.subrange(lo as int, hi as int),
{
    let mut out: Vec<char> = Vec::new();
    crate::text::push_range(&mut out, v, lo, hi);
    assert(out@ =~= v@.subrange(lo as int, hi as int));
    out
}

pub(crate) fn section_is(section: &Vec<char>, name: &str) -> (r: bool)
    ensures
        r == (section@ == name@),
{
    assert(section@.subrange(0, section@.len() as int) =~= section@);
    crate::text::range_is(section, 0, section.len(), name)
}

pub(crate) fn apply_kv_at(bm: &mut Beatmap, v: &Vec<char>, k0: usize, k1: usize, v0: usize, v1: usize) -> (r: Result<(), LineFault>)
    requires
        k0 <= k1 <= v@.len(),
        v0 <= v1 <= v@.len(),
    ensures
        match apply_kv(old(bm).view(), v@.subrange(k0 as int, k1 as int), v@.subrange(v0 as int, v1 as int)) {
            Ok(b) => r is Ok && final(bm).view() == b,
            Err(f) => r matches Err(e) && e.view() == f,
        },
{
    match apply_general_at(bm, v, k0, k1, v0, v1) {
        Some(r) => return r,
        None => {},
    }
    match apply_editor_at(bm, v, k0, k1, v0, v1) {
        Some(r) => return r,
        None => {},
    }
    match apply_metadata_at(bm, v, k0, k1, v0, v1) {
        Some(r) => return r,
        None => {},
    }
    match apply_difficulty_at(bm, v, k0, k1, v0, v1) {
        Some(r) => return r,
        None => {},
    }
    Ok(())
}

fn apply_content_at(bm: &mut Beatmap, section: &Vec<char>, v: &Vec<char>, lo: usize, hi: usize) -> (r: Result<(), LineFault>)
    requires
        lo <= hi <= v@.len(),
    ensures
        match apply_content(ParseState { section: section@, beatmap: old(bm).view() }, v@.subrange(lo as int, hi as int)) {
            Ok(st) => r is Ok && final(bm).view() == st.beatmap,
            Err(f) => r matches Err(e) && e.view() == f,
        },
{
    let ghost b = old(bm).view();
    if section_is(section, "Events") {
        if comment_at(v, lo, hi) {
            return Ok(());
        }
        let line = copy_range(v, lo, hi);
        let e = crate::events::parse_event_chars(&line)?;
        let ghost ev = e.view();
        bm.events.push(e);
        assert(bm.view().events =~= b.events.push(ev));
        assert(bm.view() =~= BeatmapView { events: b.events.push(ev), ..b });
        Ok(())
    } else if section_is(section, "HitObjects") {
        let line = copy_range(v, lo, hi);
        let h = crate::hitobject::parse_hitobject_chars(&line)?;
        let ghost hv = h.view();
        bm.hit_objects.push(h);
        assert(bm.view().hit_objects =~= b.hit_objects.push(hv));
        assert(bm.view() =~= BeatmapView { hit_objects: b.hit_objects.push(hv), ..b });
        Ok(())
    } else if section_is(section, "TimingPoints") {
        let line = copy_range(v, lo, hi);
        let t = crate::timing::parse_timing_point_chars(&line)?;
        let ghost tv = t.view();
        bm.timing_points.push(t);
        assert(bm.view().timing_points =~= b.timing_points.push(tv));
        assert(bm.view() =~= BeatmapView { timing_points: b.timing_points.push(tv), ..b });
        Ok(())
    } else if section_is(section, "Version") {
        match version_at(v, lo, hi) {
            None => Ok(()),
            Some(Ok(n)) => {
                bm.version = n;
                Ok(())
            },
            Some(Err(e)) => Err(e),
        }
    } else if section_is(section, "Colours") {
        let line = copy_range(v, lo, hi);
        let c = crate::color::parse_color_chars(&line)?;
        bm.colors.push(c);
        assert(bm.view() =~= BeatmapView { colors: b.colors.push(c), ..b });
        Ok(())
    } else {
        match kv_bounds(v, lo, hi) {
            None => Ok(()),
            Some((k0, k1, v0, v1)) => apply_kv_at(bm, v, k0, k1, v0, v1),
        }
    }
}

fn step_at(bm: &mut Beatmap, section: &mut Vec<char>, v: &Vec<char>, lo: usize, hi: usize) -> (r: Result<(), LineFault>)
    requires
        lo <= hi <= v@.len(),
    ensures
        match step(ParseState { section: old(section)@, beatmap: old(bm).view() }, v@.subrange(lo as int, hi as int)) {
            Ok(st) => r is Ok && final(bm).view() == st.beatmap && final(section)@ == st.section,
            Err(f) => r matches Err(e) && e.view() == f,
        },
{
    match header_bounds(v, lo, hi) {
        Some((a, b)) => {
            *section = copy_range(v, a, b);
            Ok(())
        },
        None => {
            if blank_at(v, lo, hi) {
                Ok(())
            } else {
                apply_content_at(bm, section, v, lo, hi)
            }
        },
    }
}

fn timing_key_vec(tps: &Vec<TimingPoint>) -> (r: Vec<i32>)
    ensures
        r@ == timing_keys(tps@.map_values(|t: TimingPoint| t.view())),
{
    let mut out: Vec<i32> = Vec::new();
    let mut i: usize = 0;
    while i < tps.len()
        invariant
            i <= tps@.len(),
            out@ == timing_keys(tps@.map_values(|t: TimingPoint| t.view())).take(i as int),
        decreases tps@.len() - i,
    {
        out.push(tps[i].time.0);
        assert(out@ =~= timing_keys(tps@.map_values(|t: TimingPoint| t.view())).take(i + 1));
        i = i + 1;
    }
    assert(timing_keys(tps@.map_values(|t: TimingPoint| t.view())).take(i as int) =~= timing_keys(
        tps@.map_values(|t: TimingPoint| t.view()),
    ));
    out
}

fn hitobject_key_vec(hos: &Vec<HitObject>) -> (r: Vec<i32>)
    ensures
        r@ == hitobject_keys(hos@.map_values(|h: HitObject| h.view())),
{
    let mut out: Vec<i32> = Vec::new();
    let mut i: usize = 0;
    while i < hos.len()
        invariant
            i <= hos@.len(),
            out@ == hitobject_keys(hos@.map_values(|h: HitObject| h.view())).take(i as int),
        decreases hos@.len() - i,
    {
        out.push(hos[i].start_time.0);
        assert(out@ =~= hitobject_keys(hos@.map_values(|h: HitObject| h.view())).take(i + 1));
        i = i + 1;
    }
    assert(hitobject_keys(hos@.map_values(|h: HitObject| h.view())).take(i as int) =~= hitobject_keys(
        hos@.map_values(|h: HitObject| h.view()),
    ));
    out
}

pub(crate) fn sort_lists(bm: &mut Beatmap)
    ensures
        final(bm).view() == finish(old(bm).view()),
{
    let ghost b = old(bm).view();
    let mut tps: Vec<TimingPoint> = Vec::new();
    std::mem::swap(&mut tps, &mut bm.timing_points);
    let tkeys = timing_key_vec(&tps);
    let ghost tps0 = tps@;
    let sorted_tps = crate::sorting::sort_by_keys(tps, &tkeys);
    proof {
        crate::sorting::stable_order_properties(tkeys@, tkeys@.len());
        let o = stable_order(tkeys@, tkeys@.len());
        assert(sorted_tps@.map_values(|t: TimingPoint| t.view()) =~= sorted_by(
            b.timing_points,
            timing_keys(b.timing_points),
        ));
    }
    bm.timing_points = sorted_tps;
    let mut hos: Vec<HitObject> = Vec::new();
    std::mem::swap(&mut hos, &mut bm.hit_objects);
    let hkeys = hitobject_key_vec(&hos);
    let sorted_hos = crate::sorting::sort_by_keys(hos, &hkeys);
    proof {
        crate::sorting::stable_order_properties(hkeys@, hkeys@.len());
        assert(sorted_hos@.map_values(|h: HitObject| h.view()) =~= sorted_by(
            b.hit_objects,
            hitobject_keys(b.hit_objects),
        ));
    }
    bm.hit_objects = sorted_hos;
    assert(bm.view() =~= finish(b));
}

/// Reads the beatmap text `v`: the beatmap, or the number of the first line
/// that fails and how.
pub fn parse_beatmap_chars(v: &Vec<char>) -> (r: Result<Beatmap, (usize, LineFault)>)
    ensures
        match spec_parse_beatmap(v@) {
            Ok(b) => r matches Ok(bm) && bm.view() == b,
            Err((ln, f)) => r matches Err((n, e)) && n == ln && e.view() == f,
        },
{
    let mut bm = Beatmap::default();
    let mut section = crate::text::str_chars("Version");
    let mut start: usize = 0;
    let mut ln: usize = 0;
    while start < v.len()
        invariant
            start <= v@.len(),
            ln <= start,
            run(v@, 0, initial_state(), 0) == run(
                v@,
                start as int,
                ParseState { section: section@, beatmap: bm.view() },
                ln as nat,
            ),
        decreases v@.len() - start,
    {
        let (lo, hi, next) = line_bounds(v, start);
        match step_at(&mut bm, &mut section, v, lo, hi) {
            Ok(()) => {},
            Err(f) => return Err((ln + 1, f)),
        }
        start = next;
        ln = ln + 1;
    }
    sort_lists(&mut bm);
    Ok(bm)
}

/// An error while reading a beatmap: the line where it occurred and what it
/// was.
#[derive(Debug)]
pub struct BeatmapParseError {
    /// The number of the line, counting from 1.
    pub line: usize,
    /// The error.
    pub inner: ParseError,
}

impl Beatmap {
    /// Reads a beatmap from the text of a `.osu` file.
    pub fn from_str(input: &str) -> (r: Result<Beatmap, BeatmapParseError>)
        requires
            !(spec_parse_beatmap(input@) matches Err((_, Fault::Malformed))),
        ensures
            match spec_parse_beatmap(input@) {
                Ok(b) => r matches Ok(bm) && bm.view() == b,
                Err((ln, Fault::Failed(e))) => r matches Err(err) && err.line == ln && err.inner.view() == e,
                Err((_, Fault::Malformed)) => false,
            },
    {
        let v = crate::text::str_chars(input);
        match parse_beatmap_chars(&v) {
            Ok(bm) => Ok(bm),
            Err((line, LineFault::Failed(inner))) => Err(BeatmapParseError { line, inner }),
            Err((line, LineFault::Malformed)) => {
                proof {
                    assert(false);
                }
                Err(BeatmapParseError { line, inner: ParseError::MissingColorComponent })
            },
        }
    }

    /// Reads a beatmap from the text of a `.osu` file, or returns `None` when
    /// a line lacks a field or holds a number that names nothing (see
    /// [`Fault::Malformed`]).
    pub fn from_str_checked(input: &str) -> (r: Option<Result<Beatmap, BeatmapParseError>>)
        ensures
            match spec_parse_beatmap(input@) {
                Ok(b) => r matches Some(Ok(bm)) && bm.view() == b,
                Err((ln, Fault::Failed(e))) => r matches Some(Err(err)) && err.line == ln && err.inner.view() == e,
                Err((_, Fault::Malformed)) => r is None,
            },
    {
        let v = crate::text::str_chars(input);
        match parse_beatmap_chars(&v) {
            Ok(bm) => Some(Ok(bm)),
            Err((line, LineFault::Failed(inner))) => Some(Err(BeatmapParseError { line, inner })),
            Err((_, LineFault::Malformed)) => None,
        }
    }
}


/// The text of lines, each followed by `\n`.
pub open spec fn lines_text(ls: Seq<Seq<char>>) -> Seq<char>
    decreases ls.len(),
{
    if ls.len() == 0 {
        Seq::empty()
    } else {
        lines_text(ls.drop_last()) + ls.last() + seq!['\n']
    }
}

/// The text of lines placed one after the other is the text of the first
/// lines followed by that of the others.
pub proof fn lemma_lines_text_concat(a: Seq<Seq<char>>, b: Seq<Seq<char>>)
    ensures
        lines_text(a + b) == lines_text(a) + lines_text(b),
    decreases b.len(),
{
    if b.len() == 0 {
        assert(a + b =~= a);
    } else {
        lemma_lines_text_concat(a, b.drop_last());
        assert((a + b).drop_last() =~= a + b.drop_last());
        assert((a + b).last() == b.last());
    }
}

/// The text of the first `k` lines is that of the first `k - 1` followed by
/// line `k - 1` and `\n`, down to the empty text of no lines.
proof fn lemma_lines_text_take(ls: Seq<Seq<char>>, k: int)
    requires
        0 <= k <= ls.len(),
    ensures
        k == 0 ==> lines_text(ls.take(k)) == Seq::<char>::empty(),
        k > 0 ==> lines_text(ls.take(k)) == lines_text(ls.take(k - 1)) + ls[k - 1] + seq!['\n'],
    decreases k,
{
    if k > 0 {
        assert(ls.take(k).drop_last() =~= ls.take(k - 1));
        assert(ls.take(k).last() == ls[k - 1]);
        lemma_lines_text_take(ls, k - 1);
    }
}

/// Ends line `k` of `ls` with `\n`, once the lines before it and its text
/// are written after `o`.
fn end_line(out: &mut Vec<char>, Ghost(ls): Ghost<Seq<Seq<char>>>, Ghost(o): Ghost<Seq<char>>, Ghost(k): Ghost<int>)
    requires
        0 <= k < ls.len(),
        old(out)@ == o + lines_text(ls.take(k)) + ls[k],
    ensures
        final(out)@ == o + lines_text(ls.take(k + 1)),
{
    out.push('\n');
    proof {
        let t = ls.take(k + 1);
        assert(t.drop_last() =~= ls.take(k));
        assert(t.last() == ls[k]);
        assert(final(out)@ =~= o + lines_text(ls.take(k + 1)));
    }
}

/// The text of a flag: `1` or `0`.
pub open spec fn flag_text(x: bool) -> Seq<char> {
    if x {
        seq!['1']
    } else {
        seq!['0']
    }
}

fn push_flag(out: &mut Vec<char>, x: bool)
    ensures
        final(out)@ == old(out)@ + flag_text(x),
{
    if x {
        out.push('1');
    } else {
        out.push('0');
    }
    assert(final(out)@ =~= old(out)@ + flag_text(x));
}

/// The name of a sample set in the `[General]` section.
pub open spec fn sample_set_name(s: SampleSet) -> Seq<char> {
    match s {
        SampleSet::Default => "None"@,
        SampleSet::Normal => "Normal"@,
        SampleSet::Soft => "Soft"@,
        SampleSet::Drum => "Drum"@,
    }
}

fn push_sample_set_name(out: &mut Vec<char>, s: SampleSet)
    ensures
        final(out)@ == old(out)@ + sample_set_name(s),
{
    match s {
        SampleSet::Default => crate::text::push_str(out, "None"),
        SampleSet::Normal => crate::text::push_str(out, "Normal"),
        SampleSet::Soft => crate::text::push_str(out, "Soft"),
        SampleSet::Drum => crate::text::push_str(out, "Drum"),
    }
}

/// The text of bookmarks: their numbers, `,`-separated.
pub open spec fn bookmarks_text(bs: Seq<i32>) -> Seq<char> {
    join_spec(bs.map_values(|n: i32| spec_decimal(n as int)), ',')
}

fn push_bookmarks(out: &mut Vec<char>, bs: &Vec<i32>)
    ensures
        final(out)@ == old(out)@ + bookmarks_text(bs@),
{
    let ghost f = bs@.map_values(|n: i32| spec_decimal(n as int));
    let ghost o = old(out)@;
    let mut i: usize = 0;
    while i < bs.len()
        invariant
            i <= bs@.len(),
            f == bs@.map_values(|n: i32| spec_decimal(n as int)),
            i == 0 ==> out@ == o,
            i > 0 ==> out@ == o + join_spec(f.take(i as int), ','),
        decreases bs@.len() - i,
    {
        if i > 0 {
            out.push(',');
        }
        crate::text::push_decimal(out, bs[i] as i128);
        proof {
            if i == 0 {
                assert(join_spec(f.take(1), ',') =~= f[0]);
                assert(out@ =~= o + join_spec(f.take(1), ','));
            } else {
                crate::text::lemma_join_push(f.take(i as int), f[i as int], ',');
                assert(f.take(i as int).push(f[i as int]) =~= f.take(i + 1));
                assert(out@ =~= o + join_spec(f.take(i + 1), ','));
            }
        }
        i = i + 1;
    }
    proof {
        if bs@.len() == 0 {
            assert(f =~= Seq::<Seq<char>>::empty());
            assert(out@ =~= o + bookmarks_text(bs@));
        } else {
            assert(f.take(i as int) =~= f);
        }
    }
}

fn push_tags(out: &mut Vec<char>, tags: &Vec<String>)
    ensures
        final(out)@ == old(out)@ + join_spec(tags@.map_values(|t: String| t@), ' '),
{
    let ghost f = tags@.map_values(|t: String| t@);
    let ghost o = old(out)@;
    let mut i: usize = 0;
    while i < tags.len()
        invariant
            i <= tags@.len(),
            f == tags@.map_values(|t: String| t@),
            i == 0 ==> out@ == o,
            i > 0 ==> out@ == o + join_spec(f.take(i as int), ' '),
        decreases tags@.len() - i,
    {
        if i > 0 {
            out.push(' ');
        }
        crate::text::push_str(out, &tags[i]);
        proof {
            if i == 0 {
                assert(join_spec(f.take(1), ' ') =~= f[0]);
                assert(out@ =~= o + join_spec(f.take(1), ' '));
            } else {
                crate::text::lemma_join_push(f.take(i as int), f[i as int], ' ');
                assert(f.take(i as int).push(f[i as int]) =~= f.take(i + 1));
                assert(out@ =~= o + join_spec(f.take(i + 1), ' '));
            }
        }
        i = i + 1;
    }
    proof {
        if tags@.len() == 0 {
            assert(f =~= Seq::<Seq<char>>::empty());
            assert(out@ =~= o + join_spec(f, ' '));
        } else {
            assert(f.take(i as int) =~= f);
        }
    }
}

/// The lines of the format version and the `[General]` section.
pub open spec fn general_lines(b: BeatmapView) -> Seq<Seq<char>> {
    seq![
        "osu file format v"@ + spec_decimal(b.version as int),
        Seq::<char>::empty(),
        "[General]"@,
        "AudioFilename: "@ + b.audio_filename,
        "AudioLeadIn: "@ + spec_decimal(b.audio_leadin.0 as int),
        "PreviewTime: "@ + spec_decimal(b.preview_time.0 as int),
        "Countdown: "@ + flag_text(b.countdown),
        "SampleSet: "@ + sample_set_name(b.sample_set),
        "StackLeniency: "@ + b.stack_leniency,
        "Mode: "@ + spec_decimal(b.mode.spec_value() as int),
        "LetterboxInBreaks: "@ + flag_text(b.letterbox_in_breaks),
        "WidescreenStoryboard: "@ + flag_text(b.widescreen_storyboard),
        Seq::<char>::empty(),
    ]
}

/// The lines of the `[Editor]` section.
pub open spec fn editor_lines(b: BeatmapView) -> Seq<Seq<char>> {
    seq![
        "[Editor]"@,
        "Bookmarks: "@ + bookmarks_text(b.bookmarks),
        "DistanceSpacing: "@ + b.distance_spacing,
        "BeatDivisor: "@ + spec_decimal(b.beat_divisor as int),
        "GridSize: "@ + spec_decimal(b.grid_size as int),
        "TimelineZoom: "@ + b.timeline_zoom,
        Seq::<char>::empty(),
    ]
}

/// The lines of the `[Metadata]` section.
pub open spec fn metadata_lines(b: BeatmapView) -> Seq<Seq<char>> {
    seq![
        "[Metadata]"@,
        "Title:"@ + b.title,
        "TitleUnicode:"@ + b.title_unicode,
        "Artist:"@ + b.artist,
        "ArtistUnicode:"@ + b.artist_unicode,
        "Creator:"@ + b.creator,
        "Version:"@ + b.difficulty_name,
        "Source:"@ + b.source,
        "Tags:"@ + join_spec(b.tags, ' '),
        "BeatmapID:"@ + spec_decimal(b.beatmap_id as int),
        "BeatmapSetID:"@ + spec_decimal(b.beatmap_set_id as int),
        Seq::<char>::empty(),
    ]
}

/// The lines of the `[Difficulty]` section.
pub open spec fn difficulty_lines(b: BeatmapView) -> Seq<Seq<char>> {
    seq![
        "[Difficulty]"@,
        "HPDrainRate:"@ + b.difficulty.hp_drain_rate,
        "CircleSize:"@ + b.difficulty.circle_size,
        "OverallDifficulty:"@ + b.difficulty.overall_difficulty,
        "ApproachRate:"@ + b.difficulty.approach_rate,
        "SliderMultiplier:"@ + b.difficulty.slider_multiplier,
        "SliderTickRate:"@ + b.difficulty.slider_tick_rate,
    ]
}


/// The lines of the `[Events]` section.
pub open spec fn event_lines(b: BeatmapView) -> Seq<Seq<char>> {
    seq!["[Events]"@] + b.events.map_values(|e: EventView| crate::events::spec_event_text(e)) + seq![Seq::<char>::empty()]
}

/// The lines of the `[TimingPoints]` section.
pub open spec fn timing_lines(b: BeatmapView) -> Seq<Seq<char>> {
    seq!["[TimingPoints]"@] + b.timing_points.map_values(|t: TimingPointView| crate::timing::spec_timing_point_text(t))
        + seq![Seq::<char>::empty()]
}

/// The line of the combo colour at index `i`: `Combo<i + 1> : r,g,b`.
pub open spec fn combo_line(i: int, c: Color) -> Seq<char> {
    "Combo"@ + spec_decimal(i + 1) + " : "@ + spec_color_str(c)
}

/// The lines of the `[Colours]` section.
pub open spec fn colour_lines(b: BeatmapView) -> Seq<Seq<char>> {
    seq!["[Colours]"@] + Seq::new(b.colors.len(), |i: int| combo_line(i, b.colors[i])) + seq![Seq::<char>::empty()]
}

/// The lines of the `[HitObjects]` section.
pub open spec fn hitobject_lines(b: BeatmapView) -> Seq<Seq<char>> {
    seq!["[HitObjects]"@] + b.hit_objects.map_values(|h: HitObjectView| crate::hitobject::spec_hitobject_text(h))
        + seq![Seq::<char>::empty()]
}

/// The lines of a beatmap's text, section by section.
pub open spec fn beatmap_lines(b: BeatmapView) -> Seq<Seq<char>> {
    general_lines(b) + editor_lines(b) + metadata_lines(b) + difficulty_lines(b) + event_lines(b)
        + timing_lines(b) + colour_lines(b) + hitobject_lines(b)
}

/// The text of a beatmap: its lines, each followed by `\n`.
pub open spec fn spec_beatmap_text(b: BeatmapView) -> Seq<char> {
    lines_text(beatmap_lines(b))
}

/// The lines of the format version and the `[General]` section in the
/// older layout, which spells the letterboxing key `LetterBoxInBreaks`.
pub open spec fn osz_general_lines(b: BeatmapView) -> Seq<Seq<char>> {
    general_lines(b).update(10, "LetterBoxInBreaks: "@ + flag_text(b.letterbox_in_breaks))
}

/// The lines of the older layout of a beatmap's text: the version and the
/// `[General]`, `[Editor]` and `[Metadata]` sections as in the current one,
/// empty `[Difficulty]` and `[Events]` sections, the timing points, an empty
/// `[Colours]` section and the hit objects, ending with an empty line.
pub open spec fn osz_lines(b: BeatmapView) -> Seq<Seq<char>> {
    osz_general_lines(b) + editor_lines(b) + metadata_lines(b) + osz_empty_sections()
        + timing_lines(b) + osz_colours() + hitobject_lines(b)
}

/// The empty `[Difficulty]` and `[Events]` sections of the older layout.
pub open spec fn osz_empty_sections() -> Seq<Seq<char>> {
    seq!["[Difficulty]"@, Seq::<char>::empty(), "[Events]"@, Seq::<char>::empty()]
}

/// The empty `[Colours]` section of the older layout.
pub open spec fn osz_colours() -> Seq<Seq<char>> {
    seq!["[Colours]"@, Seq::<char>::empty()]
}

/// The text of a beatmap in the older layout: its lines joined with `\n`.
/// The last line is empty, so every line before it is followed by `\n`.
pub open spec fn spec_osz_text(b: BeatmapView) -> Seq<char> {
    lines_text(osz_lines(b).drop_last())
}


/// The empty `[Events]` section that [`Beatmap::as_osz`] writes.
pub open spec fn as_osz_events() -> Seq<Seq<char>> {
    seq!["[Events]"@, Seq::<char>::empty()]
}

/// The lines that [`Beatmap::as_osz`] writes: those of the current layout,
/// with an empty `[Events]` section, ending with an empty line.
pub open spec fn as_osz_lines(b: BeatmapView) -> Seq<Seq<char>> {
    general_lines(b) + editor_lines(b) + metadata_lines(b) + difficulty_lines(b) + as_osz_events()
        + timing_lines(b) + colour_lines(b) + hitobject_lines(b)
}

/// The text that [`Beatmap::as_osz`] writes: its lines joined with `\n`.
/// The last line is empty, so every line before it is followed by `\n`.
pub open spec fn spec_as_osz_text(b: BeatmapView) -> Seq<char> {
    lines_text(as_osz_lines(b).drop_last())
}

impl Beatmap {
    fn write_general(&self, out: &mut Vec<char>)
        ensures
            final(out)@ == old(out)@ + lines_text(general_lines(self.view())),
    {
        let ghost ls = general_lines(self.view());
        let ghost o = old(out)@;
        assert(ls.take(0) =~= Seq::<Seq<char>>::empty());
        crate::text::push_str(out, "osu file format v");
        crate::text::push_decimal(out, self.version as i128);
        assert(out@ =~= o + lines_text(ls.take(0)) + ls[0]);
        end_line(out, Ghost(ls), Ghost(o), Ghost(0));
        assert(out@ =~= o + lines_text(ls.take(1)) + ls[1]);
        end_line(out, Ghost(ls), Ghost(o), Ghost(1));
        crate::text::push_str(out, "[General]");
        assert(out@ =~= o + lines_text(ls.take(2)) + ls[2]);
        end_line(out, Ghost(ls), Ghost(o), Ghost(2));
        crate::text::push_str(out, "AudioFilename: ");
        crate::text::push_str(out, &self.audio_filename);
        assert(out@ =~= o + lines_text(ls.take(3)) + ls[3]);
        end_line(out, Ghost(ls), Ghost(o), Ghost(3));
        crate::text::push_str(out, "AudioLeadIn: ");
        crate::text::push_decimal(out, self.audio_leadin.0 as i128);
        assert(out@ =~= o + lines_text(ls.take(4)) + ls[4]);
        end_line(out, Ghost(ls), Ghost(o), Ghost(4));
        crate::text::push_str(out, "PreviewTime: ");
        crate::text::push_decimal(out, self.preview_time.0 as i128);
        assert(out@ =~= o + lines_text(ls.take(5)) + ls[5]);
        end_line(out, Ghost(ls), Ghost(o), Ghost(5));
        crate::text::push_str(out, "Countdown: ");
        push_flag(out, self.countdown);
        assert(out@ =~= o + lines_text(ls.take(6)) + ls[6]);
        end_line(out, Ghost(ls), Ghost(o), Ghost(6));
        crate::text::push_str(out, "SampleSet: ");
        push_sample_set_name(out, self.sample_set);
        assert(out@ =~= o + lines_text(ls.take(7)) + ls[7]);
        end_line(out, Ghost(ls), Ghost(o), Ghost(7));
        crate::text::push_str(out, "StackLeniency: ");
        crate::text::push_str(out, &self.stack_leniency);
        assert(out@ =~= o + lines_text(ls.take(8)) + ls[8]);
        end_line(out, Ghost(ls), Ghost(o), Ghost(8));
        crate::text::push_str(out, "Mode: ");
        crate::text::push_decimal(out, self.mode.value() as i128);
        assert(out@ =~= o + lines_text(ls.take(9)) + ls[9]);
        end_line(out, Ghost(ls), Ghost(o), Ghost(9));
        crate::text::push_str(out, "LetterboxInBreaks: ");
        push_flag(out, self.letterbox_in_breaks);
        assert(out@ =~= o + lines_text(ls.take(10)) + ls[10]);
        end_line(out, Ghost(ls), Ghost(o), Ghost(10));
        crate::text::push_str(out, "WidescreenStoryboard: ");
        push_flag(out, self.widescreen_storyboard);
        assert(out@ =~= o + lines_text(ls.take(11)) + ls[11]);
        end_line(out, Ghost(ls), Ghost(o), Ghost(11));
        assert(out@ =~= o + lines_text(ls.take(12)) + ls[12]);
        end_line(out, Ghost(ls), Ghost(o), Ghost(12));
        assert(ls.take(ls.len() as int) =~= ls);
    }

    fn write_general_osz(&self, out: &mut Vec<char>)
        ensures
            final(out)@ == old(out)@ + lines_text(osz_general_lines(self.view())),
    {
        let ghost ls = osz_general_lines(self.view());
        let ghost o = old(out)@;
        assert(ls.take(0) =~= Seq::<Seq<char>>::empty());
        crate::text::push_str(out, "osu file format v");
        crate::text::push_decimal(out, self.version as i128);
        assert(out@ =~= o + lines_text(ls.take(0)) + ls[0]);
        end_line(out, Ghost(ls), Ghost(o), Ghost(0));
        assert(out@ =~= o + lines_text(ls.take(1)) + ls[1]);
        end_line(out, Ghost(ls), Ghost(o), Ghost(1));
        crate::text::push_str(out, "[General]");
        assert(out@ =~= o + lines_text(ls.take(2)) + ls[2]);
        end_line(out, Ghost(ls), Ghost(o), Ghost(2));
        crate::text::push_str(out, "AudioFilename: ");
        crate::text::push_str(out, &self.audio_filename);
        assert(out@ =~= o + lines_text(ls.take(3)) + ls[3]);
        end_line(out, Ghost(ls), Ghost(o), Ghost(3));
        crate::text::push_str(out, "AudioLeadIn: ");
        crate::text::push_decimal(out, self.audio_leadin.0 as i128);
        assert(out@ =~= o + lines_text(ls.take(4)) + ls[4]);
        end_line(out, Ghost(ls), Ghost(o), Ghost(4));
        crate::text::push_str(out, "PreviewTime: ");
        crate::text::push_decimal(out, self.preview_time.0 as i128);
        assert(out@ =~= o + lines_text(ls.take(5)) + ls[5]);
        end_line(out, Ghost(ls), Ghost(o), Ghost(5));
        crate::text::push_str(out, "Countdown: ");
        push_flag(out, self.countdown);
        assert(out@ =~= o + lines_text(ls.take(6)) + ls[6]);
        end_line(out, Ghost(ls), Ghost(o), Ghost(6));
        crate::text::push_str(out, "SampleSet: ");
        push_sample_set_name(out, self.sample_set);
        assert(out@ =~= o + lines_text(ls.take(7)) + ls[7]);
        end_line(out, Ghost(ls), Ghost(o), Ghost(7));
        crate::text::push_str(out, "StackLeniency: ");
        crate::text::push_str(out, &self.stack_leniency);
        assert(out@ =~= o + lines_text(ls.take(8)) + ls[8]);
        end_line(out, Ghost(ls), Ghost(o), Ghost(8));
        crate::text::push_str(out, "Mode: ");
        crate::text::push_decimal(out, self.mode.value() as i128);
        assert(out@ =~= o + lines_text(ls.take(9)) + ls[9]);
        end_line(out, Ghost(ls), Ghost(o), Ghost(9));
        crate::text::push_str(out, "LetterBoxInBreaks: ");
        push_flag(out, self.letterbox_in_breaks);
        assert(out@ =~= o + lines_text(ls.take(10)) + ls[10]);
        end_line(out, Ghost(ls), Ghost(o), Ghost(10));
        crate::text::push_str(out, "WidescreenStoryboard: ");
        push_flag(out, self.widescreen_storyboard);
        assert(out@ =~= o + lines_text(ls.take(11)) + ls[11]);
        end_line(out, Ghost(ls), Ghost(o), Ghost(11));
        assert(out@ =~= o + lines_text(ls.take(12)) + ls[12]);
        end_line(out, Ghost(ls), Ghost(o), Ghost(12));
        assert(ls.take(ls.len() as int) =~= ls);
    }

    fn write_editor(&self, out: &mut Vec<char>)
        ensures
            final(out)@ == old(out)@ + lines_text(editor_lines(self.view())),
    {
        let ghost ls = editor_lines(self.view());
        let ghost o = old(out)@;
        assert(ls.take(0) =~= Seq::<Seq<char>>::empty());
        crate::text::push_str(out, "[Editor]");
        assert(out@ =~= o + lines_text(ls.take(0)) + ls[0]);
        end_line(out, Ghost(ls), Ghost(o), Ghost(0));
        crate::text::push_str(out, "Bookmarks: ");
        push_bookmarks(out, &self.bookmarks);
        assert(out@ =~= o + lines_text(ls.take(1)) + ls[1]);
        end_line(out, Ghost(ls), Ghost(o), Ghost(1));
        crate::text::push_str(out, "DistanceSpacing: ");
        crate::text::push_str(out, &self.distance_spacing);
        assert(out@ =~= o + lines_text(ls.take(2)) + ls[2]);
        end_line(out, Ghost(ls), Ghost(o), Ghost(2));
        crate::text::push_str(out, "BeatDivisor: ");
        crate::text::push_decimal(out, self.beat_divisor as i128);
        assert(out@ =~= o + lines_text(ls.take(3)) + ls[3]);
        end_line(out, Ghost(ls), Ghost(o), Ghost(3));
        crate::text::push_str(out, "GridSize: ");
        crate::text::push_decimal(out, self.grid_size as i128);
        assert(out@ =~= o + lines_text(ls.take(4)) + ls[4]);
        end_line(out, Ghost(ls), Ghost(o), Ghost(4));
        crate::text::push_str(out, "TimelineZoom: ");
        crate::text::push_str(out, &self.timeline_zoom);
        assert(out@ =~= o + lines_text(ls.take(5)) + ls[5]);
        end_line(out, Ghost(ls), Ghost(o), Ghost(5));
        assert(out@ =~= o + lines_text(ls.take(6)) + ls[6]);
        end_line(out, Ghost(ls), Ghost(o), Ghost(6));
        assert(ls.take(ls.len() as int) =~= ls);
    }

    fn write_metadata(&self, out: &mut Vec<char>)
        ensures
            final(out)@ == old(out)@ + lines_text(metadata_lines(self.view())),
    {
        let ghost ls = metadata_lines(self.view());
        let ghost o = old(out)@;
        assert(ls.take(0) =~= Seq::<Seq<char>>::empty());
        crate::text::push_str(out, "[Metadata]");
        assert(out@ =~= o + lines_text(ls.take(0)) + ls[0]);
        end_line(out, Ghost(ls), Ghost(o), Ghost(0));
        crate::text::push_str(out, "Title:");
        crate::text::push_str(out, &self.title);
        assert(out@ =~= o + lines_text(ls.take(1)) + ls[1]);
        end_line(out, Ghost(ls), Ghost(o), Ghost(1));
        crate::text::push_str(out, "TitleUnicode:");
        crate::text::push_str(out, &self.title_unicode);
        assert(out@ =~= o + lines_text(ls.take(2)) + ls[2]);
        end_line(out, Ghost(ls), Ghost(o), Ghost(2));
        crate::text::push_str(out, "Artist:");
        crate::text::push_str(out, &self.artist);
        assert(out@ =~= o + lines_text(ls.take(3)) + ls[3]);
        end_line(out, Ghost(ls), Ghost(o), Ghost(3));
        crate::text::push_str(out, "ArtistUnicode:");
        crate::text::push_str(out, &self.artist_unicode);
        assert(out@ =~= o + lines_text(ls.take(4)) + ls[4]);
        end_line(out, Ghost(ls), Ghost(o), Ghost(4));
        crate::text::push_str(out, "Creator:");
        crate::text::push_str(out, &self.creator);
        assert(out@ =~= o + lines_text(ls.take(5)) + ls[5]);
        end_line(out, Ghost(ls), Ghost(o), Ghost(5));
        crate::text::push_str(out, "Version:");
        crate::text::push_str(out, &self.difficulty_name);
        assert(out@ =~= o + lines_text(ls.take(6)) + ls[6]);
        end_line(out, Ghost(ls), Ghost(o), Ghost(6));
        crate::text::push_str(out, "Source:");
        crate::text::push_str(out, &self.source);
        assert(out@ =~= o + lines_text(ls.take(7)) + ls[7]);
        end_line(out, Ghost(ls), Ghost(o), Ghost(7));
        crate::text::push_str(out, "Tags:");
        push_tags(out, &self.tags);
        assert(out@ =~= o + lines_text(ls.take(8)) + ls[8]);
        end_line(out, Ghost(ls), Ghost(o), Ghost(8));
        crate::text::push_str(out, "BeatmapID:");
        crate::text::push_decimal(out, self.beatmap_id as i128);
        assert(out@ =~= o + lines_text(ls.take(9)) + ls[9]);
        end_line(out, Ghost(ls), Ghost(o), Ghost(9));
        crate::text::push_str(out, "BeatmapSetID:");
        crate::text::push_decimal(out, self.beatmap_set_id as i128);
        assert(out@ =~= o + lines_text(ls.take(10)) + ls[10]);
        end_line(out, Ghost(ls), Ghost(o), Ghost(10));
        assert(out@ =~= o + lines_text(ls.take(11)) + ls[11]);
        end_line(out, Ghost(ls), Ghost(o), Ghost(11));
        assert(ls.take(ls.len() as int) =~= ls);
    }

    fn write_difficulty(&self, out: &mut Vec<char>)
        ensures
            final(out)@ == old(out)@ + lines_text(difficulty_lines(self.view())),
    {
        let ghost ls = difficulty_lines(self.view());
        let ghost o = old(out)@;
        assert(ls.take(0) =~= Seq::<Seq<char>>::empty());
        crate::text::push_str(out, "[Difficulty]");
        assert(out@ =~= o + lines_text(ls.take(0)) + ls[0]);
        end_line(out, Ghost(ls), Ghost(o), Ghost(0));
        crate::text::push_str(out, "HPDrainRate:");
        crate::text::push_str(out, &self.difficulty.hp_drain_rate);
        assert(out@ =~= o + lines_text(ls.take(1)) + ls[1]);
        end_line(out, Ghost(ls), Ghost(o), Ghost(1));
        crate::text::push_str(out, "CircleSize:");
        crate::text::push_str(out, &self.difficulty.circle_size);
        assert(out@ =~= o + lines_text(ls.take(2)) + ls[2]);
        end_line(out, Ghost(ls), Ghost(o), Ghost(2));
        crate::text::push_str(out, "OverallDifficulty:");
        crate::text::push_str(out, &self.difficulty.overall_difficulty);
        assert(out@ =~= o + lines_text(ls.take(3)) + ls[3]);
        end_line(out, Ghost(ls), Ghost(o), Ghost(3));
        crate::text::push_str(out, "ApproachRate:");
        crate::text::push_str(out, &self.difficulty.approach_rate);
        assert(out@ =~= o + lines_text(ls.take(4)) + ls[4]);
        end_line(out, Ghost(ls), Ghost(o), Ghost(4));
        crate::text::push_str(out, "SliderMultiplier:");
        crate::text::push_str(out, &self.difficulty.slider_multiplier);
        assert(out@ =~= o + lines_text(ls.take(5)) + ls[5]);
        end_line(out, Ghost(ls), Ghost(o), Ghost(5));
        crate::text::push_str(out, "SliderTickRate:");
        crate::text::push_str(out, &self.difficulty.slider_tick_rate);
        assert(out@ =~= o + lines_text(ls.take(6)) + ls[6]);
        end_line(out, Ghost(ls), Ghost(o), Ghost(6));
        assert(ls.take(ls.len() as int) =~= ls);
    }

    fn write_events(&self, out: &mut Vec<char>)
        ensures
            final(out)@ == old(out)@ + lines_text(event_lines(self.view())),
    {
        let ghost ls = event_lines(self.view());
        let ghost o = old(out)@;
        let ghost evs = self.view().events;
        assert(ls.take(0) =~= Seq::<Seq<char>>::empty());
        crate::text::push_str(out, "[Events]");
        assert(out@ =~= o + lines_text(ls.take(0)) + ls[0]);
        end_line(out, Ghost(ls), Ghost(o), Ghost(0));
        let mut i: usize = 0;
        while i < self.events.len()
            invariant
                i <= self.events@.len(),
                ls == event_lines(self.view()),
                evs == self.view().events,
                out@ == o + lines_text(ls.take(1 + i)),
            decreases self.events@.len() - i,
        {
            self.events[i].push_text(out);
            assert(ls[1 + i] == crate::events::spec_event_text(evs[i as int]));
            assert(out@ =~= o + lines_text(ls.take(1 + i)) + ls[1 + i]);
            end_line(out, Ghost(ls), Ghost(o), Ghost(1 + i));
            i = i + 1;
        }
        assert(out@ =~= o + lines_text(ls.take(1 + i)) + ls[1 + i]);
        end_line(out, Ghost(ls), Ghost(o), Ghost(1 + i));
        assert(ls.take(2 + i) =~= ls);
    }

    fn write_timing_points(&self, out: &mut Vec<char>)
        ensures
            final(out)@ == old(out)@ + lines_text(timing_lines(self.view())),
    {
        let ghost ls = timing_lines(self.view());
        let ghost o = old(out)@;
        let ghost tps = self.view().timing_points;
        assert(ls.take(0) =~= Seq::<Seq<char>>::empty());
        crate::text::push_str(out, "[TimingPoints]");
        assert(out@ =~= o + lines_text(ls.take(0)) + ls[0]);
        end_line(out, Ghost(ls), Ghost(o), Ghost(0));
        let mut i: usize = 0;
        while i < self.timing_points.len()
            invariant
                i <= self.timing_points@.len(),
                ls == timing_lines(self.view()),
                tps == self.view().timing_points,
                out@ == o + lines_text(ls.take(1 + i)),
            decreases self.timing_points@.len() - i,
        {
            self.timing_points[i].push_text(out);
            assert(ls[1 + i] == crate::timing::spec_timing_point_text(tps[i as int]));
            assert(out@ =~= o + lines_text(ls.take(1 + i)) + ls[1 + i]);
            end_line(out, Ghost(ls), Ghost(o), Ghost(1 + i));
            i = i + 1;
        }
        assert(out@ =~= o + lines_text(ls.take(1 + i)) + ls[1 + i]);
        end_line(out, Ghost(ls), Ghost(o), Ghost(1 + i));
        assert(ls.take(2 + i) =~= ls);
    }

    fn write_colours(&self, out: &mut Vec<char>)
        ensures
            final(out)@ == old(out)@ + lines_text(colour_lines(self.view())),
    {
        let ghost ls = colour_lines(self.view());
        let ghost o = old(out)@;
        assert(ls.take(0) =~= Seq::<Seq<char>>::empty());
        crate::text::push_str(out, "[Colours]");
        assert(out@ =~= o + lines_text(ls.take(0)) + ls[0]);
        end_line(out, Ghost(ls), Ghost(o), Ghost(0));
        let mut i: usize = 0;
        while i < self.colors.len()
            invariant
                i <= self.colors@.len(),
                ls == colour_lines(self.view()),
                out@ == o + lines_text(ls.take(1 + i)),
            decreases self.colors@.len() - i,
        {
            crate::text::push_str(out, "Combo");
            crate::text::push_decimal(out, (i + 1) as i128);
            crate::text::push_str(out, " : ");
            self.colors[i].push_text(out);
            assert(ls[1 + i] == combo_line(i as int, self.colors@[i as int]));
            assert(out@ =~= o + lines_text(ls.take(1 + i)) + ls[1 + i]);
            end_line(out, Ghost(ls), Ghost(o), Ghost(1 + i));
            i = i + 1;
        }
        assert(out@ =~= o + lines_text(ls.take(1 + i)) + ls[1 + i]);
        end_line(out, Ghost(ls), Ghost(o), Ghost(1 + i));
        assert(ls.take(2 + i) =~= ls);
    }

    fn write_hit_objects(&self, out: &mut Vec<char>)
        ensures
            final(out)@ == old(out)@ + lines_text(hitobject_lines(self.view())),
    {
        let ghost ls = hitobject_lines(self.view());
        let ghost o = old(out)@;
        let ghost hos = self.view().hit_objects;
        assert(ls.take(0) =~= Seq::<Seq<char>>::empty());
        crate::text::push_str(out, "[HitObjects]");
        assert(out@ =~= o + lines_text(ls.take(0)) + ls[0]);
        end_line(out, Ghost(ls), Ghost(o), Ghost(0));
        let mut i: usize = 0;
        while i < self.hit_objects.len()
            invariant
                i <= self.hit_objects@.len(),
                ls == hitobject_lines(self.view()),
                hos == self.view().hit_objects,
                out@ == o + lines_text(ls.take(1 + i)),
            decreases self.hit_objects@.len() - i,
        {
            self.hit_objects[i].push_text(out);
            assert(ls[1 + i] == crate::hitobject::spec_hitobject_text(hos[i as int]));
            assert(out@ =~= o + lines_text(ls.take(1 + i)) + ls[1 + i]);
            end_line(out, Ghost(ls), Ghost(o), Ghost(1 + i));
            i = i + 1;
        }
        assert(out@ =~= o + lines_text(ls.take(1 + i)) + ls[1 + i]);
        end_line(out, Ghost(ls), Ghost(o), Ghost(1 + i));
        assert(ls.take(2 + i) =~= ls);
    }

    /// Appends the text of this beatmap to `out`.
    pub fn push_text(&self, out: &mut Vec<char>)
        ensures
            final(out)@ == old(out)@ + spec_beatmap_text(self.view()),
    {
        let ghost b = self.view();
        let ghost o = old(out)@;
        self.write_general(out);
        self.write_editor(out);
        self.write_metadata(out);
        self.write_difficulty(out);
        self.write_events(out);
        self.write_timing_points(out);
        self.write_colours(out);
        self.write_hit_objects(out);
        proof {
            let g = general_lines(b);
            let e = editor_lines(b);
            let m = metadata_lines(b);
            let d = difficulty_lines(b);
            let ev = event_lines(b);
            let t = timing_lines(b);
            let c = colour_lines(b);
            let h = hitobject_lines(b);
            lemma_lines_text_concat(g, e);
            lemma_lines_text_concat(g + e, m);
            lemma_lines_text_concat(g + e + m, d);
            lemma_lines_text_concat(g + e + m + d, ev);
            lemma_lines_text_concat(g + e + m + d + ev, t);
            lemma_lines_text_concat(g + e + m + d + ev + t, c);
            lemma_lines_text_concat(g + e + m + d + ev + t + c, h);
            assert(final(out)@ =~= o + spec_beatmap_text(b));
        }
    }

    /// The text of this beatmap, as a `.osu` file holds it.
    pub fn to_string(&self) -> (r: String)
        ensures
            r@ == spec_beatmap_text(self.view()),
    {
        let mut out: Vec<char> = Vec::new();
        self.push_text(&mut out);
        let n = out.len();
        assert(out@.subrange(0, n as int) =~= out@);
        crate::text::chars_to_string(&out, 0, n)
    }

    /// The text of this beatmap in the older layout (see [`spec_osz_text`]).
    /// Writing it cannot fail.
    pub fn serialize_osz(&self) -> (r: Result<String, ParseError>)
        ensures
            r matches Ok(t) && t@ == spec_osz_text(self.view()),
    {
        let ghost b = self.view();
        let mut out: Vec<char> = Vec::new();
        self.write_general_osz(&mut out);
        self.write_editor(&mut out);
        self.write_metadata(&mut out);
        let ghost before_empty = out@;
        crate::text::push_str(&mut out, "[Difficulty]\n\n[Events]\n\n");
        proof {
            reveal_strlit("[Difficulty]\n\n[Events]\n\n");
            reveal_strlit("[Difficulty]");
            reveal_strlit("[Events]");
            let d = osz_empty_sections();
            lemma_lines_text_take(d, 0);
            lemma_lines_text_take(d, 1);
            lemma_lines_text_take(d, 2);
            lemma_lines_text_take(d, 3);
            lemma_lines_text_take(d, 4);
            assert(d.take(4) =~= d);
            assert(lines_text(d) =~= "[Difficulty]\n\n[Events]\n\n"@);
        }
        self.write_timing_points(&mut out);
        crate::text::push_str(&mut out, "[Colours]\n\n");
        proof {
            reveal_strlit("[Colours]\n\n");
            reveal_strlit("[Colours]");
            let c = osz_colours();
            lemma_lines_text_take(c, 0);
            lemma_lines_text_take(c, 1);
            lemma_lines_text_take(c, 2);
            assert(c.take(2) =~= c);
            assert(lines_text(c) =~= "[Colours]\n\n"@);
        }
        let ghost before_objects = out@;
        self.write_hit_objects(&mut out);
        let _ = out.pop();
        proof {
            let g = osz_general_lines(b);
            let e = editor_lines(b);
            let m = metadata_lines(b);
            let d = osz_empty_sections();
            let t = timing_lines(b);
            let c = osz_colours();
            let h = hitobject_lines(b);
            let hd = h.drop_last();
            assert(lines_text(h) == lines_text(hd) + h.last() + seq!['\n']);
            assert(h.last() == Seq::<char>::empty());
            assert(out@ =~= before_objects + lines_text(hd));
            lemma_lines_text_concat(g, e);
            lemma_lines_text_concat(g + e, m);
            lemma_lines_text_concat(g + e + m, d);
            lemma_lines_text_concat(g + e + m + d, t);
            lemma_lines_text_concat(g + e + m + d + t, c);
            lemma_lines_text_concat(g + e + m + d + t + c, hd);
            assert(osz_lines(b).drop_last() =~= g + e + m + d + t + c + hd);
            assert(out@ =~= spec_osz_text(b));
        }
        let n = out.len();
        assert(out@.subrange(0, n as int) =~= out@);
        Ok(crate::text::chars_to_string(&out, 0, n))
    }

    /// The text of this beatmap with its events left out (see
    /// [`spec_as_osz_text`]). Writing it cannot fail.
    pub fn as_osz(&self) -> (r: Result<String, ParseError>)
        ensures
            r matches Ok(t) && t@ == spec_as_osz_text(self.view()),
    {
        let ghost b = self.view();
        let mut out: Vec<char> = Vec::new();
        self.write_general(&mut out);
        self.write_editor(&mut out);
        self.write_metadata(&mut out);
        self.write_difficulty(&mut out);
        crate::text::push_str(&mut out, "[Events]\n\n");
        proof {
            reveal_strlit("[Events]\n\n");
            reveal_strlit("[Events]");
            let ev = as_osz_events();
            lemma_lines_text_take(ev, 0);
            lemma_lines_text_take(ev, 1);
            lemma_lines_text_take(ev, 2);
            assert(ev.take(2) =~= ev);
            assert(lines_text(ev) =~= "[Events]\n\n"@);
        }
        self.write_timing_points(&mut out);
        self.write_colours(&mut out);
        let ghost before_objects = out@;
        self.write_hit_objects(&mut out);
        let _ = out.pop();
        proof {
            let g = general_lines(b);
            let e = editor_lines(b);
            let m = metadata_lines(b);
            let d = difficulty_lines(b);
            let ev = as_osz_events();
            let t = timing_lines(b);
            let c = colour_lines(b);
            let h = hitobject_lines(b);
            let hd = h.drop_last();
            assert(lines_text(h) == lines_text(hd) + h.last() + seq!['\n']);
            assert(h.last() == Seq::<char>::empty());
            assert(out@ =~= before_objects + lines_text(hd));
            lemma_lines_text_concat(g, e);
            lemma_lines_text_concat(g + e, m);
            lemma_lines_text_concat(g + e + m, d);
            lemma_lines_text_concat(g + e + m + d, ev);
            lemma_lines_text_concat(g + e + m + d + ev, t);
            lemma_lines_text_concat(g + e + m + d + ev + t, c);
            lemma_lines_text_concat(g + e + m + d + ev + t + c, hd);
            assert(as_osz_lines(b).drop_last() =~= g + e + m + d + ev + t + c + hd);
            assert(out@ =~= spec_as_osz_text(b));
        }
        let n = out.len();
        assert(out@.subrange(0, n as int) =~= out@);
        Ok(crate::text::chars_to_string(&out, 0, n))
    }
}

} // verus!
