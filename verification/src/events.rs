//! Beatmap events: lines of the `[Events]` section (backgrounds, videos,
//! breaks; anything else is kept as a storyboard line).

use crate::enums::Millis;
use crate::errors::int_fault;
use crate::errors::Fault;
use crate::errors::LineFault;
use crate::errors::ParseError;
use crate::hitsounds::int_field;
use crate::math::Point;
use crate::text::spec_decimal;
use crate::text::spec_parse_int;
use crate::text::split_spec;
use vstd::prelude::*;

verus! {

/// Used in `Event::Background`.
#[derive(Debug, Clone, PartialEq, Eq)]
pub struct BackgroundEvent {
    /// Location of the background image relative to the beatmap directory.
    pub filename: String,
    /// Offset in osu!pixels from the center of the screen.
    pub offset: Point<i32>,
}

/// Used in `Event::Video`.
#[derive(Debug, Clone, PartialEq, Eq)]
pub struct VideoEvent {
    /// The timestamp at which the video starts.
    pub start_time: Millis,
    /// Location of the video relative to the beatmap directory.
    pub filename: String,
    /// Offset in osu!pixels from the center of the screen.
    pub offset: Point<i32>,
}

/// Used in `Event::Break`.
#[derive(Debug, Clone, PartialEq, Eq)]
pub struct BreakEvent {
    /// The timestamp at which the break starts.
    pub start_time: Millis,
    /// The timestamp at which the break ends.
    pub end_time: Millis,
}

/// Beatmap event.
#[non_exhaustive]
#[derive(Debug, Clone, PartialEq, Eq)]
pub enum Event {
    /// Background event.
    Background(BackgroundEvent),
    /// Video event.
    Video(VideoEvent),
    /// Break event.
    Break(BreakEvent),
    /// Any other line, kept as it is.
    Storyboard(String),
}

/// An event, as a specification.
pub enum EventView {
    Background { filename: Seq<char>, offset: Point<i32> },
    Video { start_time: i32, filename: Seq<char>, offset: Point<i32> },
    Break { start_time: i32, end_time: i32 },
    Storyboard(Seq<char>),
}

impl Event {
    /// The event as a specification.
    pub open spec fn view(&self) -> EventView {
        match self {
            Event::Background(e) => EventView::Background { filename: e.filename@, offset: e.offset },
            Event::Video(e) => EventView::Video {
                start_time: e.start_time.0,
                filename: e.filename@,
                offset: e.offset,
            },
            Event::Break(e) => EventView::Break {
                start_time: e.start_time.0,
                end_time: e.end_time.0,
            },
            Event::Storyboard(line) => EventView::Storyboard(line@),
        }
    }
}

/// The index of the first character of `s` at or after `from` that is not `c`.
pub open spec fn skip_char(s: Seq<char>, c: char, from: int) -> int
    decreases s.len() - from,
{
    if from < 0 || from >= s.len() {
        s.len() as int
    } else if s[from] != c {
        from
    } else {
        skip_char(s, c, from + 1)
    }
}

/// The index after the last character of `s` before `to` that is not `c`
/// (`0` when there is none).
pub open spec fn skip_char_back(s: Seq<char>, c: char, to: int) -> int
    decreases to,
{
    if to <= 0 || to > s.len() {
        0
    } else if s[to - 1] != c {
        to
    } else {
        skip_char_back(s, c, to - 1)
    }
}

/// `s` without the `c`s at its start and its end (`str::trim_matches`).
pub open spec fn trim_char(s: Seq<char>, c: char) -> Seq<char> {
    let a = skip_char(s, c, 0);
    if a >= s.len() {
        Seq::empty()
    } else {
        s.subrange(a, skip_char_back(s, c, s.len() as int))
    }
}

proof fn lemma_skip_char(s: Seq<char>, c: char, from: int)
    requires
        0 <= from <= s.len(),
    ensures
        from <= skip_char(s, c, from) <= s.len(),
        skip_char(s, c, from) < s.len() ==> s[skip_char(s, c, from)] != c,
        forall|k: int| from <= k < skip_char(s, c, from) ==> s[k] == c,
    decreases s.len() - from,
{
    if from < s.len() && s[from] == c {
        lemma_skip_char(s, c, from + 1);
    }
}

proof fn lemma_skip_char_back(s: Seq<char>, c: char, to: int)
    requires
        0 <= to <= s.len(),
    ensures
        0 <= skip_char_back(s, c, to) <= to,
        skip_char_back(s, c, to) > 0 ==> s[skip_char_back(s, c, to) - 1] != c,
        forall|k: int| skip_char_back(s, c, to) <= k < to ==> s[k] == c,
    decreases to,
{
    if to > 0 && s[to - 1] == c {
        lemma_skip_char_back(s, c, to - 1);
    }
}

/// The offset of a background or video: parts 3 and 4 when both are
/// there, otherwise the origin.
pub open spec fn spec_parse_offset(parts: Seq<Seq<char>>) -> Result<Point<i32>, Fault> {
    if parts.len() >= 5 {
        match spec_parse_int(parts[3], i32::MIN as int, i32::MAX as int) {
            Err(k) => Err(int_fault(k)),
            Ok(x) => match spec_parse_int(parts[4], i32::MIN as int, i32::MAX as int) {
                Err(k) => Err(int_fault(k)),
                Ok(y) => Ok(Point { x: x as i32, y: y as i32 }),
            },
        }
    } else {
        Ok(Point { x: 0, y: 0 })
    }
}

/// Parsing an event line: its `,`-separated parts begin with the type
/// (`0` background; `1` or `Video`; `2` or `Break`); any other type keeps the
/// whole line as a storyboard event. File names lose surrounding `"`.
pub open spec fn spec_parse_event(line: Seq<char>) -> Result<EventView, Fault> {
    let parts = split_spec(line, ',');
    let t = parts[0];
    if t == seq!['0'] {
        if parts.len() < 3 {
            Err(Fault::Malformed)
        } else {
            match spec_parse_offset(parts) {
                Err(f) => Err(f),
                Ok(offset) => Ok(
                    EventView::Background { filename: trim_char(parts[2], '"'), offset },
                ),
            }
        }
    } else if t == seq!['1'] || t == seq!['V', 'i', 'd', 'e', 'o'] {
        if parts.len() < 2 {
            Err(Fault::Malformed)
        } else {
            match spec_parse_int(parts[1], i32::MIN as int, i32::MAX as int) {
                Err(k) => Err(int_fault(k)),
                Ok(start) => if parts.len() < 3 {
                    Err(Fault::Malformed)
                } else {
                    match spec_parse_offset(parts) {
                        Err(f) => Err(f),
                        Ok(offset) => Ok(
                            EventView::Video {
                                start_time: start as i32,
                                filename: trim_char(parts[2], '"'),
                                offset,
                            },
                        ),
                    }
                },
            }
        }
    } else if t == seq!['2'] || t == seq!['B', 'r', 'e', 'a', 'k'] {
        if parts.len() < 2 {
            Err(Fault::Malformed)
        } else {
            match spec_parse_int(parts[1], i32::MIN as int, i32::MAX as int) {
                Err(k) => Err(int_fault(k)),
                Ok(start) => if parts.len() < 3 {
                    Err(Fault::Malformed)
                } else {
                    match spec_parse_int(parts[2], i32::MIN as int, i32::MAX as int) {
                        Err(k) => Err(int_fault(k)),
                        Ok(end) => Ok(
                            EventView::Break { start_time: start as i32, end_time: end as i32 },
                        ),
                    }
                },
            }
        }
    } else {
        Ok(EventView::Storyboard(line))
    }
}

/// The text that `{:?}` (`Debug`) writes for a string: the string in double
/// quotes, with escapes.
pub uninterp spec fn debug_quoted(s: Seq<char>) -> Seq<char>;

/// Whether every character of `s` is printable ASCII (space to `~`) other
/// than `"`, `\` and `'`.
pub open spec fn plain_ascii(s: Seq<char>) -> bool {
    forall|i: int|
        0 <= i < s.len() ==> ' ' <= #[trigger] s[i] && s[i] <= '~' && s[i] != '"' && s[i] != '\\'
            && s[i] != '\''
}

/// The text that `{:?}` writes for a file name: the name between double
/// quotes when it is [`plain_ascii`], else [`debug_quoted`] of it.
pub open spec fn quoted(s: Seq<char>) -> Seq<char> {
    if plain_ascii(s) {
        seq!['"'] + s + seq!['"']
    } else {
        debug_quoted(s)
    }
}

/// Formats a string with `{:?}` (`format!`, through `Debug for str`). The
/// contract names the result `debug_quoted` of the string, and states what
/// std documents of it: printable ASCII characters other than quotes and the
/// backslash are written as they are, so such a string comes out between
/// double quotes unchanged. Escapes of other characters are left unsaid.
#[verifier::external_body]
fn debug_str(s: &str) -> (r: String)
    ensures
        r@ == debug_quoted(s@),
        plain_ascii(s@) ==> r@ == seq!['"'] + s@ + seq!['"'],
{
    format!("{:?}", s)
}

/// The text of an event line.
pub open spec fn spec_event_text(e: EventView) -> Seq<char> {
    match e {
        EventView::Background { filename, offset } => seq!['0', ',', '0', ','] + quoted(filename)
            + seq![','] + spec_decimal(offset.x as int) + seq![','] + spec_decimal(offset.y as int),
        EventView::Video { start_time, filename, offset } => seq!['1', ','] + spec_decimal(
            start_time as int,
        ) + seq![','] + quoted(filename) + seq![','] + spec_decimal(offset.x as int) + seq![
            ',',
        ] + spec_decimal(offset.y as int),
        EventView::Break { start_time, end_time } => seq!['2', ','] + spec_decimal(
            start_time as int,
        ) + seq![','] + spec_decimal(end_time as int),
        EventView::Storyboard(line) => line,
    }
}

/// `v[lo..hi]` without the `c`s at its start and its end, as a string.
fn trim_range(v: &Vec<char>, lo: usize, hi: usize, c: char) -> (r: String)
    requires
        lo <= hi <= v@.len(),
    ensures
        r@ == trim_char(v@.subrange(lo as int, hi as int), c),
{
    let ghost s = v@.subrange(lo as int, hi as int);
    let mut a = lo;
    while a < hi && v[a] == c
        invariant
            lo <= a <= hi <= v@.len(),
            s == v@.subrange(lo as int, hi as int),
            skip_char(s, c, 0) == skip_char(s, c, a - lo),
        decreases hi - a,
    {
        a = a + 1;
    }
    if a == hi {
        proof {
            assert(skip_char(s, c, (a - lo) as int) == s.len());
        }
        return String::new();
    }
    assert(skip_char(s, c, (a - lo) as int) == a - lo);
    let mut b = hi;
    while b > a && v[b - 1] == c
        invariant
            lo <= a < hi <= v@.len(),
            a < b <= hi,
            v@[a as int] != c,
            s == v@.subrange(lo as int, hi as int),
            skip_char_back(s, c, s.len() as int) == skip_char_back(s, c, b - lo),
        decreases b,
    {
        b = b - 1;
    }
    assert(skip_char_back(s, c, (b - lo) as int) == b - lo);
    assert(v@.subrange(a as int, b as int) =~= s.subrange(a - lo, b - lo));
    crate::text::chars_to_string(v, a, b)
}

fn parse_offset(v: &Vec<char>, parts: &Vec<(usize, usize)>) -> (r: Result<Point<i32>, LineFault>)
    requires
        forall|k: int|
            0 <= k < parts@.len() ==> (#[trigger] parts@[k]).0 <= parts@[k].1 <= v@.len(),
    ensures
        match spec_parse_offset(parts@.map_values(|b: (usize, usize)| v@.subrange(b.0 as int, b.1 as int))) {
            Ok(p) => r matches Ok(x) && x == p,
            Err(f) => r matches Err(g) && g.view() == f,
        },
{
    let ghost ps = parts@.map_values(|b: (usize, usize)| v@.subrange(b.0 as int, b.1 as int));
    if parts.len() >= 5 {
        let x = int_field(v, parts[3].0, parts[3].1, i32::MIN as i128, i32::MAX as i128)?;
        let y = int_field(v, parts[4].0, parts[4].1, i32::MIN as i128, i32::MAX as i128)?;
        Ok(Point::new(x as i32, y as i32))
    } else {
        Ok(Point::new(0, 0))
    }
}

/// Parses the event line `v[..]`.
pub fn parse_event_chars(v: &Vec<char>) -> (r: Result<Event, LineFault>)
    ensures
        match spec_parse_event(v@) {
            Ok(e) => r matches Ok(x) && x.view() == e,
            Err(f) => r matches Err(g) && g.view() == f,
        },
{
    let n = v.len();
    let parts = crate::text::split_char(v, 0, n, ',');
    assert(v@.subrange(0, n as int) =~= v@);
    let ghost ps = parts@.map_values(|b: (usize, usize)| v@.subrange(b.0 as int, b.1 as int));
    proof {
        reveal_with_fuel(split_spec, 1);
        assert(ps =~= split_spec(v@, ','));
    }
    let (t0, t1) = parts[0];
    proof {
        reveal_strlit("0");
        reveal_strlit("1");
        reveal_strlit("2");
        reveal_strlit("Video");
        reveal_strlit("Break");
        assert("0"@ =~= seq!['0']);
        assert("1"@ =~= seq!['1']);
        assert("2"@ =~= seq!['2']);
        assert("Video"@ =~= seq!['V', 'i', 'd', 'e', 'o']);
        assert("Break"@ =~= seq!['B', 'r', 'e', 'a', 'k']);
        assert(ps[0] == v@.subrange(t0 as int, t1 as int));
    }
    if crate::text::range_is(v, t0, t1, "0") {
        if parts.len() < 3 {
            return Err(LineFault::Malformed);
        }
        let filename = trim_range(v, parts[2].0, parts[2].1, '"');
        let offset = parse_offset(v, &parts)?;
        Ok(Event::Background(BackgroundEvent { filename, offset }))
    } else if crate::text::range_is(v, t0, t1, "1") || crate::text::range_is(v, t0, t1, "Video") {
        if parts.len() < 2 {
            return Err(LineFault::Malformed);
        }
        let start = int_field(v, parts[1].0, parts[1].1, i32::MIN as i128, i32::MAX as i128)?;
        if parts.len() < 3 {
            return Err(LineFault::Malformed);
        }
        let filename = trim_range(v, parts[2].0, parts[2].1, '"');
        let offset = parse_offset(v, &parts)?;
        Ok(Event::Video(VideoEvent { start_time: Millis(start as i32), filename, offset }))
    } else if crate::text::range_is(v, t0, t1, "2") || crate::text::range_is(v, t0, t1, "Break") {
        if parts.len() < 2 {
            return Err(LineFault::Malformed);
        }
        let start = int_field(v, parts[1].0, parts[1].1, i32::MIN as i128, i32::MAX as i128)?;
        if parts.len() < 3 {
            return Err(LineFault::Malformed);
        }
        let end = int_field(v, parts[2].0, parts[2].1, i32::MIN as i128, i32::MAX as i128)?;
        Ok(Event::Break(BreakEvent { start_time: Millis(start as i32), end_time: Millis(end as i32) }))
    } else {
        Ok(Event::Storyboard(crate::text::chars_to_string(v, 0, n)))
    }
}

impl Event {
    /// Parses an event line.
    pub fn from_str(line: &str) -> (r: Result<Event, ParseError>)
        requires
            !(spec_parse_event(line@) matches Err(Fault::Malformed)),
        ensures
            match spec_parse_event(line@) {
                Ok(e) => r matches Ok(x) && x.view() == e,
                Err(Fault::Failed(e)) => r matches Err(g) && g.view() == e,
                Err(Fault::Malformed) => false,
            },
    {
        let v = crate::text::str_chars(line);
        match parse_event_chars(&v) {
            Ok(e) => Ok(e),
            Err(LineFault::Failed(e)) => Err(e),
            Err(LineFault::Malformed) => {
                proof {
                    assert(false);
                }
                Err(ParseError::MissingColorComponent)
            },
        }
    }

    /// Parses an event line, or returns `None` when a part is missing (see
    /// [`Fault::Malformed`]).
    pub fn from_str_checked(line: &str) -> (r: Option<Result<Event, ParseError>>)
        ensures
            match spec_parse_event(line@) {
                Ok(e) => r matches Some(Ok(x)) && x.view() == e,
                Err(Fault::Failed(e)) => r matches Some(Err(g)) && g.view() == e,
                Err(Fault::Malformed) => r is None,
            },
    {
        let v = crate::text::str_chars(line);
        match parse_event_chars(&v) {
            Ok(e) => Some(Ok(e)),
            Err(LineFault::Failed(e)) => Some(Err(e)),
            Err(LineFault::Malformed) => None,
        }
    }

    /// Appends the text of the event line to `out`.
    pub fn push_text(&self, out: &mut Vec<char>)
        ensures
            final(out)@ == old(out)@ + spec_event_text(self.view()),
    {
        match self {
            Event::Background(e) => {
                crate::text::push_str(out, "0,0,");
                let q = debug_str(e.filename.as_str());
                assert(q@ == quoted(e.filename@));
                crate::text::push_str(out, q.as_str());
                out.push(',');
                crate::text::push_decimal(out, e.offset.x as i128);
                out.push(',');
                crate::text::push_decimal(out, e.offset.y as i128);
                proof {
                    reveal_strlit("0,0,");
                }
            },
            Event::Video(e) => {
                crate::text::push_str(out, "1,");
                crate::text::push_decimal(out, e.start_time.0 as i128);
                out.push(',');
                let q = debug_str(e.filename.as_str());
                assert(q@ == quoted(e.filename@));
                crate::text::push_str(out, q.as_str());
                out.push(',');
                crate::text::push_decimal(out, e.offset.x as i128);
                out.push(',');
                crate::text::push_decimal(out, e.offset.y as i128);
                proof {
                    reveal_strlit("1,");
                }
            },
            Event::Break(e) => {
                crate::text::push_str(out, "2,");
                crate::text::push_decimal(out, e.start_time.0 as i128);
                out.push(',');
                crate::text::push_decimal(out, e.end_time.0 as i128);
                proof {
                    reveal_strlit("2,");
                }
            },
            Event::Storyboard(line) => {
                crate::text::push_str(out, line.as_str());
            },
        }
        assert(final(out)@ =~= old(out)@ + spec_event_text(self.view()));
    }

    /// The text of the event line.
    pub fn to_string(&self) -> (r: String)
        ensures
            r@ == spec_event_text(self.view()),
    {
        let mut out: Vec<char> = Vec::new();
        self.push_text(&mut out);
        let n = out.len();
        assert(out@.subrange(0, n as int) =~= out@);
        crate::text::chars_to_string(&out, 0, n)
    }
}


/// The condition under which an event line reads back as the event it was
/// written from: a file name must be printable ASCII without quotes,
/// backslashes or `,` (so that `{:?}` merely quotes it); a storyboard line must not begin with an
/// event type.
pub open spec fn event_text_roundtrips(e: EventView) -> bool {
    match e {
        EventView::Background { filename, offset } => quoted_plainly(filename),
        EventView::Video { start_time, filename, offset } => quoted_plainly(filename),
        EventView::Break { start_time, end_time } => true,
        EventView::Storyboard(line) => {
            let t = split_spec(line, ',')[0];
            &&& t != seq!['0']
            &&& t != seq!['1']
            &&& t != seq!['V', 'i', 'd', 'e', 'o']
            &&& t != seq!['2']
            &&& t != seq!['B', 'r', 'e', 'a', 'k']
        },
    }
}

/// Whether `{:?}` writes `f` as `f` in double quotes (it is
/// [`plain_ascii`]) and `f` holds no `,`.
pub open spec fn quoted_plainly(f: Seq<char>) -> bool {
    &&& plain_ascii(f)
    &&& !f.contains(',')
}

proof fn lemma_trim_quoted(f: Seq<char>)
    requires
        f.len() > 0 ==> f[0] != '"' && f.last() != '"',
    ensures
        trim_char(seq!['"'] + f + seq!['"'], '"') == f,
{
    let q = seq!['"'] + f + seq!['"'];
    let n = q.len() as int;
    assert(q[0] == '"');
    if f.len() == 0 {
        assert(q[1] == '"');
        assert(skip_char(q, '"', 2) == 2);
        assert(skip_char(q, '"', 1) == 2);
        assert(skip_char(q, '"', 0) == 2);
    } else {
        assert(q[1] == f[0]);
        assert(skip_char(q, '"', 1) == 1);
        assert(skip_char(q, '"', 0) == 1);
        assert(q[n - 2] == f.last());
        assert(q[n - 1] == '"');
        assert(skip_char_back(q, '"', n - 1) == n - 1);
        assert(skip_char_back(q, '"', n) == n - 1);
        assert(q.subrange(1, n - 1) =~= f);
    }
}

proof fn lemma_background_roundtrip(e: EventView)
    requires
        event_text_roundtrips(e),
        e is Background,
    ensures
        spec_parse_event(spec_event_text(e)) == Ok::<EventView, Fault>(e),
{
    let comma = seq![','];
    match e {
        EventView::Background { filename, offset } => {
        let q = seq!['"'] + filename + seq!['"'];
        let dx = spec_decimal(offset.x as int);
        let dy = spec_decimal(offset.y as int);
        crate::text::lemma_decimal_chars(offset.x as int, ',');
        crate::text::lemma_decimal_chars(offset.y as int, ',');
        assert(!q.contains(',')) by {
            if q.contains(',') {
                let i = choose|i: int| 0 <= i < q.len() && q[i] == ',';
                assert(filename[i - 1] == ',');
            }
        }
        let t3 = dx + comma + dy;
        let t2 = q + comma + t3;
        let t1 = seq!['0'] + comma + t2;
        assert(spec_event_text(e) =~= seq!['0'] + comma + t1);
        crate::text::lemma_split_none(dy, ',');
        crate::text::lemma_split_join(dx, ',', dy);
        crate::text::lemma_split_join(q, ',', t3);
        crate::text::lemma_split_join(seq!['0'], ',', t2);
        crate::text::lemma_split_join(seq!['0'], ',', t1);
        let parts = split_spec(spec_event_text(e), ',');
        assert(parts =~= seq![seq!['0'], seq!['0'], q, dx, dy]);
        if filename.len() > 0 {
            assert(filename[0] != '"');
            assert(filename[filename.len() - 1] != '"');
        }
        lemma_trim_quoted(filename);
        crate::text::decimal_roundtrip(offset.x as int, i32::MIN as int, i32::MAX as int);
        crate::text::decimal_roundtrip(offset.y as int, i32::MIN as int, i32::MAX as int);
        },
        _ => {},
    }
}

proof fn lemma_video_roundtrip(e: EventView)
    requires
        event_text_roundtrips(e),
        e is Video,
    ensures
        spec_parse_event(spec_event_text(e)) == Ok::<EventView, Fault>(e),
{
    let comma = seq![','];
    match e {
        EventView::Video { start_time, filename, offset } => {
        let q = seq!['"'] + filename + seq!['"'];
        let ds = spec_decimal(start_time as int);
        let dx = spec_decimal(offset.x as int);
        let dy = spec_decimal(offset.y as int);
        crate::text::lemma_decimal_chars(start_time as int, ',');
        crate::text::lemma_decimal_chars(offset.x as int, ',');
        crate::text::lemma_decimal_chars(offset.y as int, ',');
        assert(!q.contains(',')) by {
            if q.contains(',') {
                let i = choose|i: int| 0 <= i < q.len() && q[i] == ',';
                assert(filename[i - 1] == ',');
            }
        }
        let t3 = dx + comma + dy;
        let t2 = q + comma + t3;
        let t1 = ds + comma + t2;
        assert(spec_event_text(e) =~= seq!['1'] + comma + t1);
        crate::text::lemma_split_none(dy, ',');
        crate::text::lemma_split_join(dx, ',', dy);
        crate::text::lemma_split_join(q, ',', t3);
        crate::text::lemma_split_join(ds, ',', t2);
        crate::text::lemma_split_join(seq!['1'], ',', t1);
        let parts = split_spec(spec_event_text(e), ',');
        assert(parts =~= seq![seq!['1'], ds, q, dx, dy]);
        assert(seq!['1'] != seq!['0']) by {
            assert(seq!['1'][0] != seq!['0'][0]);
        }
        if filename.len() > 0 {
            assert(filename[0] != '"');
            assert(filename[filename.len() - 1] != '"');
        }
        lemma_trim_quoted(filename);
        crate::text::decimal_roundtrip(start_time as int, i32::MIN as int, i32::MAX as int);
        crate::text::decimal_roundtrip(offset.x as int, i32::MIN as int, i32::MAX as int);
        crate::text::decimal_roundtrip(offset.y as int, i32::MIN as int, i32::MAX as int);
        },
        _ => {},
    }
}

proof fn lemma_break_roundtrip(e: EventView)
    requires
        event_text_roundtrips(e),
        e is Break,
    ensures
        spec_parse_event(spec_event_text(e)) == Ok::<EventView, Fault>(e),
{
    let comma = seq![','];
    match e {
        EventView::Break { start_time, end_time } => {
        let ds = spec_decimal(start_time as int);
        let de = spec_decimal(end_time as int);
        crate::text::lemma_decimal_chars(start_time as int, ',');
        crate::text::lemma_decimal_chars(end_time as int, ',');
        let t1 = ds + comma + de;
        assert(spec_event_text(e) =~= seq!['2'] + comma + t1);
        crate::text::lemma_split_none(de, ',');
        crate::text::lemma_split_join(ds, ',', de);
        crate::text::lemma_split_join(seq!['2'], ',', t1);
        let parts = split_spec(spec_event_text(e), ',');
        assert(parts =~= seq![seq!['2'], ds, de]);
        assert(seq!['2'] != seq!['0']) by {
            assert(seq!['2'][0] != seq!['0'][0]);
        }
        assert(seq!['2'] != seq!['1']) by {
            assert(seq!['2'][0] != seq!['1'][0]);
        }
        assert(seq!['2'] != seq!['V', 'i', 'd', 'e', 'o']) by {
            assert(seq!['2'].len() != seq!['V', 'i', 'd', 'e', 'o'].len());
        }
        crate::text::decimal_roundtrip(start_time as int, i32::MIN as int, i32::MAX as int);
        crate::text::decimal_roundtrip(end_time as int, i32::MIN as int, i32::MAX as int);
        },
        _ => {},
    }
}

/// An event line written by `to_string` reads back as the same event,
/// under the condition of `event_text_roundtrips`.
pub proof fn event_roundtrip(e: EventView)
    requires
        event_text_roundtrips(e),
    ensures
        spec_parse_event(spec_event_text(e)) == Ok::<EventView, Fault>(e),
{
    match e {
        EventView::Background { .. } => lemma_background_roundtrip(e),
        EventView::Video { .. } => lemma_video_roundtrip(e),
        EventView::Break { .. } => lemma_break_roundtrip(e),
        EventView::Storyboard(line) => {},
    }
}

/// An event read from a line takes its parts from their places among the
/// `,`-separated parts: a background (type `0`) its file name from the third
/// part and its offset from the fourth and fifth (x then y); a video its
/// start time from the second part, its file name from the third and its
/// offset from the fourth and fifth; a break its start time from the second
/// part and its end time from the third.
pub proof fn event_fields_read(line: Seq<char>)
    requires
        spec_parse_event(line) is Ok,
    ensures
        ({
            let parts = split_spec(line, ',');
            match spec_parse_event(line)->Ok_0 {
                EventView::Background { filename, offset } => {
                    &&& parts[0] == seq!['0']
                    &&& filename == trim_char(parts[2], '"')
                    &&& parts.len() >= 5 ==> {
                        &&& spec_parse_int(parts[3], i32::MIN as int, i32::MAX as int) == Ok::<int, crate::text::IntErrorKind>(offset.x as int)
                        &&& spec_parse_int(parts[4], i32::MIN as int, i32::MAX as int) == Ok::<int, crate::text::IntErrorKind>(offset.y as int)
                    }
                },
                EventView::Video { start_time, filename, offset } => {
                    &&& spec_parse_int(parts[1], i32::MIN as int, i32::MAX as int) == Ok::<int, crate::text::IntErrorKind>(start_time as int)
                    &&& filename == trim_char(parts[2], '"')
                    &&& parts.len() >= 5 ==> {
                        &&& spec_parse_int(parts[3], i32::MIN as int, i32::MAX as int) == Ok::<int, crate::text::IntErrorKind>(offset.x as int)
                        &&& spec_parse_int(parts[4], i32::MIN as int, i32::MAX as int) == Ok::<int, crate::text::IntErrorKind>(offset.y as int)
                    }
                },
                EventView::Break { start_time, end_time } => {
                    &&& spec_parse_int(parts[1], i32::MIN as int, i32::MAX as int) == Ok::<int, crate::text::IntErrorKind>(start_time as int)
                    &&& spec_parse_int(parts[2], i32::MIN as int, i32::MAX as int) == Ok::<int, crate::text::IntErrorKind>(end_time as int)
                },
                EventView::Storyboard(l) => l == line,
            }
        }),
{
    let parts = split_spec(line, ',');
    crate::text::lemma_parse_int_range(parts[1], i32::MIN as int, i32::MAX as int);
    crate::text::lemma_parse_int_range(parts[2], i32::MIN as int, i32::MAX as int);
    crate::text::lemma_parse_int_range(parts[3], i32::MIN as int, i32::MAX as int);
    crate::text::lemma_parse_int_range(parts[4], i32::MIN as int, i32::MAX as int);
}

} // verus!
