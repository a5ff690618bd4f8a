//! Handing a beatmap to the rosu-pp performance calculator: the beatmap is
//! written as `.osu` text and rosu-pp parses the bytes of that text into its
//! own beatmap.

use vstd::prelude::*;
use crate::beatmap::{beatmap_lines, lines_text, lemma_lines_text_concat, spec_beatmap_text, version_prefix, Beatmap, BeatmapView};
use crate::hitobject::HitObjectKindView;
use crate::beatmap_roundtrip::lemma_version_label;
use crate::text::{all_digits, digit_value, digits_value, is_digit, lemma_nat_digits, nat_digits, spec_decimal};
use rosu_pp::Beatmap as RosuBeatmap;

verus! {

#[verifier::external_type_specification]
#[verifier::external_body]
pub struct ExRosuBeatmap(RosuBeatmap);

/// Why rosu-pp could not parse a beatmap (the variants of `rosu_pp::ParseError`).
#[derive(Debug, Clone, Copy, PartialEq, Eq, Structural)]
pub enum RosuError {
    /// A line could not be read; from bytes in memory this means a line is
    /// not valid UTF-8.
    IoError,
    /// The first line is not `osu file format v` followed by a number.
    IncorrectFileHeader,
}

/// The number whose ASCII digits start at `i` in `s`, read from left to
/// right onto `acc`, up to the first character that is not a digit.
pub open spec fn digit_run_value(s: Seq<char>, i: int, acc: int) -> int
    decreases s.len() - i,
{
    if 0 <= i < s.len() && is_digit(s[i]) {
        digit_run_value(s, i + 1, 10 * acc + digit_value(s[i]))
    } else {
        acc
    }
}

/// Whether rosu-pp's header check reads `text` without overflow: the text
/// starts with `osu file format v`, and the number written right after it is
/// below 256 (rosu-pp adds the digits up in a `u8`, and every partial sum is
/// at most the whole number).
pub open spec fn rosu_header_fits(text: Seq<char>) -> bool {
    &&& text.len() >= 17
    &&& text.subrange(0, 17) == version_prefix()
    &&& digit_run_value(text, 17, 0) < 256
}

/// Whether every slider of `b` has at least one control point.
pub open spec fn sliders_have_points(b: BeatmapView) -> bool {
    forall|i: int|
        0 <= i < b.hit_objects.len() ==> (#[trigger] b.hit_objects[i].kind matches
            HitObjectKindView::Slider(sl) ==> sl.control_points.len() >= 1)
}

/// Whether `text` is the text of a beatmap whose sliders all have control
/// points. rosu-pp reads a slider's curve field in segments that start at a
/// curve letter; a curve with no point is written with an empty second
/// segment, on which rosu-pp indexes an empty list and panics.
pub open spec fn written_with_slider_points(text: Seq<char>) -> bool {
    exists|b: BeatmapView| #[trigger] spec_beatmap_text(b) == text && sliders_have_points(b)
}

/// What rosu-pp's `Beatmap::from_bytes` makes of the UTF-8 bytes of `text`:
/// success, or the kind of its error.
pub uninterp spec fn rosu_parse_outcome(text: Seq<char>) -> Result<(), RosuError>;

/// A beatmap parsed by rosu-pp, with the text it was parsed from.
pub struct RosuMap {
    inner: RosuBeatmap,
    text: Ghost<Seq<char>>,
}

impl RosuMap {
    /// The text that rosu-pp parsed into this beatmap.
    pub closed spec fn source_text(&self) -> Seq<char> {
        self.text@
    }

    /// The beatmap that rosu-pp parsed.
    pub closed spec fn spec_beatmap(&self) -> RosuBeatmap {
        self.inner
    }

    /// The beatmap that rosu-pp parsed.
    pub fn beatmap(&self) -> (r: &RosuBeatmap)
        ensures
            *r == self.spec_beatmap(),
    {
        &self.inner
    }

    /// The beatmap that rosu-pp parsed, taken out.
    pub fn into_beatmap(self) -> (r: RosuBeatmap)
        ensures
            r == self.spec_beatmap(),
    {
        self.inner
    }
}

/// Parses the UTF-8 bytes of `text` with rosu-pp's `Beatmap::from_bytes`. The
/// contract states that the outcome (success, or the kind of error) is the one
/// named by `rosu_parse_outcome` for this text, and that a parsed beatmap
/// comes with `text` as its source; it says nothing of what the parsed
/// beatmap holds, which only rosu-pp reads. It admits only texts that the
/// library writes for beatmaps whose sliders all have control points, and
/// whose header number fits in a byte: rosu-pp panics on a slider curve
/// segment without points, and its header check overflows a `u8`.
#[verifier::external_body]
fn rosu_from_text(text: &str) -> (r: Result<RosuMap, RosuError>)
    requires
        rosu_header_fits(text@),
        written_with_slider_points(text@),
    ensures
        match r {
            Ok(m) => rosu_parse_outcome(text@) is Ok && m.source_text() == text@,
            Err(e) => rosu_parse_outcome(text@) == Err::<(), RosuError>(e),
        },
{
    match RosuBeatmap::from_bytes(text.as_bytes()) {
        Ok(b) => Ok(RosuMap { inner: b, text: Ghost(text@) }),
        Err(rosu_pp::ParseError::IoError(_)) => Err(RosuError::IoError),
        Err(rosu_pp::ParseError::IncorrectFileHeader) => Err(RosuError::IncorrectFileHeader),
    }
}

/// Reading the digits `d`, which stand at `i` in `s` and are followed by no
/// further digit, from their `k`-th on, onto the value of the first `k`,
/// gives the value of all of them.
proof fn lemma_digit_run(s: Seq<char>, i: int, d: Seq<char>, k: int)
    requires
        0 <= i,
        i + d.len() <= s.len(),
        s.subrange(i, i + d.len()) == d,
        all_digits(d),
        i + d.len() == s.len() || !is_digit(s[i + d.len()]),
        0 <= k <= d.len(),
    ensures
        digit_run_value(s, i + k, digits_value(d.subrange(0, k))) == digits_value(d),
    decreases d.len() - k,
{
    if k < d.len() {
        assert(s[i + k] == d[k]);
        assert(d.subrange(0, k + 1).drop_last() =~= d.subrange(0, k));
        assert(d.subrange(0, k + 1).last() == d[k]);
        lemma_digit_run(s, i, d, k + 1);
    } else {
        assert(d.subrange(0, k) =~= d);
    }
}

impl Beatmap {
    /// The beatmap as rosu-pp reads it: its `.osu` text, as UTF-8 bytes,
    /// parsed by rosu-pp. Fails exactly when rosu-pp refuses that text. The
    /// version must be below 256, as rosu-pp reads the version number of the
    /// header into a byte, and every slider must have a control point, as
    /// rosu-pp panics on a curve without one. The parsed beatmap comes with
    /// the text it was parsed from: this beatmap's text.
    pub fn convert_to_rosu_beatmap(&self) -> (r: Result<RosuMap, RosuError>)
        requires
            self.version < 256,
            sliders_have_points(self.view()),
        ensures
            match r {
                Ok(m) => rosu_parse_outcome(spec_beatmap_text(self.view())) is Ok && m.source_text()
                    == spec_beatmap_text(self.view()),
                Err(e) => rosu_parse_outcome(spec_beatmap_text(self.view())) == Err::<
                    (),
                    RosuError,
                >(e),
            },
    {
        let text = self.to_string();
        proof {
            let b = self.view();
            let ls = beatmap_lines(b);
            let l0 = ls[0];
            let d = spec_decimal(self.version as int);
            lemma_version_label();
            assert(l0 == version_prefix() + d);
            assert(ls =~= seq![l0] + ls.drop_first());
            lemma_lines_text_concat(seq![l0], ls.drop_first());
            assert(seq![l0].drop_last() =~= Seq::<Seq<char>>::empty());
            assert(lines_text(Seq::<Seq<char>>::empty()) == Seq::<char>::empty());
            assert(seq![l0].last() == l0);
            assert(lines_text(seq![l0]) =~= l0 + seq!['\n']);
            let t = spec_beatmap_text(b);
            assert(t == version_prefix() + d + seq!['\n'] + lines_text(ls.drop_first()));
            assert(d == nat_digits(self.version as nat));
            lemma_nat_digits(self.version as nat);
            assert(t.subrange(0, 17) =~= version_prefix());
            assert(t.subrange(17, 17 + d.len() as int) =~= d);
            assert(t[17 + d.len() as int] == '\n');
            lemma_digit_run(t, 17, d, 0);
            assert(d.subrange(0, 0) =~= Seq::<char>::empty());
            assert(digit_run_value(t, 17, 0) == self.version);
            assert(spec_beatmap_text(b) == t && sliders_have_points(b));
        }
        rosu_from_text(text.as_str())
    }
}

} // verus!
