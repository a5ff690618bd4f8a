//! Combo colours: `ComboN : r,g,b` lines of the `[Colours]` section.

use crate::errors::int_fault;
use crate::errors::Fault;
use crate::errors::LineFault;
use crate::errors::ParseError;
use crate::errors::ParseErrorView;
use crate::hitsounds::int_field;
use crate::text::spec_decimal;
use crate::text::spec_parse_int;
use crate::text::split_spec;
use vstd::prelude::*;

verus! {

/// An RGB color.
#[derive(Debug, Clone, Copy, PartialEq, Eq, Structural)]
pub struct Color {
    /// red from 0-255
    pub red: u8,
    /// green from 0-255
    pub green: u8,
    /// blue from 0-255
    pub blue: u8,
}

/// Whether ` : ` stands at index `k` of `s`.
pub open spec fn sep_at(s: Seq<char>, k: int) -> bool {
    0 <= k && k + 3 <= s.len() && s[k] == ' ' && s[k + 1] == ':' && s[k + 2] == ' '
}

/// The index of the first ` : ` at or after `from`, or the length of `s`.
pub open spec fn find_sep(s: Seq<char>, from: int) -> int
    decreases s.len() - from,
{
    if from < 0 || from >= s.len() {
        s.len() as int
    } else if sep_at(s, from) {
        from
    } else {
        find_sep(s, from + 1)
    }
}

/// `find_sep` gives the first separator at or after `from`, or the end.
pub proof fn lemma_find_sep(s: Seq<char>, from: int)
    requires
        0 <= from <= s.len(),
    ensures
        from <= find_sep(s, from) <= s.len(),
        find_sep(s, from) < s.len() ==> sep_at(s, find_sep(s, from)),
        forall|k: int| from <= k < find_sep(s, from) ==> !sep_at(s, k),
    decreases s.len() - from,
{
    if from < s.len() && !sep_at(s, from) {
        lemma_find_sep(s, from + 1);
    }
}

/// Reading the `r,g,b` components of `piece` as `u8`s; a component that is
/// missing after the previous ones were read is malformed.
pub open spec fn spec_parse_components(piece: Seq<char>) -> Result<Color, Fault> {
    let parts = split_spec(piece, ',');
    match spec_parse_int(parts[0], 0, 255) {
        Err(k) => Err(int_fault(k)),
        Ok(red) => if parts.len() < 2 {
            Err(Fault::Malformed)
        } else {
            match spec_parse_int(parts[1], 0, 255) {
                Err(k) => Err(int_fault(k)),
                Ok(green) => if parts.len() < 3 {
                    Err(Fault::Malformed)
                } else {
                    match spec_parse_int(parts[2], 0, 255) {
                        Err(k) => Err(int_fault(k)),
                        Ok(blue) => Ok(Color { red: red as u8, green: green as u8, blue: blue as u8 }),
                    }
                },
            }
        },
    }
}

/// The text between the first ` : ` of `line` and the next one (or the end),
/// if `line` holds a ` : `.
pub open spec fn second_piece(line: Seq<char>) -> Option<Seq<char>> {
    let j = find_sep(line, 0);
    if j >= line.len() {
        None
    } else {
        Some(line.subrange(j + 3, find_sep(line, j + 3)))
    }
}

/// Parsing a colour line: the second ` : `-separated piece holds `r,g,b`.
pub open spec fn spec_parse_color_line(line: Seq<char>) -> Result<Color, Fault> {
    match second_piece(line) {
        None => Err(Fault::Failed(ParseErrorView::MissingColorComponent)),
        Some(piece) => spec_parse_components(piece),
    }
}

/// The text of a colour: `r,g,b`.
pub open spec fn spec_color_str(c: Color) -> Seq<char> {
    spec_decimal(c.red as int) + seq![','] + spec_decimal(c.green as int) + seq![','] + spec_decimal(
        c.blue as int,
    )
}

pub(crate) fn find_sep_at(v: &Vec<char>, from: usize) -> (r: usize)
    requires
        from <= v@.len(),
    ensures
        r == find_sep(v@, from as int),
{
    let mut k = from;
    while k < v.len()
        invariant
            from <= k <= v@.len(),
            find_sep(v@, from as int) == find_sep(v@, k as int),
        decreases v@.len() - k,
    {
        if v.len() - k >= 3 && v[k] == ' ' && v[k + 1] == ':' && v[k + 2] == ' ' {
            return k;
        }
        k = k + 1;
    }
    k
}

pub(crate) fn parse_components(v: &Vec<char>, lo: usize, hi: usize) -> (r: Result<Color, LineFault>)
    requires
        lo <= hi <= v@.len(),
    ensures
        match spec_parse_components(v@.subrange(lo as int, hi as int)) {
            Ok(c) => r matches Ok(x) && x == c,
            Err(f) => r matches Err(g) && g.view() == f,
        },
{
    let parts = crate::text::split_char(v, lo, hi, ',');
    assert(split_spec(v@.subrange(lo as int, hi as int), ',').len() >= 1) by {
        reveal_with_fuel(split_spec, 1);
    }
    let red = int_field(v, parts[0].0, parts[0].1, 0, 255)?;
    if parts.len() < 2 {
        return Err(LineFault::Malformed);
    }
    let green = int_field(v, parts[1].0, parts[1].1, 0, 255)?;
    if parts.len() < 3 {
        return Err(LineFault::Malformed);
    }
    let blue = int_field(v, parts[2].0, parts[2].1, 0, 255)?;
    Ok(Color { red: red as u8, green: green as u8, blue: blue as u8 })
}

/// Parses the colour line `v[..]`.
pub fn parse_color_chars(v: &Vec<char>) -> (r: Result<Color, LineFault>)
    ensures
        match spec_parse_color_line(v@) {
            Ok(c) => r matches Ok(x) && x == c,
            Err(f) => r matches Err(g) && g.view() == f,
        },
{
    let j = find_sep_at(v, 0);
    proof {
        lemma_find_sep(v@, 0);
    }
    if j >= v.len() {
        return Err(LineFault::Failed(ParseError::MissingColorComponent));
    }
    let k = find_sep_at(v, j + 3);
    proof {
        lemma_find_sep(v@, j + 3);
    }
    parse_components(v, j + 3, k)
}

/// Parsing a colour line as the older beatmap reader does: as
/// [`spec_parse_color_line`], except that a line without ` : ` makes the text
/// malformed, as that reader takes the second piece without checking it.
pub open spec fn spec_osz_color_line(line: Seq<char>) -> Result<Color, Fault> {
    match second_piece(line) {
        None => Err(Fault::Malformed),
        Some(piece) => spec_parse_components(piece),
    }
}

/// Parses the colour line `v[..]` as the older beatmap reader does.
pub fn parse_osz_color_chars(v: &Vec<char>) -> (r: Result<Color, LineFault>)
    ensures
        match spec_osz_color_line(v@) {
            Ok(c) => r matches Ok(x) && x == c,
            Err(f) => r matches Err(g) && g.view() == f,
        },
{
    let j = find_sep_at(v, 0);
    proof {
        lemma_find_sep(v@, 0);
    }
    if j >= v.len() {
        return Err(LineFault::Malformed);
    }
    let k = find_sep_at(v, j + 3);
    proof {
        lemma_find_sep(v@, j + 3);
    }
    parse_components(v, j + 3, k)
}

impl Color {
    /// Create a new color from the respective parts.
    pub fn new(red: u8, green: u8, blue: u8) -> (c: Color)
        ensures
            c == (Color { red, green, blue }),
    {
        Color { red, green, blue }
    }

    /// Parses a colour line `ComboN : r,g,b`: the components are read from the
    /// text between the first ` : ` and the next one.
    pub fn from_str(line: &str) -> (r: Result<Color, ParseError>)
        requires
            !(spec_parse_color_line(line@) matches Err(Fault::Malformed)),
        ensures
            match spec_parse_color_line(line@) {
                Ok(c) => r matches Ok(x) && x == c,
                Err(Fault::Failed(e)) => r matches Err(g) && g.view() == e,
                Err(Fault::Malformed) => false,
            },
    {
        let v = crate::text::str_chars(line);
        match parse_color_chars(&v) {
            Ok(c) => Ok(c),
            Err(LineFault::Failed(e)) => Err(e),
            Err(LineFault::Malformed) => {
                proof {
                    assert(false);
                }
                Err(ParseError::MissingColorComponent)
            },
        }
    }

    /// Parses a colour line, or returns `None` when a component is missing
    /// (see [`Fault::Malformed`]).
    pub fn from_str_checked(line: &str) -> (r: Option<Result<Color, ParseError>>)
        ensures
            match spec_parse_color_line(line@) {
                Ok(c) => r matches Some(Ok(x)) && x == c,
                Err(Fault::Failed(e)) => r matches Some(Err(g)) && g.view() == e,
                Err(Fault::Malformed) => r is None,
            },
    {
        let v = crate::text::str_chars(line);
        match parse_color_chars(&v) {
            Ok(c) => Some(Ok(c)),
            Err(LineFault::Failed(e)) => Some(Err(e)),
            Err(LineFault::Malformed) => None,
        }
    }

    /// Appends the text of the colour, `r,g,b`, to `out`.
    pub fn push_text(&self, out: &mut Vec<char>)
        ensures
            final(out)@ == old(out)@ + spec_color_str(*self),
    {
        crate::text::push_decimal(out, self.red as i128);
        out.push(',');
        crate::text::push_decimal(out, self.green as i128);
        out.push(',');
        crate::text::push_decimal(out, self.blue as i128);
        assert(final(out)@ =~= old(out)@ + spec_color_str(*self));
    }

    /// The text of the colour: `r,g,b`.
    pub fn to_string(&self) -> (r: String)
        ensures
            r@ == spec_color_str(*self),
    {
        let mut out: Vec<char> = Vec::new();
        self.push_text(&mut out);
        let n = out.len();
        assert(out@.subrange(0, n as int) =~= out@);
        crate::text::chars_to_string(&out, 0, n)
    }
}

/// Parsing a colour line the older way: a line without ` : ` is malformed.
pub open spec fn spec_parse_color(line: Seq<char>) -> Result<Color, Fault> {
    match second_piece(line) {
        None => Err(Fault::Malformed),
        Some(piece) => spec_parse_components(piece),
    }
}

/// Parses a colour line whose ` : ` is known to be there.
pub fn parse_color(line: &str) -> (r: Result<Color, ParseError>)
    requires
        !(spec_parse_color(line@) matches Err(Fault::Malformed)),
    ensures
        match spec_parse_color(line@) {
            Ok(c) => r matches Ok(x) && x == c,
            Err(Fault::Failed(e)) => r matches Err(g) && g.view() == e,
            Err(Fault::Malformed) => false,
        },
{
    let v = crate::text::str_chars(line);
    match parse_color_chars(&v) {
        Ok(c) => Ok(c),
        Err(LineFault::Failed(e)) => {
            proof {
                if second_piece(v@) is None {
                    assert(false);
                }
            }
            Err(e)
        },
        Err(LineFault::Malformed) => {
            proof {
                assert(false);
            }
            Err(ParseError::MissingColorComponent)
        },
    }
}

/// The text of a colour: `r,g,b`.
pub fn color_str(color: &Color) -> (r: String)
    ensures
        r@ == spec_color_str(*color),
{
    color.to_string()
}

/// A colour line whose label holds no space parses back to its colour:
/// reading `label : r,g,b` gives the colour written as `r,g,b`.
pub proof fn color_roundtrip(label: Seq<char>, c: Color)
    requires
        !label.contains(' '),
    ensures
        spec_parse_color_line(label + seq![' ', ':', ' '] + spec_color_str(c)) == Ok::<
            Color,
            Fault,
        >(c),
{
    let text = spec_color_str(c);
    let line = label + seq![' ', ':', ' '] + text;
    let n = label.len() as int;
    let d0 = spec_decimal(c.red as int);
    let d1 = spec_decimal(c.green as int);
    let d2 = spec_decimal(c.blue as int);
    crate::text::lemma_decimal_chars(c.red as int, ',');
    crate::text::lemma_decimal_chars(c.green as int, ',');
    crate::text::lemma_decimal_chars(c.blue as int, ',');
    crate::text::lemma_decimal_chars(c.red as int, ' ');
    crate::text::lemma_decimal_chars(c.green as int, ' ');
    crate::text::lemma_decimal_chars(c.blue as int, ' ');
    lemma_find_sep(line, 0);
    let j = find_sep(line, 0);
    assert(sep_at(line, n));
    if j < n {
        assert(line[j] == label[j]);
    }
    assert(j == n);
    lemma_find_sep(line, n + 3);
    let k = find_sep(line, n + 3);
    if k < line.len() {
        assert(line[k] == ' ');
        assert(text[k - n - 3] == ' ');
        assert(text =~= d0 + seq![','] + d1 + seq![','] + d2);
        let t = k - n - 3;
        if t < d0.len() {
            assert(d0[t] == ' ');
        } else if t == d0.len() {
        } else if t < d0.len() + 1 + d1.len() {
            assert(d1[t - d0.len() - 1] == ' ');
        } else if t == d0.len() + 1 + d1.len() {
        } else {
            assert(d2[t - d0.len() - 2 - d1.len()] == ' ');
        }
        assert(false);
    }
    assert(line.subrange(n + 3, k) =~= text);
    let t1 = d1 + seq![','] + d2;
    assert(text =~= d0 + seq![','] + t1);
    crate::text::lemma_split_none(d2, ',');
    crate::text::lemma_split_join(d1, ',', d2);
    crate::text::lemma_split_join(d0, ',', t1);
    assert(split_spec(text, ',') =~= seq![d0, d1, d2]);
    crate::text::decimal_roundtrip(c.red as int, 0, 255);
    crate::text::decimal_roundtrip(c.green as int, 0, 255);
    crate::text::decimal_roundtrip(c.blue as int, 0, 255);
}

/// A colour read from a line takes its red, green and blue components, in
/// that order, from the first three `,`-separated parts of the text after the
/// first ` : `.
pub proof fn color_components_read(line: Seq<char>)
    requires
        spec_parse_color_line(line) is Ok,
    ensures
        ({
            let c = spec_parse_color_line(line)->Ok_0;
            let parts = split_spec(second_piece(line)->Some_0, ',');
            &&& second_piece(line) is Some
            &&& parts.len() >= 3
            &&& spec_parse_int(parts[0], 0, 255) == Ok::<int, crate::text::IntErrorKind>(c.red as int)
            &&& spec_parse_int(parts[1], 0, 255) == Ok::<int, crate::text::IntErrorKind>(c.green as int)
            &&& spec_parse_int(parts[2], 0, 255) == Ok::<int, crate::text::IntErrorKind>(c.blue as int)
        }),
{
    let parts = split_spec(second_piece(line)->Some_0, ',');
    crate::text::lemma_parse_int_range(parts[0], 0, 255);
    crate::text::lemma_parse_int_range(parts[1], 0, 255);
    crate::text::lemma_parse_int_range(parts[2], 0, 255);
}

} // verus!
