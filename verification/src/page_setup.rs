//! Page layout: paper formats and margins, in whole numbers and texts.
//!
//! Lengths are in hundredths of an inch. The number of a margin stays the text that it was given
//! as; its unit says what one inch is in it.

use vstd::prelude::*;

use crate::models::{PdfMargin, PdfOptions};
use crate::text::{ends_with, same_text, to_lowercase, to_uppercase, trim, trim_end_matches};
#[allow(unused_imports)]
use crate::text::{
    ascii_lower, ascii_upper, is_white_space, lowercase_text, text_opt, trimmed, trimmed_end,
    trimmed_start, uppercase_text, without_suffixes,
};

verus! {

/// A bare number above this one counts pixels, any other counts inches.
pub const BARE_PIXEL_THRESHOLD: u32 = 10;

/// The unit that a margin is given in.
#[derive(Clone, Copy, Debug, PartialEq, Eq, Structural)]
pub enum MarginUnit {
    Inches,
    Centimeters,
    Millimeters,
    Pixels,
    Bare,
}

/// A margin: a number, as text, and its unit.
#[derive(Debug)]
pub struct Margin {
    pub unit: MarginUnit,
    pub number: String,
}

/// A margin as a value.
pub struct MarginView {
    pub unit: MarginUnit,
    pub number: Seq<char>,
}

impl View for Margin {
    type V = MarginView;

    open spec fn view(&self) -> MarginView {
        MarginView { unit: self.unit, number: self.number@ }
    }
}

pub open spec fn margin_view(margin: Option<Margin>) -> Option<MarginView> {
    match margin {
        Some(margin) => Some(margin@),
        None => None,
    }
}

impl MarginUnit {
    /// The unit that is meant, where the number is or is not above the threshold.
    pub open spec fn meant_unit(self, above_threshold: bool) -> MarginUnit {
        match self {
            MarginUnit::Bare => if above_threshold {
                MarginUnit::Pixels
            } else {
                MarginUnit::Inches
            },
            unit => unit,
        }
    }

    /// An inch in hundredths of this unit.
    pub open spec fn inch_hundredths(self) -> u32 {
        match self {
            MarginUnit::Inches => 100,
            MarginUnit::Centimeters => 254,
            MarginUnit::Millimeters => 2540,
            MarginUnit::Pixels => 9600,
            MarginUnit::Bare => 100,
        }
    }

    /// What a number in this unit is divided by to give inches, in hundredths; a bare number is
    /// taken for pixels where it is above the threshold, else for inches.
    pub fn divisor_hundredths(self, above_threshold: bool) -> (r: u32)
        ensures
            r == self.meant_unit(above_threshold).inch_hundredths(),
    {
        match self {
            MarginUnit::Inches => 100,
            MarginUnit::Centimeters => 254,
            MarginUnit::Millimeters => 2540,
            MarginUnit::Pixels => 9600,
            MarginUnit::Bare => if above_threshold {
                9600
            } else {
                100
            },
        }
    }
}

/// The number that stands before a unit.
pub open spec fn number_before(s: Seq<char>, unit: Seq<char>) -> Seq<char> {
    trimmed(without_suffixes(s, unit))
}

/// The margin that a text gives, which is in lower case and has no white space around it.
pub open spec fn read_margin(s: Seq<char>) -> MarginView {
    if "in"@.is_suffix_of(s) {
        MarginView { unit: MarginUnit::Inches, number: number_before(s, "in"@) }
    } else if "cm"@.is_suffix_of(s) {
        MarginView { unit: MarginUnit::Centimeters, number: number_before(s, "cm"@) }
    } else if "mm"@.is_suffix_of(s) {
        MarginView { unit: MarginUnit::Millimeters, number: number_before(s, "mm"@) }
    } else if "px"@.is_suffix_of(s) {
        MarginView { unit: MarginUnit::Pixels, number: number_before(s, "px"@) }
    } else {
        MarginView { unit: MarginUnit::Bare, number: s }
    }
}

/// The margin that an optional text gives, none where there is no text; `lower` is the text in
/// lower case without white space around it.
pub open spec fn margin_of(value: Option<Seq<char>>, lower: Seq<char>) -> Option<MarginView> {
    match value {
        None => None,
        Some(s) => if s.len() == 0 {
            None
        } else {
            Some(read_margin(lower))
        },
    }
}

/// The text of a margin in lower case without white space around it.
pub open spec fn lower_margin(value: Option<Seq<char>>) -> Seq<char> {
    match value {
        None => Seq::empty(),
        Some(s) => lowercase_text(trimmed(s)),
    }
}

/// The margin that this text gives; of ASCII text each letter is put in lower case by itself.
pub open spec fn sets_margin(margin: Option<Margin>, value: Option<Seq<char>>) -> bool {
    &&& margin_view(margin) == margin_of(value, lower_margin(value))
    &&& value matches Some(s) ==> vstd::utf8::is_ascii_chars(trimmed(s)) ==> margin_view(margin)
        == margin_of(value, trimmed(s).map_values(|c: char| ascii_lower(c)))
}

/// Reads a margin that is in lower case and has no white space around it.
pub fn classify_margin(s: &str) -> (r: Margin)
    ensures
        r@ == read_margin(s@),
{
    if ends_with(s, "in") {
        let number = trim(trim_end_matches(s, "in").as_str());
        Margin { unit: MarginUnit::Inches, number }
    } else if ends_with(s, "cm") {
        let number = trim(trim_end_matches(s, "cm").as_str());
        Margin { unit: MarginUnit::Centimeters, number }
    } else if ends_with(s, "mm") {
        let number = trim(trim_end_matches(s, "mm").as_str());
        Margin { unit: MarginUnit::Millimeters, number }
    } else if ends_with(s, "px") {
        let number = trim(trim_end_matches(s, "px").as_str());
        Margin { unit: MarginUnit::Pixels, number }
    } else {
        Margin { unit: MarginUnit::Bare, number: s.to_owned() }
    }
}

/// The margin that an optional text gives (supports px, cm, mm, in, or plain numbers).
pub fn parse_margin(value: &Option<String>) -> (r: Option<Margin>)
    ensures
        sets_margin(r, text_opt(*value)),
{
    match value {
        None => None,
        Some(s) => {
            if s.as_str().is_empty() {
                return None;
            }
            let lower = to_lowercase(trim(s.as_str()).as_str());
            Some(classify_margin(lower.as_str()))
        },
    }
}

/// Width and height of a paper format, which is in upper case; A4 where it is not known.
pub open spec fn paper_size_of(format: Seq<char>) -> (u32, u32) {
    if format == "LETTER"@ {
        (850, 1100)
    } else if format == "LEGAL"@ {
        (850, 1400)
    } else if format == "A3"@ {
        (1169, 1654)
    } else if format == "A5"@ {
        (583, 827)
    } else {
        (827, 1169)
    }
}

pub fn paper_size(format: &str) -> (r: (u32, u32))
    ensures
        r == paper_size_of(format@),
{
    if same_text(format, "LETTER") {
        (850, 1100)
    } else if same_text(format, "LEGAL") {
        (850, 1400)
    } else if same_text(format, "A3") {
        (1169, 1654)
    } else if same_text(format, "A5") {
        (583, 827)
    } else {
        (827, 1169)
    }
}

/// The layout of a document; no margin is a margin of nothing.
#[derive(Debug)]
pub struct PageSetup {
    pub paper_width: u32,
    pub paper_height: u32,
    pub print_background: bool,
    pub margin_top: Option<Margin>,
    pub margin_right: Option<Margin>,
    pub margin_bottom: Option<Margin>,
    pub margin_left: Option<Margin>,
}

/// The format that is asked for, A4 where nothing is.
pub open spec fn format_of(options: Option<PdfOptions>) -> Seq<char> {
    match options {
        Some(options) => options.format@,
        None => "A4"@,
    }
}

/// Backgrounds are printed unless that is declined.
pub open spec fn background_of(options: Option<PdfOptions>) -> bool {
    match options {
        Some(options) => options.print_background,
        None => true,
    }
}

pub open spec fn margins_of(options: Option<PdfOptions>) -> Option<PdfMargin> {
    match options {
        Some(options) => options.margin,
        None => None,
    }
}

pub open spec fn side_text(margins: Option<PdfMargin>, side: spec_fn(PdfMargin) -> Option<String>)
    -> Option<Seq<char>> {
    match margins {
        Some(margins) => text_opt(side(margins)),
        None => None,
    }
}

/// The layout that the options ask for.
pub fn build_pdf_params(options: Option<&PdfOptions>) -> (r: PageSetup)
    ensures
        ({
            let asked: Option<PdfOptions> = match options {
                Some(o) => Some(*o),
                None => None,
            };
            let margins = margins_of(asked);
            &&& (r.paper_width, r.paper_height) == paper_size_of(uppercase_text(format_of(asked)))
            &&& vstd::utf8::is_ascii_chars(format_of(asked)) ==> (r.paper_width, r.paper_height)
                == paper_size_of(format_of(asked).map_values(|c: char| ascii_upper(c)))
            &&& r.print_background == background_of(asked)
            &&& sets_margin(r.margin_top, side_text(margins, |m: PdfMargin| m.top))
            &&& sets_margin(r.margin_right, side_text(margins, |m: PdfMargin| m.right))
            &&& sets_margin(r.margin_bottom, side_text(margins, |m: PdfMargin| m.bottom))
            &&& sets_margin(r.margin_left, side_text(margins, |m: PdfMargin| m.left))
        }),
        options matches Some(o) ==> r.print_background == o.print_background,
        options is None ==> r.print_background,
        options matches Some(o) ==> (o.margin matches Some(m) ==> {
            &&& sets_margin(r.margin_top, text_opt(m.top))
            &&& sets_margin(r.margin_right, text_opt(m.right))
            &&& sets_margin(r.margin_bottom, text_opt(m.bottom))
            &&& sets_margin(r.margin_left, text_opt(m.left))
            &&& r.margin_top is Some <==> (m.top matches Some(s) && s@.len() > 0)
            &&& r.margin_right is Some <==> (m.right matches Some(s) && s@.len() > 0)
            &&& r.margin_bottom is Some <==> (m.bottom matches Some(s) && s@.len() > 0)
            &&& r.margin_left is Some <==> (m.left matches Some(s) && s@.len() > 0)
        }),
        (options is None || (options matches Some(o) && o.margin is None)) ==> r.margin_top is None
            && r.margin_right is None && r.margin_bottom is None && r.margin_left is None,
{
    let default = PdfOptions::default();
    let opts = match options {
        Some(o) => o,
        None => &default,
    };
    let (paper_width, paper_height) = paper_size(to_uppercase(opts.format.as_str()).as_str());
    let no_margin = PdfMargin::default();
    let margin = match &opts.margin {
        Some(m) => m,
        None => &no_margin,
    };
    PageSetup {
        paper_width,
        paper_height,
        print_background: opts.print_background,
        margin_top: parse_margin(&margin.top),
        margin_right: parse_margin(&margin.right),
        margin_bottom: parse_margin(&margin.bottom),
        margin_left: parse_margin(&margin.left),
    }
}

// ---------------------------------------------------------------------------
// Laws
// ---------------------------------------------------------------------------

/// A plain number: digits, possibly with a point.
pub open spec fn is_plain_number(s: Seq<char>) -> bool {
    &&& s.len() > 0
    &&& forall|i: int| 0 <= i < s.len() ==> crate::text::is_digit(#[trigger] s[i]) || s[i] == '.'
}

proof fn lemma_number_before(n: Seq<char>, unit: Seq<char>)
    requires
        is_plain_number(n),
        unit.len() == 2,
        'a' <= unit[0] <= 'z',
        'a' <= unit[1] <= 'z',
    ensures
        number_before(n + unit, unit) == n,
        unit.is_suffix_of(n + unit),
        forall|other: Seq<char>|
            #![trigger other.is_suffix_of(n + unit)]
            other.len() == 2 && other != unit ==> !other.is_suffix_of(n + unit),
        forall|other: Seq<char>|
            #![trigger other.is_suffix_of(n)]
            other.len() == 2 && 'a' <= other[1] <= 'z' ==> !other.is_suffix_of(n),
{
    let s = n + unit;
    assert(s.subrange(s.len() - 2, s.len() as int) =~= unit);
    assert(s.take(s.len() - 2) =~= n);
    assert forall|other: Seq<char>|
        #![trigger other.is_suffix_of(n)]
        other.len() == 2 && 'a' <= other[1] <= 'z' implies !other.is_suffix_of(n) by {
        if other.is_suffix_of(n) {
            assert(n.subrange(n.len() - 2, n.len() as int)[1] == n[n.len() - 1]);
            assert(other[1] == n[n.len() - 1]);
        }
    }
    assert(!unit.is_suffix_of(n));
    assert(without_suffixes(n, unit) == n);
    assert(without_suffixes(s, unit) == n) by {
        reveal_with_fuel(without_suffixes, 2);
    }
    assert(!is_white_space(n[0]));
    assert(!is_white_space(n.last()));
}

/// A plain number with one of the units in, cm, mm and px is read as that number in that unit,
/// and without a unit as a bare number.
pub proof fn law_margin_units(n: Seq<char>)
    requires
        is_plain_number(n),
    ensures
        read_margin(n + "in"@) == (MarginView { unit: MarginUnit::Inches, number: n }),
        read_margin(n + "cm"@) == (MarginView { unit: MarginUnit::Centimeters, number: n }),
        read_margin(n + "mm"@) == (MarginView { unit: MarginUnit::Millimeters, number: n }),
        read_margin(n + "px"@) == (MarginView { unit: MarginUnit::Pixels, number: n }),
        read_margin(n) == (MarginView { unit: MarginUnit::Bare, number: n }),
{
    reveal_strlit("in");
    reveal_strlit("cm");
    reveal_strlit("mm");
    reveal_strlit("px");
    assert("in"@[0] == 'i' && "cm"@[0] == 'c' && "mm"@[0] == 'm' && "px"@[0] == 'p');
    lemma_number_before(n, "in"@);
    lemma_number_before(n, "cm"@);
    lemma_number_before(n, "mm"@);
    lemma_number_before(n, "px"@);
}

/// The unit that a margin is read in is told by the last two characters of its text, whatever
/// stands before them: four pairs of letters are units and are left out of the number, as often as
/// they stand there; any other text is a bare number as it is.
pub proof fn law_margin_unit_letters(s: Seq<char>)
    ensures
        ({
            let read = read_margin(s);
            let (a, b) = if s.len() >= 2 {
                (s[s.len() - 2], s[s.len() - 1])
            } else {
                (' ', ' ')
            };
            let number = trimmed(without_suffixes(s, seq![a, b]));
            &&& read.unit == MarginUnit::Inches <==> a == 'i' && b == 'n'
            &&& read.unit == MarginUnit::Centimeters <==> a == 'c' && b == 'm'
            &&& read.unit == MarginUnit::Millimeters <==> a == 'm' && b == 'm'
            &&& read.unit == MarginUnit::Pixels <==> a == 'p' && b == 'x'
            &&& read.unit != MarginUnit::Bare ==> read.number == number
            &&& read.unit == MarginUnit::Bare ==> read.number == s
        }),
{
    reveal_strlit("in");
    reveal_strlit("cm");
    reveal_strlit("mm");
    reveal_strlit("px");
    assert("in"@ =~= seq!['i', 'n'] && "cm"@ =~= seq!['c', 'm']);
    assert("mm"@ =~= seq!['m', 'm'] && "px"@ =~= seq!['p', 'x']);
    if s.len() >= 2 {
        let end = s.subrange(s.len() - 2, s.len() as int);
        assert(end =~= seq![s[s.len() - 2], s[s.len() - 1]]);
        assert(seq!['i', 'n'][0] == 'i' && seq!['i', 'n'][1] == 'n');
        assert(seq!['c', 'm'][0] == 'c' && seq!['c', 'm'][1] == 'm');
        assert(seq!['m', 'm'][0] == 'm' && seq!['m', 'm'][1] == 'm');
        assert(seq!['p', 'x'][0] == 'p' && seq!['p', 'x'][1] == 'x');
    }
}

/// A margin is there exactly where its text is and is not empty. A plain number with a unit is that
/// number in that unit, and without one a bare number, in upper and in lower case and with white
/// space around it.
pub proof fn law_margin_text(margin: Option<Margin>, value: Option<Seq<char>>, n: Seq<char>)
    requires
        sets_margin(margin, value),
        is_plain_number(n),
    ensures
        margin is Some <==> (value matches Some(s) && s.len() > 0),
        value matches Some(s) ==> s.len() > 0 ==> {
            let lower = lowercase_text(trimmed(s));
            &&& margin matches Some(m)
            &&& m.unit == read_margin(lower).unit && m.number@ == read_margin(lower).number
        },
        value matches Some(s) ==> vstd::utf8::is_ascii_chars(trimmed(s)) ==> s.len() > 0 ==> {
            let lower = trimmed(s).map_values(|c: char| ascii_lower(c));
            &&& margin matches Some(m)
            &&& lower == n + "in"@ ==> m.unit == MarginUnit::Inches && m.number@ == n
            &&& lower == n + "cm"@ ==> m.unit == MarginUnit::Centimeters && m.number@ == n
            &&& lower == n + "mm"@ ==> m.unit == MarginUnit::Millimeters && m.number@ == n
            &&& lower == n + "px"@ ==> m.unit == MarginUnit::Pixels && m.number@ == n
            &&& lower == n ==> m.unit == MarginUnit::Bare && m.number@ == n
            &&& m.unit == read_margin(lower).unit && m.number@ == read_margin(lower).number
        },
{
    law_margin_units(n);
}

/// What the units are worth: an inch is 2.54 centimeters, ten times as many millimeters and 96
/// pixels. A bare number stands for pixels above ten and for inches else; a unit that is given is
/// the one that is meant.
pub proof fn law_inch(unit: MarginUnit, above_threshold: bool)
    ensures
        MarginUnit::Inches.inch_hundredths() == 100,
        MarginUnit::Centimeters.inch_hundredths() * 100 == 254 * MarginUnit::Inches.inch_hundredths(),
        MarginUnit::Millimeters.inch_hundredths() == 10 * MarginUnit::Centimeters.inch_hundredths(),
        MarginUnit::Pixels.inch_hundredths() == 96 * MarginUnit::Inches.inch_hundredths(),
        unit != MarginUnit::Bare ==> unit.meant_unit(above_threshold) == unit,
        MarginUnit::Bare.meant_unit(true) == MarginUnit::Pixels,
        MarginUnit::Bare.meant_unit(false) == MarginUnit::Inches,
        BARE_PIXEL_THRESHOLD == 10,
{
}

/// The paper formats: Letter and Legal are 8.5 inches wide and 11 and 14 high. An A3 sheet is as
/// wide as an A4 sheet is high, which is as wide as an A5 sheet is high. Every sheet is upright,
/// and what is no known format is A4.
pub proof fn law_paper_sizes(format: Seq<char>)
    ensures
        paper_size_of("LETTER"@) == (850u32, 1100u32),
        paper_size_of("LEGAL"@) == (850u32, 1400u32),
        paper_size_of("A4"@) == (827u32, 1169u32),
        paper_size_of("A3"@).0 == paper_size_of("A4"@).1 && paper_size_of("A3"@).1 == 1654,
        paper_size_of("A5"@).1 == paper_size_of("A4"@).0 && paper_size_of("A5"@).0 == 583,
        paper_size_of(format).0 < paper_size_of(format).1,
        format != "LETTER"@ && format != "LEGAL"@ && format != "A3"@ && format != "A5"@
            ==> paper_size_of(format) == paper_size_of("A4"@),
{
    reveal_strlit("LETTER");
    reveal_strlit("LEGAL");
    reveal_strlit("A3");
    reveal_strlit("A4");
    reveal_strlit("A5");
    assert("LETTER"@.len() == 6 && "LEGAL"@.len() == 5 && "A3"@.len() == 2);
    assert("A4"@[1] == '4' && "A3"@[1] == '3' && "A5"@[1] == '5');
}

/// The options are independent of each other: format, background and margins are each what the
/// options say, whatever the others are, and each side's margin comes from that side's text. No
/// options ask for A4 with backgrounds and no margins.
pub proof fn law_options_independent(
    options: Option<PdfOptions>,
    margins: Option<PdfMargin>,
    side: spec_fn(PdfMargin) -> Option<String>,
)
    ensures
        options matches Some(o) ==> format_of(options) == o.format@ && background_of(options)
            == o.print_background && margins_of(options) == o.margin,
        options is None ==> format_of(options) == "A4"@ && background_of(options) && margins_of(
            options,
        ) is None,
        margins is None ==> side_text(margins, side) is None,
        margins matches Some(m) ==> side_text(margins, side) == text_opt(side(m)),
{
}

/// A margin seen from outside has its own unit and number.
pub proof fn law_margin_view(m: Margin)
    ensures
        m@.unit == m.unit,
        m@.number == m.number@,
        margin_view(Some(m)) == Some(m@),
        margin_view(None) is None,
{
}

} // verus!
