//! Terminal colours for a report, chosen by its weather description.
use vstd::prelude::*;
use colored::Colorize;

verus! {

/// How a report is coloured on the terminal.
#[derive(Clone, Copy, Debug, PartialEq, Eq)]
pub enum ColorCategory {
    BrightYellow,
    BrightBlue,
    Dimmed,
    BrightCyan,
    BrightGreen,
    Plain,
}

/// The category of a weather description; the match is exact and case-sensitive.
pub open spec fn color_category_of(d: Seq<char>) -> ColorCategory {
    if d == "clear sky"@ {
        ColorCategory::BrightYellow
    } else if d == "few clouds"@ || d == "scattered clouds"@ || d == "broken clouds"@ {
        ColorCategory::BrightBlue
    } else if d == "overcast clouds"@ || d == "mist"@ || d == "haze"@ || d == "smoke"@
        || d == "sand"@ || d == "dust"@ || d == "fog"@ || d == "squalls"@ {
        ColorCategory::Dimmed
    } else if d == "shower rain"@ || d == "rain"@ || d == "thunderstorm"@ || d == "snow"@ {
        ColorCategory::BrightCyan
    } else {
        ColorCategory::Plain
    }
}

fn is_text(d: &String, lit: &str) -> (r: bool)
    ensures
        r == (d@ == lit@),
{
    let l = String::from_str(lit);
    d.eq(&l)
}

/// Picks the colour of a report from its weather description.
pub fn select_color_category(description: &str) -> (r: ColorCategory)
    ensures
        r == color_category_of(description@),
{
    let d = String::from_str(description);
    if is_text(&d, "clear sky") {
        ColorCategory::BrightYellow
    } else if is_text(&d, "few clouds") || is_text(&d, "scattered clouds") || is_text(
        &d,
        "broken clouds",
    ) {
        ColorCategory::BrightBlue
    } else if is_text(&d, "overcast clouds") || is_text(&d, "mist") || is_text(&d, "haze")
        || is_text(&d, "smoke") || is_text(&d, "sand") || is_text(&d, "dust") || is_text(&d, "fog")
        || is_text(&d, "squalls") {
        ColorCategory::Dimmed
    } else if is_text(&d, "shower rain") || is_text(&d, "rain") || is_text(&d, "thunderstorm")
        || is_text(&d, "snow") {
        ColorCategory::BrightCyan
    } else {
        ColorCategory::Plain
    }
}

/// The sequence that ends every style.
pub open spec fn reset_code() -> Seq<char> {
    seq!['\x1B', '[', '0', 'm']
}

/// The sequence that starts the style with SGR parameter `code`.
pub open spec fn start_code(code: Seq<char>) -> Seq<char> {
    seq!['\x1B', '['] + code + seq!['m']
}

/// `text` holds no reset sequence.
pub open spec fn free_of_reset(text: Seq<char>) -> bool {
    forall|i: int| 0 <= i <= text.len() - 4 ==> #[trigger] text.subrange(i, i + 4) != reset_code()
}

/// `r` is `text` as printed with the style `code`: unchanged where colours are
/// off; else wrapped in the style's start and the reset, and, where `text` holds
/// no reset of its own, exactly that.
pub open spec fn painted(code: Seq<char>, colours: bool, text: Seq<char>, r: Seq<char>) -> bool {
    if !colours {
        r == text
    } else {
        &&& r.len() >= start_code(code).len() + reset_code().len()
        &&& r.subrange(0, start_code(code).len() as int) == start_code(code)
        &&& r.subrange(r.len() - 4, r.len() as int) == reset_code()
        &&& free_of_reset(text) ==> r == start_code(code) + text + reset_code()
    }
}

/// What the terminal receives for `text` in category `c`, with colours on or off.
pub open spec fn styled_as(c: ColorCategory, colours: bool, text: Seq<char>, r: Seq<char>) -> bool {
    match c {
        ColorCategory::BrightYellow => painted(seq!['9', '3'], colours, text, r),
        ColorCategory::BrightBlue => painted(seq!['9', '4'], colours, text, r),
        ColorCategory::Dimmed => painted(seq!['2'], colours, text, r),
        ColorCategory::BrightCyan => painted(seq!['9', '6'], colours, text, r),
        ColorCategory::BrightGreen => painted(seq!['9', '2'], colours, text, r),
        ColorCategory::Plain => r == text,
    }
}

/// Relies on colored's `control::set_override`, after which `should_colorize`
/// answers `colours`, and on `Colorize::bright_yellow` with its `Display`:
/// SGR code 93 where colours are on, the bare text where they are off.
#[verifier::external_body]
fn paint_bright_yellow(text: &str, colours: bool) -> (r: String)
    ensures
        painted(seq!['9', '3'], colours, text@, r@),
{
    colored::control::set_override(colours);
    text.bright_yellow().to_string()
}

/// Relies on colored's `control::set_override` and on `Colorize::bright_blue`
/// with its `Display`: SGR code 94 where colours are on, the bare text where off.
#[verifier::external_body]
fn paint_bright_blue(text: &str, colours: bool) -> (r: String)
    ensures
        painted(seq!['9', '4'], colours, text@, r@),
{
    colored::control::set_override(colours);
    text.bright_blue().to_string()
}

/// Relies on colored's `control::set_override` and on `Colorize::dimmed`
/// with its `Display`: SGR code 2 where colours are on, the bare text where off.
#[verifier::external_body]
fn paint_dimmed(text: &str, colours: bool) -> (r: String)
    ensures
        painted(seq!['2'], colours, text@, r@),
{
    colored::control::set_override(colours);
    text.dimmed().to_string()
}

/// Relies on colored's `control::set_override` and on `Colorize::bright_cyan`
/// with its `Display`: SGR code 96 where colours are on, the bare text where off.
#[verifier::external_body]
fn paint_bright_cyan(text: &str, colours: bool) -> (r: String)
    ensures
        painted(seq!['9', '6'], colours, text@, r@),
{
    colored::control::set_override(colours);
    text.bright_cyan().to_string()
}

/// Relies on colored's `control::set_override` and on `Colorize::bright_green`
/// with its `Display`: SGR code 92 where colours are on, the bare text where off.
#[verifier::external_body]
fn paint_bright_green(text: &str, colours: bool) -> (r: String)
    ensures
        painted(seq!['9', '2'], colours, text@, r@),
{
    colored::control::set_override(colours);
    text.bright_green().to_string()
}

/// Relies on colored's `Colorize::normal` and its `Display`: a string with no
/// colour and no style prints as its text.
#[verifier::external_body]
fn paint_normal(text: &str) -> (r: String)
    ensures
        r@ == text@,
{
    text.normal().to_string()
}

/// `text` styled for the terminal as category `c` asks, where `colours` says
/// whether the terminal is to receive colours at all.
pub fn style_text(text: &str, c: ColorCategory, colours: bool) -> (r: String)
    ensures
        styled_as(c, colours, text@, r@),
{
    match c {
        ColorCategory::BrightYellow => paint_bright_yellow(text, colours),
        ColorCategory::BrightBlue => paint_bright_blue(text, colours),
        ColorCategory::Dimmed => paint_dimmed(text, colours),
        ColorCategory::BrightCyan => paint_bright_cyan(text, colours),
        ColorCategory::BrightGreen => paint_bright_green(text, colours),
        ColorCategory::Plain => paint_normal(text),
    }
}

} // verus!
