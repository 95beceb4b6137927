//! A weather report: its icon, its text and its colours.
use vstd::prelude::*;
use crate::decimal::{Decimal, is_tenths_text};
use crate::style::{ColorCategory, color_category_of, select_color_category, style_text, styled_as};

verus! {

/// The icon that stands beside a temperature in degrees Celsius.
#[derive(Clone, Copy, Debug, PartialEq, Eq)]
pub enum Icon {
    Freezing,
    Cold,
    Mild,
    Warm,
    Hot,
}

/// The icon of a temperature, by half-open bands at 0, 10, 20 and 30.
pub open spec fn icon_of(t: Decimal) -> Icon {
    if t.below(0) {
        Icon::Freezing
    } else if t.below(10) {
        Icon::Cold
    } else if t.below(20) {
        Icon::Mild
    } else if t.below(30) {
        Icon::Warm
    } else {
        Icon::Hot
    }
}

/// Picks the icon of a temperature.
pub fn select_icon(t: &Decimal) -> (r: Icon)
    requires
        t.wf(),
    ensures
        r == icon_of(*t),
{
    if t.is_below(0) {
        Icon::Freezing
    } else if t.is_below(10) {
        Icon::Cold
    } else if t.is_below(20) {
        Icon::Mild
    } else if t.is_below(30) {
        Icon::Warm
    } else {
        Icon::Hot
    }
}

/// The symbol of an icon.
pub open spec fn icon_symbol(i: Icon) -> Seq<char> {
    match i {
        Icon::Freezing => seq!['\u{2744}'],
        Icon::Cold => seq!['\u{2601}'],
        Icon::Mild => seq!['\u{26C5}'],
        Icon::Warm => seq!['\u{1F324}'],
        Icon::Hot => seq!['\u{2600}'],
    }
}

impl Icon {
    /// The symbol printed for this icon.
    pub fn symbol(&self) -> (r: &'static str)
        ensures
            r@ == icon_symbol(*self),
    {
        proof {
            reveal_strlit("\u{2744}");
            reveal_strlit("\u{2601}");
            reveal_strlit("\u{26C5}");
            reveal_strlit("\u{1F324}");
            reveal_strlit("\u{2600}");
        }
        match self {
            Icon::Freezing => "\u{2744}",
            Icon::Cold => "\u{2601}",
            Icon::Mild => "\u{26C5}",
            Icon::Warm => "\u{1F324}",
            Icon::Hot => "\u{2600}",
        }
    }
}

/// The result of one successful lookup: where, what, the temperature that
/// picks the icon, and the measurements as printed with one fractional digit
/// (degrees Celsius, percent, hectopascal, metres per second).
#[derive(Clone, Debug)]
pub struct WeatherReport {
    pub location: String,
    pub description: String,
    pub temperature: Decimal,
    pub temperature_text: String,
    pub humidity_text: String,
    pub pressure_text: String,
    pub wind_speed_text: String,
}

impl WeatherReport {
    /// The temperature is a well-formed decimal, and each printed measurement
    /// has exactly one fractional digit.
    pub open spec fn wf(&self) -> bool {
        &&& self.temperature.wf()
        &&& is_tenths_text(self.temperature_text@)
        &&& is_tenths_text(self.humidity_text@)
        &&& is_tenths_text(self.pressure_text@)
        &&& is_tenths_text(self.wind_speed_text@)
    }
}

/// The text of a report: a header line, then one indented line per measurement,
/// then a last line of eight spaces, the indentation of the lines above.
pub open spec fn report_text(r: WeatherReport) -> Seq<char> {
    "Weather in "@ + r.location@ + ": "@ + r.description@ + " "@ + icon_symbol(icon_of(r.temperature))
        + "\n        > Temperature: "@ + r.temperature_text@
        + "\n        > Humidity: "@ + r.humidity_text@
        + "\n        > Pressure: "@ + r.pressure_text@
        + " hPa\n        > Wind Speed: "@ + r.wind_speed_text@
        + "m/s\n        "@
}

/// The report as plain text.
pub fn render_report(report: &WeatherReport) -> (r: String)
    requires
        report.wf(),
    ensures
        r@ == report_text(*report),
{
    let icon = select_icon(&report.temperature);
    let mut r = String::from_str("Weather in ");
    r.append(report.location.as_str());
    r.append(": ");
    r.append(report.description.as_str());
    r.append(" ");
    r.append(icon.symbol());
    r.append("\n        > Temperature: ");
    r.append(report.temperature_text.as_str());
    r.append("\n        > Humidity: ");
    r.append(report.humidity_text.as_str());
    r.append("\n        > Pressure: ");
    r.append(report.pressure_text.as_str());
    r.append(" hPa\n        > Wind Speed: ");
    r.append(report.wind_speed_text.as_str());
    r.append("m/s\n        ");
    r
}

/// The colour category of a report.
pub open spec fn report_category(r: WeatherReport) -> ColorCategory {
    color_category_of(r.description@)
}

/// The report as the terminal receives it: its text, coloured by its
/// description where `colours` is on.
pub fn format_report(report: &WeatherReport, colours: bool) -> (r: String)
    requires
        report.wf(),
    ensures
        styled_as(report_category(*report), colours, report_text(*report), r@),
{
    let text = render_report(report);
    let c = select_color_category(report.description.as_str());
    style_text(text.as_str(), c, colours)
}

} // verus!
