//! What the data feeds say, put into classes: air quality, weather codes,
//! plate boundaries, and descriptions freed of their markup.

use vstd::prelude::*;
use crate::text::{
    chars_of, collapse_whitespace, collapsed, contains, has_text, to_lowercase,
    unicode_lowercase,
};

verus! {

/// Category and display colour of an air quality index.
pub open spec fn spec_aqi_category(aqi: u32) -> (Seq<char>, Seq<char>) {
    if aqi <= 50 {
        ("Good"@, "#22c55e"@)
    } else if aqi <= 100 {
        ("Moderate"@, "#eab308"@)
    } else if aqi <= 150 {
        ("Unhealthy for Sensitive Groups"@, "#f97316"@)
    } else if aqi <= 200 {
        ("Unhealthy"@, "#ef4444"@)
    } else if aqi <= 300 {
        ("Very Unhealthy"@, "#7c3aed"@)
    } else {
        ("Hazardous"@, "#991b1b"@)
    }
}

/// Category and display colour of an air quality index.
pub fn aqi_category(aqi: u32) -> (r: (&'static str, &'static str))
    ensures
        (r.0@, r.1@) == spec_aqi_category(aqi),
{
    if aqi <= 50 {
        ("Good", "#22c55e")
    } else if aqi <= 100 {
        ("Moderate", "#eab308")
    } else if aqi <= 150 {
        ("Unhealthy for Sensitive Groups", "#f97316")
    } else if aqi <= 200 {
        ("Unhealthy", "#ef4444")
    } else if aqi <= 300 {
        ("Very Unhealthy", "#7c3aed")
    } else {
        ("Hazardous", "#991b1b")
    }
}

/// Description of a weather code of the World Meteorological Organization.
pub open spec fn spec_wmo_description(code: u32) -> Seq<char> {
    if code == 0 {
        "Clear sky"@
    } else if code == 1 {
        "Mainly clear"@
    } else if code == 2 {
        "Partly cloudy"@
    } else if code == 3 {
        "Overcast"@
    } else if code == 45 {
        "Fog"@
    } else if code == 48 {
        "Rime fog"@
    } else if code == 51 {
        "Light drizzle"@
    } else if code == 53 {
        "Moderate drizzle"@
    } else if code == 55 {
        "Dense drizzle"@
    } else if code == 56 {
        "Light freezing drizzle"@
    } else if code == 57 {
        "Dense freezing drizzle"@
    } else if code == 61 {
        "Slight rain"@
    } else if code == 63 {
        "Moderate rain"@
    } else if code == 65 {
        "Heavy rain"@
    } else if code == 66 {
        "Light freezing rain"@
    } else if code == 67 {
        "Heavy freezing rain"@
    } else if code == 71 {
        "Slight snow"@
    } else if code == 73 {
        "Moderate snow"@
    } else if code == 75 {
        "Heavy snow"@
    } else if code == 77 {
        "Snow grains"@
    } else if code == 80 {
        "Slight rain showers"@
    } else if code == 81 {
        "Moderate rain showers"@
    } else if code == 82 {
        "Violent rain showers"@
    } else if code == 85 {
        "Slight snow showers"@
    } else if code == 86 {
        "Heavy snow showers"@
    } else if code == 95 {
        "Thunderstorm"@
    } else if code == 96 {
        "Thunderstorm with slight hail"@
    } else if code == 99 {
        "Thunderstorm with heavy hail"@
    } else {
        "Unknown"@
    }
}

/// Description of a weather code of the World Meteorological Organization.
pub fn wmo_description(code: u32) -> (text: &'static str)
    ensures
        text@ == spec_wmo_description(code),
{
    match code {
        0 => "Clear sky",
        1 => "Mainly clear",
        2 => "Partly cloudy",
        3 => "Overcast",
        45 => "Fog",
        48 => "Rime fog",
        51 => "Light drizzle",
        53 => "Moderate drizzle",
        55 => "Dense drizzle",
        56 => "Light freezing drizzle",
        57 => "Dense freezing drizzle",
        61 => "Slight rain",
        63 => "Moderate rain",
        65 => "Heavy rain",
        66 => "Light freezing rain",
        67 => "Heavy freezing rain",
        71 => "Slight snow",
        73 => "Moderate snow",
        75 => "Heavy snow",
        77 => "Snow grains",
        80 => "Slight rain showers",
        81 => "Moderate rain showers",
        82 => "Violent rain showers",
        85 => "Slight snow showers",
        86 => "Heavy snow showers",
        95 => "Thunderstorm",
        96 => "Thunderstorm with slight hail",
        99 => "Thunderstorm with heavy hail",
        _ => "Unknown",
    }
}

/// Kind of a plate boundary whose name, in lower case, is `lower`:
/// trenches, thrusts and subduction zones converge; ridges, rises and
/// rifts diverge; everything else is taken for a transform boundary.
pub open spec fn spec_boundary_kind(lower: Seq<char>) -> Seq<char> {
    if contains(lower, "trench"@) || contains(lower, "thrust"@) || contains(lower, "subduc"@) {
        "convergent"@
    } else if contains(lower, "ridge"@) || contains(lower, "rise"@) || contains(lower, "rift"@) {
        "divergent"@
    } else {
        "transform"@
    }
}

/// Kind of the plate boundary of this name.
pub fn classify_boundary(name: &str) -> (kind: &'static str)
    ensures
        kind@ == spec_boundary_kind(unicode_lowercase(name@)),
{
    let lower = to_lowercase(name);
    let chars = chars_of(lower.as_str());
    if has_text(&chars, "trench") || has_text(&chars, "thrust") || has_text(&chars, "subduc") {
        "convergent"
    } else if has_text(&chars, "ridge") || has_text(&chars, "rise") || has_text(&chars, "rift") {
        "divergent"
    } else {
        "transform"
    }
}

/// The text from `pos` on without its markup, where `in_tag` says whether
/// `pos` lies inside a tag. A tag opens at `<` and closes at `>`.
pub open spec fn without_tags_from(text: Seq<char>, pos: int, in_tag: bool) -> Seq<char>
    decreases text.len() - pos,
{
    if pos >= text.len() {
        Seq::empty()
    } else if text[pos] == '<' {
        without_tags_from(text, pos + 1, true)
    } else if text[pos] == '>' {
        without_tags_from(text, pos + 1, false)
    } else if in_tag {
        without_tags_from(text, pos + 1, in_tag)
    } else {
        seq![text[pos]] + without_tags_from(text, pos + 1, in_tag)
    }
}

/// A text without its markup.
pub open spec fn without_tags(text: Seq<char>) -> Seq<char> {
    without_tags_from(text, 0, false)
}

/// Removes the markup from a description and collapses its white space.
pub fn strip_html(s: &str) -> (plain: String)
    ensures
        plain@ == collapse_whitespace(without_tags(s@)),
{
    let text = chars_of(s);
    let mut kept: Vec<char> = Vec::new();
    let mut in_tag = false;
    let mut pos: usize = 0;
    proof {
        assert(kept@ + without_tags_from(text@, 0, false) =~= without_tags(text@));
    }
    while pos < text.len()
        invariant
            pos <= text.len(),
            without_tags(text@) == kept@ + without_tags_from(text@, pos as int, in_tag),
        decreases text.len() - pos,
    {
        let c = text[pos];
        if c == '<' {
            in_tag = true;
        } else if c == '>' {
            in_tag = false;
        } else if !in_tag {
            let ghost before = kept@;
            kept.push(c);
            proof {
                let rest = without_tags_from(text@, pos + 1, in_tag);
                assert((before + seq![c]) + rest =~= before + (seq![c] + rest));
                assert(kept@ =~= before + seq![c]);
            }
        }
        pos += 1;
    }
    proof {
        assert(kept@ + Seq::<char>::empty() =~= kept@);
    }
    collapsed(&kept)
}

/// Half angle above which a mass ejection counts as wide, in thousandths
/// of a degree.
pub const WIDE_HALF_ANGLE: i64 = 45_000;

/// Whether a mass ejection is taken to head for the Earth: its note
/// mentions the Earth, in whatever case, or its half angle is wide.
pub open spec fn spec_is_earth_directed(note: Option<Seq<char>>, half_angle: i64) -> bool {
    (note is Some && contains(unicode_lowercase(note->0), "earth"@)) || half_angle
        > WIDE_HALF_ANGLE
}

/// Whether a mass ejection is taken to head for the Earth. The half angle
/// is in thousandths of a degree.
pub fn is_earth_directed(note: &Option<String>, half_angle: i64) -> (r: bool)
    ensures
        r == spec_is_earth_directed(
            match *note {
                Some(n) => Some(n@),
                None => None,
            },
            half_angle,
        ),
{
    let mentioned = match note {
        Some(n) => {
            let lower = to_lowercase(n.as_str());
            let chars = chars_of(lower.as_str());
            has_text(&chars, "earth")
        },
        None => false,
    };
    mentioned || half_angle > WIDE_HALF_ANGLE
}

/// Whether `index` is the analysis to go by: the first that is marked as
/// the most accurate, or the first of all where none is marked.
pub open spec fn is_best_analysis(most_accurate: Seq<Option<bool>>, index: int) -> bool {
    &&& 0 <= index < most_accurate.len()
    &&& forall|k: int| 0 <= k < index ==> #[trigger] most_accurate[k] != Some(true)
    &&& (most_accurate[index] == Some(true) || (index == 0 && forall|k: int|
        0 <= k < most_accurate.len() ==> #[trigger] most_accurate[k] != Some(true)))
}

/// The analysis of a mass ejection to go by, given for each analysis
/// whether it is marked as the most accurate. There is none where there is
/// no analysis.
pub fn best_analysis(most_accurate: &Vec<Option<bool>>) -> (r: Option<usize>)
    ensures
        r is Some <==> most_accurate@.len() > 0,
        r matches Some(i) ==> is_best_analysis(most_accurate@, i as int),
{
    let mut i: usize = 0;
    while i < most_accurate.len()
        invariant
            i <= most_accurate.len(),
            forall|k: int| 0 <= k < i ==> #[trigger] most_accurate@[k] != Some(true),
        decreases most_accurate.len() - i,
    {
        match most_accurate[i] {
            Some(true) => {
                return Some(i);
            },
            _ => {},
        }
        i += 1;
    }
    if most_accurate.len() > 0 {
        Some(0)
    } else {
        None
    }
}

} // verus!
