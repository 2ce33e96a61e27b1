//! Settings: how stored switches are read, and which settings are accepted
//! for storing.

use vstd::prelude::*;
use crate::text::{
    ascii_lowercase, chars_of, is_text, to_ascii_lowercase, trim_span, trimmed_span,
};
use crate::units::{HALF_TURN, QUARTER_TURN};

verus! {

/// Latitude of the user where none is stored, in micro-degrees.
pub const DEFAULT_LATITUDE: i64 = 37_338_200;

/// Longitude of the user where none is stored, in micro-degrees.
pub const DEFAULT_LONGITUDE: i64 = -121_886_300;

/// Magnitude threshold where none is stored, in thousandths.
pub const DEFAULT_MAG_THRESHOLD: i64 = 5_000;

/// Proximity radius where none is stored, in metres.
pub const DEFAULT_PROXIMITY_M: i64 = 500_000;

/// The settings a user asks to store. The coordinates are in
/// micro-degrees, the magnitude threshold in thousandths of a magnitude,
/// the proximity radius in metres.
#[derive(Clone, Debug)]
pub struct SaveSettingsPayload {
    pub user_lat: i64,
    pub user_lon: i64,
    pub mag_threshold: i64,
    pub proximity_m: i64,
    pub notify_earthquakes: bool,
    pub notify_aurora: bool,
    pub notify_volcanoes: bool,
    pub sonification_enabled: bool,
    pub ollama_model: String,
}

/// What a stored switch says. Upper and lower case count alike; a text
/// that is neither a yes nor a no says nothing.
pub open spec fn spec_parse_bool_setting(value: Seq<char>) -> Option<bool> {
    let v = ascii_lowercase(value);
    if v == "true"@ || v == "1"@ || v == "yes"@ || v == "on"@ {
        Some(true)
    } else if v == "false"@ || v == "0"@ || v == "no"@ || v == "off"@ {
        Some(false)
    } else {
        None
    }
}

/// Reads a stored switch.
pub fn parse_bool_setting(value: &str) -> (r: Option<bool>)
    ensures
        r == spec_parse_bool_setting(value@),
{
    let chars = chars_of(value);
    let v = to_ascii_lowercase(&chars);
    if is_text(&v, "true") || is_text(&v, "1") || is_text(&v, "yes") || is_text(&v, "on") {
        Some(true)
    } else if is_text(&v, "false") || is_text(&v, "0") || is_text(&v, "no") || is_text(&v, "off") {
        Some(false)
    } else {
        None
    }
}

/// Whether a text holds nothing but white space.
pub open spec fn is_blank(text: Seq<char>) -> bool {
    trimmed_span(text, 0, text.len() as int).0 >= trimmed_span(text, 0, text.len() as int).1
}

/// Why settings are refused, or nothing where they are accepted. The
/// first reason that applies is given: a latitude off the globe, a
/// longitude off the globe, a negative magnitude threshold, a negative
/// proximity radius, a model name that is blank.
pub open spec fn refusal(settings: SaveSettingsPayload) -> Option<Seq<char>> {
    if settings.user_lat < -QUARTER_TURN || settings.user_lat > QUARTER_TURN {
        Some("Latitude must be between -90 and 90"@)
    } else if settings.user_lon < -HALF_TURN || settings.user_lon > HALF_TURN {
        Some("Longitude must be between -180 and 180"@)
    } else if settings.mag_threshold < 0 {
        Some("Magnitude threshold must be non-negative"@)
    } else if settings.proximity_m < 0 {
        Some("Proximity radius must be non-negative"@)
    } else if is_blank(settings.ollama_model@) {
        Some("Ollama model is required"@)
    } else {
        None
    }
}

/// Checks settings before they are stored.
pub fn validate_settings(settings: &SaveSettingsPayload) -> (r: Result<(), String>)
    ensures
        r is Ok <==> refusal(*settings) is None,
        r matches Err(message) ==> Some(message@) == refusal(*settings),
{
    if settings.user_lat < -QUARTER_TURN || settings.user_lat > QUARTER_TURN {
        return Err("Latitude must be between -90 and 90".to_owned());
    }
    if settings.user_lon < -HALF_TURN || settings.user_lon > HALF_TURN {
        return Err("Longitude must be between -180 and 180".to_owned());
    }
    if settings.mag_threshold < 0 {
        return Err("Magnitude threshold must be non-negative".to_owned());
    }
    if settings.proximity_m < 0 {
        return Err("Proximity radius must be non-negative".to_owned());
    }
    let model = chars_of(settings.ollama_model.as_str());
    let span = trim_span(&model, 0, model.len());
    if span.start >= span.end {
        return Err("Ollama model is required".to_owned());
    }
    Ok(())
}

} // verus!
