//! Records of the outside data feeds, as far as they hold text and whole
//! numbers, and what is read off them.

use vstd::prelude::*;
use crate::feeds::{classify_boundary, spec_boundary_kind};
use crate::text::{chars_of, is_text, unicode_lowercase};

verus! {

/// Speed of a near-Earth object relative to the Earth, as the feed writes
/// it.
#[derive(Clone, Debug)]
pub struct Velocity {
    pub kilometers_per_second: String,
}

/// Distance at which a near-Earth object passes, as the feed writes it.
#[derive(Clone, Debug)]
pub struct MissDistance {
    pub kilometers: String,
    pub lunar: String,
}

/// One close approach of a near-Earth object. The instant is in
/// milliseconds since the Unix epoch.
#[derive(Clone, Debug)]
pub struct CloseApproach {
    pub close_approach_date: String,
    pub epoch_date_close_approach: i64,
    pub relative_velocity: Velocity,
    pub miss_distance: MissDistance,
}

/// Category of a natural event.
#[derive(Clone, Debug)]
pub struct EonetCategory {
    pub id: String,
    pub title: String,
}

/// Position of the space station, as the feed writes it.
#[derive(Clone, Debug)]
pub struct IssApiPosition {
    pub latitude: String,
    pub longitude: String,
}

/// Answer of the space station feed. The instant is in Unix seconds.
#[derive(Clone, Debug)]
pub struct IssApiResponse {
    pub iss_position: IssApiPosition,
    pub timestamp: i64,
}

/// Properties of a plate boundary in the boundary file.
#[derive(Clone, Debug)]
pub struct PlateProperties {
    pub name: Option<String>,
}

/// A solar flare as the feed reports it.
#[derive(Clone, Debug)]
pub struct DonkiFlare {
    pub flr_id: String,
    pub class_type: Option<String>,
    pub begin_time: Option<String>,
    pub peak_time: Option<String>,
    pub end_time: Option<String>,
    pub source_location: Option<String>,
}

/// A solar flare as this crate hands it on.
#[derive(Clone, Debug)]
pub struct SolarFlare {
    pub id: String,
    pub class_type: String,
    pub peak_time: String,
    pub source_location: Option<String>,
}

/// Length of the window in which a close approach is announced: two days,
/// in milliseconds.
pub const APPROACH_WINDOW_MS: i64 = 172_800_000;

/// The characters of a text that may be missing.
pub open spec fn text_of(value: Option<String>) -> Option<Seq<char>> {
    match value {
        Some(s) => Some(s@),
        None => None,
    }
}

/// The text, or `fallback` where it is missing.
pub open spec fn text_or(value: Option<String>, fallback: Seq<char>) -> Seq<char> {
    match value {
        Some(s) => s@,
        None => fallback,
    }
}

/// Whether events of the category with this identifier are followed:
/// wildfires, severe storms, floods and volcanoes are.
pub open spec fn spec_is_tracked(id: Seq<char>) -> bool {
    id == "wildfires"@ || id == "severeStorms"@ || id == "floods"@ || id == "volcanoes"@
}

/// Whether a flare of this class is a strong one: class X or class M.
pub open spec fn spec_is_strong(class_type: Seq<char>) -> bool {
    class_type.len() > 0 && (class_type[0] == 'X' || class_type[0] == 'M')
}

fn text_or_else(value: Option<String>, fallback: &str) -> (s: String)
    ensures
        s@ == text_or(value, fallback@),
{
    match value {
        Some(s) => s,
        None => fallback.to_owned(),
    }
}

/// Whether an approach at `approach_ms` lies ahead of `now_ms` and less
/// than [`APPROACH_WINDOW_MS`] away.
pub open spec fn spec_is_imminent(approach_ms: int, now_ms: int) -> bool {
    approach_ms > now_ms && approach_ms - now_ms < APPROACH_WINDOW_MS
}

/// Whether an approach is to be announced now: it lies ahead and less than
/// two days away. Both instants are in milliseconds.
pub fn approach_is_imminent(approach_ms: i64, now_ms: i64) -> (r: bool)
    ensures
        r == spec_is_imminent(approach_ms as int, now_ms as int),
{
    approach_ms > now_ms && (approach_ms as i128) - (now_ms as i128) < APPROACH_WINDOW_MS as i128
}

impl CloseApproach {
    /// Whether the approach is to be announced now.
    pub fn is_imminent(&self, now_ms: i64) -> (r: bool)
        ensures
            r == spec_is_imminent(self.epoch_date_close_approach as int, now_ms as int),
    {
        approach_is_imminent(self.epoch_date_close_approach, now_ms)
    }
}

impl EonetCategory {
    /// Whether events of this category are followed.
    pub fn is_tracked(&self) -> (r: bool)
        ensures
            r == spec_is_tracked(self.id@),
    {
        let id = chars_of(self.id.as_str());
        is_text(&id, "wildfires") || is_text(&id, "severeStorms") || is_text(&id, "floods")
            || is_text(&id, "volcanoes")
    }
}

impl PlateProperties {
    /// Name of the boundary, `Unknown` where the file gives none.
    pub fn boundary_name(&self) -> (name: String)
        ensures
            name@ == text_or(self.name, "Unknown"@),
    {
        match &self.name {
            Some(n) => n.clone(),
            None => "Unknown".to_owned(),
        }
    }

    /// Kind of the boundary, judged by its name.
    pub fn boundary_kind(&self) -> (kind: &'static str)
        ensures
            kind@ == spec_boundary_kind(unicode_lowercase(text_or(self.name, "Unknown"@))),
    {
        let name = self.boundary_name();
        classify_boundary(name.as_str())
    }
}

impl SolarFlare {
    /// Takes a flare over from the feed. A flare without a class is of
    /// class `Unknown`; one without a peak time peaks when it began, or at
    /// no known time where that is missing too.
    pub fn from_donki(flare: DonkiFlare) -> (r: SolarFlare)
        ensures
            r.id@ == flare.flr_id@,
            r.class_type@ == text_or(flare.class_type, "Unknown"@),
            r.peak_time@ == text_or(flare.peak_time, text_or(flare.begin_time, Seq::empty())),
            text_of(r.source_location) == text_of(flare.source_location),
    {
        let began = match flare.begin_time {
            Some(t) => t,
            None => String::new(),
        };
        let peak_time = match flare.peak_time {
            Some(t) => t,
            None => began,
        };
        SolarFlare {
            id: flare.flr_id,
            class_type: text_or_else(flare.class_type, "Unknown"),
            peak_time,
            source_location: flare.source_location,
        }
    }

    /// Whether the flare is a strong one.
    pub fn is_strong(&self) -> (r: bool)
        ensures
            r == spec_is_strong(self.class_type@),
    {
        let class = chars_of(self.class_type.as_str());
        class.len() > 0 && (class[0] == 'X' || class[0] == 'M')
    }
}

} // verus!
