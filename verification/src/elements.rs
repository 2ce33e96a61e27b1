//! Orbital element sets: the two lines of mean elements that describe an
//! orbit at its epoch, parsed once and immutable afterwards.

use vstd::prelude::*;
use vstd::string::StrSliceExecFns;
use vstd::utf8::is_ascii_chars;
use crate::epoch::{epoch_to_instant, CalendarEpoch};
use crate::error::OrbitError;

verus! {

/// Number of characters of each line of an element set.
pub const TLE_LINE_LENGTH: usize = 69;

/// What this crate reads of a parsed element set: the catalogue number of
/// the object and the epoch of the elements.
#[derive(Clone, Copy, Debug, PartialEq, Eq, Structural)]
pub struct ElementFields {
    pub catalog_number: u64,
    pub epoch: CalendarEpoch,
}

/// Whether a line has the shape of a line of an element set: 69 ASCII
/// characters, the last of them a digit, which is the line's checksum.
pub open spec fn tle_line_shape(line: Seq<char>) -> bool {
    &&& is_ascii_chars(line)
    &&& line.len() == TLE_LINE_LENGTH
    &&& '0' <= line[68] <= '9'
}

/// What `sgp4::Elements::from_tle` makes of two lines: the fields this
/// crate reads of the elements it returns, or nothing where it returns an
/// error.
pub uninterp spec fn tle_fields(line1: Seq<char>, line2: Seq<char>) -> Option<ElementFields>;

/// Parses two lines with `sgp4::Elements::from_tle` and reads the
/// catalogue number and the calendar fields of the epoch off the result.
///
/// The contract claims only that the outcome is a function of the two
/// lines, named [`tle_fields`]. The lines must have the shape of element
/// set lines: those are the inputs the parser documents, and on a line of
/// 69 bytes whose last byte is below `'0'` its checksum subtraction
/// overflows.
#[verifier::external_body]
fn read_tle(line1: &str, line2: &str) -> (r: Option<ElementFields>)
    requires
        tle_line_shape(line1@),
        tle_line_shape(line2@),
    ensures
        r == tle_fields(line1@, line2@),
{
    let e = sgp4::Elements::from_tle(None, line1.as_bytes(), line2.as_bytes()).ok()?;
    let at = &e.datetime;
    let (year, month, day) = (chrono::Datelike::year(at), chrono::Datelike::month(at), chrono::Datelike::day(at));
    let (hour, minute) = (chrono::Timelike::hour(at), chrono::Timelike::minute(at));
    let (second, nanosecond) = (chrono::Timelike::second(at), chrono::Timelike::nanosecond(at));
    let epoch = CalendarEpoch { year, month, day, hour, minute, second, nanosecond };
    Some(ElementFields { catalog_number: e.norad_id, epoch })
}

/// Whether a line has the shape of a line of an element set.
pub fn has_tle_line_shape(line: &str) -> (r: bool)
    ensures
        r == tle_line_shape(line@),
{
    if !line.is_ascii() {
        return false;
    }
    proof {
        vstd::string::is_ascii_spec_bytes(line);
    }
    if line.as_bytes().len() != TLE_LINE_LENGTH {
        return false;
    }
    let checksum = line.get_ascii(68);
    assert('\0' <= line@[68] <= '\u{7f}');
    assert('0' as u8 == 48 && '9' as u8 == 57);
    checksum >= 48 && checksum <= 57
}

/// What parsing two lines gives: the fields of the element set, or nothing
/// where a line is malformed.
pub open spec fn parsed_fields(line1: Seq<char>, line2: Seq<char>) -> Option<ElementFields> {
    if tle_line_shape(line1) && tle_line_shape(line2) {
        tle_fields(line1, line2)
    } else {
        None
    }
}

/// A parsed element set with the display name of its object.
///
/// A value of this type only comes from [`OrbitalElementSet::parse`] and
/// does not change afterwards: its lines are well formed, and its fields
/// are those that parsing the lines gives.
pub struct OrbitalElementSet {
    name: String,
    line1: String,
    line2: String,
    fields: ElementFields,
}

impl OrbitalElementSet {
    #[verifier::type_invariant]
    pub closed spec fn well_formed(self) -> bool {
        parsed_fields(self.line1@, self.line2@) == Some(self.fields)
    }

    pub closed spec fn spec_name(self) -> Seq<char> {
        self.name@
    }

    pub closed spec fn spec_line1(self) -> Seq<char> {
        self.line1@
    }

    pub closed spec fn spec_line2(self) -> Seq<char> {
        self.line2@
    }

    pub closed spec fn spec_fields(self) -> ElementFields {
        self.fields
    }

    /// Parses an element set. Malformed lines are rejected as a whole:
    /// nothing of them is kept.
    pub fn parse(name: &str, line1: &str, line2: &str) -> (r: Result<OrbitalElementSet, OrbitError>)
        ensures
            r is Ok <==> parsed_fields(line1@, line2@) is Some,
            r matches Ok(set) ==> set.spec_name() == name@ && set.spec_line1() == line1@
                && set.spec_line2() == line2@ && Some(set.spec_fields()) == parsed_fields(
                line1@,
                line2@,
            ),
            r matches Err(e) ==> e == OrbitError::MalformedElementSet,
    {
        if !has_tle_line_shape(line1) || !has_tle_line_shape(line2) {
            return Err(OrbitError::MalformedElementSet);
        }
        match read_tle(line1, line2) {
            Some(fields) => Ok(
                OrbitalElementSet {
                    name: name.to_owned(),
                    line1: line1.to_owned(),
                    line2: line2.to_owned(),
                    fields,
                },
            ),
            None => Err(OrbitError::MalformedElementSet),
        }
    }

    /// Display name of the object.
    pub fn name(&self) -> (s: &str)
        ensures
            s@ == self.spec_name(),
    {
        self.name.as_str()
    }

    /// First line, as it was parsed.
    pub fn line1(&self) -> (s: &str)
        ensures
            s@ == self.spec_line1(),
            parsed_fields(self.spec_line1(), self.spec_line2()) == Some(self.spec_fields()),
    {
        proof {
            use_type_invariant(self);
        }
        self.line1.as_str()
    }

    /// Second line, as it was parsed.
    pub fn line2(&self) -> (s: &str)
        ensures
            s@ == self.spec_line2(),
    {
        self.line2.as_str()
    }

    /// Catalogue number of the object.
    pub fn catalog_number(&self) -> (n: u64)
        ensures
            n == self.spec_fields().catalog_number,
    {
        self.fields.catalog_number
    }

    /// Epoch of the elements, as calendar fields.
    pub fn epoch(&self) -> (e: CalendarEpoch)
        ensures
            e == self.spec_fields().epoch,
    {
        self.fields.epoch
    }

    /// Epoch of the elements as an absolute instant, in Unix seconds.
    pub fn epoch_instant(&self) -> (r: Result<i64, OrbitError>)
        ensures
            r is Ok <==> self.spec_fields().epoch.valid(),
            r matches Ok(t) ==> t == self.spec_fields().epoch.unix_seconds(),
            r matches Err(e) ==> e == OrbitError::MalformedEpoch,
    {
        epoch_to_instant(&self.fields.epoch)
    }
}

} // verus!
