//! The header line of a recorded session.
//!
//! A session file is one JSON document per line. The first line describes
//! the recording; every later line is one frame. This module decides whether
//! a first line is an acceptable header and what it says, and which later
//! lines carry a frame at all.

use crate::text::str_eq;
use crate::text::str_trim;
use crate::text::trimmed_text;
use vstd::prelude::*;
use vstd::string::StringExecFns;

verus! {

#[verifier::external_type_specification]
#[verifier::external_body]
pub struct ExJsonError(serde_json::Error);

/// The members of a header document that the reader looks at, each present
/// only if the document has it with the expected JSON type.
pub struct HeaderFields {
    /// The string member `format`.
    pub format: Option<String>,
    /// The non-negative integer member `rate_hz`.
    pub rate_hz: Option<u64>,
    /// The string member `name` of the member `copedant`.
    pub copedant_name: Option<String>,
}

/// The mathematical content of `HeaderFields`.
pub struct HeaderFieldsView {
    pub format: Option<Seq<char>>,
    pub rate_hz: Option<u64>,
    pub copedant_name: Option<Seq<char>>,
}

impl View for HeaderFields {
    type V = HeaderFieldsView;

    open spec fn view(&self) -> HeaderFieldsView {
        HeaderFieldsView {
            format: match self.format {
                Some(f) => Some(f@),
                None => None,
            },
            rate_hz: self.rate_hz,
            copedant_name: match self.copedant_name {
                Some(n) => Some(n@),
                None => None,
            },
        }
    }
}

/// What `serde_json` reads from a text: `None` if the text is not one JSON
/// document, otherwise the members of interest, in the order `format`,
/// `rate_hz`, `copedant.name`.
pub uninterp spec fn json_header_fields(text: Seq<char>) -> Option<
    (Option<Seq<char>>, Option<u64>, Option<Seq<char>>),
>;

/// `serde_json::from_str` into a `serde_json::Value`, then `Value`'s index
/// by key, `as_str` and `as_u64`: parses `text` and copies out the three
/// members. What comes back is a function of the text alone; it is named,
/// not spelled out. Fails exactly if the text does not parse.
#[verifier::external_body]
fn read_header_fields(text: &str) -> (r: Result<HeaderFields, serde_json::Error>)
    ensures
        match r {
            Ok(fields) => json_header_fields(text@) == Some(
                (fields@.format, fields@.rate_hz, fields@.copedant_name),
            ),
            Err(_) => json_header_fields(text@) is None,
        },
{
    let raw: serde_json::Value = serde_json::from_str(text)?;
    Ok(
        HeaderFields {
            format: raw["format"].as_str().map(String::from),
            rate_hz: raw["rate_hz"].as_u64(),
            copedant_name: raw["copedant"]["name"].as_str().map(String::from),
        },
    )
}

/// What an accepted header says.
pub struct SessionHeader {
    /// Always `steel-capture`.
    pub format: String,
    /// Frames per second of the recording; 60 unless the header says.
    pub rate_hz: u32,
    /// Name of the instrument setup; empty unless the header says.
    pub copedant_name: String,
}

/// Why a first line is not an acceptable header.
pub enum HeaderError {
    /// The line is empty but for white space.
    Empty,
    /// The line is not a JSON document.
    Malformed,
    /// The document has no string member `format`.
    MissingFormat,
    /// The document's format is not `steel-capture`.
    UnknownFormat { format: String },
}

/// The format name every session file carries.
pub open spec fn session_format() -> Seq<char> {
    "steel-capture"@
}

/// Whether `r` is the verdict on a header document with the members
/// `fields`: the format must be there and be the session format; the rate
/// defaults to 60 and is reduced modulo 2^32; the name defaults to the empty
/// text.
pub open spec fn header_verdict(
    fields: HeaderFieldsView,
    r: Result<SessionHeader, HeaderError>,
) -> bool {
    match r {
        Ok(header) => {
            &&& fields.format == Some(session_format())
            &&& header.format@ == session_format()
            &&& header.rate_hz as int == match fields.rate_hz {
                Some(n) => n as int % 0x1_0000_0000,
                None => 60,
            }
            &&& header.copedant_name@ == match fields.copedant_name {
                Some(n) => n,
                None => Seq::<char>::empty(),
            }
        },
        Err(HeaderError::MissingFormat) => fields.format is None,
        Err(HeaderError::UnknownFormat { format }) => fields.format == Some(format@) && format@
            != session_format(),
        Err(HeaderError::Empty) => false,
        Err(HeaderError::Malformed) => false,
    }
}

/// Judges the members of a header document.
pub fn check_header(fields: HeaderFields) -> (r: Result<SessionHeader, HeaderError>)
    ensures
        header_verdict(fields@, r),
{
    let format = match fields.format {
        Some(f) => f,
        None => {
            return Err(HeaderError::MissingFormat);
        },
    };
    if !str_eq(format.as_str(), "steel-capture") {
        return Err(HeaderError::UnknownFormat { format });
    }
    let rate_hz: u32 = match fields.rate_hz {
        Some(n) => (n % 0x1_0000_0000) as u32,
        None => 60,
    };
    let copedant_name = match fields.copedant_name {
        Some(n) => n,
        None => String::from_str(""),
    };
    proof {
        reveal_strlit("");
        assert(""@ =~= Seq::<char>::empty());
    }
    Ok(SessionHeader { format, rate_hz, copedant_name })
}

/// Whether `r` is the outcome of reading `line` as a header: an empty line
/// and a line that is not JSON are refused as such; any other line is judged
/// by its members.
pub open spec fn header_outcome(line: Seq<char>, r: Result<SessionHeader, HeaderError>) -> bool {
    let text = trimmed_text(line);
    if text.len() == 0 {
        r matches Err(HeaderError::Empty)
    } else {
        match json_header_fields(text) {
            None => r matches Err(HeaderError::Malformed),
            Some(members) => header_verdict(
                HeaderFieldsView {
                    format: members.0,
                    rate_hz: members.1,
                    copedant_name: members.2,
                },
                r,
            ),
        }
    }
}

/// Reads the first line of a session file.
pub fn parse_header(line: &str) -> (r: Result<SessionHeader, HeaderError>)
    ensures
        header_outcome(line@, r),
{
    let text = str_trim(line);
    if text.is_empty() {
        return Err(HeaderError::Empty);
    }
    match read_header_fields(text) {
        Err(_) => Err(HeaderError::Malformed),
        Ok(fields) => check_header(fields),
    }
}

/// The text of a frame line: the line without surrounding white space, or
/// `None` for a blank line, which carries no frame and is skipped.
pub fn frame_text(line: &str) -> (text: Option<&str>)
    ensures
        match text {
            Some(t) => t@ == trimmed_text(line@) && t@.len() > 0,
            None => trimmed_text(line@).len() == 0,
        },
{
    let t = str_trim(line);
    if t.is_empty() {
        None
    } else {
        Some(t)
    }
}

} // verus!
