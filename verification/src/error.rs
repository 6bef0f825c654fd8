//! The library's error type.
//!
//! Every fallible operation returns `Result<T, EventSleuthError>`. Each
//! variant carries enough context to produce an actionable message.

use vstd::prelude::*;
use crate::text::hex_of;
use crate::text::string_from_chars;
use crate::text::u32_to_hex8;

verus! {

/// Unified error type.
#[derive(Debug)]
pub enum EventSleuthError {
    /// A system event API call failed; `hr` is the raw HRESULT code and
    /// `context` names the operation that failed.
    WindowsApi { hr: u32, context: String },
    /// Serialized event text could not be parsed.
    XmlParse(String),
    /// Channel enumeration failed.
    ChannelEnum(String),
    /// Export to a file failed.
    Export(String),
    /// A user-supplied filter expression could not be parsed.
    FilterParse(String),
    /// An I/O failure, carried as text.
    Io(String),
}

/// The display text of an error.
pub open spec fn error_message_spec(e: EventSleuthError) -> Seq<char> {
    match e {
        EventSleuthError::WindowsApi { hr, context } => "Windows API error: "@ + context@
            + " (HRESULT: 0x"@ + hex_of(hr as nat, 8) + ")"@,
        EventSleuthError::XmlParse(s) => "XML parse error: "@ + s@,
        EventSleuthError::ChannelEnum(s) => "Channel enumeration failed: "@ + s@,
        EventSleuthError::Export(s) => "Export failed: "@ + s@,
        EventSleuthError::FilterParse(s) => "Filter parse error: "@ + s@,
        EventSleuthError::Io(s) => "I/O error: "@ + s@,
    }
}

impl EventSleuthError {
    /// Render the error as its display text.
    pub fn message(&self) -> (r: String)
        ensures
            r@ == error_message_spec(*self),
    {
        match self {
            EventSleuthError::WindowsApi { hr, context } => {
                let mut s = String::from_str("Windows API error: ");
                s.append(context.as_str());
                s.append(" (HRESULT: 0x");
                let hex = string_from_chars(&u32_to_hex8(*hr));
                s.append(hex.as_str());
                s.append(")");
                s
            },
            EventSleuthError::XmlParse(d) => {
                let mut s = String::from_str("XML parse error: ");
                s.append(d.as_str());
                s
            },
            EventSleuthError::ChannelEnum(d) => {
                let mut s = String::from_str("Channel enumeration failed: ");
                s.append(d.as_str());
                s
            },
            EventSleuthError::Export(d) => {
                let mut s = String::from_str("Export failed: ");
                s.append(d.as_str());
                s
            },
            EventSleuthError::FilterParse(d) => {
                let mut s = String::from_str("Filter parse error: ");
                s.append(d.as_str());
                s
            },
            EventSleuthError::Io(d) => {
                let mut s = String::from_str("I/O error: ");
                s.append(d.as_str());
                s
            },
        }
    }
}

/// Build a [`EventSleuthError::WindowsApi`] from a raw HRESULT (or
/// `GetLastError` code) and a context description.
pub fn windows_err(hr: u32, context: &str) -> (r: EventSleuthError)
    ensures
        r matches EventSleuthError::WindowsApi { hr: h, context: c } && h == hr && c@
            == context@,
{
    EventSleuthError::WindowsApi { hr, context: String::from_str(context) }
}

} // verus!
