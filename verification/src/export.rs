//! Row projection for file export.
//!
//! Turning a record into its export cells is the library's job; writing
//! the cells out (and choosing the destination) is the host's.

use vstd::prelude::*;
use crate::record::EventRecord;
use crate::record::display_message_spec;
use crate::text::dec_of;
use crate::text::string_from_chars;
use crate::text::u64_to_dec;
use crate::timefmt::format_table_timestamp;

verus! {

/// The header cells of an export table.
pub fn csv_header() -> (r: Vec<&'static str>)
    ensures
        r@.len() == 7,
        r@[0]@ == "Timestamp"@,
        r@[1]@ == "Level"@,
        r@[2]@ == "EventID"@,
        r@[3]@ == "Provider"@,
        r@[4]@ == "Computer"@,
        r@[5]@ == "Channel"@,
        r@[6]@ == "Message"@,
{
    let mut r: Vec<&'static str> = Vec::new();
    r.push("Timestamp");
    r.push("Level");
    r.push("EventID");
    r.push("Provider");
    r.push("Computer");
    r.push("Channel");
    r.push("Message");
    r
}

/// The export cells of one record: local-time timestamp, level name,
/// decimal id, provider, computer, channel, and the one-line message.
pub fn csv_row_fields(record: &EventRecord) -> (r: Vec<String>)
    ensures
        r@.len() == 7,
        r@[1]@ == record.level_name@,
        r@[2]@ == dec_of(record.event_id as nat),
        r@[3]@ == record.provider_name@,
        r@[4]@ == record.computer@,
        r@[5]@ == record.channel@,
        r@[6]@ == display_message_spec(*record),
{
    let mut r: Vec<String> = Vec::new();
    r.push(format_table_timestamp(record.timestamp));
    r.push(record.level_name.clone());
    r.push(string_from_chars(&u64_to_dec(record.event_id as u64)));
    r.push(record.provider_name.clone());
    r.push(record.computer.clone());
    r.push(record.channel.clone());
    r.push(String::from_str(record.display_message()));
    r
}

} // verus!
