//! The canonical parsed log entry.
//!
//! A record is immutable once constructed and carries both the structured
//! fields and the original serialized form for detail display. Timestamps
//! are UTC instants measured in milliseconds.

use vstd::prelude::*;

verus! {

/// One parsed event log entry.
#[verifier::ext_equal]
pub struct EventRecord {
    /// The original serialized form, retained for the detail view.
    pub raw_xml: String,
    /// The log channel this record came from.
    pub channel: String,
    /// Numeric identifier of the event type.
    pub event_id: u32,
    /// Severity level, 0 (LogAlways) through 5 (Verbose); out-of-range
    /// values are clamped to 5 wherever a per-level table is indexed.
    pub level: u8,
    /// Human-readable level name derived from `level`.
    pub level_name: String,
    /// The event provider / source name.
    pub provider_name: String,
    /// UTC instant of the event, in milliseconds.
    pub timestamp: i64,
    /// The computer name where the event was generated.
    pub computer: String,
    /// The formatted message; may be empty when provider metadata is
    /// unavailable.
    pub message: String,
    /// Process that generated the event.
    pub process_id: u32,
    /// Thread that generated the event.
    pub thread_id: u32,
    /// Task category value.
    pub task: u16,
    /// Opcode value.
    pub opcode: u8,
    /// Keywords bitmask.
    pub keywords: u64,
    /// Correlation activity id, if present.
    pub activity_id: Option<String>,
    /// User SID string, if present.
    pub user_sid: Option<String>,
    /// Name/value pairs from the event payload, insertion order kept.
    pub event_data: Vec<(String, String)>,
}

/// The clamped index used for any 6-entry per-level table.
pub open spec fn clamped_level(level: u8) -> int {
    if level < 5 {
        level as int
    } else {
        5
    }
}

/// Executable counterpart of [`clamped_level`].
pub fn clamp_level(level: u8) -> (r: usize)
    ensures
        r == clamped_level(level),
        r < 6,
{
    if level < 5 {
        level as usize
    } else {
        5
    }
}

/// The display name of a severity level.
pub open spec fn level_name_spec(level: u8) -> Seq<char> {
    if level == 0 {
        "LogAlways"@
    } else if level == 1 {
        "Critical"@
    } else if level == 2 {
        "Error"@
    } else if level == 3 {
        "Warning"@
    } else if level == 4 {
        "Information"@
    } else if level == 5 {
        "Verbose"@
    } else {
        "Unknown"@
    }
}

/// What the one-line summary of a record shows: the formatted message,
/// else the first payload value, else a placeholder.
pub open spec fn display_message_spec(r: EventRecord) -> Seq<char> {
    if r.message@.len() > 0 {
        r.message@
    } else if r.event_data@.len() > 0 {
        r.event_data@[0].1@
    } else {
        "(no message)"@
    }
}

impl EventRecord {
    /// The human-readable name for a numeric severity level.
    pub fn level_to_name(level: u8) -> (r: &'static str)
        ensures
            r@ == level_name_spec(level),
    {
        match level {
            0u8 => "LogAlways",
            1u8 => "Critical",
            2u8 => "Error",
            3u8 => "Warning",
            4u8 => "Information",
            5u8 => "Verbose",
            _ => "Unknown",
        }
    }

    /// One-line summary for the table's message column.
    pub fn display_message(&self) -> (r: &str)
        ensures
            r@ == display_message_spec(*self),
    {
        if !self.message.as_str().is_empty() {
            self.message.as_str()
        } else if self.event_data.len() > 0 {
            let pair = &self.event_data[0];
            pair.1.as_str()
        } else {
            "(no message)"
        }
    }
}

/// Two records agreeing in every field (payload pairs compared by view).
pub open spec fn same_record(a: EventRecord, b: EventRecord) -> bool {
    &&& a.raw_xml == b.raw_xml
    &&& a.channel == b.channel
    &&& a.event_id == b.event_id
    &&& a.level == b.level
    &&& a.level_name == b.level_name
    &&& a.provider_name == b.provider_name
    &&& a.timestamp == b.timestamp
    &&& a.computer == b.computer
    &&& a.message == b.message
    &&& a.process_id == b.process_id
    &&& a.thread_id == b.thread_id
    &&& a.task == b.task
    &&& a.opcode == b.opcode
    &&& a.keywords == b.keywords
    &&& a.activity_id == b.activity_id
    &&& a.user_sid == b.user_sid
    &&& a.event_data@ == b.event_data@
}

impl Clone for EventRecord {
    fn clone(&self) -> (res: Self)
        ensures
            same_record(res, *self),
    {
        let mut data: Vec<(String, String)> = Vec::new();
        let mut i: usize = 0;
        while i < self.event_data.len()
            invariant
                i <= self.event_data@.len(),
                data@ == self.event_data@.take(i as int),
            decreases self.event_data@.len() - i,
        {
            let pair = &self.event_data[i];
            data.push((pair.0.clone(), pair.1.clone()));
            proof {
                assert(data@ =~= self.event_data@.take(i as int + 1));
            }
            i = i + 1;
        }
        proof {
            assert(self.event_data@.take(self.event_data@.len() as int) =~= self.event_data@);
        }
        let res = EventRecord {
            raw_xml: self.raw_xml.clone(),
            channel: self.channel.clone(),
            event_id: self.event_id,
            level: self.level,
            level_name: self.level_name.clone(),
            provider_name: self.provider_name.clone(),
            timestamp: self.timestamp,
            computer: self.computer.clone(),
            message: self.message.clone(),
            process_id: self.process_id,
            thread_id: self.thread_id,
            task: self.task,
            opcode: self.opcode,
            keywords: self.keywords,
            activity_id: match &self.activity_id {
                Some(s) => Some(s.clone()),
                None => None,
            },
            user_sid: match &self.user_sid {
                Some(s) => Some(s.clone()),
                None => None,
            },
            event_data: data,
        };
        res
    }
}

} // verus!
