//! What the engine's polling primitive hands out, as plain values, and how
//! it is read into events.

use vstd::prelude::*;
use crate::error::Error;
use crate::event::{EndFileReason, Event, EventKind, Format, LogLevel, PropertyData, Template};

verus! {

/// The engine's number for "no event is pending".
pub const EVENT_ID_NONE: u32 = 0;

/// The engine's number for "the event queue has overflown".
pub const EVENT_ID_QUEUE_OVERFLOW: u32 = 24;

/// The value behind a property change, as the engine stores it.
#[derive(Clone, Debug, PartialEq, Eq)]
pub enum RawValue {
    /// An integer; it also carries flags, as zero or non-zero.
    Integer(i64),
    /// The 64 bits of a double.
    Real(u64),
    /// A string, plain or formatted for the on-screen display.
    Text(String),
}

/// The payload of a raw event.
#[derive(Clone, Debug, PartialEq, Eq)]
pub enum RawData {
    /// The event came without a payload.
    Absent,
    LogMessage { prefix: String, log_level: u32, text: String },
    EndFile { reason: i32, error: i32 },
    Property { name: String, format: u32, value: Option<RawValue> },
}

/// One answer of the engine's polling primitive.
#[derive(Clone, Debug, PartialEq, Eq)]
pub struct RawEvent {
    pub event_id: u32,
    pub error: i32,
    pub data: RawData,
}

/// What an answer of the polling primitive is, before its payload is read.
#[derive(Clone, Copy, Debug, PartialEq, Eq, Structural)]
pub enum RawKind {
    /// Nothing is pending.
    NoEvent,
    /// The engine's queue has overflown; events were lost upstream.
    QueueOverflow,
    /// An event of a kind that subscribers can ask for.
    Known(EventKind),
    /// Any other event; nobody can ask for it.
    Other,
}

impl RawKind {
    /// The reading of an engine event number.
    pub open spec fn spec_of_id(id: u32) -> RawKind {
        if id == EVENT_ID_NONE {
            RawKind::NoEvent
        } else if id == EVENT_ID_QUEUE_OVERFLOW {
            RawKind::QueueOverflow
        } else {
            match EventKind::spec_from_id(id) {
                Some(kind) => RawKind::Known(kind),
                None => RawKind::Other,
            }
        }
    }

    /// Reads an engine event number.
    pub fn of_id(id: u32) -> (kind: RawKind)
        ensures
            kind == RawKind::spec_of_id(id),
    {
        if id == EVENT_ID_NONE {
            RawKind::NoEvent
        } else if id == EVENT_ID_QUEUE_OVERFLOW {
            RawKind::QueueOverflow
        } else {
            match EventKind::from_id(id) {
                Some(kind) => RawKind::Known(kind),
                None => RawKind::Other,
            }
        }
    }
}

impl PropertyData {
    /// Whether a stored value can be read in the given format: a flag and
    /// an integer are stored as integers, a double as its bits, and both
    /// kinds of string as text.
    pub open spec fn readable(format: Format, value: RawValue) -> bool {
        match (format, value) {
            (Format::Flag, RawValue::Integer(_)) => true,
            (Format::Int64, RawValue::Integer(_)) => true,
            (Format::Double, RawValue::Real(_)) => true,
            (Format::String, RawValue::Text(_)) => true,
            (Format::OsdString, RawValue::Text(_)) => true,
            _ => false,
        }
    }

    /// The reading of a stored value in the given format: a flag is set
    /// when the stored integer is not zero, and every other value is kept
    /// as it is stored.
    pub open spec fn spec_from_raw(format: Format, value: RawValue) -> PropertyData {
        match value {
            RawValue::Integer(v) => if format == Format::Flag {
                PropertyData::Flag(v != 0)
            } else {
                PropertyData::Int64(v)
            },
            RawValue::Real(bits) => PropertyData::Double(bits),
            RawValue::Text(text) => if format == Format::OsdString {
                PropertyData::OsdString(text)
            } else {
                PropertyData::String(text)
            },
        }
    }

    /// Whether a stored value can be read in the given format.
    pub fn is_readable(format: Format, value: &RawValue) -> (yes: bool)
        ensures
            yes == PropertyData::readable(format, *value),
    {
        match value {
            RawValue::Integer(_) => format == Format::Flag || format == Format::Int64,
            RawValue::Real(_) => format == Format::Double,
            RawValue::Text(_) => format == Format::String || format == Format::OsdString,
        }
    }

    /// Reads a stored value in the given format. The data that comes out
    /// is of the shape that the format stands for.
    pub fn from_raw(format: Format, value: &RawValue) -> (data: PropertyData)
        requires
            PropertyData::readable(format, *value),
        ensures
            data == PropertyData::spec_from_raw(format, *value),
            data.spec_format() == format,
    {
        match value {
            RawValue::Integer(v) => if format == Format::Flag {
                PropertyData::Flag(*v != 0)
            } else {
                PropertyData::Int64(*v)
            },
            RawValue::Real(bits) => PropertyData::Double(*bits),
            RawValue::Text(text) => if format == Format::OsdString {
                PropertyData::OsdString(text.clone())
            } else {
                PropertyData::String(text.clone())
            },
        }
    }
}

impl RawData {
    /// Whether the payload has the shape that an event of `kind` comes
    /// with, and every number in it is one the engine defines.
    pub open spec fn fits(self, kind: EventKind) -> bool {
        match kind {
            EventKind::LogMessage => self matches RawData::LogMessage { log_level, .. }
                && LogLevel::spec_from_code(log_level) is Some,
            EventKind::EndFile => self matches RawData::EndFile { reason, .. }
                && EndFileReason::spec_from_code(reason) is Some,
            EventKind::PropertyChange => self matches RawData::Property { format, value, .. }
                && Format::spec_from_code(format) is Some && value is Some
                && PropertyData::readable(
                Format::spec_from_code(format)->Some_0,
                value->Some_0,
            ),
            _ => true,
        }
    }

    /// The event of `kind` that the payload stands for.
    pub open spec fn read_as(self, kind: EventKind) -> Event {
        match kind {
            EventKind::LogMessage => Event::LogMessage {
                prefix: self->LogMessage_prefix,
                level: LogLevel::spec_from_code(self->LogMessage_log_level)->Some_0,
                text: self->LogMessage_text,
            },
            EventKind::StartFile => Event::StartFile,
            EventKind::EndFile => Event::EndFile {
                reason: EndFileReason::spec_from_code(self->EndFile_reason)->Some_0,
                error: Error::of_status(self->EndFile_error).err(),
            },
            EventKind::FileLoaded => Event::FileLoaded,
            EventKind::Idle => Event::Idle,
            EventKind::Tick => Event::Tick,
            EventKind::VideoReconfig => Event::VideoReconfig,
            EventKind::AudioReconfig => Event::AudioReconfig,
            EventKind::Seek => Event::Seek,
            EventKind::PlaybackRestart => Event::PlaybackRestart,
            EventKind::PropertyChange => Event::PropertyChange {
                name: self->Property_name,
                data: PropertyData::spec_from_raw(
                    Format::spec_from_code(self->Property_format)->Some_0,
                    self->Property_value->Some_0,
                ),
            },
        }
    }
}

impl RawEvent {
    /// What the answer is, before its payload is read.
    pub open spec fn spec_kind(self) -> RawKind {
        RawKind::spec_of_id(self.event_id)
    }

    /// Whether the answer can be read into an event: it is of a kind that
    /// subscribers can ask for, it reports no error, and its payload fits.
    pub open spec fn decodable(self) -> bool {
        &&& self.spec_kind() is Known
        &&& self.error == 0
        &&& self.data.fits(self.spec_kind()->Known_0)
    }

    /// The event that a decodable answer stands for.
    pub open spec fn decoded(self) -> Event {
        self.data.read_as(self.spec_kind()->Known_0)
    }

    /// What the answer is matched by, as far as it can be told without
    /// reading the payload: the kind, and for a property change the name.
    /// An answer that stands for no event, or a property change that names
    /// no property, is matched by nothing.
    pub open spec fn spec_template(self) -> Option<Template> {
        match self.spec_kind() {
            RawKind::Known(EventKind::PropertyChange) => match self.data {
                RawData::Property { name, .. } => Some(
                    Template { kind: EventKind::PropertyChange, name: name@ },
                ),
                _ => None,
            },
            RawKind::Known(kind) => Some(Template { kind, name: Seq::empty() }),
            _ => None,
        }
    }

    /// A decodable answer is matched by what its event is matched by.
    pub proof fn lemma_decoded_template(self)
        requires
            self.decodable(),
        ensures
            self.spec_template() == Some(self.decoded().template()),
    {
    }

    /// What the answer is, before its payload is read.
    pub fn kind(&self) -> (kind: RawKind)
        ensures
            kind == self.spec_kind(),
    {
        RawKind::of_id(self.event_id)
    }

    /// Whether the answer can be read into an event.
    pub fn is_decodable(&self) -> (yes: bool)
        ensures
            yes == self.decodable(),
    {
        match RawKind::of_id(self.event_id) {
            RawKind::Known(kind) => {
                if self.error != 0 {
                    return false;
                }
                match kind {
                    EventKind::LogMessage => match &self.data {
                        RawData::LogMessage { log_level, .. } => LogLevel::from_code(
                            *log_level,
                        ).is_some(),
                        _ => false,
                    },
                    EventKind::EndFile => match &self.data {
                        RawData::EndFile { reason, .. } => EndFileReason::from_code(
                            *reason,
                        ).is_some(),
                        _ => false,
                    },
                    EventKind::PropertyChange => match &self.data {
                        RawData::Property { format, value, .. } => match (
                            Format::from_code(*format),
                            value,
                        ) {
                            (Some(f), Some(v)) => PropertyData::is_readable(f, v),
                            _ => false,
                        },
                        _ => false,
                    },
                    _ => true,
                }
            },
            _ => false,
        }
    }
}

impl Event {
    /// The end-of-file event with the engine's reason and status numbers;
    /// nothing when the engine defines no such reason. A non-zero status is
    /// carried as the error.
    pub fn end_file_from_raw(reason: i32, error: i32) -> (event: Option<Event>)
        ensures
            event == match EndFileReason::spec_from_code(reason) {
                Some(reason) => Some(
                    Event::EndFile { reason, error: Error::of_status(error).err() },
                ),
                None => None,
            },
    {
        match EndFileReason::from_code(reason) {
            Some(reason) => {
                let error = match Error::from_status(error) {
                    Ok(_) => None,
                    Err(e) => Some(e),
                };
                Some(Event::EndFile { reason, error })
            },
            None => None,
        }
    }

    /// The log message with the engine's level number; nothing when the
    /// engine defines no such level.
    pub fn log_message_from_raw(prefix: &String, log_level: u32, text: &String) -> (event: Option<
        Event,
    >)
        ensures
            event == match LogLevel::spec_from_code(log_level) {
                Some(level) => Some(Event::LogMessage { prefix: *prefix, level, text: *text }),
                None => None,
            },
    {
        match LogLevel::from_code(log_level) {
            Some(level) => Some(
                Event::LogMessage { prefix: prefix.clone(), level, text: text.clone() },
            ),
            None => None,
        }
    }

    /// The change of the property `name` to a value stored in the format
    /// with the engine's number `format`; nothing when the value is
    /// missing or cannot be read in that format.
    pub fn property_from_raw(name: &String, format: u32, value: &Option<RawValue>) -> (event:
        Option<Event>)
        ensures
            event == match (Format::spec_from_code(format), *value) {
                (Some(f), Some(v)) => if PropertyData::readable(f, v) {
                    Some(
                        Event::PropertyChange {
                            name: *name,
                            data: PropertyData::spec_from_raw(f, v),
                        },
                    )
                } else {
                    None
                },
                _ => None,
            },
    {
        match (Format::from_code(format), value) {
            (Some(f), Some(v)) => if PropertyData::is_readable(f, v) {
                Some(
                    Event::PropertyChange {
                        name: name.clone(),
                        data: PropertyData::from_raw(f, v),
                    },
                )
            } else {
                None
            },
            _ => None,
        }
    }

    /// Reads an answer of the polling primitive into an event; nothing
    /// when the answer cannot be read into one.
    pub fn try_from_raw(raw: &RawEvent) -> (event: Option<Event>)
        ensures
            event == if raw.decodable() {
                Some(raw.decoded())
            } else {
                None
            },
            event matches Some(e) ==> RawKind::Known(e.spec_kind()) == raw.spec_kind(),
    {
        if raw.error != 0 {
            return None;
        }
        match RawKind::of_id(raw.event_id) {
            RawKind::Known(kind) => match kind {
                EventKind::LogMessage => match &raw.data {
                    RawData::LogMessage { prefix, log_level, text } => Event::log_message_from_raw(
                        prefix,
                        *log_level,
                        text,
                    ),
                    _ => None,
                },
                EventKind::EndFile => match &raw.data {
                    RawData::EndFile { reason, error } => Event::end_file_from_raw(*reason, *error),
                    _ => None,
                },
                EventKind::PropertyChange => match &raw.data {
                    RawData::Property { name, format, value } => Event::property_from_raw(
                        name,
                        *format,
                        value,
                    ),
                    _ => None,
                },
                EventKind::StartFile => Some(Event::StartFile),
                EventKind::FileLoaded => Some(Event::FileLoaded),
                EventKind::Idle => Some(Event::Idle),
                EventKind::Tick => Some(Event::Tick),
                EventKind::VideoReconfig => Some(Event::VideoReconfig),
                EventKind::AudioReconfig => Some(Event::AudioReconfig),
                EventKind::Seek => Some(Event::Seek),
                EventKind::PlaybackRestart => Some(Event::PlaybackRestart),
            },
            _ => None,
        }
    }

    /// Reads an answer of the polling primitive into an event.
    pub fn from_raw(raw: &RawEvent) -> (event: Event)
        requires
            raw.decodable(),
        ensures
            event == raw.decoded(),
            RawKind::Known(event.spec_kind()) == raw.spec_kind(),
            Some(event.template()) == raw.spec_template(),
    {
        Event::try_from_raw(raw).unwrap()
    }
}

/// How far a pass over the engine's pending events has come.
#[derive(Clone, Copy, Debug, PartialEq, Eq, Structural)]
pub enum DrainPhase {
    /// The last answer was an event, or none was asked for yet.
    Polling,
    /// The last answer was "no event"; one more of them ends the pass.
    Paused,
    /// The pass is over.
    Stopped,
}

impl DrainPhase {
    /// The phase after one more answer. "No event" must come twice in a row
    /// to end the pass, an overflow ends it at once, and an event of any
    /// kind keeps it going. A pass that is over stays over.
    pub open spec fn after(self, answer: RawKind) -> DrainPhase {
        match self {
            DrainPhase::Stopped => DrainPhase::Stopped,
            DrainPhase::Polling => match answer {
                RawKind::QueueOverflow => DrainPhase::Stopped,
                RawKind::NoEvent => DrainPhase::Paused,
                _ => DrainPhase::Polling,
            },
            DrainPhase::Paused => match answer {
                RawKind::QueueOverflow => DrainPhase::Stopped,
                RawKind::NoEvent => DrainPhase::Stopped,
                _ => DrainPhase::Polling,
            },
        }
    }

    /// The phase after a run of answers, taken in order.
    pub open spec fn after_all(self, answers: Seq<RawKind>) -> DrainPhase
        decreases answers.len(),
    {
        if answers.len() == 0 {
            self
        } else {
            self.after_all(answers.drop_last()).after(answers.last())
        }
    }

    /// The phase after one more answer.
    pub fn advance(self, answer: RawKind) -> (next: DrainPhase)
        ensures
            next == self.after(answer),
    {
        match self {
            DrainPhase::Stopped => DrainPhase::Stopped,
            DrainPhase::Polling => match answer {
                RawKind::QueueOverflow => DrainPhase::Stopped,
                RawKind::NoEvent => DrainPhase::Paused,
                _ => DrainPhase::Polling,
            },
            DrainPhase::Paused => match answer {
                RawKind::QueueOverflow => DrainPhase::Stopped,
                RawKind::NoEvent => DrainPhase::Stopped,
                _ => DrainPhase::Polling,
            },
        }
    }

    /// Whether the pass is over.
    pub fn is_stopped(self) -> (yes: bool)
        ensures
            yes == (self == DrainPhase::Stopped),
    {
        match self {
            DrainPhase::Stopped => true,
            _ => false,
        }
    }
}

} // verus!
