//! Events, their kinds, and the projection by which events are matched.

use vstd::prelude::*;
use crate::error::Error;

verus! {

/// The kinds of event a subscriber can ask for.
#[derive(Clone, Copy, Debug, PartialEq, Eq, Structural)]
pub enum EventKind {
    LogMessage,
    StartFile,
    EndFile,
    FileLoaded,
    Idle,
    Tick,
    VideoReconfig,
    AudioReconfig,
    Seek,
    PlaybackRestart,
    PropertyChange,
}

impl EventKind {
    /// The number by which the engine knows this kind.
    pub open spec fn spec_id(self) -> u32 {
        match self {
            EventKind::LogMessage => 2,
            EventKind::StartFile => 6,
            EventKind::EndFile => 7,
            EventKind::FileLoaded => 8,
            EventKind::Idle => 11,
            EventKind::Tick => 14,
            EventKind::VideoReconfig => 17,
            EventKind::AudioReconfig => 18,
            EventKind::Seek => 20,
            EventKind::PlaybackRestart => 21,
            EventKind::PropertyChange => 22,
        }
    }

    /// The kind that the engine numbers `id`, if it is one a subscriber can
    /// ask for.
    pub open spec fn spec_from_id(id: u32) -> Option<EventKind> {
        if id == 2 {
            Some(EventKind::LogMessage)
        } else if id == 6 {
            Some(EventKind::StartFile)
        } else if id == 7 {
            Some(EventKind::EndFile)
        } else if id == 8 {
            Some(EventKind::FileLoaded)
        } else if id == 11 {
            Some(EventKind::Idle)
        } else if id == 14 {
            Some(EventKind::Tick)
        } else if id == 17 {
            Some(EventKind::VideoReconfig)
        } else if id == 18 {
            Some(EventKind::AudioReconfig)
        } else if id == 20 {
            Some(EventKind::Seek)
        } else if id == 21 {
            Some(EventKind::PlaybackRestart)
        } else if id == 22 {
            Some(EventKind::PropertyChange)
        } else {
            None
        }
    }

    /// The number by which the engine knows this kind.
    pub fn id(self) -> (id: u32)
        ensures
            id == self.spec_id(),
            EventKind::spec_from_id(id) == Some(self),
    {
        match self {
            EventKind::LogMessage => 2,
            EventKind::StartFile => 6,
            EventKind::EndFile => 7,
            EventKind::FileLoaded => 8,
            EventKind::Idle => 11,
            EventKind::Tick => 14,
            EventKind::VideoReconfig => 17,
            EventKind::AudioReconfig => 18,
            EventKind::Seek => 20,
            EventKind::PlaybackRestart => 21,
            EventKind::PropertyChange => 22,
        }
    }

    /// Reads an engine event number; `None` for a number that stands for no
    /// kind a subscriber can ask for.
    pub fn from_id(id: u32) -> (kind: Option<EventKind>)
        ensures
            kind == EventKind::spec_from_id(id),
            kind matches Some(k) ==> k.spec_id() == id,
    {
        if id == 2 {
            Some(EventKind::LogMessage)
        } else if id == 6 {
            Some(EventKind::StartFile)
        } else if id == 7 {
            Some(EventKind::EndFile)
        } else if id == 8 {
            Some(EventKind::FileLoaded)
        } else if id == 11 {
            Some(EventKind::Idle)
        } else if id == 14 {
            Some(EventKind::Tick)
        } else if id == 17 {
            Some(EventKind::VideoReconfig)
        } else if id == 18 {
            Some(EventKind::AudioReconfig)
        } else if id == 20 {
            Some(EventKind::Seek)
        } else if id == 21 {
            Some(EventKind::PlaybackRestart)
        } else if id == 22 {
            Some(EventKind::PropertyChange)
        } else {
            None
        }
    }
}

/// How loud a log message is; also the threshold asked of the engine.
#[derive(Clone, Copy, Debug, PartialEq, Eq, Structural)]
pub enum LogLevel {
    Off,
    Fatal,
    Error,
    Warn,
    Info,
    V,
    Debug,
    Trace,
}

impl LogLevel {
    /// The engine's number for this level.
    pub open spec fn spec_code(self) -> u32 {
        match self {
            LogLevel::Off => 0,
            LogLevel::Fatal => 10,
            LogLevel::Error => 20,
            LogLevel::Warn => 30,
            LogLevel::Info => 40,
            LogLevel::V => 50,
            LogLevel::Debug => 60,
            LogLevel::Trace => 70,
        }
    }

    /// The level with the engine's number `code`, if there is one.
    pub open spec fn spec_from_code(code: u32) -> Option<LogLevel> {
        if code == 0 {
            Some(LogLevel::Off)
        } else if code == 10 {
            Some(LogLevel::Fatal)
        } else if code == 20 {
            Some(LogLevel::Error)
        } else if code == 30 {
            Some(LogLevel::Warn)
        } else if code == 40 {
            Some(LogLevel::Info)
        } else if code == 50 {
            Some(LogLevel::V)
        } else if code == 60 {
            Some(LogLevel::Debug)
        } else if code == 70 {
            Some(LogLevel::Trace)
        } else {
            None
        }
    }

    /// The word the engine expects for this level as a threshold.
    pub open spec fn spec_name(self) -> Seq<char> {
        match self {
            LogLevel::Off => "none"@,
            LogLevel::Fatal => "fatal"@,
            LogLevel::Error => "error"@,
            LogLevel::Warn => "warn"@,
            LogLevel::Info => "info"@,
            LogLevel::V => "v"@,
            LogLevel::Debug => "debug"@,
            LogLevel::Trace => "trace"@,
        }
    }

    /// The engine's number for this level.
    pub fn code(self) -> (code: u32)
        ensures
            code == self.spec_code(),
            LogLevel::spec_from_code(code) == Some(self),
    {
        match self {
            LogLevel::Off => 0,
            LogLevel::Fatal => 10,
            LogLevel::Error => 20,
            LogLevel::Warn => 30,
            LogLevel::Info => 40,
            LogLevel::V => 50,
            LogLevel::Debug => 60,
            LogLevel::Trace => 70,
        }
    }

    /// Reads an engine level number.
    pub fn from_code(code: u32) -> (level: Option<LogLevel>)
        ensures
            level == LogLevel::spec_from_code(code),
            level matches Some(l) ==> l.spec_code() == code,
    {
        if code == 0 {
            Some(LogLevel::Off)
        } else if code == 10 {
            Some(LogLevel::Fatal)
        } else if code == 20 {
            Some(LogLevel::Error)
        } else if code == 30 {
            Some(LogLevel::Warn)
        } else if code == 40 {
            Some(LogLevel::Info)
        } else if code == 50 {
            Some(LogLevel::V)
        } else if code == 60 {
            Some(LogLevel::Debug)
        } else if code == 70 {
            Some(LogLevel::Trace)
        } else {
            None
        }
    }
}

/// The word the engine expects when `lvl` is asked for as the least level
/// of log messages.
pub fn mpv_log_level_as_str(lvl: LogLevel) -> (name: &'static str)
    ensures
        name@ == lvl.spec_name(),
{
    match lvl {
        LogLevel::Off => "none",
        LogLevel::Fatal => "fatal",
        LogLevel::Error => "error",
        LogLevel::Warn => "warn",
        LogLevel::Info => "info",
        LogLevel::V => "v",
        LogLevel::Debug => "debug",
        LogLevel::Trace => "trace",
    }
}

/// Why playback of a file ended.
#[derive(Clone, Copy, Debug, PartialEq, Eq, Structural)]
pub enum EndFileReason {
    Eof,
    Stop,
    Quit,
    Error,
    Redirect,
}

impl EndFileReason {
    /// The reason with the engine's number `code`, if there is one.
    pub open spec fn spec_from_code(code: i32) -> Option<EndFileReason> {
        if code == 0 {
            Some(EndFileReason::Eof)
        } else if code == 2 {
            Some(EndFileReason::Stop)
        } else if code == 3 {
            Some(EndFileReason::Quit)
        } else if code == 4 {
            Some(EndFileReason::Error)
        } else if code == 5 {
            Some(EndFileReason::Redirect)
        } else {
            None
        }
    }

    /// Reads an engine end-of-file reason.
    pub fn from_code(code: i32) -> (reason: Option<EndFileReason>)
        ensures
            reason == EndFileReason::spec_from_code(code),
    {
        if code == 0 {
            Some(EndFileReason::Eof)
        } else if code == 2 {
            Some(EndFileReason::Stop)
        } else if code == 3 {
            Some(EndFileReason::Quit)
        } else if code == 4 {
            Some(EndFileReason::Error)
        } else if code == 5 {
            Some(EndFileReason::Redirect)
        } else {
            None
        }
    }
}

/// The shapes in which the engine can hand out a property's value.
#[derive(Clone, Copy, Debug, PartialEq, Eq, Structural)]
pub enum Format {
    String,
    OsdString,
    Flag,
    Int64,
    Double,
}

impl Format {
    /// The engine's number for this format.
    pub open spec fn spec_code(self) -> u32 {
        match self {
            Format::String => 1,
            Format::OsdString => 2,
            Format::Flag => 3,
            Format::Int64 => 4,
            Format::Double => 5,
        }
    }

    /// The format with the engine's number `code`, if there is one.
    pub open spec fn spec_from_code(code: u32) -> Option<Format> {
        if code == 1 {
            Some(Format::String)
        } else if code == 2 {
            Some(Format::OsdString)
        } else if code == 3 {
            Some(Format::Flag)
        } else if code == 4 {
            Some(Format::Int64)
        } else if code == 5 {
            Some(Format::Double)
        } else {
            None
        }
    }

    /// The engine's number for this format.
    pub fn code(self) -> (code: u32)
        ensures
            code == self.spec_code(),
            Format::spec_from_code(code) == Some(self),
    {
        match self {
            Format::String => 1,
            Format::OsdString => 2,
            Format::Flag => 3,
            Format::Int64 => 4,
            Format::Double => 5,
        }
    }

    /// Reads an engine format number.
    pub fn from_code(code: u32) -> (format: Option<Format>)
        ensures
            format == Format::spec_from_code(code),
    {
        if code == 1 {
            Some(Format::String)
        } else if code == 2 {
            Some(Format::OsdString)
        } else if code == 3 {
            Some(Format::Flag)
        } else if code == 4 {
            Some(Format::Int64)
        } else if code == 5 {
            Some(Format::Double)
        } else {
            None
        }
    }
}

/// The value that comes with a change of a property.
///
/// A double is carried as the 64 bits of its IEEE 754 encoding.
#[derive(Clone, Debug, PartialEq, Eq)]
pub enum PropertyData {
    String(String),
    OsdString(String),
    Flag(bool),
    Int64(i64),
    Double(u64),
}

impl PropertyData {
    /// The format in which the engine hands out a value of this shape.
    pub open spec fn spec_format(self) -> Format {
        match self {
            PropertyData::String(_) => Format::String,
            PropertyData::OsdString(_) => Format::OsdString,
            PropertyData::Flag(_) => Format::Flag,
            PropertyData::Int64(_) => Format::Int64,
            PropertyData::Double(_) => Format::Double,
        }
    }

    /// The format in which the engine hands out a value of this shape.
    pub fn format(&self) -> (format: Format)
        ensures
            format == self.spec_format(),
    {
        match self {
            PropertyData::String(_) => Format::String,
            PropertyData::OsdString(_) => Format::OsdString,
            PropertyData::Flag(_) => Format::Flag,
            PropertyData::Int64(_) => Format::Int64,
            PropertyData::Double(_) => Format::Double,
        }
    }

    /// A copy that is equal to the value in every part.
    pub fn duplicate(&self) -> (copy: PropertyData)
        ensures
            copy == *self,
    {
        match self {
            PropertyData::String(s) => PropertyData::String(s.clone()),
            PropertyData::OsdString(s) => PropertyData::OsdString(s.clone()),
            PropertyData::Flag(b) => PropertyData::Flag(*b),
            PropertyData::Int64(v) => PropertyData::Int64(*v),
            PropertyData::Double(bits) => PropertyData::Double(*bits),
        }
    }
}

/// What events are matched by: the kind, and for a property change the
/// property's name. For every other kind the name is empty.
pub struct Template {
    pub kind: EventKind,
    pub name: Seq<char>,
}

/// An event of the engine. It also serves as the template by which a
/// subscriber says what it wants: of a template only the kind counts, and
/// for a property change the name, the shape of the data and, for log
/// messages, the level.
#[derive(Clone, Debug, PartialEq, Eq)]
pub enum Event {
    LogMessage { prefix: String, level: LogLevel, text: String },
    StartFile,
    EndFile { reason: EndFileReason, error: Option<Error> },
    FileLoaded,
    Idle,
    Tick,
    VideoReconfig,
    AudioReconfig,
    Seek,
    PlaybackRestart,
    PropertyChange { name: String, data: PropertyData },
}

impl Event {
    /// The kind of the event.
    pub open spec fn spec_kind(self) -> EventKind {
        match self {
            Event::LogMessage { .. } => EventKind::LogMessage,
            Event::StartFile => EventKind::StartFile,
            Event::EndFile { .. } => EventKind::EndFile,
            Event::FileLoaded => EventKind::FileLoaded,
            Event::Idle => EventKind::Idle,
            Event::Tick => EventKind::Tick,
            Event::VideoReconfig => EventKind::VideoReconfig,
            Event::AudioReconfig => EventKind::AudioReconfig,
            Event::Seek => EventKind::Seek,
            Event::PlaybackRestart => EventKind::PlaybackRestart,
            Event::PropertyChange { .. } => EventKind::PropertyChange,
        }
    }

    /// What the event is matched by. The payload plays no part in it.
    pub open spec fn template(self) -> Template {
        match self {
            Event::PropertyChange { name, .. } => Template {
                kind: EventKind::PropertyChange,
                name: name@,
            },
            _ => Template { kind: self.spec_kind(), name: Seq::empty() },
        }
    }

    /// The least log level a template asks for; `None` for a template of
    /// another kind.
    pub open spec fn spec_level(self) -> Option<LogLevel> {
        match self {
            Event::LogMessage { level, .. } => Some(level),
            _ => None,
        }
    }

    /// The format a property template asks for; `None` for a template of
    /// another kind.
    pub open spec fn spec_format(self) -> Option<Format> {
        match self {
            Event::PropertyChange { data, .. } => Some(data.spec_format()),
            _ => None,
        }
    }

    /// A template for log messages of level `lvl` and above.
    pub fn empty_logmessage(lvl: LogLevel) -> (event: Event)
        ensures
            event matches Event::LogMessage { prefix, level, text } && prefix@ == Seq::<char>::empty()
                && level == lvl && text@ == Seq::<char>::empty(),
            event.template() == (Template { kind: EventKind::LogMessage, name: Seq::empty() }),
    {
        Event::LogMessage { prefix: String::new(), level: lvl, text: String::new() }
    }

    /// A template for changes of the property `property`, asked for as a
    /// flag.
    pub fn empty_propertychange(property: String) -> (event: Event)
        ensures
            event == (Event::PropertyChange { name: property, data: PropertyData::Flag(false) }),
            event.template() == (Template { kind: EventKind::PropertyChange, name: property@ }),
    {
        Event::PropertyChange { name: property, data: PropertyData::Flag(false) }
    }

    /// The kind of the event.
    pub fn kind(&self) -> (kind: EventKind)
        ensures
            kind == self.spec_kind(),
    {
        match self {
            Event::LogMessage { .. } => EventKind::LogMessage,
            Event::StartFile => EventKind::StartFile,
            Event::EndFile { .. } => EventKind::EndFile,
            Event::FileLoaded => EventKind::FileLoaded,
            Event::Idle => EventKind::Idle,
            Event::Tick => EventKind::Tick,
            Event::VideoReconfig => EventKind::VideoReconfig,
            Event::AudioReconfig => EventKind::AudioReconfig,
            Event::Seek => EventKind::Seek,
            Event::PlaybackRestart => EventKind::PlaybackRestart,
            Event::PropertyChange { .. } => EventKind::PropertyChange,
        }
    }

    /// The number by which the engine knows the event's kind.
    pub fn as_id(&self) -> (id: u32)
        ensures
            id == self.spec_kind().spec_id(),
    {
        self.kind().id()
    }

    /// Whether two events are matched by the same thing: they are of one
    /// kind, and two property changes name the same property.
    pub fn structural_eq(&self, rhs: &Event) -> (same: bool)
        ensures
            same == (self.template() == rhs.template()),
    {
        match self {
            Event::PropertyChange { name: left, .. } => match rhs {
                Event::PropertyChange { name: right, .. } => *left == *right,
                _ => false,
            },
            _ => self.kind() == rhs.kind(),
        }
    }

    /// A copy that is equal to the event in every part.
    pub fn duplicate(&self) -> (copy: Event)
        ensures
            copy == *self,
    {
        match self {
            Event::LogMessage { prefix, level, text } => Event::LogMessage {
                prefix: prefix.clone(),
                level: *level,
                text: text.clone(),
            },
            Event::StartFile => Event::StartFile,
            Event::EndFile { reason, error } => Event::EndFile { reason: *reason, error: *error },
            Event::FileLoaded => Event::FileLoaded,
            Event::Idle => Event::Idle,
            Event::Tick => Event::Tick,
            Event::VideoReconfig => Event::VideoReconfig,
            Event::AudioReconfig => Event::AudioReconfig,
            Event::Seek => Event::Seek,
            Event::PlaybackRestart => Event::PlaybackRestart,
            Event::PropertyChange { name, data } => Event::PropertyChange {
                name: name.clone(),
                data: data.duplicate(),
            },
        }
    }
}

} // verus!
