//! Logging to standard error, with syslog-style severity labels.
use std::io::Write;
use vstd::prelude::*;

verus! {

#[derive(Copy, Clone, PartialEq, Eq, Debug, Structural)]
pub enum Level {
    Info,
    Error,
    Off,
}

#[derive(Copy, Clone)]
pub struct Logger {
    pub level: Level,
}

/// The label a message of level `level` is written with by a logger of
/// level `configured`; `None` where the message is not written. An `Info`
/// logger writes all messages, an `Error` logger only errors, an `Off`
/// logger nothing.
pub open spec fn log_label(configured: Level, level: Level) -> Option<Seq<char>> {
    match (configured, level) {
        (Level::Info, Level::Info) => Some("<6>"@),
        (Level::Info, Level::Error) | (Level::Error, Level::Error) => Some("<3>"@),
        _ => None,
    }
}

/// Writes a labelled line to standard error.
///
/// Trusted: `writeln!` on `std::io::stderr()`; a failure to write is
/// ignored. Nothing is stated: the effect is outside the program.
#[verifier::external_body]
fn emit(label: &str, message: &str) {
    let _ = writeln!(std::io::stderr(), "{} {}", label, message);
}

impl Logger {
    pub fn new() -> (logger: Self)
        ensures
            logger.level == Level::Info,
    {
        Self { level: Level::Info }
    }

    pub fn info(&self, message: String) {
        self.write(Level::Info, message);
    }

    pub fn error(&self, message: String) {
        self.write(Level::Error, message);
    }

    /// The label a message of `level` is written with (see `log_label`).
    pub fn label(&self, level: Level) -> (label: Option<&'static str>)
        ensures
            match log_label(self.level, level) {
                Some(l) => label matches Some(s) && s@ == l,
                None => label is None,
            },
    {
        match (self.level, level) {
            (Level::Info, Level::Info) => Some("<6>"),
            (Level::Info, Level::Error) | (Level::Error, Level::Error) => Some("<3>"),
            _ => None,
        }
    }

    fn write(&self, level: Level, message: String) {
        match self.label(level) {
            Some(label) => emit(label, message.as_str()),
            None => {},
        }
    }
}

} // verus!
