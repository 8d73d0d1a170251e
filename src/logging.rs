use std::io::Write;
use log::{LevelFilter, Log, Metadata, Record, SetLoggerError};
use vstd::prelude::*;

verus! {

#[verifier::external_type_specification]
#[verifier::external_body]
pub struct ExSetLoggerError(SetLoggerError);

#[verifier::external_type_specification]
pub struct ExLevelFilter(LevelFilter);

/// Relies on log::set_max_level: sets the process-wide level filter.
#[verifier::external_body]
fn set_max_level(level: LevelFilter) {
    log::set_max_level(level)
}

#[verifier::external_type_specification]
#[verifier::external_body]
pub struct ExMetadata<'a>(Metadata<'a>);

#[verifier::external_type_specification]
#[verifier::external_body]
pub struct ExRecord<'a>(Record<'a>);

/// Writes every record to standard error as `LEVEL - message`.
pub struct SimpleLogger;

impl Log for SimpleLogger {
    fn enabled(&self, _metadata: &Metadata) -> (r: bool)
        ensures
            r,
    {
        true
    }

    /// Relies on std::io::stderr and `Write`: prints the record; a failed
    /// write is ignored.
    #[verifier::external_body]
    fn log(&self, record: &Record) {
        let _ = writeln!(std::io::stderr(), "{} - {}", record.level(), record.args());
    }

    /// Relies on std::io::Stderr::flush; a failed flush is ignored.
    #[verifier::external_body]
    fn flush(&self) {
        let _ = std::io::stderr().flush();
    }
}

/// Relies on log::set_logger: installs `SimpleLogger` as the process-wide
/// logger, or reports that one was installed before.
#[verifier::external_body]
fn install_simple_logger() -> (r: Result<(), SetLoggerError>) {
    log::set_logger(&SimpleLogger)
}

/// Installs `SimpleLogger` and, when that succeeds, lets records up to the
/// debug level through; a logger installed earlier is reported and left alone,
/// with the level unchanged.
pub fn log_init() -> (r: Result<(), SetLoggerError>) {
    match install_simple_logger() {
        Ok(()) => {
            set_max_level(LevelFilter::Debug);
            Ok(())
        },
        Err(e) => Err(e),
    }
}

} // verus!
