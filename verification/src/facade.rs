//! The calls into the `log` crate, the logging facade that dispatches records
//! to the one logger registered with it. Nothing in this file is proved: each
//! item states what the facade is taken to do.

use crate::level::Level;
use vstd::prelude::*;

verus! {

/// `log::SetLoggerError`, the error with which `log::set_logger` answers once
/// a logger has been installed. It carries no data; it is only passed on.
#[verifier::external_type_specification]
#[verifier::external_body]
pub struct ExSetLoggerError(log::SetLoggerError);

/// Calls `log::set_max_level` with the filter of the same name as `ceiling`.
/// The facade's macros then drop records less urgent than that. The call
/// stores the filter in the facade's process-wide state and returns nothing,
/// so nothing is claimed of it.
#[verifier::external_body]
pub(crate) fn set_max_level(ceiling: Level) {
    log::set_max_level(
        match ceiling {
            Level::Error => log::LevelFilter::Error,
            Level::Warn => log::LevelFilter::Warn,
            Level::Info => log::LevelFilter::Info,
            Level::Debug => log::LevelFilter::Debug,
            Level::Trace => log::LevelFilter::Trace,
        },
    )
}

} // verus!
