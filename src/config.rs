//! Process options: where to listen, where the device is, how much to log.

use vstd::prelude::*;

verus! {

/// `log::LevelFilter` is a plain enum whose variants are read as they stand.
#[verifier::external_type_specification]
pub struct ExLevelFilter(log::LevelFilter);

/// `anyhow::Error` is carried through, never looked into.
#[verifier::external_type_specification]
#[verifier::external_body]
pub struct ExAnyhowError(anyhow::Error);

/// Address the HTTP surface listens on unless told otherwise.
pub const DEFAULT_LISTEN: &'static str = "127.0.0.1:8080";

/// Base URL of the device unless told otherwise.
pub const DEFAULT_COAP_URL: &'static str = "coap://127.0.0.1/";

/// Seconds one CoAP exchange may take unless told otherwise.
pub const DEFAULT_TIMEOUT_SECS: u64 = 5;

/// Options shared by every entry point of the gateway.
#[derive(Clone, Debug)]
pub struct OptsCommon {
    pub debug: bool,
    pub trace: bool,
    pub listen: String,
    pub coap_url: String,
    pub timeout_secs: u64,
}

/// Tracing wins over debugging, and both over the default of `Info`.
pub open spec fn level_for(debug: bool, trace: bool) -> log::LevelFilter {
    if trace {
        log::LevelFilter::Trace
    } else if debug {
        log::LevelFilter::Debug
    } else {
        log::LevelFilter::Info
    }
}

impl OptsCommon {
    /// Completes the options after parsing; nothing is derived from them yet.
    pub fn finish(&mut self) -> (r: Result<(), anyhow::Error>)
        ensures
            r is Ok,
            *final(self) == *old(self),
    {
        Ok(())
    }

    /// The log level these options ask for.
    pub fn get_loglevel(&self) -> (r: log::LevelFilter)
        ensures
            r == level_for(self.debug, self.trace),
    {
        if self.trace {
            log::LevelFilter::Trace
        } else if self.debug {
            log::LevelFilter::Debug
        } else {
            log::LevelFilter::Info
        }
    }
}

} // verus!
