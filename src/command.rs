//! What the caller asks of the device, and the CoAP request that asks it.

use vstd::prelude::*;
use crate::decimal::{decimal_of, decimal_text};

verus! {

/// The three things the device can be asked. Any name other than `on` and
/// `off` asks for the status: routing hands over arbitrary path segments and
/// relies on that fallback.
#[derive(Clone, Copy, Debug, PartialEq, Eq, Structural)]
pub enum Command {
    Status,
    On,
    Off,
}

/// The command a name asks for.
pub open spec fn command_of(name: Seq<char>) -> Command {
    if name == "on"@ {
        Command::On
    } else if name == "off"@ {
        Command::Off
    } else {
        Command::Status
    }
}

impl Command {
    /// The resource the command is posted to, below the endpoint.
    pub open spec fn spec_suffix(self) -> Seq<char> {
        match self {
            Command::On => "pwr_on"@,
            Command::Off => "pwr_off"@,
            Command::Status => "pwr_get_t"@,
        }
    }

    /// Classifies a command name; unknown names ask for the status.
    pub fn from_name(name: &str) -> (r: Command)
        ensures
            r == command_of(name@),
    {
        if same_text(name, "on") {
            Command::On
        } else if same_text(name, "off") {
            Command::Off
        } else {
            Command::Status
        }
    }

    /// The resource's name, to append to the endpoint.
    pub fn suffix(&self) -> (r: &'static str)
        ensures
            r@ == self.spec_suffix(),
    {
        match self {
            Command::On => "pwr_on",
            Command::Off => "pwr_off",
            Command::Status => "pwr_get_t",
        }
    }
}

/// Whether two texts hold the same characters.
fn same_text(a: &str, b: &str) -> (r: bool)
    ensures
        r == (a@ == b@),
{
    let n = a.unicode_len();
    if n != b.unicode_len() {
        return false;
    }
    let mut i: usize = 0;
    while i < n
        invariant
            n == a@.len(),
            n == b@.len(),
            i <= n,
            a@.subrange(0, i as int) == b@.subrange(0, i as int),
        decreases n - i,
    {
        if a.get_char(i) != b.get_char(i) {
            return false;
        }
        assert(a@.subrange(0, i + 1) =~= a@.subrange(0, i as int).push(a@[i as int]));
        assert(b@.subrange(0, i + 1) =~= b@.subrange(0, i as int).push(b@[i as int]));
        i = i + 1;
    }
    assert(a@ =~= a@.subrange(0, n as int));
    assert(b@ =~= b@.subrange(0, n as int));
    true
}

/// A CoAP POST to send: where to, and the body, the time of the request in
/// decimal seconds, which the device takes as a liveness marker.
pub struct CoapRequest {
    pub url: String,
    pub body: String,
}

/// Builds the request for `command` against `endpoint` at Unix time `now`.
pub fn build_request(endpoint: &str, command: &str, now: i64) -> (r: CoapRequest)
    ensures
        r.url@ == endpoint@ + command_of(command@).spec_suffix(),
        r.body@ == decimal_of(now as int),
{
    let cmd = Command::from_name(command);
    let mut url = String::from_str(endpoint);
    url.append(cmd.suffix());
    CoapRequest { url, body: decimal_text(now) }
}

} // verus!
