//! The device's reply, `<flag>:<epoch-seconds>`, and what goes wrong with it.

use vstd::prelude::*;
use crate::decimal::{fault_words, i64_of, parse_fault, parse_fault_of, parse_i64};

verus! {

/// The device's state as its reply gives it. `last_change` is `None` where
/// the device reports epoch `0`, that is no recorded change.
#[derive(Clone, Copy, Debug, PartialEq, Eq, Structural)]
pub struct PowerStatus {
    pub on: bool,
    pub last_change: Option<i64>,
}

/// Which part of a reply could not be read.
#[derive(Clone, Copy, Debug, PartialEq, Eq, Structural)]
pub enum ReplyFault {
    /// Not two fields around a single `:`; the text is the whole reply.
    Shape,
    /// The second field is no decimal 64-bit integer; the text is that field.
    Epoch,
}

/// Why a command gave no status. Every one ends the request: nothing is retried.
#[derive(Clone, Debug)]
pub enum GatewayError {
    /// The exchange with the device failed or timed out; `cause` says how.
    TransportError { cause: String },
    /// The device answered with something that is no reply.
    MalformedReply { fault: ReplyFault, text: String },
}

/// A `GatewayError` with its texts as sequences of characters.
pub enum ErrorView {
    Transport(Seq<char>),
    Malformed(ReplyFault, Seq<char>),
}

impl View for GatewayError {
    type V = ErrorView;

    open spec fn view(&self) -> ErrorView {
        match self {
            GatewayError::TransportError { cause } => ErrorView::Transport(cause@),
            GatewayError::MalformedReply { fault, text } => ErrorView::Malformed(*fault, text@),
        }
    }
}

/// A result with its error seen through `ErrorView`.
pub open spec fn outcome_view(r: Result<PowerStatus, GatewayError>) -> Result<
    PowerStatus,
    ErrorView,
> {
    match r {
        Ok(s) => Ok(s),
        Err(e) => Err(e@),
    }
}

/// The text an error is shown with, to operator and caller alike.
pub open spec fn message_of(e: ErrorView) -> Seq<char> {
    match e {
        ErrorView::Transport(cause) => "CoAP error: "@ + cause,
        ErrorView::Malformed(ReplyFault::Shape, text) => "CoAP: invalid response: \""@ + text
            + "\""@,
        ErrorView::Malformed(ReplyFault::Epoch, text) => "CoAP response parse error: "@
            + fault_words(parse_fault_of(text)) + ": \""@ + text + "\""@,
    }
}

impl GatewayError {
    /// The error as text, per `message_of`.
    pub fn message(&self) -> (r: String)
        ensures
            r@ == message_of(self@),
    {
        match self {
            GatewayError::TransportError { cause } => {
                let mut out = String::from_str("CoAP error: ");
                out.append(cause.as_str());
                out
            },
            GatewayError::MalformedReply { fault: ReplyFault::Shape, text } => {
                let mut out = String::from_str("CoAP: invalid response: \"");
                out.append(text.as_str());
                out.append("\"");
                out
            },
            GatewayError::MalformedReply { fault: ReplyFault::Epoch, text } => {
                let mut out = String::from_str("CoAP response parse error: ");
                out.append(parse_fault(text.as_str()).words());
                out.append(": \"");
                out.append(text.as_str());
                out.append("\"");
                out
            },
        }
    }
}

/// `k` is the place of the one and only `:` in `s`.
pub open spec fn sole_colon(s: Seq<char>, k: int) -> bool {
    0 <= k < s.len() && s[k] == ':' && forall|j: int|
        0 <= j < s.len() && j != k ==> #[trigger] s[j] != ':'
}

/// What a reply says. The flag `1` means on and every other flag off; the
/// epoch `0` means no recorded change.
pub open spec fn reply_spec(s: Seq<char>) -> Result<PowerStatus, ErrorView> {
    if exists|k: int| sole_colon(s, k) {
        let k = choose|k: int| sole_colon(s, k);
        let flag = s.take(k);
        let field = s.skip(k + 1);
        match i64_of(field) {
            Some(t) => Ok(
                PowerStatus {
                    on: flag == seq!['1'],
                    last_change: if t == 0 {
                        None
                    } else {
                        Some(t)
                    },
                },
            ),
            None => Err(ErrorView::Malformed(ReplyFault::Epoch, field)),
        }
    } else {
        Err(ErrorView::Malformed(ReplyFault::Shape, s))
    }
}

/// A sole `:` is the one that `reply_spec` splits at.
pub proof fn lemma_sole_colon_unique(s: Seq<char>, k: int)
    requires
        sole_colon(s, k),
    ensures
        (choose|j: int| sole_colon(s, j)) == k,
{
    let j = choose|j: int| sole_colon(s, j);
    assert(sole_colon(s, j));
    if j != k {
        assert(s[j] != ':');
    }
}

/// Reads a reply already decoded to text.
pub fn parse_reply_text(msg: &str) -> (r: Result<PowerStatus, GatewayError>)
    ensures
        outcome_view(r) == reply_spec(msg@),
{
    let len = msg.unicode_len();
    let mut found = false;
    let mut pos: usize = 0;
    let mut i: usize = 0;
    while i < len
        invariant
            len == msg@.len(),
            i <= len,
            !found ==> forall|j: int| 0 <= j < i ==> #[trigger] msg@[j] != ':',
            found ==> pos < i && msg@[pos as int] == ':' && forall|j: int|
                0 <= j < i && j != pos ==> #[trigger] msg@[j] != ':',
        decreases len - i,
    {
        if msg.get_char(i) == ':' {
            if found {
                proof {
                    assert forall|k: int| !sole_colon(msg@, k) by {
                        if 0 <= k < msg@.len() && k != pos {
                            assert(msg@[pos as int] == ':');
                        } else if k == pos {
                            assert(msg@[i as int] == ':');
                        }
                    }
                }
                return Err(
                    GatewayError::MalformedReply {
                        fault: ReplyFault::Shape,
                        text: String::from_str(msg),
                    },
                );
            }
            found = true;
            pos = i;
        }
        i = i + 1;
    }
    if !found {
        proof {
            assert forall|k: int| !sole_colon(msg@, k) by {
                if 0 <= k < msg@.len() {
                    assert(msg@[k] != ':');
                }
            }
        }
        return Err(
            GatewayError::MalformedReply { fault: ReplyFault::Shape, text: String::from_str(msg) },
        );
    }
    proof {
        assert(sole_colon(msg@, pos as int));
        lemma_sole_colon_unique(msg@, pos as int);
    }
    let flag = msg.substring_char(0, pos);
    let field = msg.substring_char(pos + 1, len);
    assert(flag@ =~= msg@.take(pos as int));
    assert(field@ =~= msg@.skip(pos + 1));
    proof {
        reveal_strlit("1");
    }
    let on = flag.unicode_len() == 1 && flag.get_char(0) == '1';
    assert(on == (flag@ == seq!['1'])) by {
        if flag@.len() == 1 && flag@[0] == '1' {
            assert(flag@ =~= seq!['1']);
        }
    }
    match parse_i64(field) {
        Some(t) => Ok(
            PowerStatus {
                on,
                last_change: if t == 0 {
                    None
                } else {
                    Some(t)
                },
            },
        ),
        None => Err(
            GatewayError::MalformedReply { fault: ReplyFault::Epoch, text: String::from_str(field) },
        ),
    }
}

/// What `String::from_utf8_lossy` makes of the bytes `b`.
pub uninterp spec fn lossy_text(b: Seq<u8>) -> Seq<char>;

/// Bytes below 128, each read as the character of that code.
pub open spec fn ascii_text(b: Seq<u8>) -> Seq<char> {
    b.map_values(|x: u8| x as char)
}

pub open spec fn all_ascii(b: Seq<u8>) -> bool {
    forall|i: int| 0 <= i < b.len() ==> #[trigger] b[i] < 128
}

/// Relies on `String::from_utf8_lossy`: bytes to text, each invalid sequence
/// replaced by U+FFFD, valid UTF-8 (ASCII among it) kept as it is; it never
/// fails, and the text depends on the bytes alone.
#[verifier::external_body]
fn decode_lossy(b: &[u8]) -> (r: String)
    ensures
        r@ == lossy_text(b@),
        all_ascii(b@) ==> r@ == ascii_text(b@),
{
    String::from_utf8_lossy(b).into_owned()
}

/// Reads a reply payload as the device sent it. Bytes that are no UTF-8 are
/// replaced, not refused, and the reading goes on on the text.
pub fn parse_reply(payload: &[u8]) -> (r: Result<PowerStatus, GatewayError>)
    ensures
        outcome_view(r) == reply_spec(lossy_text(payload@)),
        all_ascii(payload@) ==> outcome_view(r) == reply_spec(ascii_text(payload@)),
{
    let msg = decode_lossy(payload);
    parse_reply_text(msg.as_str())
}

/// Ends an exchange: the payload that came back, or the transport's failure,
/// described by `Err`, which becomes a `TransportError` as it stands.
pub fn complete_exchange(reply: Result<Vec<u8>, String>) -> (r: Result<PowerStatus, GatewayError>)
    ensures
        match reply {
            Ok(payload) => outcome_view(r) == reply_spec(lossy_text(payload@)),
            Err(cause) => outcome_view(r) == Err::<PowerStatus, ErrorView>(
                ErrorView::Transport(cause@),
            ),
        },
{
    match reply {
        Ok(payload) => parse_reply(payload.as_slice()),
        Err(cause) => Err(GatewayError::TransportError { cause }),
    }
}

} // verus!
