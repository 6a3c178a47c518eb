//! What holds of the gateway over all inputs.

use vstd::prelude::*;
use crate::command::{command_of, Command};
use crate::decimal::{
    decimal_of, i64_of, is_digit, lemma_decimal_digits_only, lemma_decimal_round_trip,
};
use crate::reply::{lemma_sole_colon_unique, reply_spec, sole_colon, ErrorView, PowerStatus, ReplyFault};
use crate::status::{change_text, status_line_spec};

verus! {

/// A reply `1:<t>` with `t > 0` reads as on, changed at `t`, and its status
/// line shows `t` in the zone's local time.
pub proof fn lemma_on_reply(t: i64, offset: int)
    requires
        t > 0,
    ensures
        reply_spec(seq!['1', ':'] + decimal_of(t as int)) == Ok::<PowerStatus, ErrorView>(
            PowerStatus { on: true, last_change: Some(t) },
        ),
        status_line_spec(PowerStatus { on: true, last_change: Some(t) }, offset) == "Power ON, last change: "@
            + change_text(Some(t), offset),
{
    let d = decimal_of(t as int);
    let s = seq!['1', ':'] + d;
    lemma_decimal_digits_only(t as int);
    lemma_decimal_round_trip(t);
    assert forall|j: int| 0 <= j < s.len() && j != 1 implies #[trigger] s[j] != ':' by {
        if j >= 2 {
            assert(s[j] == d[j - 2]);
        }
    }
    assert(sole_colon(s, 1));
    lemma_sole_colon_unique(s, 1);
    assert(s.take(1) =~= seq!['1']);
    assert(s.skip(2) =~= d);
    assert(("Power "@ + "ON"@ + ", last change: "@ + change_text(Some(t), offset)) =~= ("Power ON, last change: "@
        + change_text(Some(t), offset))) by {
        reveal_strlit("Power ");
        reveal_strlit("ON");
        reveal_strlit(", last change: ");
        reveal_strlit("Power ON, last change: ");
    }
}

/// Every command name but `on` and `off` is posted where `status` is: the
/// status query.
pub proof fn lemma_unknown_command_queries_status(name: Seq<char>)
    requires
        name != "on"@,
        name != "off"@,
    ensures
        command_of(name) == Command::Status,
        command_of(name).spec_suffix() == "pwr_get_t"@,
        command_of(name).spec_suffix() == command_of("status"@).spec_suffix(),
{
    reveal_strlit("status");
    reveal_strlit("on");
    reveal_strlit("off");
    assert("status"@.len() != "on"@.len());
    assert("status"@.len() != "off"@.len());
}

/// A reply without a `:` is malformed as a whole.
pub proof fn lemma_reply_without_colon(s: Seq<char>)
    requires
        forall|i: int| 0 <= i < s.len() ==> #[trigger] s[i] != ':',
    ensures
        reply_spec(s) == Err::<PowerStatus, ErrorView>(ErrorView::Malformed(ReplyFault::Shape, s)),
{
    assert forall|k: int| !sole_colon(s, k) by {
        if 0 <= k < s.len() {
            assert(s[k] != ':');
        }
    }
}

/// A reply whose second field holds a character that is neither a digit nor
/// a sign is malformed in its epoch, whatever its flag.
pub proof fn lemma_reply_with_non_numeric_epoch(flag: Seq<char>, field: Seq<char>, i: int)
    requires
        forall|j: int| 0 <= j < flag.len() ==> #[trigger] flag[j] != ':',
        forall|j: int| 0 <= j < field.len() ==> #[trigger] field[j] != ':',
        0 <= i < field.len(),
        !is_digit(field[i]),
        field[i] != '+',
        field[i] != '-',
    ensures
        reply_spec(flag + seq![':'] + field) == Err::<PowerStatus, ErrorView>(
            ErrorView::Malformed(ReplyFault::Epoch, field),
        ),
{
    let s = flag + seq![':'] + field;
    let k = flag.len() as int;
    assert forall|j: int| 0 <= j < s.len() && j != k implies #[trigger] s[j] != ':' by {
        if j < k {
            assert(s[j] == flag[j]);
        } else {
            assert(s[j] == field[j - k - 1]);
        }
    }
    assert(sole_colon(s, k));
    lemma_sole_colon_unique(s, k);
    assert(s.take(k) =~= flag);
    assert(s.skip(k + 1) =~= field);
    let signed = field.len() > 0 && (field[0] == '-' || field[0] == '+');
    if signed {
        assert(field.skip(1)[i - 1] == field[i]);
    }
    assert(i64_of(field) is None);
}

} // verus!
