use vstd::prelude::*;

use crate::lex::{
    all_digits, dec_int_value, dec_value, is_dec_int, parse_i64, parse_u64, tokenize, tokens,
    views_of,
};
use crate::roles::Role;

verus! {

/// Byte-string equality.
pub fn bytes_eq(a: &[u8], b: &[u8]) -> (r: bool)
    ensures
        r == (a@ == b@),
{
    if a.len() != b.len() {
        return false;
    }
    let mut i: usize = 0;
    while i < a.len()
        invariant
            a@.len() == b@.len(),
            i <= a@.len(),
            forall|j: int| 0 <= j < i ==> a@[j] == b@[j],
        decreases a@.len() - i,
    {
        if a[i] != b[i] {
            return false;
        }
        i += 1;
    }
    proof {
        assert(a@ =~= b@);
    }
    true
}

/// The trigger token of the status command: "/status" in ASCII.
pub open spec fn status_trigger() -> Seq<u8> {
    seq![47u8, 115u8, 116u8, 97u8, 116u8, 117u8, 115u8]
}

fn status_trigger_vec() -> (r: Vec<u8>)
    ensures
        r@ == status_trigger(),
{
    let mut v: Vec<u8> = Vec::new();
    v.push(47);
    v.push(115);
    v.push(116);
    v.push(97);
    v.push(116);
    v.push(117);
    v.push(115);
    proof {
        assert(v@ =~= status_trigger());
    }
    v
}

/// The trigger token of the request-access command: "/request_access" in
/// ASCII.
pub open spec fn request_access_trigger() -> Seq<u8> {
    seq![
        47u8,
        114u8,
        101u8,
        113u8,
        117u8,
        101u8,
        115u8,
        116u8,
        95u8,
        97u8,
        99u8,
        99u8,
        101u8,
        115u8,
        115u8,
    ]
}

fn request_access_trigger_vec() -> (r: Vec<u8>)
    ensures
        r@ == request_access_trigger(),
{
    let mut v: Vec<u8> = Vec::new();
    v.push(47);
    v.push(114);
    v.push(101);
    v.push(113);
    v.push(117);
    v.push(101);
    v.push(115);
    v.push(116);
    v.push(95);
    v.push(97);
    v.push(99);
    v.push(99);
    v.push(101);
    v.push(115);
    v.push(115);
    proof {
        assert(v@ =~= request_access_trigger());
    }
    v
}

/// The trigger token of the grant command: "/allow" in ASCII.
pub open spec fn allow_trigger() -> Seq<u8> {
    seq![47u8, 97u8, 108u8, 108u8, 111u8, 119u8]
}

fn allow_trigger_vec() -> (r: Vec<u8>)
    ensures
        r@ == allow_trigger(),
{
    let mut v: Vec<u8> = Vec::new();
    v.push(47);
    v.push(97);
    v.push(108);
    v.push(108);
    v.push(111);
    v.push(119);
    proof {
        assert(v@ =~= allow_trigger());
    }
    v
}

/// Where an inbound message is dispatched.  Routing is purely syntactic —
/// decided by the first whitespace-delimited token alone — and performs no
/// authorization; every handler enforces its own role gate first.
#[derive(Clone, Copy, Debug, PartialEq, Eq, Structural)]
pub enum Command {
    /// `/status`: report the caller's role.
    Status,
    /// `/request_access`: notify the admin that the caller wants access.
    RequestAccess,
    /// `/allow <identity>`: grant the target identity.
    Allow { target: i64 },
    /// `/allow` with a missing, extra or malformed identity argument.
    AllowInvalid,
    /// Anything else falls through to the default content-fetch handler.
    FreeText,
}

/// The command a message text routes to.
pub open spec fn spec_route(s: Seq<u8>) -> Command {
    let ts = tokens(s);
    if ts.len() > 0 && ts[0] == status_trigger() {
        Command::Status
    } else if ts.len() > 0 && ts[0] == request_access_trigger() {
        Command::RequestAccess
    } else if ts.len() > 0 && ts[0] == allow_trigger() {
        if ts.len() == 2 && is_dec_int(ts[1]) && i64::MIN <= dec_int_value(ts[1]) <= i64::MAX {
            Command::Allow { target: dec_int_value(ts[1]) as i64 }
        } else {
            Command::AllowInvalid
        }
    } else {
        Command::FreeText
    }
}

/// CommandRouter: match the first whitespace-delimited token against the
/// registered triggers, or fall through to the default handler.
pub fn route(text: &[u8]) -> (c: Command)
    ensures
        c == spec_route(text@),
{
    let toks = tokenize(text);
    if toks.len() == 0 {
        return Command::FreeText;
    }
    proof {
        assert(views_of(toks@)[0] == toks@[0]@);
    }
    let first = toks[0].as_slice();
    if bytes_eq(first, status_trigger_vec().as_slice()) {
        return Command::Status;
    }
    if bytes_eq(first, request_access_trigger_vec().as_slice()) {
        return Command::RequestAccess;
    }
    if bytes_eq(first, allow_trigger_vec().as_slice()) {
        if toks.len() == 2 {
            proof {
                assert(views_of(toks@)[1] == toks@[1]@);
            }
            return match parse_i64(toks[1].as_slice()) {
                Some(target) => Command::Allow { target },
                None => Command::AllowInvalid,
            };
        }
        return Command::AllowInvalid;
    }
    Command::FreeText
}

/// A second token that names a usable fetch count: a digit string whose
/// value fits the count type.
pub open spec fn valid_count(t: Seq<u8>) -> bool {
    t.len() > 0 && all_digits(t) && dec_value(t) <= u64::MAX
}

/// What the default handler decides for one message.
pub enum DefaultDecision {
    /// The sender is not allowed: reply with the fixed denial; no fetch.
    Deny,
    /// More than two tokens, or none: reply with the usage error; no fetch.
    UsageError,
    /// Invoke the content delegate with this target and count.
    /// `count_defaulted` is true when a present count token failed to parse
    /// and the default 10 was substituted — a soft recovery that also
    /// deserves a warning reply.
    Fetch { target: Vec<u8>, count: u64, count_defaulted: bool },
}

/// Default-handler gate: role first, then argument shape.  A sender whose
/// role is `NotAllowed` is denied before anything is parsed and never
/// reaches a fetch; an allowed or admin sender gets a fetch for
/// `<target> [count]`, the count defaulting to 10 when absent or
/// unparsable, and a usage error for any other token count.
pub fn handle_default(role: Role, text: &[u8]) -> (d: DefaultDecision)
    ensures
        (role == Role::NotAllowed) <==> (d is Deny),
        (d is UsageError) <==> (role != Role::NotAllowed && (tokens(text@).len() == 0 || tokens(
            text@,
        ).len() > 2)),
        (d is Fetch) <==> (role != Role::NotAllowed && (tokens(text@).len() == 1 || tokens(
            text@,
        ).len() == 2)),
        d matches DefaultDecision::Fetch { target, count, count_defaulted } ==> {
            let ts = tokens(text@);
            &&& target@ == ts[0]
            &&& (ts.len() == 1 ==> count == 10 && !count_defaulted)
            &&& (ts.len() == 2 && valid_count(ts[1]) ==> count == dec_value(ts[1])
                && !count_defaulted)
            &&& (ts.len() == 2 && !valid_count(ts[1]) ==> count == 10 && count_defaulted)
        },
{
    if matches!(role, Role::NotAllowed) {
        return DefaultDecision::Deny;
    }
    let mut toks = tokenize(text);
    if toks.len() == 0 || toks.len() > 2 {
        return DefaultDecision::UsageError;
    }
    proof {
        assert(views_of(toks@)[0] == toks@[0]@);
        if toks@.len() == 2 {
            assert(views_of(toks@)[1] == toks@[1]@);
        }
    }
    let (count, count_defaulted): (u64, bool) = if toks.len() == 2 {
        match parse_u64(toks[1].as_slice()) {
            Some(c) => (c, false),
            None => (10, true),
        }
    } else {
        (10, false)
    };
    let target = toks.remove(0);
    DefaultDecision::Fetch { target, count, count_defaulted }
}

/// Fixed denial sent to a sender without access by the default handler.
pub fn denied_text() -> (r: &'static str)
    ensures
        r@ == "You are not allowed to use this bot. Please /request_access to continue."@,
{
    "You are not allowed to use this bot. Please /request_access to continue."
}

/// Usage error for a wrong number of free-text arguments.
pub fn usage_text() -> (r: &'static str)
    ensures
        r@ == "invalid number of arguments: usage: [username] ([number_to_scrape]=10)"@,
{
    "invalid number of arguments: usage: [username] ([number_to_scrape]=10)"
}

/// Warning sent when the count token failed to parse and the default was
/// substituted.
pub fn bad_count_text() -> (r: &'static str)
    ensures
        r@ == "invalid number_to_scrape, using default (10)"@,
{
    "invalid number_to_scrape, using default (10)"
}

/// Reply when the fetch target does not exist upstream.
pub fn not_found_text() -> (r: &'static str)
    ensures
        r@ == "User not found"@,
{
    "User not found"
}

/// Fixed denial for a non-admin caller of the grant command.
pub fn command_denied_text() -> (r: &'static str)
    ensures
        r@ == "You are not allowed to use this command."@,
{
    "You are not allowed to use this command."
}

/// The replies a completed fetch turns into: one per returned item, its
/// representative link, in the order returned — or the lone not-found
/// message when the delegate signalled that the target does not exist.
pub fn fetch_replies(fetched: Option<Vec<String>>) -> (r: Vec<String>)
    ensures
        (fetched is None) ==> r@.len() == 1 && r@[0]@ == "User not found"@,
        fetched matches Some(links) ==> r@ == links@,
{
    match fetched {
        None => {
            let mut v: Vec<String> = Vec::new();
            v.push(not_found_text().to_owned());
            v
        },
        Some(links) => links,
    }
}

} // verus!
