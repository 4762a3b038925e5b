//! The decision logic of address validation.
//!
//! Whether a candidate string is a *valid* three-word address is decided in
//! two steps: a local shape check, and — only when the shape check passes —
//! one remote lookup for the best suggestion. The lookup itself is I/O and
//! lives outside this crate; its reply is handed in as a [`LookupReply`],
//! and this module decides what follows from it. A caller that runs
//! [`is_possible_3wa`] first and looks up second issues no request at all
//! for a string without the address shape.

use vstd::prelude::*;

use crate::recognizer::is_possible_3wa;
use crate::recognizer::possible_spec;

verus! {

/// The reply of the remote suggestion lookup, reduced to plain values: the
/// word-strings of the returned suggestions in rank order, or the fact
/// that the lookup failed (network, HTTP, decode or API-level error).
#[derive(Debug, Clone)]
pub enum LookupReply {
    Suggestions(Vec<String>),
    Failed,
}

/// The reply confirms the candidate: the lookup succeeded and the words of
/// its top suggestion equal the candidate exactly. A failed lookup
/// confirms nothing — the failure is absorbed into a negative answer.
pub open spec fn confirm_spec(s: Seq<char>, reply: LookupReply) -> bool {
    match reply {
        LookupReply::Suggestions(words) => words.deep_view().len() > 0 && words.deep_view()[0]
            == s,
        LookupReply::Failed => false,
    }
}

/// The candidate is a valid address under the given reply: it has the
/// three-word-address shape and the reply confirms it.
pub open spec fn valid_3wa_spec(s: Seq<char>, reply: LookupReply) -> bool {
    possible_spec(s) && confirm_spec(s, reply)
}

/// Decides [`confirm_spec`]: whether the top suggestion of the reply
/// equals the candidate, character for character.
pub fn confirm_reply(input: &str, reply: &LookupReply) -> (b: bool)
    ensures
        b == confirm_spec(input@, *reply),
{
    match reply {
        LookupReply::Suggestions(words) => {
            if words.len() == 0 {
                return false;
            }
            let top = &words[0];
            let owned = input.to_owned();
            owned == *top
        },
        LookupReply::Failed => false,
    }
}

/// Decides [`valid_3wa_spec`]: the shape check first, then the comparison
/// against the reply.
///
/// The reply parameter stands for the one remote lookup that validation
/// performs. A transport that wants to spare the request for a shapeless
/// candidate calls [`is_possible_3wa`] first and skips the lookup when it
/// returns false; [`lemma_rejected_shape_never_validates`] shows that the
/// outcome is the same.
pub fn decide_valid_3wa(input: &str, reply: &LookupReply) -> (b: bool)
    ensures
        b == valid_3wa_spec(input@, *reply),
{
    if !is_possible_3wa(input) {
        return false;
    }
    confirm_reply(input, reply)
}

/// The shape check guards the remote lookup: a string without the
/// three-word-address shape is not a valid address, whatever any lookup
/// would have replied. A caller may therefore skip the lookup entirely
/// when the shape check fails.
pub proof fn lemma_rejected_shape_never_validates(s: Seq<char>, reply: LookupReply)
    requires
        !possible_spec(s),
    ensures
        !valid_3wa_spec(s, reply),
{
}

} // verus!
