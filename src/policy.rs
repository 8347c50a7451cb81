//! Small decisions of the chat front end: which server a build answers in,
//! and who may remove a reply.
use vstd::prelude::*;

verus! {

/// The server on which debug builds answer.
pub const DEBUG_GUILD_ID: u64 = 824767720234942536;

/// Whether a command is handled: a debug build answers only on the debug
/// server, a release build everywhere else.
pub fn command_allowed(debug_build: bool, guild: Option<u64>) -> (r: bool)
    ensures
        r == (debug_build == (guild == Some(DEBUG_GUILD_ID))),
{
    let on_debug_server = match guild {
        Some(id) => id == DEBUG_GUILD_ID,
        None => false,
    };
    debug_build == on_debug_server
}

/// Whether a reaction by `reactor` removes a reply to a command issued by
/// `invoker`: only the user who issued the command may remove its reply.
pub fn may_delete(reactor: Option<u64>, invoker: Option<u64>) -> (r: bool)
    ensures
        r == (reactor is Some && reactor == invoker),
{
    match (reactor, invoker) {
        (Some(a), Some(b)) => a == b,
        _ => false,
    }
}

} // verus!
