//! What the daemon answers to its clients' requests, apart from the
//! transport that carries them.
use crate::log_buffer::ClientId;
use crate::pool::{handle_of, is_running, log_of, Pool};
use vstd::prelude::*;

verus! {

/// The process whose output `get_log` reports.
pub const LOGGED_PROCESS: usize = 0;

/// The greeting sent back to a client named `name` that connected from
/// the address `peer`.
pub fn hello(name: &str, peer: &str) -> (greeting: String)
    ensures
        greeting@ == "Hello, "@ + name@ + "! You are connected from "@ + peer@,
{
    let mut greeting = "Hello, ".to_owned();
    greeting.append(name);
    greeting.append("! You are connected from ");
    greeting.append(peer);
    greeting
}

/// The unread output of the logged process for client `cid`; nothing when
/// that process is not running.
pub fn get_log<H>(pool: &mut Pool<H>, cid: ClientId) -> (lines: Vec<String>)
    requires
        crate::pool::slots_wf(old(pool)@),
    ensures
        is_running(old(pool)@, LOGGED_PROCESS as int) ==> {
            &&& lines@ == log_of(old(pool)@, LOGGED_PROCESS as int).unread(cid.0)
            &&& final(pool)@ == old(pool)@.update(
                LOGGED_PROCESS as int,
                Some(
                    (
                        handle_of(old(pool)@, LOGGED_PROCESS as int),
                        log_of(old(pool)@, LOGGED_PROCESS as int).consumed(cid.0),
                    ),
                ),
            )
        },
        !is_running(old(pool)@, LOGGED_PROCESS as int) ==> {
            &&& lines@ == Seq::<String>::empty()
            &&& final(pool)@ == old(pool)@
        },
        crate::pool::slots_wf(final(pool)@),
{
    match pool.log(LOGGED_PROCESS, cid) {
        Some(lines) => lines,
        None => Vec::new(),
    }
}

} // verus!
