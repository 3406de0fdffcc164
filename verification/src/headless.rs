//! Decisions of the headless runner: which servers a run tries, and how
//! many a comparison tests.
//!
//! The runner itself (engine calls, printing, sleeping between runs) is
//! part of the program.

use vstd::prelude::*;

use crate::models::Server;
use crate::providers::{debug_quoted, debug_text};
use crate::state::{first_match, first_matching};
use crate::text::{chars_of, concat, string_of};

verus! {

/// How many servers are tried automatically before giving up (not used
/// when a server is pinned).
pub const MAX_ATTEMPTS: usize = 3;

/// The fewest servers a comparison tests.
pub const COMPARE_MIN: usize = 2;

/// The most servers a comparison tests.
pub const COMPARE_MAX: usize = 8;

/// How many servers a comparison asked for `count` tests: `count` held
/// to `2..=8`.
pub fn compare_count(count: usize) -> (r: usize)
    ensures
        r == (if count < COMPARE_MIN {
            COMPARE_MIN
        } else if count > COMPARE_MAX {
            COMPARE_MAX
        } else {
            count
        }),
{
    if count < COMPARE_MIN {
        COMPARE_MIN
    } else if count > COMPARE_MAX {
        COMPARE_MAX
    } else {
        count
    }
}

/// The message when no server matches a pinned query.
pub open spec fn no_match_text(query: Seq<char>) -> Seq<char> {
    "no server matching "@ + debug_quoted(query) + "; try --list-servers"@
}

/// How many of `n` servers an unpinned run tries.
pub open spec fn attempts(n: nat) -> nat {
    if n < MAX_ATTEMPTS {
        n
    } else {
        MAX_ATTEMPTS as nat
    }
}

/// The servers one run tries, in order (nearest first).
///
/// With a pinned query it is the first server whose name or host
/// contains the query (ignoring case), alone, or an error naming the
/// query when none does; without one it is the nearest
/// [`MAX_ATTEMPTS`] servers.
pub fn candidates(servers: Vec<Server>, query: Option<&str>) -> (r: Result<Vec<Server>, String>)
    ensures
        match query {
            Some(q) => {
                let i = first_match(servers@, q@);
                match r {
                    Ok(picked) => i < servers@.len() && picked@ == seq![servers@[i]],
                    Err(message) => i == servers@.len() && message@ == no_match_text(q@),
                }
            },
            None => r matches Ok(picked) && picked@ == servers@.take(
                attempts(servers@.len()) as int,
            ),
        },
        query is None ==> (r matches Ok(picked) && picked@.len() <= MAX_ATTEMPTS
            && picked@.is_prefix_of(servers@) && (servers@.len() <= MAX_ATTEMPTS ==> picked@
            == servers@) && (servers@.len() >= MAX_ATTEMPTS ==> picked@.len() == MAX_ATTEMPTS)),
{
    match query {
        Some(q) => {
            let i = first_matching(&servers, q);
            if i < servers.len() {
                let mut all = servers;
                let picked = all.remove(i);
                let mut one: Vec<Server> = Vec::new();
                one.push(picked);
                Ok(one)
            } else {
                let head = chars_of("no server matching ");
                let quoted = chars_of(debug_text(q).as_str());
                let tail = chars_of("; try --list-servers");
                Err(string_of(&concat(&concat(&head, &quoted), &tail)))
            }
        },
        None => {
            let mut all = servers;
            let n = if all.len() < MAX_ATTEMPTS {
                all.len()
            } else {
                MAX_ATTEMPTS
            };
            all.truncate(n);
            Ok(all)
        },
    }
}

/// Without a pinned server a run tries the nearest servers, as many as
/// there are up to [`MAX_ATTEMPTS`]: every server when there are at most
/// that many, otherwise exactly that many, always from the nearest one
/// on and in order.
pub proof fn law_unpinned_runs_try_the_nearest(servers: Seq<Server>)
    ensures
        servers.take(attempts(servers.len()) as int).is_prefix_of(servers),
        servers.len() <= MAX_ATTEMPTS ==> servers.take(attempts(servers.len()) as int) == servers,
        servers.len() >= MAX_ATTEMPTS ==> servers.take(attempts(servers.len()) as int).len()
            == MAX_ATTEMPTS,
        servers.len() > 0 ==> servers.take(attempts(servers.len()) as int)[0] == servers[0],
{
    assert(servers.take(servers.len() as int) =~= servers);
    let t = servers.take(attempts(servers.len()) as int);
    assert(servers.subrange(0, t.len() as int) =~= t);
}

} // verus!
