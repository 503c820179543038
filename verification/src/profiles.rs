//! Saved connection profiles, and what the commands around a session say.

use vstd::prelude::*;
use vstd::string::*;
use crate::text::{decimal, push_decimal};
use crate::types::{ConnectionConfig, QueryResult, SaveConnectionRequest, Timestamp};

verus! {

/// The statement that a connection test runs.
pub open spec fn probe_statement() -> Seq<char> {
    "SELECT 1 AS test"@
}

/// What a command answers once a session to `database` on `host` and
/// `port` stands.
pub open spec fn connected_message(host: Seq<char>, port: u16, database: Seq<char>) -> Seq<char> {
    "Connected to "@ + host + ":"@ + decimal(port as nat) + "/"@ + database
}

/// The error for a server that could not be reached.
pub open spec fn transport_failure(detail: Seq<char>) -> Seq<char> {
    "TCP connection failed: "@ + detail
}

/// The error for a server that was reached and refused the handshake or
/// the login.
pub open spec fn login_failure(detail: Seq<char>) -> Seq<char> {
    "SQL Server connection failed: "@ + detail
}

/// The index of the first profile at or after `from` whose id is `id`.
pub open spec fn position_from(profiles: Seq<ConnectionConfig>, id: Seq<char>, from: int) -> Option<
    int,
>
    decreases profiles.len() - from,
{
    if from < 0 || from >= profiles.len() {
        None
    } else if profiles[from].id@ == id {
        Some(from)
    } else {
        position_from(profiles, id, from + 1)
    }
}

/// The index of the first profile whose id is `id`.
pub open spec fn position(profiles: Seq<ConnectionConfig>, id: Seq<char>) -> Option<int> {
    position_from(profiles, id, 0)
}

/// The profiles whose id is not `id`, in their order.
pub open spec fn without(profiles: Seq<ConnectionConfig>, id: Seq<char>) -> Seq<ConnectionConfig> {
    profiles.filter(|c: ConnectionConfig| c.id@ != id)
}

/// The profile that is saved for `request`.
pub open spec fn profile_for(
    request: SaveConnectionRequest,
    id: String,
    encrypted_password: String,
    now: Timestamp,
) -> ConnectionConfig {
    ConnectionConfig {
        id,
        name: request.name,
        host: request.host,
        port: request.port,
        database: request.database,
        username: request.username,
        encrypted_password,
        last_used: Some(now),
        created_at: now,
    }
}

/// `profile` as used at `now`.
pub open spec fn used_at(profile: ConnectionConfig, now: Timestamp) -> ConnectionConfig {
    ConnectionConfig { last_used: Some(now), ..profile }
}

/// What [`position_from`] finds has the id, and nothing before it has.
pub proof fn lemma_position_from(profiles: Seq<ConnectionConfig>, id: Seq<char>, from: int)
    requires
        0 <= from,
    ensures
        match position_from(profiles, id, from) {
            Some(i) => from <= i < profiles.len() && profiles[i].id@ == id && forall|j: int|
                from <= j < i ==> (#[trigger] profiles[j]).id@ != id,
            None => forall|j: int| from <= j < profiles.len() ==> (#[trigger] profiles[j]).id@ != id,
        },
    decreases profiles.len() - from,
{
    if from < profiles.len() && profiles[from].id@ != id {
        lemma_position_from(profiles, id, from + 1);
    }
}

/// No profile that is left after a deletion has the deleted id, every
/// other profile is left, and a second deletion changes nothing.
pub proof fn lemma_without(profiles: Seq<ConnectionConfig>, id: Seq<char>)
    ensures
        forall|i: int|
            0 <= i < without(profiles, id).len() ==> (#[trigger] without(profiles, id)[i]).id@
                != id,
        forall|i: int|
            0 <= i < profiles.len() && profiles[i].id@ != id ==> without(profiles, id).contains(
                #[trigger] profiles[i],
            ),
        without(profiles, id).len() <= profiles.len(),
        position(without(profiles, id), id) is None,
{
    broadcast use vstd::seq_lib::group_filter_ensures;

    lemma_position_from(without(profiles, id), id, 0);
}

/// The statement that a connection test runs.
pub fn probe_statement_text() -> (r: &'static str)
    ensures
        r@ == probe_statement(),
{
    "SELECT 1 AS test"
}

/// What a command answers once a session stands.
pub fn connected_text(host: &str, port: u16, database: &str) -> (r: String)
    ensures
        r@ == connected_message(host@, port, database@),
{
    let mut r = String::new();
    r.append("Connected to ");
    r.append(host);
    r.append(":");
    push_decimal(&mut r, port as u64);
    r.append("/");
    r.append(database);
    assert(r@ =~= connected_message(host@, port, database@));
    r
}

/// The error for a server that could not be reached.
pub fn transport_failure_text(detail: &str) -> (r: String)
    ensures
        r@ == transport_failure(detail@),
{
    let mut r = String::new();
    r.append("TCP connection failed: ");
    r.append(detail);
    r
}

/// The error for a server that refused the handshake or the login.
pub fn login_failure_text(detail: &str) -> (r: String)
    ensures
        r@ == login_failure(detail@),
{
    let mut r = String::new();
    r.append("SQL Server connection failed: ");
    r.append(detail);
    r
}

/// The verdict of a connection test on the result of its statement: the
/// server must have answered with a row.
pub fn test_connection(result: &QueryResult) -> (r: Result<String, String>)
    ensures
        match r {
            Ok(message) => result.rows@.len() > 0 && message@ == "Connection successful"@,
            Err(error) => result.rows@.len() == 0 && error@
                == "Connection test failed: no response from server"@,
        },
{
    if result.rows.len() == 0 {
        Err("Connection test failed: no response from server".to_owned())
    } else {
        Ok("Connection successful".to_owned())
    }
}

/// Adds the profile for `request` to `profiles` and hands back its place.
/// The id, the encrypted password and the time come from the caller.
pub fn save_connection(
    profiles: &mut Vec<ConnectionConfig>,
    request: SaveConnectionRequest,
    id: String,
    encrypted_password: String,
    now: Timestamp,
) -> (index: usize)
    ensures
        final(profiles)@ == old(profiles)@.push(profile_for(request, id, encrypted_password, now)),
        index == old(profiles)@.len(),
{
    let index = profiles.len();
    profiles.push(
        ConnectionConfig {
            id,
            name: request.name,
            host: request.host,
            port: request.port,
            database: request.database,
            username: request.username,
            encrypted_password,
            last_used: Some(now),
            created_at: now,
        },
    );
    index
}

/// The place of the first profile whose id is `id`.
pub fn find_connection(profiles: &Vec<ConnectionConfig>, id: &str) -> (r: Option<usize>)
    ensures
        match r {
            Some(i) => position(profiles@, id@) == Some(i as int) && i < profiles.len(),
            None => position(profiles@, id@) is None,
        },
{
    let wanted = id.to_owned();
    let mut i: usize = 0;
    while i < profiles.len()
        invariant
            i <= profiles.len(),
            wanted@ == id@,
            position(profiles@, id@) == position_from(profiles@, id@, i as int),
        decreases profiles.len() - i,
    {
        if profiles[i].id == wanted {
            return Some(i);
        }
        i += 1;
    }
    None
}

/// Removes every profile whose id is `id`.
pub fn delete_connection(profiles: &mut Vec<ConnectionConfig>, id: &str)
    ensures
        final(profiles)@ == without(old(profiles)@, id@),
{
    let wanted = id.to_owned();
    let ghost pred = |c: ConnectionConfig| c.id@ != id@;
    let ghost all = profiles@;
    let mut kept: usize = 0;
    let ghost mut seen: int = 0;
    proof {
        assert(all.take(0).filter(pred) =~= Seq::<ConnectionConfig>::empty()) by {
            reveal(Seq::filter);
        }
        assert(all.skip(0) =~= all);
    }
    while kept < profiles.len()
        invariant
            all == old(profiles)@,
            wanted@ == id@,
            pred == |c: ConnectionConfig| c.id@ != id@,
            0 <= seen <= all.len(),
            kept == all.take(seen).filter(pred).len(),
            profiles@ == all.take(seen).filter(pred) + all.skip(seen),
        decreases all.len() - seen,
    {
        proof {
            assert(seen < all.len());
            assert(profiles@[kept as int] == all[seen]);
            assert(all.take(seen + 1) =~= all.take(seen).push(all[seen]));
            all.take(seen).lemma_filter_push(all[seen], pred);
        }
        if profiles[kept].id == wanted {
            profiles.remove(kept);
            proof {
                assert(profiles@ =~= all.take(seen + 1).filter(pred) + all.skip(seen + 1));
                seen = seen + 1;
            }
        } else {
            proof {
                assert(profiles@ =~= all.take(seen + 1).filter(pred) + all.skip(seen + 1));
                seen = seen + 1;
            }
            kept += 1;
        }
    }
    proof {
        assert(seen == all.len());
        assert(all.take(seen) =~= all);
        assert(profiles@ =~= all.filter(pred));
    }
}

/// Notes that the profile at `index` was used at `now`.
pub fn mark_used(profiles: &mut Vec<ConnectionConfig>, index: usize, now: Timestamp)
    requires
        index < old(profiles)@.len(),
    ensures
        final(profiles)@ == old(profiles)@.update(
            index as int,
            used_at(old(profiles)@[index as int], now),
        ),
{
    let mut profile = profiles.remove(index);
    profile.last_used = Some(now);
    profiles.insert(index, profile);
    assert(profiles@ =~= old(profiles)@.update(
        index as int,
        used_at(old(profiles)@[index as int], now),
    ));
}

} // verus!
