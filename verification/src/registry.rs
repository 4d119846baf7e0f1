//! The connection registry: at most one pool for each profile, replaced as
//! a whole by a new connect and let go by a disconnect.

use crate::audit::{info_entry, info_lines, lines, LogEntry};
use crate::driver::{
    default_options, default_tls, finish_options, new_pool, options_settings, pool_settings,
    release_pool, with_database, with_host, with_password, with_port, with_tls, with_user,
    Settings,
};
use crate::failure::{failed, lines_of, message_of, DbError, Failure, Outcome};
use crate::text::{decimal, push_decimal, str_eq};
use mysql_async::{Opts, Pool};
use vstd::prelude::*;
use vstd::string::*;

verus! {

/// What a connect request carries.
#[derive(Clone, Debug)]
pub struct ConnectParams {
    pub profile_id: String,
    pub host: String,
    pub port: u16,
    pub user: String,
    pub password: String,
    pub database: Option<String>,
    pub ssl: bool,
}

/// The target of a connection as it is shown: `user@host:port`.
pub open spec fn target_of(user: Seq<char>, host: Seq<char>, port: u16) -> Seq<char> {
    user + seq!['@'] + host + seq![':'] + decimal(port as nat)
}

/// The default schema that a request asks for: none where it names none or
/// names the empty text.
pub open spec fn schema_of(database: Option<String>) -> Option<Seq<char>> {
    match database {
        Some(name) => if name@.len() == 0 {
            None
        } else {
            Some(name@)
        },
        None => None,
    }
}

/// The settings that a connect request asks for: the server, the user and
/// the password as they stand, a default schema unless the request names
/// none or the empty text, and encryption if and only if its flag is set.
pub open spec fn settings_of(params: ConnectParams) -> Settings {
    Settings {
        host: params.host@,
        port: params.port,
        user: Some(params.user@),
        password: Some(params.password@),
        schema: schema_of(params.database),
        tls: params.ssl,
    }
}

impl ConnectParams {
    /// The target of the connection as it is shown: `user@host:port`.
    pub fn target(&self) -> (text: String)
        ensures
            text@ == target_of(self.user@, self.host@, self.port),
    {
        let mut text = String::new();
        text.append(self.user.as_str());
        text.push('@');
        text.append(self.host.as_str());
        text.push(':');
        push_decimal(&mut text, self.port as u64);
        proof {
            assert(text@ =~= target_of(self.user@, self.host@, self.port));
        }
        text
    }

    /// The default schema of the connection, if it is to have one.
    pub fn default_schema(&self) -> (schema: Option<String>)
        ensures
            schema.deep_view() == schema_of(self.database),
    {
        match &self.database {
            Some(name) => {
                if name.as_str().unicode_len() == 0 {
                    None
                } else {
                    Some(name.clone())
                }
            },
            None => None,
        }
    }

    /// The connection options of this request: its server, its user and
    /// password, its default schema where it names one, and encryption
    /// where it asks for it.
    pub fn options(&self) -> (options: Opts)
        ensures
            options_settings(options) == settings_of(*self),
    {
        let mut builder = default_options();
        builder = with_host(builder, self.host.clone());
        builder = with_port(builder, self.port);
        builder = with_user(builder, self.user.clone());
        builder = with_password(builder, self.password.clone());
        match self.default_schema() {
            Some(schema) => {
                builder = with_database(builder, schema);
            },
            None => {},
        }
        if self.ssl {
            builder = with_tls(builder, default_tls());
        }
        finish_options(builder)
    }

    /// A pool for the server of this request, with the request's connection
    /// options. The pool connects to nothing until a connection is asked of
    /// it.
    pub fn open_pool(&self) -> (pool: Pool)
        ensures
            pool_settings(pool) == settings_of(*self),
    {
        new_pool(self.options())
    }
}

/// The notice that a connection is being tried.
pub open spec fn connecting_notice(target: Seq<char>) -> Seq<char> {
    "Connecting to "@ + target + " ..."@
}

/// The notice, and the summary for the caller, that a connection stands.
pub open spec fn connected_notice(target: Seq<char>) -> Seq<char> {
    "Connected to "@ + target
}

/// The notice that a profile is about to be disconnected.
pub open spec fn disconnecting_notice() -> Seq<char> {
    "Disconnecting..."@
}

/// The notice, and the summary for the caller, that a profile is
/// disconnected.
pub open spec fn disconnected_notice() -> Seq<char> {
    "Disconnected"@
}

/// The entry that announces a connection attempt.
pub fn connect_begins(params: &ConnectParams) -> (entry: LogEntry)
    ensures
        entry@ == info_lines(
            connecting_notice(target_of(params.user@, params.host@, params.port)),
        )[0],
{
    let mut notice = String::new();
    notice.append("Connecting to ");
    notice.append(params.target().as_str());
    notice.append(" ...");
    proof {
        assert(notice@ =~= connecting_notice(
            target_of(params.user@, params.host@, params.port),
        ));
    }
    info_entry(notice.as_str())
}

/// The entry that announces that a profile is about to be disconnected.
pub fn disconnect_begins() -> (entry: LogEntry)
    ensures
        entry@ == info_lines(disconnecting_notice())[0],
{
    info_entry("Disconnecting...")
}

/// A pool and the profile that it is registered for.
pub struct PoolEntry {
    pub profile_id: String,
    pub pool: Pool,
}

/// The pool that a registry holds for a profile, if it holds one.
pub open spec fn registered(pools: Map<Seq<char>, Pool>, profile_id: Seq<char>) -> Option<Pool> {
    if pools.contains_key(profile_id) {
        Some(pools[profile_id])
    } else {
        None
    }
}

/// Whether some entry is registered for the profile.
pub open spec fn holds(entries: Seq<PoolEntry>, profile_id: Seq<char>) -> bool {
    exists|i: int| 0 <= i < entries.len() && (#[trigger] entries[i]).profile_id@ == profile_id
}

/// A place at which the profile is registered.
pub open spec fn place_of(entries: Seq<PoolEntry>, profile_id: Seq<char>) -> int {
    choose|i: int| 0 <= i < entries.len() && (#[trigger] entries[i]).profile_id@ == profile_id
}

/// Whether no profile is registered twice.
pub open spec fn distinct(entries: Seq<PoolEntry>) -> bool {
    forall|i: int, j: int|
        0 <= i < j < entries.len() ==> (#[trigger] entries[i]).profile_id@ != (
        #[trigger] entries[j]).profile_id@
}

/// The entries as a map from profile to pool.
pub open spec fn as_map(entries: Seq<PoolEntry>) -> Map<Seq<char>, Pool> {
    Map::new(
        |profile_id: Seq<char>| holds(entries, profile_id),
        |profile_id: Seq<char>| entries[place_of(entries, profile_id)].pool,
    )
}

/// How many entries are registered for the profile.
pub open spec fn count_of(entries: Seq<PoolEntry>, profile_id: Seq<char>) -> nat
    decreases entries.len(),
{
    if entries.len() == 0 {
        0
    } else {
        count_of(entries.drop_last(), profile_id) + if entries.last().profile_id@ == profile_id {
            1nat
        } else {
            0nat
        }
    }
}

/// Among entries of which no two share a profile, a profile's pool is the
/// pool of the one entry that names it.
pub proof fn lemma_pool_at(entries: Seq<PoolEntry>, i: int)
    requires
        distinct(entries),
        0 <= i < entries.len(),
    ensures
        as_map(entries).contains_key(entries[i].profile_id@),
        as_map(entries)[entries[i].profile_id@] == entries[i].pool,
{
    let id = entries[i].profile_id@;
    let j = place_of(entries, id);
    assert(0 <= j < entries.len() && entries[j].profile_id@ == id);
    if j < i {
        assert(entries[j].profile_id@ != entries[i].profile_id@);
    } else if i < j {
        assert(entries[i].profile_id@ != entries[j].profile_id@);
    }
}

/// Among entries of which no two share a profile, every profile is counted
/// once if it is registered and not at all if it is not.
pub proof fn lemma_count_of_distinct(entries: Seq<PoolEntry>, profile_id: Seq<char>)
    requires
        distinct(entries),
    ensures
        count_of(entries, profile_id) == (if holds(entries, profile_id) {
            1nat
        } else {
            0nat
        }),
    decreases entries.len(),
{
    if entries.len() > 0 {
        let front = entries.drop_last();
        let last = entries.len() - 1;
        assert forall|i: int, j: int| 0 <= i < j < front.len() implies (#[trigger] front[i]).profile_id@
            != (#[trigger] front[j]).profile_id@ by {
            assert(entries[i].profile_id@ != entries[j].profile_id@);
        }
        lemma_count_of_distinct(front, profile_id);
        if holds(front, profile_id) {
            let i = choose|i: int|
                0 <= i < front.len() && (#[trigger] front[i]).profile_id@ == profile_id;
            assert(entries[i].profile_id@ == profile_id);
            assert(entries[i].profile_id@ != entries[last].profile_id@);
        } else if holds(entries, profile_id) {
            let i = choose|i: int|
                0 <= i < entries.len() && (#[trigger] entries[i]).profile_id@ == profile_id;
            if i < last {
                assert(front[i].profile_id@ == profile_id);
            }
        }
        if entries[last].profile_id@ == profile_id {
            assert(holds(entries, profile_id));
        }
    }
}

/// The pools of the profiles that are connected.
pub struct DbState {
    entries: Vec<PoolEntry>,
}

impl View for DbState {
    type V = Map<Seq<char>, Pool>;

    closed spec fn view(&self) -> Map<Seq<char>, Pool> {
        as_map(self.entries@)
    }
}

impl DbState {
    /// Whether the registry is sound: no profile is registered twice.
    pub closed spec fn wf(&self) -> bool {
        distinct(self.entries@)
    }

    /// How many pools the registry holds for the profile.
    pub closed spec fn pools_for(&self, profile_id: Seq<char>) -> nat {
        count_of(self.entries@, profile_id)
    }

    /// A registry in which no profile is connected.
    pub fn new() -> (state: DbState)
        ensures
            state.wf(),
            state@ == Map::<Seq<char>, Pool>::empty(),
    {
        let state = DbState { entries: Vec::new() };
        proof {
            assert(state@ =~= Map::<Seq<char>, Pool>::empty());
        }
        state
    }

    /// The place at which the profile is registered.
    fn position(&self, profile_id: &str) -> (at: Option<usize>)
        ensures
            match at {
                Some(i) => i < self.entries@.len() && self.entries@[i as int].profile_id@
                    == profile_id@,
                None => !holds(self.entries@, profile_id@),
            },
    {
        let mut i: usize = 0;
        while i < self.entries.len()
            invariant
                i <= self.entries@.len(),
                forall|k: int| 0 <= k < i ==> (#[trigger] self.entries@[k]).profile_id@ != profile_id@,
            decreases self.entries@.len() - i,
        {
            if str_eq(self.entries[i].profile_id.as_str(), profile_id) {
                return Some(i);
            }
            i += 1;
        }
        None
    }

    /// Takes the profile's pool out of the registry and hands it over, if
    /// the profile has one.
    pub fn remove(&mut self, profile_id: &str) -> (retired: Option<Pool>)
        requires
            old(self).wf(),
        ensures
            final(self).wf(),
            final(self)@ == old(self)@.remove(profile_id@),
            retired == registered(old(self)@, profile_id@),
    {
        let ghost before = self.entries@;
        match self.position(profile_id) {
            Some(i) => {
                let entry = self.entries.remove(i);
                proof {
                    let after = self.entries@;
                    lemma_pool_at(before, i as int);
                    assert forall|a: int| 0 <= a < after.len() implies (#[trigger] after[a]) == (if a
                        < i {
                        before[a]
                    } else {
                        before[a + 1]
                    }) by {}
                    assert forall|a: int, b: int| 0 <= a < b < after.len() implies (
                    #[trigger] after[a]).profile_id@ != (#[trigger] after[b]).profile_id@ by {
                        let a0 = if a < i {
                            a
                        } else {
                            a + 1
                        };
                        let b0 = if b < i {
                            b
                        } else {
                            b + 1
                        };
                        assert(before[a0].profile_id@ != before[b0].profile_id@);
                    }
                    assert forall|id: Seq<char>| holds(after, id) <==> (holds(before, id) && id
                        != profile_id@) by {
                        if holds(after, id) {
                            let a = choose|a: int|
                                0 <= a < after.len() && (#[trigger] after[a]).profile_id@ == id;
                            let a0 = if a < i {
                                a
                            } else {
                                a + 1
                            };
                            assert(before[a0].profile_id@ == id);
                            if a0 < i {
                                assert(before[a0].profile_id@ != before[i as int].profile_id@);
                            } else {
                                assert(before[i as int].profile_id@ != before[a0].profile_id@);
                            }
                        }
                        if holds(before, id) && id != profile_id@ {
                            let a0 = choose|a: int|
                                0 <= a < before.len() && (#[trigger] before[a]).profile_id@ == id;
                            let a = if a0 < i {
                                a0
                            } else {
                                a0 - 1
                            };
                            assert(after[a].profile_id@ == id);
                        }
                    }
                    assert forall|id: Seq<char>| holds(after, id) implies as_map(after)[id] == as_map(
                        before,
                    )[id] by {
                        let a = place_of(after, id);
                        let a0 = if a < i {
                            a
                        } else {
                            a + 1
                        };
                        lemma_pool_at(after, a);
                        lemma_pool_at(before, a0);
                    }
                    assert(as_map(after) =~= as_map(before).remove(profile_id@));
                }
                Some(entry.pool)
            },
            None => {
                proof {
                    assert(as_map(before) =~= as_map(before).remove(profile_id@));
                }
                None
            },
        }
    }

    /// Registers the pool for the profile. A pool that the profile had
    /// before leaves the registry in the same step and is handed over, so
    /// that the caller can let go of it.
    pub fn replace(&mut self, profile_id: String, pool: Pool) -> (retired: Option<Pool>)
        requires
            old(self).wf(),
        ensures
            final(self).wf(),
            final(self)@ == old(self)@.insert(profile_id@, pool),
            retired == registered(old(self)@, profile_id@),
    {
        let retired = self.remove(profile_id.as_str());
        let ghost before = self.entries@;
        let ghost id = profile_id@;
        self.entries.push(PoolEntry { profile_id, pool });
        proof {
            let after = self.entries@;
            let last = before.len() as int;
            assert(!holds(before, id)) by {
                assert(!as_map(before).contains_key(id));
            }
            assert forall|a: int, b: int| 0 <= a < b < after.len() implies (#[trigger] after[a]).profile_id@
                != (#[trigger] after[b]).profile_id@ by {
                if b < last {
                    assert(before[a].profile_id@ != before[b].profile_id@);
                } else {
                    assert(after[a] == before[a]);
                }
            }
            assert forall|other: Seq<char>| holds(after, other) <==> (holds(before, other) || other
                == id) by {
                if holds(after, other) {
                    let a = choose|a: int|
                        0 <= a < after.len() && (#[trigger] after[a]).profile_id@ == other;
                    if a < last {
                        assert(before[a].profile_id@ == other);
                    }
                }
                if holds(before, other) {
                    let a = choose|a: int|
                        0 <= a < before.len() && (#[trigger] before[a]).profile_id@ == other;
                    assert(after[a].profile_id@ == other);
                }
                if other == id {
                    assert(after[last].profile_id@ == other);
                }
            }
            assert forall|other: Seq<char>| holds(after, other) implies as_map(after)[other] == (
            if other == id {
                pool
            } else {
                as_map(before)[other]
            }) by {
                let a = place_of(after, other);
                lemma_pool_at(after, a);
                if a < last {
                    lemma_pool_at(before, a);
                }
            }
            assert(as_map(after) =~= as_map(before).insert(id, pool));
            assert(old(self)@.remove(id).insert(id, pool) =~= old(self)@.insert(id, pool));
        }
        retired
    }

    /// The pool that is registered for the profile.
    pub fn resolve(&self, profile_id: &str) -> (found: Result<&Pool, DbError>)
        requires
            self.wf(),
        ensures
            match found {
                Ok(pool) => registered(self@, profile_id@) == Some(*pool),
                Err(error) => registered(self@, profile_id@) is None && error@
                    == Failure::NotConnected,
            },
    {
        match self.position(profile_id) {
            Some(i) => {
                proof {
                    lemma_pool_at(self.entries@, i as int);
                }
                Ok(&self.entries[i].pool)
            },
            None => Err(DbError::NotConnected),
        }
    }
    /// Settles a connect request once the trial connection has been tried.
    ///
    /// Where the trial stood, the pool is registered for the request's
    /// profile, in place of any pool that the profile had, which is let go
    /// of. Where it failed, the registry stays as it was, the caller is
    /// shown the cause word for word, and the audit trail names the target
    /// as well.
    pub fn connect(&mut self, params: &ConnectParams, pool: Pool, trial: Result<(), String>) -> (out:
        Outcome<String>)
        requires
            old(self).wf(),
        ensures
            final(self).wf(),
            match trial {
                Ok(()) => {
                    &&& final(self)@ == old(self)@.insert(params.profile_id@, pool)
                    &&& out.result is Ok
                    &&& out.result->Ok_0@ == connected_notice(
                        target_of(params.user@, params.host@, params.port),
                    )
                    &&& lines(out.log@) == info_lines(
                        connected_notice(target_of(params.user@, params.host@, params.port)),
                    )
                },
                Err(cause) => {
                    &&& final(self)@ == old(self)@
                    &&& out.result is Err
                    &&& out.result->Err_0@ == (Failure::Connectivity {
                        target: Some(target_of(params.user@, params.host@, params.port)),
                        cause: cause@,
                    })
                    &&& message_of(out.result->Err_0@) == cause@
                    &&& lines(out.log@) == lines_of(out.result->Err_0@)
                },
            },
    {
        let target = params.target();
        match trial {
            Ok(()) => {
                let mut summary = String::new();
                summary.append("Connected to ");
                summary.append(target.as_str());
                proof {
                    assert(summary@ =~= connected_notice(
                        target_of(params.user@, params.host@, params.port),
                    ));
                }
                match self.replace(params.profile_id.clone(), pool) {
                    Some(retired) => release_pool(retired),
                    None => {},
                }
                let mut log: Vec<LogEntry> = Vec::new();
                log.push(info_entry(summary.as_str()));
                proof {
                    assert(lines(log@) =~= info_lines(summary@));
                }
                Outcome { result: Ok(summary), log }
            },
            Err(cause) => failed(DbError::Connectivity { target: Some(target), cause }),
        }
    }

    /// Disconnects the profile: its pool, if it has one, leaves the registry
    /// and is let go of. A profile that is not connected is left as it is;
    /// the request succeeds either way.
    pub fn disconnect(&mut self, profile_id: &str) -> (out: Outcome<String>)
        requires
            old(self).wf(),
        ensures
            final(self).wf(),
            final(self)@ == old(self)@.remove(profile_id@),
            out.result is Ok,
            out.result->Ok_0@ == disconnected_notice(),
            lines(out.log@) == info_lines(disconnected_notice()),
    {
        match self.remove(profile_id) {
            Some(retired) => release_pool(retired),
            None => {},
        }
        let mut log: Vec<LogEntry> = Vec::new();
        log.push(info_entry("Disconnected"));
        proof {
            assert(lines(log@) =~= info_lines(disconnected_notice()));
        }
        Outcome { result: Ok("Disconnected".to_owned()), log }
    }
}

/// A sound registry holds one pool for a profile that is connected and
/// none for any other.
pub proof fn lemma_one_pool_per_profile(state: DbState, profile_id: Seq<char>)
    requires
        state.wf(),
    ensures
        state.pools_for(profile_id) == (if state@.contains_key(profile_id) {
            1nat
        } else {
            0nat
        }),
{
    lemma_count_of_distinct(state.entries@, profile_id);
}

/// Before anything is connected, no profile resolves to a pool.
pub proof fn lemma_nothing_registered_at_first(profile_id: Seq<char>)
    ensures
        registered(Map::<Seq<char>, Pool>::empty(), profile_id) is None,
{
}

/// Of two connects in a row for one profile the second wins: the profile
/// resolves to the second pool, the first pool is the one handed over for
/// release, and the registry is as if the first connect had never been.
pub proof fn lemma_second_connect_replaces_first(
    pools: Map<Seq<char>, Pool>,
    profile_id: Seq<char>,
    first: Pool,
    second: Pool,
)
    ensures
        registered(pools.insert(profile_id, first).insert(profile_id, second), profile_id) == Some(
            second,
        ),
        registered(pools.insert(profile_id, first), profile_id) == Some(first),
        pools.insert(profile_id, first).insert(profile_id, second) == pools.insert(
            profile_id,
            second,
        ),
{
    assert(pools.insert(profile_id, first).insert(profile_id, second) =~= pools.insert(
        profile_id,
        second,
    ));
}

/// After a connect with a pool that was opened for the request, the profile
/// resolves to a pool that opens its connections with the settings of that
/// request, whatever the profile had before.
pub proof fn lemma_connected_pool_has_the_settings(
    pools: Map<Seq<char>, Pool>,
    params: ConnectParams,
    pool: Pool,
)
    requires
        pool_settings(pool) == settings_of(params),
    ensures
        registered(pools.insert(params.profile_id@, pool), params.profile_id@) is Some,
        pool_settings(registered(pools.insert(params.profile_id@, pool), params.profile_id@)->0)
            == settings_of(params),
{
}

/// A connect leaves every other profile as it was.
pub proof fn lemma_connect_keeps_others(
    pools: Map<Seq<char>, Pool>,
    profile_id: Seq<char>,
    pool: Pool,
    other: Seq<char>,
)
    requires
        other != profile_id,
    ensures
        registered(pools.insert(profile_id, pool), other) == registered(pools, other),
{
}

/// A second disconnect in a row changes nothing: after the first the
/// profile has no pool, and the registry stays as the first left it.
pub proof fn lemma_disconnect_twice(pools: Map<Seq<char>, Pool>, profile_id: Seq<char>)
    ensures
        registered(pools.remove(profile_id), profile_id) is None,
        pools.remove(profile_id).remove(profile_id) == pools.remove(profile_id),
{
    assert(pools.remove(profile_id).remove(profile_id) =~= pools.remove(profile_id));
}

} // verus!
