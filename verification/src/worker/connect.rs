//! The connection attempt of a new worker: from the first line in the log
//! to the online account with its guilds, or to the error status.

use crate::engine::{ConnectEvent, ConnectEventView};
use crate::liveness::{lemma_connect_keeps_handles, same_handles};
use crate::state::{
    lemma_first_is_position, lemma_position_is_first, lemma_with_account_wf, AccountStateView,
    AppState, AppStateView, BotStatus, BotStatusView, GuildState, GuildStateView, NameId,
    NameIdView,
};
use crate::text::{is_time_of_day, join_texts, time_stamp};
use crate::worker::{reported, with_status, BotInstance};
use vstd::prelude::*;

verus! {

/// The guilds of an account after the roster of a new connection was merged
/// in: a guild that the account knows keeps its record, one that it does
/// not know gets a fresh record.
pub open spec fn merged(guilds: Map<u64, GuildStateView>, roster: Seq<NameIdView>) -> Map<
    u64,
    GuildStateView,
>
    decreases roster.len(),
{
    if roster.len() == 0 {
        guilds
    } else {
        let prev = merged(guilds, roster.drop_last());
        let entry = roster.last();
        if prev.contains_key(entry.id) {
            prev
        } else {
            prev.insert(entry.id, GuildStateView::fresh(entry.id, entry.name))
        }
    }
}

/// The store with `id` as the application identifier of the account.
pub open spec fn with_application_id(s: AppStateView, uuid: Seq<char>, id: u64) -> AppStateView {
    s.with_account(uuid, AccountStateView { application_id: Some(id), ..s.account(uuid) })
}

/// The store after the account went online with the guilds of `roster`.
pub open spec fn online(s: AppStateView, uuid: Seq<char>, roster: Seq<NameIdView>) -> AppStateView {
    s.with_account(
        uuid,
        AccountStateView {
            status: BotStatusView::Online,
            guilds: merged(s.account(uuid).guilds, roster),
            ..s.account(uuid)
        },
    )
}

/// The store after a connection attempt failed for `reason`: the failure is
/// in the log and in the account's status.
pub open spec fn failed(
    s: AppStateView,
    uuid: Seq<char>,
    stamp: Seq<char>,
    reason: Seq<char>,
) -> AppStateView {
    with_status(
        reported(s, uuid, stamp, "Connection Failed: "@ + reason),
        uuid,
        BotStatusView::Error(reason),
    )
}

/// The store after a step of the worker's connection attempt, with `stamp`
/// as the time of the lines that it logs. An attempt ends in one of two
/// ways: the account is online with the roster merged into its guilds, or
/// it is in the error status with the reason.
pub open spec fn connect_stepped(
    s: AppStateView,
    uuid: Seq<char>,
    stamp: Seq<char>,
    event: ConnectEventView,
) -> AppStateView {
    match event {
        ConnectEventView::Begin => reported(s, uuid, stamp, "Initializing Discord client..."@),
        ConnectEventView::Connected { application_id, roster } => {
            let identified = match application_id {
                Some(id) => with_application_id(s, uuid, id),
                None => reported(
                    s,
                    uuid,
                    stamp,
                    "Failed to fetch Application ID. Invite functionality may be limited."@,
                ),
            };
            match roster {
                Ok(r) => reported(online(identified, uuid, r), uuid, stamp, "Connected and Ready."@),
                Err(reason) => failed(identified, uuid, stamp, reason),
            }
        },
        ConnectEventView::Failed { reason } => failed(s, uuid, stamp, reason),
    }
}

impl BotInstance {
    /// Writes the application identifier to the worker's account.
    fn set_application_id(&self, state: &mut AppState, id: u64)
        ensures
            final(state)@ == with_application_id(old(state)@, self@.uuid, id),
            old(state)@.wf() ==> final(state)@.wf(),
    {
        let ghost before = state@;
        if let Some(i) = state.find(self.uuid.as_str()) {
            proof {
                lemma_first_is_position(before, self@.uuid, i as int);
            }
            state.accounts[i].application_id = Some(id);
            proof {
                let next = AccountStateView {
                    application_id: Some(id),
                    ..before.account(self@.uuid)
                };
                assert(state@.accounts =~= before.accounts.update(i as int, next));
                if before.wf() {
                    lemma_with_account_wf(before, self@.uuid, next);
                }
            }
        }
    }

    /// Marks the worker's account as online and merges the roster into its
    /// guilds: records that exist are kept as they are.
    fn go_online(&self, state: &mut AppState, roster: &Vec<NameId>)
        ensures
            final(state)@ == online(old(state)@, self@.uuid, roster.deep_view()),
            old(state)@.wf() ==> final(state)@.wf(),
    {
        broadcast use vstd::std_specs::hash::group_hash_axioms;

        let ghost before = state@;
        let ghost entries = roster.deep_view();
        if let Some(i) = state.find(self.uuid.as_str()) {
            proof {
                lemma_first_is_position(before, self@.uuid, i as int);
            }
            let ghost account = before.accounts[i as int];
            state.accounts[i].status = BotStatus::Online;
            proof {
                assert(entries.take(0) =~= Seq::<NameIdView>::empty());
                assert(state@.accounts =~= before.accounts.update(
                    i as int,
                    AccountStateView {
                        status: BotStatusView::Online,
                        guilds: merged(account.guilds, entries.take(0)),
                        ..account
                    },
                ));
            }
            let mut k: usize = 0;
            while k < roster.len()
                invariant
                    k <= roster.len(),
                    entries == roster.deep_view(),
                    i < before.accounts.len(),
                    account == before.accounts[i as int],
                    state@ == before.with_account_at(
                        i as int,
                        AccountStateView {
                            status: BotStatusView::Online,
                            guilds: merged(account.guilds, entries.take(k as int)),
                            ..account
                        },
                    ),
                decreases roster.len() - k,
            {
                let id = roster[k].id;
                let ghost sofar = merged(account.guilds, entries.take(k as int));
                proof {
                    assert(entries.take(k as int + 1).drop_last() =~= entries.take(k as int));
                    assert(entries.take(k as int + 1).last() == roster[k as int]@);
                    assert(state@.accounts.len() == state.accounts@.len());
                    assert(state@.accounts[i as int] == state.accounts@[i as int]@);
                    assert(state@.accounts[i as int].guilds == sofar);
                    assert(state.accounts@[i as int].guilds@.contains_key(id) <==> sofar.contains_key(
                        id,
                    ));
                }
                if !state.accounts[i].guilds.contains_key(&id) {
                    let name = roster[k].name.clone();
                    state.put_guild(i, id, GuildState::new(id, name));
                    assert(state@.accounts =~= before.with_account_at(
                        i as int,
                        AccountStateView {
                            status: BotStatusView::Online,
                            guilds: merged(account.guilds, entries.take(k as int + 1)),
                            ..account
                        },
                    ).accounts);
                }
                k += 1;
            }
            proof {
                assert(entries.take(k as int) =~= entries);
                if before.wf() {
                    assert(account.wf());
                    lemma_merged_wf(account, entries);
                    lemma_with_account_wf(
                        before,
                        self@.uuid,
                        AccountStateView {
                            status: BotStatusView::Online,
                            guilds: merged(account.guilds, entries),
                            ..account
                        },
                    );
                }
            }
        }
    }

    /// Logs the failure of the connection attempt and puts the account in
    /// the error status.
    fn fail(&self, state: &mut AppState, stamp: &str, reason: String)
        ensures
            final(state)@ == failed(old(state)@, self@.uuid, stamp@, reason@),
            old(state)@.wf() ==> final(state)@.wf(),
    {
        let msg = join_texts("Connection Failed: ", reason.as_str());
        self.log_at(state, stamp, msg.as_str());
        self.set_status(state, BotStatus::Error(reason));
    }

    /// Takes a step of the connection attempt, and says whether the command
    /// loop begins after it. The loop begins only on an online account: the
    /// client is built and the service has listed the guilds, which are
    /// merged into the account's. An attempt that fails, in building the
    /// client or in listing the guilds, leaves the account in the error status
    /// with the reason, and no loop begins. The application identifier is
    /// written where the service gave one.
    pub fn run(&self, state: &mut AppState, event: ConnectEvent) -> (looping: bool)
        ensures
            looping == event@.enters_loop(),
            exists|stamp: Seq<char>|
                is_time_of_day(stamp) && final(state)@ == #[trigger] connect_stepped(
                    old(state)@,
                    self@.uuid,
                    stamp,
                    event@,
                ),
            looping && old(state)@.has_account(self@.uuid) ==> final(state)@.account(
                self@.uuid,
            ).status is Online,
            event@.has_failed() && old(state)@.has_account(self@.uuid) ==> final(state)@.account(
                self@.uuid,
            ).status is Error,
            same_handles(old(state)@, final(state)@),
            old(state)@.wf() ==> final(state)@.wf(),
    {
        let stamp = time_stamp();
        proof {
            lemma_connect_keeps_handles(state@, self@.uuid, stamp@, event@);
        }
        let looping = match event {
            ConnectEvent::Begin => {
                self.log_at(state, stamp.as_str(), "Initializing Discord client...");
                false
            },
            ConnectEvent::Connected { application_id, roster } => {
                match application_id {
                    Some(id) => self.set_application_id(state, id),
                    None => self.log_at(
                        state,
                        stamp.as_str(),
                        "Failed to fetch Application ID. Invite functionality may be limited.",
                    ),
                }
                match roster {
                    Ok(guilds) => {
                        self.go_online(state, &guilds);
                        self.log_at(state, stamp.as_str(), "Connected and Ready.");
                        true
                    },
                    Err(reason) => {
                        self.fail(state, stamp.as_str(), reason);
                        false
                    },
                }
            },
            ConnectEvent::Failed { reason } => {
                self.fail(state, stamp.as_str(), reason);
                false
            },
        };
        proof {
            assert(state@ == connect_stepped(old(state)@, self@.uuid, stamp@, event@));
            if old(state)@.has_account(self@.uuid) {
                lemma_connect_outcome(old(state)@, self@.uuid, stamp@, event@);
            }
        }
        looping
    }
}

/// The two ends of a connection attempt: where the command loop begins the
/// account is online, and where the attempt has failed the account is in
/// the error status. The loop never begins on an account that is still
/// starting.
pub proof fn lemma_connect_outcome(
    s: AppStateView,
    uuid: Seq<char>,
    stamp: Seq<char>,
    event: ConnectEventView,
)
    requires
        s.has_account(uuid),
    ensures
        connect_stepped(s, uuid, stamp, event).has_account(uuid),
        event.enters_loop() ==> connect_stepped(s, uuid, stamp, event).account(uuid).status is Online,
        event.has_failed() ==> connect_stepped(s, uuid, stamp, event).account(uuid).status
            == BotStatusView::Error(
            match event {
                ConnectEventView::Failed { reason } => reason,
                ConnectEventView::Connected { roster, .. } => roster->Err_0,
                ConnectEventView::Begin => Seq::empty(),
            },
        ),
{
    lemma_position_is_first(s, uuid);
    let p = s.position(uuid);
    match event {
        ConnectEventView::Begin => {
            let t = connect_stepped(s, uuid, stamp, event);
            assert(t.is_first(uuid, p));
        },
        ConnectEventView::Connected { application_id, roster } => {
            let identified = match application_id {
                Some(id) => with_application_id(s, uuid, id),
                None => reported(
                    s,
                    uuid,
                    stamp,
                    "Failed to fetch Application ID. Invite functionality may be limited."@,
                ),
            };
            assert(identified.is_first(uuid, p));
            lemma_first_is_position(identified, uuid, p);
            match roster {
                Ok(r) => {
                    let listed = online(identified, uuid, r);
                    assert(listed.is_first(uuid, p));
                    lemma_first_is_position(listed, uuid, p);
                    let t = reported(listed, uuid, stamp, "Connected and Ready."@);
                    assert(t.is_first(uuid, p));
                    lemma_first_is_position(t, uuid, p);
                },
                Err(reason) => {
                    lemma_failed_outcome(identified, uuid, stamp, reason);
                },
            }
        },
        ConnectEventView::Failed { reason } => {
            lemma_failed_outcome(s, uuid, stamp, reason);
        },
    }
}

/// A failed attempt leaves the account in the error status with the reason.
pub proof fn lemma_failed_outcome(
    s: AppStateView,
    uuid: Seq<char>,
    stamp: Seq<char>,
    reason: Seq<char>,
)
    requires
        s.has_account(uuid),
    ensures
        failed(s, uuid, stamp, reason).has_account(uuid),
        failed(s, uuid, stamp, reason).account(uuid).status == BotStatusView::Error(reason),
{
    lemma_position_is_first(s, uuid);
    let p = s.position(uuid);
    let logged = reported(s, uuid, stamp, "Connection Failed: "@ + reason);
    assert(logged.is_first(uuid, p));
    lemma_first_is_position(logged, uuid, p);
    let t = failed(s, uuid, stamp, reason);
    assert(t.is_first(uuid, p));
    lemma_first_is_position(t, uuid, p);
}

/// Merging a roster into well-formed guilds leaves them well formed.
pub proof fn lemma_merged_wf(account: AccountStateView, roster: Seq<NameIdView>)
    requires
        account.wf(),
    ensures
        (AccountStateView { guilds: merged(account.guilds, roster), ..account }).wf(),
        forall|id: u64| #[trigger]
            account.guilds.contains_key(id) ==> merged(account.guilds, roster).contains_key(id)
                && merged(account.guilds, roster)[id] == account.guilds[id],
    decreases roster.len(),
{
    if roster.len() > 0 {
        lemma_merged_wf(account, roster.drop_last());
    }
}

} // verus!
