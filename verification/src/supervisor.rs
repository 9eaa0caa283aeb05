//! The supervisor: it starts and stops the worker of an account, and keeps
//! at most one worker per account alive.

use crate::outside::command_channel;
use crate::state::{
    lemma_first_is_position, lemma_position_is_first, lemma_with_account_reads,
    lemma_with_account_same_but, lemma_with_account_wf, AccountStateView, AppState,
    AppStateView, BotCommand, BotStatus, BotStatusView,
};
use tokio::sync::mpsc::{Receiver, Sender};
use vstd::prelude::*;

verus! {

/// How many commands the channel to a worker holds before it turns further
/// ones away.
pub const COMMAND_BUFFER: usize = 32;

/// Lifecycle requests that the supervisor takes.
#[derive(Debug)]
pub enum ManagerCommand {
    /// Start a worker for the account.
    StartBot { uuid: String },
    /// Shut the account's worker down.
    StopBot { uuid: String },
}

/// Mathematical model of a [`ManagerCommand`].
pub enum ManagerCommandView {
    StartBot { uuid: Seq<char> },
    StopBot { uuid: Seq<char> },
}

impl View for ManagerCommand {
    type V = ManagerCommandView;

    open spec fn view(&self) -> ManagerCommandView {
        match *self {
            ManagerCommand::StartBot { uuid } => ManagerCommandView::StartBot { uuid: uuid@ },
            ManagerCommand::StopBot { uuid } => ManagerCommandView::StopBot { uuid: uuid@ },
        }
    }
}

impl ManagerCommandView {
    /// The account that the request is about.
    pub open spec fn target(self) -> Seq<char> {
        match self {
            ManagerCommandView::StartBot { uuid } => uuid,
            ManagerCommandView::StopBot { uuid } => uuid,
        }
    }
}

/// What a new worker is given: the credential to connect with, and the
/// receiving half of its command channel.
#[derive(Debug)]
pub struct SpawnTicket {
    pub token: String,
    pub cmd_rx: Receiver<BotCommand>,
}

/// Whether a start request for `uuid` leads to a new worker: the account
/// exists and is neither starting nor online.
pub open spec fn may_start(s: AppStateView, uuid: Seq<char>) -> bool {
    s.has_account(uuid) && !s.account(uuid).status.is_active()
}

/// The store after the first phase of a start request: the account is
/// marked as starting.
pub open spec fn claimed(s: AppStateView, uuid: Seq<char>) -> AppStateView {
    if may_start(s, uuid) {
        s.with_account(
            uuid,
            AccountStateView { status: BotStatusView::Starting, ..s.account(uuid) },
        )
    } else {
        s
    }
}

/// The store after the handle `tx` of a command channel was installed on
/// the account.
pub open spec fn installed(s: AppStateView, uuid: Seq<char>, tx: Sender<BotCommand>) -> AppStateView {
    s.with_account(uuid, AccountStateView { command_tx: Some(tx), ..s.account(uuid) })
}

/// The store after a start request, with `tx` as the handle of the channel
/// that was opened for the new worker. Where the request leads to no worker,
/// nothing changes: the account keeps the handle that it has.
pub open spec fn started(s: AppStateView, uuid: Seq<char>, tx: Sender<BotCommand>) -> AppStateView {
    if may_start(s, uuid) {
        s.with_account(
            uuid,
            AccountStateView {
                status: BotStatusView::Starting,
                command_tx: Some(tx),
                ..s.account(uuid)
            },
        )
    } else {
        s
    }
}

/// The store after a stop request.
pub open spec fn stopped(s: AppStateView, uuid: Seq<char>) -> AppStateView {
    s.with_account(
        uuid,
        AccountStateView { status: BotStatusView::Offline, command_tx: None, ..s.account(uuid) },
    )
}

/// The store after the supervisor handled `cmd`, with `tx` as the handle of
/// the channel that a start opens.
pub open spec fn supervised(
    s: AppStateView,
    cmd: ManagerCommandView,
    tx: Sender<BotCommand>,
) -> AppStateView {
    match cmd {
        ManagerCommandView::StartBot { uuid } => started(s, uuid, tx),
        ManagerCommandView::StopBot { uuid } => stopped(s, uuid),
    }
}

/// Whether the supervisor spawns a worker in answer to `cmd`.
pub open spec fn spawns(s: AppStateView, cmd: ManagerCommandView) -> bool {
    cmd is StartBot && may_start(s, cmd.target())
}

/// The supervisor's decisions. Requests are handled one at a time, each
/// under one acquisition of the store.
pub struct BotManager;

impl BotManager {
    /// First phase of a start request: checks the account's status and marks
    /// the account as starting. Returns the credential where a worker is to be
    /// spawned; where none is, the store stays as it is.
    pub fn claim(state: &mut AppState, uuid: &str) -> (token: Option<String>)
        ensures
            token is Some <==> may_start(old(state)@, uuid@),
            token matches Some(t) ==> t@ == old(state)@.account(uuid@).token,
            final(state)@ == claimed(old(state)@, uuid@),
            !may_start(old(state)@, uuid@) ==> final(state)@ == old(state)@,
            old(state)@.same_but(final(state)@, uuid@),
            old(state)@.wf() ==> final(state)@.wf(),
    {
        let ghost before = state@;
        proof {
            lemma_with_account_same_but(
                before,
                uuid@,
                AccountStateView { status: BotStatusView::Starting, ..before.account(uuid@) },
            );
        }
        match state.find(uuid) {
            Some(i) => {
                proof {
                    lemma_first_is_position(before, uuid@, i as int);
                }
                let active = match &state.accounts[i].status {
                    BotStatus::Online => true,
                    BotStatus::Starting => true,
                    _ => false,
                };
                if active {
                    return None;
                }
                state.accounts[i].status = BotStatus::Starting;
                let token = state.accounts[i].token.clone();
                proof {
                    let next = AccountStateView {
                        status: BotStatusView::Starting,
                        ..before.account(uuid@)
                    };
                    assert(state@.accounts =~= before.accounts.update(i as int, next));
                    if before.wf() {
                        lemma_with_account_wf(before, uuid@, next);
                    }
                }
                Some(token)
            },
            None => None,
        }
    }

    /// Second phase of a start request: installs `tx`, the handle of the new
    /// worker's command channel, on the account. Every other account keeps
    /// what it has.
    pub fn install(state: &mut AppState, uuid: &str, tx: Sender<BotCommand>)
        ensures
            final(state)@ == installed(old(state)@, uuid@, tx),
            old(state)@.has_account(uuid@) ==> final(state)@.account(uuid@).command_tx == Some(tx),
            old(state)@.same_but(final(state)@, uuid@),
            old(state)@.wf() ==> final(state)@.wf(),
    {
        let ghost before = state@;
        proof {
            lemma_with_account_same_but(
                before,
                uuid@,
                AccountStateView { command_tx: Some(tx), ..before.account(uuid@) },
            );
        }
        match state.find(uuid) {
            Some(i) => {
                proof {
                    lemma_first_is_position(before, uuid@, i as int);
                }
                state.accounts[i].command_tx = Some(tx);
                proof {
                    let next = AccountStateView { command_tx: Some(tx), ..before.account(uuid@) };
                    assert(state@.accounts =~= before.accounts.update(i as int, next));
                    lemma_with_account_reads(before, uuid@, next);
                    if before.wf() {
                        lemma_with_account_wf(before, uuid@, next);
                    }
                }
            },
            None => {},
        }
    }

    /// Handles a start request: where the account exists and is neither
    /// starting nor online, marks it as starting, opens one command channel,
    /// installs its sending half, and returns what the new worker needs, the
    /// receiving half among it. Otherwise changes nothing, the installed
    /// handle neither, and returns nothing.
    pub fn spawn_bot(state: &mut AppState, uuid: &str) -> (ticket: Option<SpawnTicket>)
        ensures
            ticket is Some <==> may_start(old(state)@, uuid@),
            ticket matches Some(t) ==> t.token@ == old(state)@.account(uuid@).token,
            exists|tx: Sender<BotCommand>|
                final(state)@ == #[trigger] started(old(state)@, uuid@, tx),
            !may_start(old(state)@, uuid@) ==> final(state)@ == old(state)@,
            may_start(old(state)@, uuid@) ==> final(state)@.account(uuid@).command_tx is Some
                && final(state)@.account(uuid@).status is Starting,
            old(state)@.same_but(final(state)@, uuid@),
            old(state)@.wf() ==> final(state)@.wf(),
    {
        let ghost before = state@;
        match Self::claim(state, uuid) {
            Some(token) => {
                let (tx, rx) = command_channel(COMMAND_BUFFER);
                Self::install(state, uuid, tx);
                proof {
                    lemma_claim_then_install(before, uuid@, tx);
                    assert(state@ == started(before, uuid@, tx));
                    lemma_second_start_is_noop(before, uuid@, tx, tx);
                    lemma_with_account_same_but(
                        before,
                        uuid@,
                        AccountStateView {
                            status: BotStatusView::Starting,
                            command_tx: Some(tx),
                            ..before.account(uuid@)
                        },
                    );
                }
                Some(SpawnTicket { token, cmd_rx: rx })
            },
            None => {
                proof {
                    let any = arbitrary::<Sender<BotCommand>>();
                    assert(state@ == started(before, uuid@, any));
                }
                None
            },
        }
    }

    /// Handles a stop request: removes the handle of the command channel,
    /// which the worker sees as the end of its commands, and marks the account
    /// as offline. Every other account keeps what it has.
    pub fn kill_bot(state: &mut AppState, uuid: &str)
        ensures
            final(state)@ == stopped(old(state)@, uuid@),
            !old(state)@.has_account(uuid@) ==> final(state)@ == old(state)@,
            old(state)@.same_but(final(state)@, uuid@),
            old(state)@.wf() ==> final(state)@.wf(),
    {
        let ghost before = state@;
        proof {
            lemma_with_account_same_but(
                before,
                uuid@,
                AccountStateView {
                    status: BotStatusView::Offline,
                    command_tx: None,
                    ..before.account(uuid@)
                },
            );
        }
        match state.find(uuid) {
            Some(i) => {
                proof {
                    lemma_first_is_position(before, uuid@, i as int);
                }
                state.accounts[i].command_tx = None;
                state.accounts[i].status = BotStatus::Offline;
                proof {
                    let next = AccountStateView {
                        status: BotStatusView::Offline,
                        command_tx: None,
                        ..before.account(uuid@)
                    };
                    assert(state@.accounts =~= before.accounts.update(i as int, next));
                    if before.wf() {
                        lemma_with_account_wf(before, uuid@, next);
                    }
                }
            },
            None => {},
        }
    }

    /// Handles one lifecycle request, and returns what a new worker needs
    /// where one is to be spawned. A start request that leads to no worker
    /// changes nothing.
    pub fn handle(state: &mut AppState, cmd: &ManagerCommand) -> (ticket: Option<SpawnTicket>)
        ensures
            exists|tx: Sender<BotCommand>|
                final(state)@ == #[trigger] supervised(old(state)@, cmd@, tx),
            ticket is Some <==> spawns(old(state)@, cmd@),
            ticket matches Some(t) ==> t.token@ == old(state)@.account(cmd@.target()).token,
            cmd@ is StartBot && !spawns(old(state)@, cmd@) ==> final(state)@ == old(state)@,
            old(state)@.same_but(final(state)@, cmd@.target()),
            old(state)@.wf() ==> final(state)@.wf(),
    {
        let ghost before = state@;
        match cmd {
            ManagerCommand::StartBot { uuid } => {
                let ticket = Self::spawn_bot(state, uuid.as_str());
                proof {
                    let tx = choose|tx: Sender<BotCommand>|
                        state@ == #[trigger] started(before, uuid@, tx);
                    assert(state@ == supervised(before, cmd@, tx));
                }
                ticket
            },
            ManagerCommand::StopBot { uuid } => {
                Self::kill_bot(state, uuid.as_str());
                proof {
                    let any = arbitrary::<Sender<BotCommand>>();
                    assert(state@ == supervised(before, cmd@, any));
                }
                None
            },
        }
    }
}

/// The two phases of a start request, one after the other, are the start
/// request.
pub proof fn lemma_claim_then_install(s: AppStateView, uuid: Seq<char>, tx: Sender<BotCommand>)
    requires
        may_start(s, uuid),
    ensures
        installed(claimed(s, uuid), uuid, tx) == started(s, uuid, tx),
{
    lemma_position_is_first(s, uuid);
    let p = s.position(uuid);
    let c = claimed(s, uuid);
    assert(c.is_first(uuid, p));
    lemma_first_is_position(c, uuid, p);
    assert(installed(c, uuid, tx).accounts =~= started(s, uuid, tx).accounts);
}

/// At most one worker per account: once a start request has led to a
/// worker, a further start request for the same account leads to none and
/// changes nothing. The handle that the first start installed stays the one
/// on the account, whatever channel the second could have opened, so
/// exactly one handle is installed.
pub proof fn lemma_second_start_is_noop(
    s: AppStateView,
    uuid: Seq<char>,
    first: Sender<BotCommand>,
    second: Sender<BotCommand>,
)
    requires
        may_start(s, uuid),
    ensures
        started(s, uuid, first).account(uuid).command_tx == Some(first),
        started(s, uuid, first).account(uuid).status is Starting,
        !may_start(started(s, uuid, first), uuid),
        started(started(s, uuid, first), uuid, second) == started(s, uuid, first),
{
    lemma_position_is_first(s, uuid);
    let p = s.position(uuid);
    let t = started(s, uuid, first);
    assert(t.is_first(uuid, p));
    lemma_first_is_position(t, uuid, p);
}

/// The store after a start request for each handle of `handles`, one after
/// the other: each would be the handle of the channel that its request
/// opens.
pub open spec fn started_all(
    s: AppStateView,
    uuid: Seq<char>,
    handles: Seq<Sender<BotCommand>>,
) -> AppStateView
    decreases handles.len(),
{
    if handles.len() == 0 {
        s
    } else {
        started(started_all(s, uuid, handles.drop_last()), uuid, handles.last())
    }
}

/// However many start requests follow one another, one handle is installed:
/// that of the first request, which is the only one that leads to a worker.
pub proof fn lemma_repeated_starts_install_one_handle(
    s: AppStateView,
    uuid: Seq<char>,
    handles: Seq<Sender<BotCommand>>,
)
    requires
        may_start(s, uuid),
        handles.len() > 0,
    ensures
        started_all(s, uuid, handles) == started(s, uuid, handles[0]),
        started_all(s, uuid, handles).account(uuid).command_tx == Some(handles[0]),
        !may_start(started_all(s, uuid, handles), uuid),
    decreases handles.len(),
{
    let rest = handles.drop_last();
    lemma_second_start_is_noop(s, uuid, handles[0], handles.last());
    if rest.len() == 0 {
        assert(started_all(s, uuid, rest) == s);
    } else {
        lemma_repeated_starts_install_one_handle(s, uuid, rest);
        assert(rest[0] == handles[0]);
    }
}

/// A start request is idempotent: whatever the store holds, a second
/// request for the same account right after the first changes nothing and
/// leads to no worker.
pub proof fn lemma_start_is_idempotent(
    s: AppStateView,
    uuid: Seq<char>,
    first: Sender<BotCommand>,
    second: Sender<BotCommand>,
)
    ensures
        !may_start(started(s, uuid, first), uuid),
        started(started(s, uuid, first), uuid, second) == started(s, uuid, first),
{
    if may_start(s, uuid) {
        lemma_second_start_is_noop(s, uuid, first, second);
    }
}

/// A start request for an account that is starting or online, or for an
/// identifier that names no account, changes nothing: the status stays, and
/// the installed handle stays the one that it was.
pub proof fn lemma_start_active_is_noop(s: AppStateView, uuid: Seq<char>, tx: Sender<BotCommand>)
    requires
        !s.has_account(uuid) || s.account(uuid).status.is_active(),
    ensures
        !may_start(s, uuid),
        started(s, uuid, tx) == s,
{
}

/// A stop request for an account that is offline and has no handle
/// installed, or for an identifier that names no account, changes nothing.
pub proof fn lemma_stop_idle_is_noop(s: AppStateView, uuid: Seq<char>)
    requires
        !s.has_account(uuid) || (!s.account(uuid).live() && s.account(uuid).status is Offline),
    ensures
        stopped(s, uuid) == s,
{
    if s.has_account(uuid) {
        lemma_position_is_first(s, uuid);
        assert(stopped(s, uuid).accounts =~= s.accounts);
    }
}

/// After a stop request the account has no handle and is offline, so a
/// later start request leads to a new worker.
pub proof fn lemma_stop_then_start(s: AppStateView, uuid: Seq<char>)
    requires
        s.has_account(uuid),
    ensures
        !stopped(s, uuid).account(uuid).live(),
        stopped(s, uuid).account(uuid).status is Offline,
        may_start(stopped(s, uuid), uuid),
{
    lemma_position_is_first(s, uuid);
    let p = s.position(uuid);
    let t = stopped(s, uuid);
    assert(t.is_first(uuid, p));
    lemma_first_is_position(t, uuid, p);
}

/// A request for one account leaves every other account as it was, its
/// handle too.
pub proof fn lemma_supervision_is_per_account(
    s: AppStateView,
    cmd: ManagerCommandView,
    tx: Sender<BotCommand>,
    other: Seq<char>,
)
    requires
        other != cmd.target(),
    ensures
        supervised(s, cmd, tx).has_account(other) == s.has_account(other),
        s.has_account(other) ==> supervised(s, cmd, tx).account(other) == s.account(other),
{
    let uuid = cmd.target();
    let t = supervised(s, cmd, tx);
    if s.has_account(uuid) {
        lemma_position_is_first(s, uuid);
    }
    assert(t.accounts.len() == s.accounts.len());
    assert(forall|i: int| 0 <= i < s.accounts.len() ==> (#[trigger] t.accounts[i]).uuid
        == s.accounts[i].uuid);
    if s.has_account(other) {
        lemma_position_is_first(s, other);
        let q = s.position(other);
        assert(t.is_first(other, q)) by {
            assert(t.accounts[q].uuid == s.accounts[q].uuid);
            assert forall|j: int| 0 <= j < q implies (#[trigger] t.accounts[j]).uuid != other by {
                assert(s.accounts[j].uuid != other);
            }
        }
        lemma_first_is_position(t, other, q);
    } else {
        if t.has_account(other) {
            let k = choose|k: int| 0 <= k < t.accounts.len() && (#[trigger] t.accounts[k]).uuid == other;
            assert(s.accounts[k].uuid == other);
        }
    }
}

} // verus!
