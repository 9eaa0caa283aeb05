//! Who decides whether an account has a worker: the supervisor, and nobody
//! else. Whatever a worker or an observer does to the store, the accounts
//! stay the same accounts, and each keeps the very handle that it had, or
//! lacks one as before.

use crate::engine::{
    ConnectEventView, GuildSyncView, LoopEventView, PlayModeView, PlayOutcomeView, VoiceReplyView,
};
use crate::observer::{error_lines, lemma_logging_keeps_accounts, observed};
use crate::state::{
    lemma_position_is_first, AccountStateView, AppStateView, BotCommandView, BotStatusView,
    GuildStateView, NameIdView, TrackMetadataView,
};
use crate::worker::connect::{connect_stepped, merged, online, with_application_id};
use crate::worker::reconcile::{idled, passed, settled, synced, synced_one};
use crate::worker::tracks::{play_logged, with_channels};
use crate::worker::{loop_stepped, mirrored, reported, voice_replied, with_status};
use vstd::prelude::*;

verus! {

/// Whether `t` holds the same accounts as `s`, place by place, each with the
/// handle that it has in `s`, or with none if it has none there.
pub open spec fn same_handles(s: AppStateView, t: AppStateView) -> bool {
    &&& t.accounts.len() == s.accounts.len()
    &&& forall|i: int|
        0 <= i < s.accounts.len() ==> (#[trigger] t.accounts[i]).uuid == s.accounts[i].uuid
            && t.accounts[i].command_tx == s.accounts[i].command_tx
}

/// Keeping the handles is transitive.
pub proof fn lemma_same_handles_chain(s: AppStateView, t: AppStateView, u: AppStateView)
    requires
        same_handles(s, t),
        same_handles(t, u),
    ensures
        same_handles(s, u),
{
    assert forall|i: int| 0 <= i < s.accounts.len() implies (#[trigger] u.accounts[i]).uuid
        == s.accounts[i].uuid && u.accounts[i].command_tx == s.accounts[i].command_tx by {
        assert(t.accounts[i].uuid == s.accounts[i].uuid);
    }
}

/// An account that differs from the one that it takes the place of in
/// neither identifier nor handle keeps the handles.
pub proof fn lemma_with_account_keeps_handles(
    s: AppStateView,
    uuid: Seq<char>,
    account: AccountStateView,
)
    requires
        account.uuid == s.account(uuid).uuid,
        account.command_tx == s.account(uuid).command_tx,
    ensures
        same_handles(s, s.with_account(uuid, account)),
{
    if s.has_account(uuid) {
        lemma_position_is_first(s, uuid);
    }
}

/// A change of a guild's record keeps the handles.
pub proof fn lemma_with_guild_keeps_handles(
    s: AppStateView,
    uuid: Seq<char>,
    guild_id: u64,
    guild: GuildStateView,
)
    ensures
        same_handles(s, s.with_guild(uuid, guild_id, guild)),
{
    if s.has_guild(uuid, guild_id) {
        lemma_position_is_first(s, uuid);
        let account = s.account(uuid);
        lemma_with_account_keeps_handles(s, uuid, account.with_guild(guild_id, guild));
    }
}

/// A change of an account's status keeps the handles.
pub proof fn lemma_with_status_keeps_handles(s: AppStateView, uuid: Seq<char>, status: BotStatusView)
    ensures
        same_handles(s, with_status(s, uuid, status)),
{
    if s.has_account(uuid) {
        lemma_position_is_first(s, uuid);
        lemma_with_account_keeps_handles(
            s,
            uuid,
            AccountStateView { status, ..s.account(uuid) },
        );
    }
}

/// A line in the log keeps the handles.
pub proof fn lemma_report_keeps_handles(
    s: AppStateView,
    uuid: Seq<char>,
    stamp: Seq<char>,
    msg: Seq<char>,
)
    ensures
        same_handles(s, reported(s, uuid, stamp, msg)),
{
}

/// What a command changes at once keeps the handles.
pub proof fn lemma_command_keeps_handles(s: AppStateView, uuid: Seq<char>, cmd: BotCommandView)
    ensures
        same_handles(s, mirrored(s, uuid, cmd)),
{
    match cmd {
        BotCommandView::Volume { guild_id, volume } => {
            lemma_with_guild_keeps_handles(
                s,
                uuid,
                guild_id,
                GuildStateView { volume, ..s.guild(uuid, guild_id) },
            );
        },
        _ => {},
    }
}

/// A connection attempt keeps the handles, however it ends.
pub proof fn lemma_connect_keeps_handles(
    s: AppStateView,
    uuid: Seq<char>,
    stamp: Seq<char>,
    event: ConnectEventView,
)
    ensures
        same_handles(s, connect_stepped(s, uuid, stamp, event)),
{
    match event {
        ConnectEventView::Begin => {},
        ConnectEventView::Connected { application_id, roster } => {
            let identified = match application_id {
                Some(id) => with_application_id(s, uuid, id),
                None => reported(
                    s,
                    uuid,
                    stamp,
                    "Failed to fetch Application ID. Invite functionality may be limited."@,
                ),
            };
            if application_id is Some {
                lemma_with_account_keeps_handles(
                    s,
                    uuid,
                    AccountStateView { application_id, ..s.account(uuid) },
                );
            }
            match roster {
                Ok(r) => {
                    let listed = online(identified, uuid, r);
                    lemma_with_account_keeps_handles(
                        identified,
                        uuid,
                        AccountStateView {
                            status: BotStatusView::Online,
                            guilds: merged(identified.account(uuid).guilds, r),
                            ..identified.account(uuid)
                        },
                    );
                    lemma_same_handles_chain(s, identified, listed);
                },
                Err(reason) => {
                    let logged = reported(identified, uuid, stamp, "Connection Failed: "@ + reason);
                    lemma_with_status_keeps_handles(logged, uuid, BotStatusView::Error(reason));
                    lemma_same_handles_chain(
                        s,
                        logged,
                        with_status(logged, uuid, BotStatusView::Error(reason)),
                    );
                },
            }
        },
        ConnectEventView::Failed { reason } => {
            lemma_with_status_keeps_handles(
                reported(s, uuid, stamp, "Connection Failed: "@ + reason),
                uuid,
                BotStatusView::Error(reason),
            );
        },
    }
}

/// A step of the command loop keeps the handles: a worker that ends does
/// not remove its own handle.
pub proof fn lemma_loop_keeps_handles(
    s: AppStateView,
    uuid: Seq<char>,
    stamp: Seq<char>,
    event: LoopEventView,
)
    ensures
        same_handles(s, loop_stepped(s, uuid, stamp, event)),
{
    match event {
        LoopEventView::Command(cmd) => {
            lemma_command_keeps_handles(s, uuid, cmd);
        },
        LoopEventView::Closed => {
            lemma_with_status_keeps_handles(
                reported(s, uuid, stamp, "Command channel closed. Shutting down."@),
                uuid,
                BotStatusView::Offline,
            );
        },
        LoopEventView::Tick => {},
    }
}

/// The outcome of a join or leave request keeps the handles.
pub proof fn lemma_voice_reply_keeps_handles(
    s: AppStateView,
    uuid: Seq<char>,
    stamp: Seq<char>,
    reply: VoiceReplyView,
)
    ensures
        same_handles(s, voice_replied(s, uuid, stamp, reply)),
{
    match reply {
        VoiceReplyView::JoinFailed { reason } => {},
        VoiceReplyView::Left { guild_id, failure } => {
            let logged = match failure {
                Some(reason) => reported(s, uuid, stamp, "Failed to leave channel: "@ + reason),
                None => s,
            };
            lemma_with_guild_keeps_handles(
                logged,
                uuid,
                guild_id,
                GuildStateView { channel_id: None, ..logged.guild(uuid, guild_id) },
            );
        },
    }
}

/// The outcome of an attempt to enqueue a track keeps the handles.
pub proof fn lemma_play_keeps_handles(
    s: AppStateView,
    uuid: Seq<char>,
    stamp: Seq<char>,
    outcome: PlayOutcomeView,
)
    ensures
        same_handles(s, play_logged(s, uuid, stamp, outcome)),
{
}

/// A list of channels keeps the handles.
pub proof fn lemma_channels_keep_handles(
    s: AppStateView,
    uuid: Seq<char>,
    guild_id: u64,
    list: Seq<NameIdView>,
)
    ensures
        same_handles(s, with_channels(s, uuid, guild_id, list)),
{
    lemma_with_guild_keeps_handles(
        s,
        uuid,
        guild_id,
        GuildStateView { voice_channels: list, ..s.guild(uuid, guild_id) },
    );
}

/// A reconciliation pass keeps the handles.
pub proof fn lemma_sync_keeps_handles(
    s: AppStateView,
    uuid: Seq<char>,
    syncs: Seq<GuildSyncView>,
    tracks: Map<u128, TrackMetadataView>,
)
    ensures
        same_handles(s, synced(s, uuid, syncs, tracks)),
    decreases syncs.len(),
{
    if syncs.len() > 0 {
        let prev = synced(s, uuid, syncs.drop_last(), tracks);
        lemma_sync_keeps_handles(s, uuid, syncs.drop_last(), tracks);
        let last = syncs.last();
        lemma_with_guild_keeps_handles(
            prev,
            uuid,
            last.guild_id,
            crate::worker::reconcile::reconciled(
                prev.guild(uuid, last.guild_id),
                last.snapshot,
                tracks,
            ),
        );
        lemma_same_handles_chain(s, prev, synced_one(prev, uuid, last, tracks));
    }
}

/// A whole pass keeps the handles, the rebuilding of the guilds without a
/// snapshot included.
pub proof fn lemma_pass_keeps_handles(
    s: AppStateView,
    uuid: Seq<char>,
    syncs: Seq<GuildSyncView>,
    tracks: Map<u128, TrackMetadataView>,
)
    ensures
        same_handles(s, passed(s, uuid, syncs, tracks)),
{
    let t = synced(s, uuid, syncs, tracks);
    lemma_sync_keeps_handles(s, uuid, syncs, tracks);
    let account = t.account(uuid);
    lemma_with_account_keeps_handles(
        t,
        uuid,
        AccountStateView {
            guilds: idled(account.guilds, account.guilds.dom(), syncs, tracks),
            ..account
        },
    );
    lemma_same_handles_chain(
        s,
        t,
        settled(t, uuid, account.guilds.dom(), syncs, tracks),
    );
}

/// The observer of a track keeps the handles.
pub proof fn lemma_observer_keeps_handles(
    s: AppStateView,
    uuid: Seq<char>,
    guild_id: u64,
    events: Seq<PlayModeView>,
)
    ensures
        same_handles(s, observed(s, uuid, guild_id, events)),
{
    if s.has_guild(uuid, guild_id) {
        let patched = s.with_guild(
            uuid,
            guild_id,
            crate::observer::after_events(s.guild(uuid, guild_id), events),
        );
        lemma_with_guild_keeps_handles(
            s,
            uuid,
            guild_id,
            crate::observer::after_events(s.guild(uuid, guild_id), events),
        );
        lemma_logging_keeps_accounts(patched, error_lines(uuid, guild_id, events));
    }
}

/// A new connection keeps every guild record that the account had: the
/// roster only adds the guilds that were missing.
pub proof fn lemma_reconnect_keeps_guilds(
    account: AccountStateView,
    roster: Seq<NameIdView>,
    guild_id: u64,
)
    requires
        account.guilds.contains_key(guild_id),
    ensures
        merged(account.guilds, roster).contains_key(guild_id),
        merged(account.guilds, roster)[guild_id] == account.guilds[guild_id],
    decreases roster.len(),
{
    if roster.len() > 0 {
        lemma_reconnect_keeps_guilds(account, roster.drop_last(), guild_id);
    }
}

/// Every guild of the roster is known after the merge.
pub proof fn lemma_roster_is_known(
    guilds: Map<u64, GuildStateView>,
    roster: Seq<NameIdView>,
    k: int,
)
    requires
        0 <= k < roster.len(),
    ensures
        merged(guilds, roster).contains_key(roster[k].id),
    decreases roster.len(),
{
    if k < roster.len() - 1 {
        lemma_roster_is_known(guilds, roster.drop_last(), k);
    }
}

} // verus!
