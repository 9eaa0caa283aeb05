//! The session worker of one account: the part of it that decides. It says
//! what a command asks of the worker's collaborators and what it changes in
//! the store at once, and what the store holds after the connection
//! attempt, after each answer of a collaborator, after each reconciliation
//! pass, and when the command channel closes.

pub mod connect;
pub mod reconcile;
pub mod tracks;

use crate::engine::{
    EngineRequest, EngineRequestView, LoopEvent, LoopEventView, LoopStep, LoopStepView,
    QueueControl, VoiceReply, VoiceReplyView,
};
use crate::liveness::{
    lemma_command_keeps_handles, lemma_loop_keeps_handles, lemma_report_keeps_handles,
    lemma_voice_reply_keeps_handles, same_handles,
};
use crate::state::{
    lemma_first_is_position, lemma_position_is_first, lemma_take_put, lemma_with_account_wf,
    lemma_with_guild_reads, lemma_with_guild_wf, AccountStateView, AppState, AppStateView,
    BotCommand, BotCommandView, BotStatus, BotStatusView, GuildStateView, TrackMetadata,
    TrackMetadataView, Volume,
};
use crate::text::{
    bracketed, is_time_of_day, join_texts, stamped, tagged, time_of_day, time_stamp,
};
use std::collections::HashMap;
use vstd::prelude::*;

verus! {

/// The part of a running worker that decides: the account it serves, and its
/// index from the engine's track handles to the metadata of the tracks.
#[derive(Debug)]
pub struct BotInstance {
    pub uuid: String,
    pub track_lookup: HashMap<u128, TrackMetadata>,
}

/// Mathematical model of a [`BotInstance`].
#[verifier::ext_equal]
pub struct BotInstanceView {
    pub uuid: Seq<char>,
    pub tracks: Map<u128, TrackMetadataView>,
}

impl View for BotInstance {
    type V = BotInstanceView;

    open spec fn view(&self) -> BotInstanceView {
        BotInstanceView {
            uuid: self.uuid@,
            tracks: self.track_lookup@.map_values(|m: TrackMetadata| m@),
        }
    }
}

/// What a worker asks of its collaborators in answer to `cmd`.
pub open spec fn requested(cmd: BotCommandView) -> EngineRequestView {
    match cmd {
        BotCommandView::Join { guild_id, channel_id } => EngineRequestView::Join {
            guild_id,
            channel_id,
        },
        BotCommandView::Leave { guild_id } => EngineRequestView::Leave { guild_id },
        BotCommandView::Play { guild_id, url } => EngineRequestView::Play { guild_id, url },
        BotCommandView::Pause { guild_id } => EngineRequestView::Control {
            guild_id,
            control: QueueControl::Pause,
        },
        BotCommandView::Resume { guild_id } => EngineRequestView::Control {
            guild_id,
            control: QueueControl::Resume,
        },
        BotCommandView::Stop { guild_id } => EngineRequestView::Control {
            guild_id,
            control: QueueControl::Stop,
        },
        BotCommandView::Skip { guild_id } => EngineRequestView::Control {
            guild_id,
            control: QueueControl::Skip,
        },
        BotCommandView::Volume { guild_id, volume } => EngineRequestView::Control {
            guild_id,
            control: QueueControl::SetVolume(volume),
        },
        BotCommandView::RemoveTrack { guild_id, track_uuid } => EngineRequestView::RemoveTrack {
            guild_id,
            track_uuid,
        },
        BotCommandView::MoveTrack { guild_id, from_index, to_index } => EngineRequestView::Control {
            guild_id,
            control: QueueControl::Move { from: from_index, to: to_index },
        },
        BotCommandView::ClearQueue { guild_id } => EngineRequestView::Control {
            guild_id,
            control: QueueControl::Clear,
        },
        BotCommandView::FetchChannels { guild_id } => EngineRequestView::FetchChannels { guild_id },
    }
}

/// The store with the volume `volume` in the record of a guild.
pub open spec fn with_volume(
    s: AppStateView,
    uuid: Seq<char>,
    guild_id: u64,
    volume: Volume,
) -> AppStateView {
    s.with_guild(uuid, guild_id, GuildStateView { volume, ..s.guild(uuid, guild_id) })
}

/// The store with no joined channel in the record of a guild.
pub open spec fn without_channel(s: AppStateView, uuid: Seq<char>, guild_id: u64) -> AppStateView {
    s.with_guild(uuid, guild_id, GuildStateView { channel_id: None, ..s.guild(uuid, guild_id) })
}

/// The store with `status` as the status of the account.
pub open spec fn with_status(s: AppStateView, uuid: Seq<char>, status: BotStatusView) -> AppStateView {
    s.with_account(uuid, AccountStateView { status, ..s.account(uuid) })
}

/// What a command does to the store at once, before the engine has acted: a
/// volume is written to the guild's record, and nothing else changes.
pub open spec fn mirrored(s: AppStateView, uuid: Seq<char>, cmd: BotCommandView) -> AppStateView {
    match cmd {
        BotCommandView::Volume { guild_id, volume } => with_volume(s, uuid, guild_id, volume),
        _ => s,
    }
}

/// The store after the worker `uuid` logged `msg` at the time `stamp`.
pub open spec fn reported(
    s: AppStateView,
    uuid: Seq<char>,
    stamp: Seq<char>,
    msg: Seq<char>,
) -> AppStateView {
    s.logged(stamped(stamp, tagged(uuid, msg)))
}

/// The store after an attempt to join or leave a voice channel ended, with
/// `stamp` as the time of any line that it logs.
pub open spec fn voice_replied(
    s: AppStateView,
    uuid: Seq<char>,
    stamp: Seq<char>,
    reply: VoiceReplyView,
) -> AppStateView {
    match reply {
        VoiceReplyView::JoinFailed { reason } => reported(
            s,
            uuid,
            stamp,
            "Failed to join channel: "@ + reason,
        ),
        VoiceReplyView::Left { guild_id, failure } => {
            let logged = match failure {
                Some(reason) => reported(s, uuid, stamp, "Failed to leave channel: "@ + reason),
                None => s,
            };
            without_channel(logged, uuid, guild_id)
        },
    }
}

/// The store after the command loop took `event`, with `stamp` as the time
/// of the line that it logs when the channel is closed.
pub open spec fn loop_stepped(
    s: AppStateView,
    uuid: Seq<char>,
    stamp: Seq<char>,
    event: LoopEventView,
) -> AppStateView {
    match event {
        LoopEventView::Command(cmd) => mirrored(s, uuid, cmd),
        LoopEventView::Closed => with_status(
            reported(s, uuid, stamp, "Command channel closed. Shutting down."@),
            uuid,
            BotStatusView::Offline,
        ),
        LoopEventView::Tick => s,
    }
}

/// What the command loop does after `event`.
pub open spec fn loop_action(event: LoopEventView) -> LoopStepView {
    match event {
        LoopEventView::Command(cmd) => LoopStepView::Request(requested(cmd)),
        LoopEventView::Closed => LoopStepView::Exit,
        LoopEventView::Tick => LoopStepView::Sync,
    }
}

impl BotInstance {
    /// The worker of the account `uuid`, with an empty index.
    pub fn new(uuid: String) -> (worker: Self)
        ensures
            worker@ == (BotInstanceView { uuid: uuid@, tracks: Map::empty() }),
    {
        let worker = BotInstance { uuid, track_lookup: HashMap::new() };
        assert(worker@.tracks =~= Map::empty());
        worker
    }

    /// Logs `msg` under the worker's account, at the time `stamp`.
    pub fn log_at(&self, state: &mut AppState, stamp: &str, msg: &str)
        ensures
            final(state)@ == reported(old(state)@, self@.uuid, stamp@, msg@),
            same_handles(old(state)@, final(state)@),
            old(state)@.wf() ==> final(state)@.wf(),
    {
        proof {
            lemma_report_keeps_handles(state@, self@.uuid, stamp@, msg@);
        }
        let line = bracketed(self.uuid.as_str(), msg);
        state.log_at(stamp, line.as_str());
    }

    /// Logs `msg` under the worker's account, at the current time of day.
    pub fn log(&self, state: &mut AppState, msg: &str)
        ensures
            exists|stamp: Seq<char>|
                is_time_of_day(stamp) && final(state)@ == #[trigger] reported(
                    old(state)@,
                    self@.uuid,
                    stamp,
                    msg@,
                ),
            same_handles(old(state)@, final(state)@),
            old(state)@.wf() ==> final(state)@.wf(),
    {
        let stamp = time_stamp();
        self.log_at(state, stamp.as_str(), msg);
        assert(state@ == reported(old(state)@, self@.uuid, stamp@, msg@));
    }

    /// Writes `volume` to the record of the guild, if the account knows it.
    fn set_volume(&self, state: &mut AppState, guild_id: u64, volume: Volume)
        ensures
            final(state)@ == with_volume(old(state)@, self@.uuid, guild_id, volume),
            old(state)@.wf() ==> final(state)@.wf(),
    {
        let ghost before = state@;
        if let Some(i) = state.find(self.uuid.as_str()) {
            proof {
                lemma_first_is_position(before, self@.uuid, i as int);
            }
            if let Some(mut guild) = state.take_guild(i, guild_id) {
                guild.volume = volume;
                proof {
                    lemma_take_put(before, self@.uuid, i as int, guild_id, guild@);
                    if before.wf() {
                        assert(before.accounts[i as int].wf());
                        lemma_with_guild_wf(before, self@.uuid, guild_id, guild@);
                    }
                }
                state.put_guild(i, guild_id, guild);
            }
        }
    }

    /// Clears the joined channel in the record of the guild, if the account
    /// knows it.
    fn clear_channel(&self, state: &mut AppState, guild_id: u64)
        ensures
            final(state)@ == without_channel(old(state)@, self@.uuid, guild_id),
            old(state)@.wf() ==> final(state)@.wf(),
    {
        let ghost before = state@;
        if let Some(i) = state.find(self.uuid.as_str()) {
            proof {
                lemma_first_is_position(before, self@.uuid, i as int);
            }
            if let Some(mut guild) = state.take_guild(i, guild_id) {
                guild.channel_id = None;
                proof {
                    lemma_take_put(before, self@.uuid, i as int, guild_id, guild@);
                    if before.wf() {
                        assert(before.accounts[i as int].wf());
                        lemma_with_guild_wf(before, self@.uuid, guild_id, guild@);
                    }
                }
                state.put_guild(i, guild_id, guild);
            }
        }
    }

    /// Writes `status` to the worker's account.
    fn set_status(&self, state: &mut AppState, status: BotStatus)
        ensures
            final(state)@ == with_status(old(state)@, self@.uuid, status@),
            old(state)@.wf() ==> final(state)@.wf(),
    {
        let ghost before = state@;
        if let Some(i) = state.find(self.uuid.as_str()) {
            proof {
                lemma_first_is_position(before, self@.uuid, i as int);
            }
            state.accounts[i].status = status;
            proof {
                let next = AccountStateView { status: status@, ..before.account(self@.uuid) };
                assert(state@.accounts =~= before.accounts.update(i as int, next));
                if before.wf() {
                    lemma_with_account_wf(before, self@.uuid, next);
                }
            }
        }
    }

    /// Takes one command: writes to the store what the command changes at
    /// once, and returns what is to be asked of the worker's collaborators.
    /// A volume is in the guild's record when this returns.
    pub fn handle_command(&self, state: &mut AppState, cmd: BotCommand) -> (request: EngineRequest)
        ensures
            request@ == requested(cmd@),
            final(state)@ == mirrored(old(state)@, self@.uuid, cmd@),
            same_handles(old(state)@, final(state)@),
            old(state)@.wf() ==> final(state)@.wf(),
    {
        proof {
            lemma_command_keeps_handles(state@, self@.uuid, cmd@);
        }
        match cmd {
            BotCommand::Join { guild_id, channel_id } => EngineRequest::Join {
                guild_id,
                channel_id,
            },
            BotCommand::Leave { guild_id } => EngineRequest::Leave { guild_id },
            BotCommand::Play { guild_id, url } => EngineRequest::Play { guild_id, url },
            BotCommand::Stop { guild_id } => EngineRequest::Control {
                guild_id,
                control: QueueControl::Stop,
            },
            BotCommand::Skip { guild_id } => EngineRequest::Control {
                guild_id,
                control: QueueControl::Skip,
            },
            BotCommand::Pause { guild_id } => EngineRequest::Control {
                guild_id,
                control: QueueControl::Pause,
            },
            BotCommand::Resume { guild_id } => EngineRequest::Control {
                guild_id,
                control: QueueControl::Resume,
            },
            BotCommand::Volume { guild_id, volume } => {
                self.set_volume(state, guild_id, volume);
                EngineRequest::Control { guild_id, control: QueueControl::SetVolume(volume) }
            },
            BotCommand::FetchChannels { guild_id } => EngineRequest::FetchChannels { guild_id },
            BotCommand::RemoveTrack { guild_id, track_uuid } => EngineRequest::RemoveTrack {
                guild_id,
                track_uuid,
            },
            BotCommand::MoveTrack { guild_id, from_index, to_index } => EngineRequest::Control {
                guild_id,
                control: QueueControl::Move { from: from_index, to: to_index },
            },
            BotCommand::ClearQueue { guild_id } => EngineRequest::Control {
                guild_id,
                control: QueueControl::Clear,
            },
        }
    }

    /// Takes the outcome of a join or leave request. A failure is logged and
    /// changes no status; after a leave request the guild's record holds no
    /// joined channel, whether the engine failed or not.
    pub fn voice_reply(&self, state: &mut AppState, reply: VoiceReply)
        ensures
            exists|stamp: Seq<char>|
                is_time_of_day(stamp) && final(state)@ == #[trigger] voice_replied(
                    old(state)@,
                    self@.uuid,
                    stamp,
                    reply@,
                ),
            same_handles(old(state)@, final(state)@),
            old(state)@.wf() ==> final(state)@.wf(),
    {
        let stamp = time_stamp();
        proof {
            lemma_voice_reply_keeps_handles(state@, self@.uuid, stamp@, reply@);
        }
        match reply {
            VoiceReply::JoinFailed { reason } => {
                let msg = join_texts("Failed to join channel: ", reason.as_str());
                self.log_at(state, stamp.as_str(), msg.as_str());
            },
            VoiceReply::Left { guild_id, failure } => {
                if let Some(reason) = failure {
                    let msg = join_texts("Failed to leave channel: ", reason.as_str());
                    self.log_at(state, stamp.as_str(), msg.as_str());
                }
                self.clear_channel(state, guild_id);
            },
        }
        assert(state@ == voice_replied(old(state)@, self@.uuid, stamp@, reply@));
    }

    /// Takes what woke the command loop and says what the loop does next. A
    /// command is handled as [`Self::handle_command`] does. When the channel
    /// is closed the worker logs that, the loop ends, and the account is
    /// offline.
    pub fn command_loop(&self, state: &mut AppState, event: LoopEvent) -> (step: LoopStep)
        ensures
            step@ == loop_action(event@),
            exists|stamp: Seq<char>|
                is_time_of_day(stamp) && final(state)@ == #[trigger] loop_stepped(
                    old(state)@,
                    self@.uuid,
                    stamp,
                    event@,
                ),
            same_handles(old(state)@, final(state)@),
            old(state)@.wf() ==> final(state)@.wf(),
    {
        match event {
            LoopEvent::Command(cmd) => {
                let request = self.handle_command(state, cmd);
                proof {
                    // no line is logged: any time of day serves
                    let midnight = time_of_day(0, 0, 0);
                    assert(is_time_of_day(midnight));
                    assert(state@ == loop_stepped(old(state)@, self@.uuid, midnight, event@));
                    lemma_loop_keeps_handles(old(state)@, self@.uuid, midnight, event@);
                }
                LoopStep::Request(request)
            },
            LoopEvent::Closed => {
                let stamp = time_stamp();
                self.log_at(state, stamp.as_str(), "Command channel closed. Shutting down.");
                self.set_status(state, BotStatus::Offline);
                proof {
                    assert(state@ == loop_stepped(old(state)@, self@.uuid, stamp@, event@));
                    lemma_loop_keeps_handles(old(state)@, self@.uuid, stamp@, event@);
                }
                LoopStep::Exit
            },
            LoopEvent::Tick => {
                proof {
                    // no line is logged: any time of day serves
                    let midnight = time_of_day(0, 0, 0);
                    assert(is_time_of_day(midnight));
                    assert(state@ == loop_stepped(old(state)@, self@.uuid, midnight, event@));
                    lemma_loop_keeps_handles(old(state)@, self@.uuid, midnight, event@);
                }
                LoopStep::Sync
            },
        }
    }
}

/// A volume command is in the guild's record as soon as the command has
/// been handled, before any reconciliation pass.
pub proof fn lemma_volume_is_visible(s: AppStateView, uuid: Seq<char>, guild_id: u64, volume: Volume)
    requires
        s.has_guild(uuid, guild_id),
    ensures
        mirrored(s, uuid, BotCommandView::Volume { guild_id, volume }).has_guild(uuid, guild_id),
        mirrored(s, uuid, BotCommandView::Volume { guild_id, volume }).guild(uuid, guild_id).volume
            == volume,
        requested(BotCommandView::Volume { guild_id, volume }) == (EngineRequestView::Control {
            guild_id,
            control: QueueControl::SetVolume(volume),
        }),
{
    lemma_position_is_first(s, uuid);
    lemma_with_guild_reads(
        s,
        uuid,
        guild_id,
        GuildStateView { volume, ..s.guild(uuid, guild_id) },
    );
}

} // verus!
