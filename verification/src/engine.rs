//! What crosses the boundary to the playback engine and the remote service:
//! the requests that a worker makes of them, and what they report back, as
//! plain values.

use crate::state::{BotCommand, BotCommandView, NameId, NameIdView, Volume};
use vstd::prelude::*;

verus! {

/// The play state that the engine reports of a track.
#[derive(Debug, PartialEq, Eq)]
pub enum PlayMode {
    Play,
    Pause,
    Stop,
    End,
    /// The track failed; the text describes the failure.
    Errored(String),
}

/// Mathematical model of a [`PlayMode`].
pub enum PlayModeView {
    Play,
    Pause,
    Stop,
    End,
    Errored(Seq<char>),
}

impl View for PlayMode {
    type V = PlayModeView;

    open spec fn view(&self) -> PlayModeView {
        match *self {
            PlayMode::Play => PlayModeView::Play,
            PlayMode::Pause => PlayModeView::Pause,
            PlayMode::Stop => PlayModeView::Stop,
            PlayMode::End => PlayModeView::End,
            PlayMode::Errored(e) => PlayModeView::Errored(e@),
        }
    }
}

impl DeepView for PlayMode {
    type V = PlayModeView;

    open spec fn deep_view(&self) -> PlayModeView {
        self@
    }
}

/// What the engine answers when asked about one track.
#[derive(Debug)]
pub struct TrackInfo {
    pub mode: PlayMode,
    pub position_secs: u64,
    pub volume: Volume,
}

/// Mathematical model of a [`TrackInfo`].
pub struct TrackInfoView {
    pub mode: PlayModeView,
    pub position_secs: u64,
    pub volume: Volume,
}

impl View for TrackInfo {
    type V = TrackInfoView;

    open spec fn view(&self) -> TrackInfoView {
        TrackInfoView { mode: self.mode@, position_secs: self.position_secs, volume: self.volume }
    }
}

impl DeepView for TrackInfo {
    type V = TrackInfoView;

    open spec fn deep_view(&self) -> TrackInfoView {
        self@
    }
}

/// The track at the front of the engine's queue: its handle, and what the
/// engine said of it, if it answered.
#[derive(Debug)]
pub struct CurrentTrack {
    pub handle: u128,
    pub info: Option<TrackInfo>,
}

/// Mathematical model of a [`CurrentTrack`].
pub struct CurrentTrackView {
    pub handle: u128,
    pub info: Option<TrackInfoView>,
}

impl View for CurrentTrack {
    type V = CurrentTrackView;

    open spec fn view(&self) -> CurrentTrackView {
        CurrentTrackView { handle: self.handle, info: self.info.deep_view() }
    }
}

impl DeepView for CurrentTrack {
    type V = CurrentTrackView;

    open spec fn deep_view(&self) -> CurrentTrackView {
        self@
    }
}

/// What the engine holds for one guild at one moment: the current track,
/// the handles of its whole queue from the front, and the joined channel.
#[derive(Debug)]
pub struct EngineSnapshot {
    pub current: Option<CurrentTrack>,
    pub queue: Vec<u128>,
    pub channel_id: Option<u64>,
}

/// Mathematical model of an [`EngineSnapshot`].
#[verifier::ext_equal]
pub struct EngineSnapshotView {
    pub current: Option<CurrentTrackView>,
    pub queue: Seq<u128>,
    pub channel_id: Option<u64>,
}

impl View for EngineSnapshot {
    type V = EngineSnapshotView;

    open spec fn view(&self) -> EngineSnapshotView {
        EngineSnapshotView {
            current: self.current.deep_view(),
            queue: self.queue@,
            channel_id: self.channel_id,
        }
    }
}

impl EngineSnapshotView {
    /// Whether the engine still holds the track `handle`, as current or in
    /// its queue.
    pub open spec fn holds(self, handle: u128) -> bool {
        (self.current matches Some(c) && c.handle == handle) || self.queue.contains(handle)
    }
}

/// The snapshot of one guild, taken for a reconciliation pass.
#[derive(Debug)]
pub struct GuildSync {
    pub guild_id: u64,
    pub snapshot: EngineSnapshot,
}

/// Mathematical model of a [`GuildSync`].
#[verifier::ext_equal]
pub struct GuildSyncView {
    pub guild_id: u64,
    pub snapshot: EngineSnapshotView,
}

impl View for GuildSync {
    type V = GuildSyncView;

    open spec fn view(&self) -> GuildSyncView {
        GuildSyncView { guild_id: self.guild_id, snapshot: self.snapshot@ }
    }
}

impl DeepView for GuildSync {
    type V = GuildSyncView;

    open spec fn deep_view(&self) -> GuildSyncView {
        self@
    }
}

/// The kinds of channel that the worker tells apart.
#[derive(Clone, Copy, Debug, PartialEq, Eq, Structural)]
pub enum ChannelKind {
    Text,
    Voice,
    Category,
    Stage,
    Other,
}

/// One channel of a guild, as the remote service lists it.
#[derive(Debug)]
pub struct ChannelInfo {
    pub id: u64,
    pub name: String,
    pub kind: ChannelKind,
}

/// Mathematical model of a [`ChannelInfo`].
pub struct ChannelInfoView {
    pub id: u64,
    pub name: Seq<char>,
    pub kind: ChannelKind,
}

impl View for ChannelInfo {
    type V = ChannelInfoView;

    open spec fn view(&self) -> ChannelInfoView {
        ChannelInfoView { id: self.id, name: self.name@, kind: self.kind }
    }
}

impl DeepView for ChannelInfo {
    type V = ChannelInfoView;

    open spec fn deep_view(&self) -> ChannelInfoView {
        self@
    }
}

/// An operation on the engine's queue of one guild. The worker sends it off
/// and does not wait for its outcome.
#[derive(Clone, Copy, Debug, PartialEq, Eq, Structural)]
pub enum QueueControl {
    Stop,
    Skip,
    Pause,
    Resume,
    /// Set the volume of every track that the queue holds.
    SetVolume(Volume),
    /// Move an entry between two places of the visible queue.
    Move { from: usize, to: usize },
    /// Drop every entry but the one that plays now.
    Clear,
}

/// What a worker asks of its collaborators in answer to a command.
#[derive(Debug)]
pub enum EngineRequest {
    /// Join a voice channel; a failure is reported back.
    Join { guild_id: u64, channel_id: u64 },
    /// Leave the voice channel; the outcome is reported back.
    Leave { guild_id: u64 },
    /// Resolve the reference and enqueue the stream; the outcome is reported
    /// back.
    Play { guild_id: u64, url: String },
    /// Apply a queue operation, without waiting.
    Control { guild_id: u64, control: QueueControl },
    /// List the engine's queue, so that the worker can pick the entry to
    /// stop.
    RemoveTrack { guild_id: u64, track_uuid: String },
    /// List the guild's channels; the list is reported back.
    FetchChannels { guild_id: u64 },
}

/// Mathematical model of an [`EngineRequest`].
pub enum EngineRequestView {
    Join { guild_id: u64, channel_id: u64 },
    Leave { guild_id: u64 },
    Play { guild_id: u64, url: Seq<char> },
    Control { guild_id: u64, control: QueueControl },
    RemoveTrack { guild_id: u64, track_uuid: Seq<char> },
    FetchChannels { guild_id: u64 },
}

impl View for EngineRequest {
    type V = EngineRequestView;

    open spec fn view(&self) -> EngineRequestView {
        match *self {
            EngineRequest::Join { guild_id, channel_id } => EngineRequestView::Join {
                guild_id,
                channel_id,
            },
            EngineRequest::Leave { guild_id } => EngineRequestView::Leave { guild_id },
            EngineRequest::Play { guild_id, url } => EngineRequestView::Play { guild_id, url: url@ },
            EngineRequest::Control { guild_id, control } => EngineRequestView::Control {
                guild_id,
                control,
            },
            EngineRequest::RemoveTrack { guild_id, track_uuid } => EngineRequestView::RemoveTrack {
                guild_id,
                track_uuid: track_uuid@,
            },
            EngineRequest::FetchChannels { guild_id } => EngineRequestView::FetchChannels {
                guild_id,
            },
        }
    }
}

/// How an attempt to enqueue a track ended.
#[derive(Debug)]
pub enum PlayOutcome {
    /// The guild has no voice connection.
    NotConnected,
    /// The reference could not be resolved; the text says why.
    SourceError(String),
    /// The engine took the stream and assigned it `handle`.
    Queued { handle: u128, title: String, duration_secs: Option<u64> },
}

/// Mathematical model of a [`PlayOutcome`].
pub enum PlayOutcomeView {
    NotConnected,
    SourceError(Seq<char>),
    Queued { handle: u128, title: Seq<char>, duration_secs: Option<u64> },
}

impl View for PlayOutcome {
    type V = PlayOutcomeView;

    open spec fn view(&self) -> PlayOutcomeView {
        match *self {
            PlayOutcome::NotConnected => PlayOutcomeView::NotConnected,
            PlayOutcome::SourceError(e) => PlayOutcomeView::SourceError(e@),
            PlayOutcome::Queued { handle, title, duration_secs } => PlayOutcomeView::Queued {
                handle,
                title: title@,
                duration_secs,
            },
        }
    }
}

/// How the connection attempt of a new worker went on.
#[derive(Debug)]
pub enum ConnectEvent {
    /// The worker starts to connect.
    Begin,
    /// The client is built. The application identifier is present if the
    /// remote service gave it. The roster of guilds is what the connection
    /// stands on: without it the attempt has failed, and the text says why.
    Connected { application_id: Option<u64>, roster: Result<Vec<NameId>, String> },
    /// The client could not be built; the text says why.
    Failed { reason: String },
}

/// Mathematical model of a [`ConnectEvent`].
pub enum ConnectEventView {
    Begin,
    Connected { application_id: Option<u64>, roster: Result<Seq<NameIdView>, Seq<char>> },
    Failed { reason: Seq<char> },
}

impl ConnectEventView {
    /// Whether the command loop begins after the event: the client is built
    /// and the roster is there.
    pub open spec fn enters_loop(self) -> bool {
        self matches ConnectEventView::Connected { roster: Ok(_), .. }
    }

    /// Whether the connection attempt has failed with the event.
    pub open spec fn has_failed(self) -> bool {
        self is Failed || self matches ConnectEventView::Connected { roster: Err(_), .. }
    }
}

impl View for ConnectEvent {
    type V = ConnectEventView;

    open spec fn view(&self) -> ConnectEventView {
        match *self {
            ConnectEvent::Begin => ConnectEventView::Begin,
            ConnectEvent::Connected { application_id, roster } => ConnectEventView::Connected {
                application_id,
                roster: match roster {
                    Ok(guilds) => Ok(guilds.deep_view()),
                    Err(reason) => Err(reason@),
                },
            },
            ConnectEvent::Failed { reason } => ConnectEventView::Failed { reason: reason@ },
        }
    }
}

/// How an attempt to join or leave a voice channel ended.
#[derive(Debug)]
pub enum VoiceReply {
    /// Joining failed; the text says why.
    JoinFailed { reason: String },
    /// The worker has asked to leave the channel of the guild; `failure`
    /// says why that failed, if it did.
    Left { guild_id: u64, failure: Option<String> },
}

/// Mathematical model of a [`VoiceReply`].
pub enum VoiceReplyView {
    JoinFailed { reason: Seq<char> },
    Left { guild_id: u64, failure: Option<Seq<char>> },
}

impl View for VoiceReply {
    type V = VoiceReplyView;

    open spec fn view(&self) -> VoiceReplyView {
        match *self {
            VoiceReply::JoinFailed { reason } => VoiceReplyView::JoinFailed { reason: reason@ },
            VoiceReply::Left { guild_id, failure } => VoiceReplyView::Left {
                guild_id,
                failure: failure.deep_view(),
            },
        }
    }
}

/// What wakes the command loop of a worker.
#[derive(Debug)]
pub enum LoopEvent {
    /// The next command arrived.
    Command(BotCommand),
    /// The command channel is closed: no handle to it is left.
    Closed,
    /// The reconciliation timer fired.
    Tick,
}

/// Mathematical model of a [`LoopEvent`].
pub enum LoopEventView {
    Command(BotCommandView),
    Closed,
    Tick,
}

impl View for LoopEvent {
    type V = LoopEventView;

    open spec fn view(&self) -> LoopEventView {
        match *self {
            LoopEvent::Command(cmd) => LoopEventView::Command(cmd@),
            LoopEvent::Closed => LoopEventView::Closed,
            LoopEvent::Tick => LoopEventView::Tick,
        }
    }
}

/// What the command loop does next.
#[derive(Debug)]
pub enum LoopStep {
    /// Make the request, fully, before the next event is taken.
    Request(EngineRequest),
    /// Run a reconciliation pass.
    Sync,
    /// Leave the loop: the worker ends.
    Exit,
}

/// Mathematical model of a [`LoopStep`].
pub enum LoopStepView {
    Request(EngineRequestView),
    Sync,
    Exit,
}

impl View for LoopStep {
    type V = LoopStepView;

    open spec fn view(&self) -> LoopStepView {
        match *self {
            LoopStep::Request(request) => LoopStepView::Request(request@),
            LoopStep::Sync => LoopStepView::Sync,
            LoopStep::Exit => LoopStepView::Exit,
        }
    }
}

} // verus!
