//! The shared store: accounts, their guilds and the system log, each with
//! its mathematical model.

use std::collections::{HashMap, VecDeque};
use crate::outside::{fresh_uuid, offer};
use crate::text::{bracketed, is_time_of_day, same_text, stamped, time_stamp};
use tokio::sync::mpsc::Sender;
use vstd::prelude::*;

verus! {

/// Most lines that the system log keeps.
pub const LOG_CAPACITY: usize = 1000;

/// Bit pattern of full gain, `1.0`.
pub const FULL_VOLUME_BITS: u32 = 0x3F80_0000;

/// Gain of a track, carried as the bit pattern of a single-precision number.
/// The library never computes with it; it only hands it on.
#[derive(Clone, Copy, Debug, PartialEq, Eq, Structural)]
pub struct Volume {
    pub bits: u32,
}

/// Commands sent from the presentation layer to one account's worker.
#[derive(Debug)]
pub enum BotCommand {
    /// Connect to a voice channel in a guild.
    Join { guild_id: u64, channel_id: u64 },
    /// Disconnect from the voice channel in a guild.
    Leave { guild_id: u64 },
    /// Enqueue a track from a URL.
    Play { guild_id: u64, url: String },
    /// Pause playback.
    Pause { guild_id: u64 },
    /// Resume playback.
    Resume { guild_id: u64 },
    /// Stop playback and clear the queue.
    Stop { guild_id: u64 },
    /// Skip the current track.
    Skip { guild_id: u64 },
    /// Set the volume.
    Volume { guild_id: u64, volume: Volume },
    /// Remove a queued track by its local identifier.
    RemoveTrack { guild_id: u64, track_uuid: String },
    /// Move a track between two positions of the visible queue.
    MoveTrack { guild_id: u64, from_index: usize, to_index: usize },
    /// Clear all upcoming tracks.
    ClearQueue { guild_id: u64 },
    /// Refresh the list of voice channels of a guild.
    FetchChannels { guild_id: u64 },
}

/// Mathematical model of a [`BotCommand`].
pub enum BotCommandView {
    Join { guild_id: u64, channel_id: u64 },
    Leave { guild_id: u64 },
    Play { guild_id: u64, url: Seq<char> },
    Pause { guild_id: u64 },
    Resume { guild_id: u64 },
    Stop { guild_id: u64 },
    Skip { guild_id: u64 },
    Volume { guild_id: u64, volume: Volume },
    RemoveTrack { guild_id: u64, track_uuid: Seq<char> },
    MoveTrack { guild_id: u64, from_index: usize, to_index: usize },
    ClearQueue { guild_id: u64 },
    FetchChannels { guild_id: u64 },
}

impl View for BotCommand {
    type V = BotCommandView;

    open spec fn view(&self) -> BotCommandView {
        match *self {
            BotCommand::Join { guild_id, channel_id } => BotCommandView::Join {
                guild_id,
                channel_id,
            },
            BotCommand::Leave { guild_id } => BotCommandView::Leave { guild_id },
            BotCommand::Play { guild_id, url } => BotCommandView::Play { guild_id, url: url@ },
            BotCommand::Pause { guild_id } => BotCommandView::Pause { guild_id },
            BotCommand::Resume { guild_id } => BotCommandView::Resume { guild_id },
            BotCommand::Stop { guild_id } => BotCommandView::Stop { guild_id },
            BotCommand::Skip { guild_id } => BotCommandView::Skip { guild_id },
            BotCommand::Volume { guild_id, volume } => BotCommandView::Volume { guild_id, volume },
            BotCommand::RemoveTrack { guild_id, track_uuid } => BotCommandView::RemoveTrack {
                guild_id,
                track_uuid: track_uuid@,
            },
            BotCommand::MoveTrack { guild_id, from_index, to_index } => BotCommandView::MoveTrack {
                guild_id,
                from_index,
                to_index,
            },
            BotCommand::ClearQueue { guild_id } => BotCommandView::ClearQueue { guild_id },
            BotCommand::FetchChannels { guild_id } => BotCommandView::FetchChannels { guild_id },
        }
    }
}

/// A named entity with an identifier: a guild or a channel.
#[derive(Debug, PartialEq, Eq)]
pub struct NameId {
    pub id: u64,
    pub name: String,
}

/// Mathematical model of a [`NameId`].
pub struct NameIdView {
    pub id: u64,
    pub name: Seq<char>,
}

impl View for NameId {
    type V = NameIdView;

    open spec fn view(&self) -> NameIdView {
        NameIdView { id: self.id, name: self.name@ }
    }
}

impl DeepView for NameId {
    type V = NameIdView;

    open spec fn deep_view(&self) -> NameIdView {
        self@
    }
}

impl Clone for NameId {
    fn clone(&self) -> (res: Self)
        ensures
            res@ == self@,
    {
        NameId { id: self.id, name: self.name.clone() }
    }
}

/// Metadata of one audio track, fixed when the track is enqueued.
#[derive(Debug, PartialEq, Eq)]
pub struct TrackMetadata {
    /// Local identifier, by which the presentation layer names the track.
    pub uuid: String,
    pub title: String,
    pub artist: Option<String>,
    pub url: String,
    pub duration_secs: Option<u64>,
    pub thumbnail_url: Option<String>,
    pub added_by: String,
}

/// Mathematical model of a [`TrackMetadata`].
pub struct TrackMetadataView {
    pub uuid: Seq<char>,
    pub title: Seq<char>,
    pub artist: Option<Seq<char>>,
    pub url: Seq<char>,
    pub duration_secs: Option<u64>,
    pub thumbnail_url: Option<Seq<char>>,
    pub added_by: Seq<char>,
}

impl View for TrackMetadata {
    type V = TrackMetadataView;

    open spec fn view(&self) -> TrackMetadataView {
        TrackMetadataView {
            uuid: self.uuid@,
            title: self.title@,
            artist: self.artist.deep_view(),
            url: self.url@,
            duration_secs: self.duration_secs,
            thumbnail_url: self.thumbnail_url.deep_view(),
            added_by: self.added_by@,
        }
    }
}

impl DeepView for TrackMetadata {
    type V = TrackMetadataView;

    open spec fn deep_view(&self) -> TrackMetadataView {
        self@
    }
}

impl Clone for TrackMetadata {
    fn clone(&self) -> (res: Self)
        ensures
            res@ == self@,
    {
        TrackMetadata {
            uuid: self.uuid.clone(),
            title: self.title.clone(),
            artist: self.artist.clone(),
            url: self.url.clone(),
            duration_secs: self.duration_secs,
            thumbnail_url: self.thumbnail_url.clone(),
            added_by: self.added_by.clone(),
        }
    }
}

/// The lifecycle status of an account's worker.
#[derive(Debug, PartialEq, Eq)]
pub enum BotStatus {
    Offline,
    Starting,
    Online,
    Error(String),
}

/// Mathematical model of a [`BotStatus`].
pub enum BotStatusView {
    Offline,
    Starting,
    Online,
    Error(Seq<char>),
}

impl View for BotStatus {
    type V = BotStatusView;

    open spec fn view(&self) -> BotStatusView {
        match *self {
            BotStatus::Offline => BotStatusView::Offline,
            BotStatus::Starting => BotStatusView::Starting,
            BotStatus::Online => BotStatusView::Online,
            BotStatus::Error(reason) => BotStatusView::Error(reason@),
        }
    }
}

impl Clone for BotStatus {
    fn clone(&self) -> (res: Self)
        ensures
            res@ == self@,
    {
        match self {
            BotStatus::Offline => BotStatus::Offline,
            BotStatus::Starting => BotStatus::Starting,
            BotStatus::Online => BotStatus::Online,
            BotStatus::Error(reason) => BotStatus::Error(reason.clone()),
        }
    }
}

impl BotStatusView {
    /// Whether a worker is starting or running under this status.
    pub open spec fn is_active(self) -> bool {
        self is Starting || self is Online
    }
}

/// The playback state of one guild.
#[derive(Debug, PartialEq, Eq)]
pub struct GuildState {
    pub guild_id: u64,
    pub guild_name: String,
    pub channel_id: Option<u64>,
    pub is_playing: bool,
    pub is_paused: bool,
    pub volume: Volume,
    pub position_secs: u64,
    pub now_playing: Option<TrackMetadata>,
    pub queue: VecDeque<TrackMetadata>,
    pub voice_channels: Vec<NameId>,
}

/// Mathematical model of a [`GuildState`].
#[verifier::ext_equal]
pub struct GuildStateView {
    pub guild_id: u64,
    pub guild_name: Seq<char>,
    pub channel_id: Option<u64>,
    pub is_playing: bool,
    pub is_paused: bool,
    pub volume: Volume,
    pub position_secs: u64,
    pub now_playing: Option<TrackMetadataView>,
    pub queue: Seq<TrackMetadataView>,
    pub voice_channels: Seq<NameIdView>,
}

impl View for GuildState {
    type V = GuildStateView;

    open spec fn view(&self) -> GuildStateView {
        GuildStateView {
            guild_id: self.guild_id,
            guild_name: self.guild_name@,
            channel_id: self.channel_id,
            is_playing: self.is_playing,
            is_paused: self.is_paused,
            volume: self.volume,
            position_secs: self.position_secs,
            now_playing: self.now_playing.deep_view(),
            queue: self.queue.deep_view(),
            voice_channels: self.voice_channels.deep_view(),
        }
    }
}

impl DeepView for GuildState {
    type V = GuildStateView;

    open spec fn deep_view(&self) -> GuildStateView {
        self@
    }
}

impl GuildStateView {
    /// The record of a guild in which nothing has been played yet.
    pub open spec fn fresh(id: u64, name: Seq<char>) -> GuildStateView {
        GuildStateView {
            guild_id: id,
            guild_name: name,
            channel_id: None,
            is_playing: false,
            is_paused: false,
            volume: Volume { bits: FULL_VOLUME_BITS },
            position_secs: 0,
            now_playing: None,
            queue: Seq::empty(),
            voice_channels: Seq::empty(),
        }
    }

    /// A guild never plays and pauses at once.
    pub open spec fn wf(self) -> bool {
        !(self.is_playing && self.is_paused)
    }
}

impl GuildState {
    /// Creates the record of a guild in which nothing has been played yet.
    pub fn new(id: u64, name: String) -> (guild: Self)
        ensures
            guild@ == GuildStateView::fresh(id, name@),
    {
        let guild = GuildState {
            guild_id: id,
            guild_name: name,
            channel_id: None,
            is_playing: false,
            is_paused: false,
            volume: Volume { bits: FULL_VOLUME_BITS },
            position_secs: 0,
            now_playing: None,
            queue: VecDeque::new(),
            voice_channels: Vec::new(),
        };
        assert(guild@ =~= GuildStateView::fresh(id, name@));
        guild
    }
}

/// One registered credential and the state of its worker.
#[derive(Debug)]
pub struct AccountState {
    pub uuid: String,
    pub alias: String,
    pub token: String,
    /// The application identifier that the remote service assigned.
    pub application_id: Option<u64>,
    /// Whether the worker starts when the process does.
    pub auto_start: bool,
    pub status: BotStatus,
    pub guilds: HashMap<u64, GuildState>,
    /// The handle of the worker's command channel: present exactly while the
    /// supervisor holds a worker alive.
    pub command_tx: Option<Sender<BotCommand>>,
}

/// Mathematical model of an [`AccountState`]. It holds the installed handle
/// of the command channel itself, so that a model which leaves the account
/// alone leaves the handle alone.
#[verifier::ext_equal]
pub struct AccountStateView {
    pub uuid: Seq<char>,
    pub alias: Seq<char>,
    pub token: Seq<char>,
    pub application_id: Option<u64>,
    pub auto_start: bool,
    pub status: BotStatusView,
    pub guilds: Map<u64, GuildStateView>,
    pub command_tx: Option<Sender<BotCommand>>,
}

impl View for AccountState {
    type V = AccountStateView;

    open spec fn view(&self) -> AccountStateView {
        AccountStateView {
            uuid: self.uuid@,
            alias: self.alias@,
            token: self.token@,
            application_id: self.application_id,
            auto_start: self.auto_start,
            status: self.status@,
            guilds: self.guilds@.map_values(|g: GuildState| g@),
            command_tx: self.command_tx,
        }
    }
}

impl DeepView for AccountState {
    type V = AccountStateView;

    open spec fn deep_view(&self) -> AccountStateView {
        self@
    }
}

impl AccountStateView {
    /// An account that has never been started.
    pub open spec fn fresh(
        uuid: Seq<char>,
        alias: Seq<char>,
        token: Seq<char>,
        auto_start: bool,
    ) -> AccountStateView {
        AccountStateView {
            uuid,
            alias,
            token,
            application_id: None,
            auto_start,
            status: BotStatusView::Offline,
            guilds: Map::empty(),
            command_tx: None,
        }
    }

    /// Whether a handle is installed: the supervisor holds a worker alive.
    pub open spec fn live(self) -> bool {
        self.command_tx is Some
    }

    /// Every guild is filed under its own identifier and is well formed.
    pub open spec fn wf(self) -> bool {
        forall|id: u64| #[trigger]
            self.guilds.contains_key(id) ==> self.guilds[id].guild_id == id && self.guilds[id].wf()
    }

    /// The account with `guild` filed under `guild_id`.
    pub open spec fn with_guild(self, guild_id: u64, guild: GuildStateView) -> AccountStateView {
        AccountStateView { guilds: self.guilds.insert(guild_id, guild), ..self }
    }

    /// The account without a record for `guild_id`.
    pub open spec fn without_guild(self, guild_id: u64) -> AccountStateView {
        AccountStateView { guilds: self.guilds.remove(guild_id), ..self }
    }
}

impl AccountState {
    /// Creates an offline account that starts with the process.
    pub fn new(uuid: String, alias: String, token: String) -> (account: Self)
        ensures
            account@ == AccountStateView::fresh(uuid@, alias@, token@, true),
    {
        let account = AccountState {
            uuid,
            alias,
            token,
            application_id: None,
            auto_start: true,
            status: BotStatus::Offline,
            guilds: HashMap::new(),
            command_tx: None,
        };
        assert(account@.guilds =~= Map::empty());
        account
    }
}

/// What the presentation layer has selected.
#[derive(Debug, PartialEq, Eq)]
pub struct UiContext {
    pub selected_account_uuid: Option<String>,
    pub selected_guild_id: Option<u64>,
}

/// Mathematical model of a [`UiContext`].
pub struct UiContextView {
    pub selected_account_uuid: Option<Seq<char>>,
    pub selected_guild_id: Option<u64>,
}

impl View for UiContext {
    type V = UiContextView;

    open spec fn view(&self) -> UiContextView {
        UiContextView {
            selected_account_uuid: self.selected_account_uuid.deep_view(),
            selected_guild_id: self.selected_guild_id,
        }
    }
}

impl Default for UiContext {
    fn default() -> (ctx: Self)
        ensures
            ctx@ == (UiContextView { selected_account_uuid: None, selected_guild_id: None }),
    {
        UiContext { selected_account_uuid: None, selected_guild_id: None }
    }
}

/// The single store that every component reads and writes while it holds the
/// store's lock. Accounts are kept in the order in which they were added; an
/// identifier names the first account that carries it.
#[derive(Debug)]
pub struct AppState {
    pub accounts: Vec<AccountState>,
    pub ui_context: UiContext,
    pub system_logs: Vec<String>,
}

/// Mathematical model of an [`AppState`].
#[verifier::ext_equal]
pub struct AppStateView {
    pub accounts: Seq<AccountStateView>,
    pub ui_context: UiContextView,
    pub system_logs: Seq<Seq<char>>,
}

impl View for AppState {
    type V = AppStateView;

    open spec fn view(&self) -> AppStateView {
        AppStateView {
            accounts: self.accounts.deep_view(),
            ui_context: self.ui_context@,
            system_logs: self.system_logs.deep_view(),
        }
    }
}

/// The last [`LOG_CAPACITY`] of `lines`, or all of them if they are fewer.
pub open spec fn capped(lines: Seq<Seq<char>>) -> Seq<Seq<char>> {
    if lines.len() > LOG_CAPACITY {
        lines.subrange(lines.len() - LOG_CAPACITY, lines.len() as int)
    } else {
        lines
    }
}

impl AppStateView {
    /// The store before anything was added to it.
    pub open spec fn empty() -> AppStateView {
        AppStateView {
            accounts: Seq::empty(),
            ui_context: UiContextView { selected_account_uuid: None, selected_guild_id: None },
            system_logs: Seq::empty(),
        }
    }

    /// Whether some account carries `uuid`.
    pub open spec fn has_account(self, uuid: Seq<char>) -> bool {
        exists|i: int| 0 <= i < self.accounts.len() && (#[trigger] self.accounts[i]).uuid == uuid
    }

    /// Whether `i` is the place of the first account that carries `uuid`.
    pub open spec fn is_first(self, uuid: Seq<char>, i: int) -> bool {
        &&& 0 <= i < self.accounts.len()
        &&& self.accounts[i].uuid == uuid
        &&& forall|j: int| 0 <= j < i ==> (#[trigger] self.accounts[j]).uuid != uuid
    }

    /// The place of the account that `uuid` names, where there is one.
    pub open spec fn position(self, uuid: Seq<char>) -> int {
        choose|i: int| self.is_first(uuid, i)
    }

    /// The account that `uuid` names, where there is one.
    pub open spec fn account(self, uuid: Seq<char>) -> AccountStateView {
        self.accounts[self.position(uuid)]
    }

    /// The store with `account` in the place of the one that `uuid` names;
    /// the store itself where `uuid` names none.
    pub open spec fn with_account(self, uuid: Seq<char>, account: AccountStateView) -> AppStateView {
        if self.has_account(uuid) {
            AppStateView { accounts: self.accounts.update(self.position(uuid), account), ..self }
        } else {
            self
        }
    }

    /// Whether `uuid` names an account that knows the guild `guild_id`.
    pub open spec fn has_guild(self, uuid: Seq<char>, guild_id: u64) -> bool {
        self.has_account(uuid) && self.account(uuid).guilds.contains_key(guild_id)
    }

    /// The record of a guild of an account, where [`Self::has_guild`] holds.
    pub open spec fn guild(self, uuid: Seq<char>, guild_id: u64) -> GuildStateView {
        self.account(uuid).guilds[guild_id]
    }

    /// The store with `guild` in the place of the record of `guild_id` under
    /// the account `uuid`; the store itself where there is no such record.
    pub open spec fn with_guild(
        self,
        uuid: Seq<char>,
        guild_id: u64,
        guild: GuildStateView,
    ) -> AppStateView {
        if self.has_guild(uuid, guild_id) {
            let account = self.account(uuid);
            self.with_account(
                uuid,
                AccountStateView { guilds: account.guilds.insert(guild_id, guild), ..account },
            )
        } else {
            self
        }
    }

    /// The store after `line` went to the system log: the log keeps its last
    /// [`LOG_CAPACITY`] lines.
    pub open spec fn logged(self, line: Seq<char>) -> AppStateView {
        AppStateView { system_logs: capped(self.system_logs.push(line)), ..self }
    }

    /// The store after `account` was filed under its identifier: in the place
    /// of the account that carried it, or else behind all others.
    pub open spec fn inserted(self, account: AccountStateView) -> AppStateView {
        if self.has_account(account.uuid) {
            self.with_account(account.uuid, account)
        } else {
            AppStateView { accounts: self.accounts.push(account), ..self }
        }
    }

    /// The store without the account that `uuid` names.
    pub open spec fn without(self, uuid: Seq<char>) -> AppStateView {
        if self.has_account(uuid) {
            AppStateView { accounts: self.accounts.remove(self.position(uuid)), ..self }
        } else {
            self
        }
    }

    /// No two accounts carry the same identifier, each account is well
    /// formed, and the system log is within its capacity.
    pub open spec fn wf(self) -> bool {
        &&& self.system_logs.len() <= LOG_CAPACITY
        &&& forall|i: int, j: int|
            0 <= i < j < self.accounts.len() ==> (#[trigger] self.accounts[i]).uuid != (
            #[trigger] self.accounts[j]).uuid
        &&& forall|i: int| 0 <= i < self.accounts.len() ==> (#[trigger] self.accounts[i]).wf()
    }

    /// Whether `other` holds the same accounts as the store, place by place,
    /// but for the one that `uuid` names.
    pub open spec fn same_but(self, other: AppStateView, uuid: Seq<char>) -> bool {
        &&& other.accounts.len() == self.accounts.len()
        &&& forall|i: int|
            0 <= i < self.accounts.len() && !self.is_first(uuid, i) ==> (
            #[trigger] other.accounts[i]) == self.accounts[i]
    }

    /// The store with `account` at the place `i`.
    pub open spec fn with_account_at(self, i: int, account: AccountStateView) -> AppStateView {
        AppStateView { accounts: self.accounts.update(i, account), ..self }
    }
}

impl Default for AppState {
    fn default() -> (state: Self)
        ensures
            state@ == AppStateView::empty(),
    {
        let state = AppState {
            accounts: Vec::new(),
            ui_context: UiContext::default(),
            system_logs: Vec::new(),
        };
        assert(state@ =~= AppStateView::empty());
        state
    }
}

impl AppState {
    /// The place of the first account that carries `uuid`.
    pub fn find(&self, uuid: &str) -> (place: Option<usize>)
        ensures
            match place {
                Some(i) => self@.is_first(uuid@, i as int),
                None => !self@.has_account(uuid@),
            },
    {
        let mut i: usize = 0;
        while i < self.accounts.len()
            invariant
                i <= self.accounts.len(),
                forall|j: int| 0 <= j < i ==> (#[trigger] self@.accounts[j]).uuid != uuid@,
            decreases self.accounts.len() - i,
        {
            if same_text(self.accounts[i].uuid.as_str(), uuid) {
                return Some(i);
            }
            i += 1;
        }
        None
    }

    /// The account that `uuid` names.
    pub fn account(&self, uuid: &str) -> (found: Option<&AccountState>)
        ensures
            found is Some <==> self@.has_account(uuid@),
            found matches Some(a) ==> a@ == self@.account(uuid@),
    {
        match self.find(uuid) {
            Some(i) => {
                proof {
                    lemma_first_is_position(self@, uuid@, i as int);
                }
                Some(&self.accounts[i])
            },
            None => None,
        }
    }

    /// Appends `line` to the system log and drops the oldest lines beyond
    /// [`LOG_CAPACITY`].
    pub fn append_line(&mut self, line: String)
        ensures
            final(self)@ == old(self)@.logged(line@),
            old(self)@.wf() ==> final(self)@.wf(),
    {
        let ghost before = self@;
        self.system_logs.push(line);
        let ghost pushed = self.system_logs.deep_view();
        assert(pushed =~= before.system_logs.push(line@));
        while self.system_logs.len() > LOG_CAPACITY
            invariant
                self@.accounts == before.accounts,
                self@.ui_context == before.ui_context,
                self.system_logs.len() <= pushed.len(),
                pushed.len() <= LOG_CAPACITY ==> self.system_logs.len() == pushed.len(),
                pushed.len() > LOG_CAPACITY ==> self.system_logs.len() >= LOG_CAPACITY,
                self.system_logs.deep_view() =~= pushed.subrange(
                    pushed.len() - self.system_logs.len(),
                    pushed.len() as int,
                ),
            decreases self.system_logs.len(),
        {
            let ghost kept = self.system_logs.deep_view();
            self.system_logs.remove(0);
            assert(self.system_logs.deep_view() =~= kept.subrange(1, kept.len() as int));
        }
        assert(self@.system_logs =~= capped(pushed));
    }

    /// Appends `msg` to the system log under the time stamp `stamp`.
    pub fn log_at(&mut self, stamp: &str, msg: &str)
        ensures
            final(self)@ == old(self)@.logged(stamped(stamp@, msg@)),
            old(self)@.wf() ==> final(self)@.wf(),
    {
        let line = bracketed(stamp, msg);
        self.append_line(line);
    }

    /// Appends `msg` to the system log under the current time of day.
    pub fn log(&mut self, msg: &str)
        ensures
            exists|stamp: Seq<char>|
                is_time_of_day(stamp) && final(self)@ == #[trigger] old(self)@.logged(
                    stamped(stamp, msg@),
                ),
            old(self)@.wf() ==> final(self)@.wf(),
    {
        let stamp = time_stamp();
        self.log_at(stamp.as_str(), msg);
        assert(self@ == old(self)@.logged(stamped(stamp@, msg@)));
    }

    /// Files `account` under its identifier: in the place of the account that
    /// carries it, or else behind all others.
    pub fn insert_account(&mut self, account: AccountState)
        ensures
            final(self)@ == old(self)@.inserted(account@),
            old(self)@.wf() && account@.wf() ==> final(self)@.wf(),
    {
        let ghost before = self@;
        match self.find(account.uuid.as_str()) {
            Some(i) => {
                proof {
                    lemma_first_is_position(before, account@.uuid, i as int);
                    if before.wf() && account@.wf() {
                        lemma_with_account_wf(before, account@.uuid, account@);
                    }
                }
                self.accounts[i] = account;
                assert(self@.accounts =~= before.accounts.update(i as int, account@));
            },
            None => {
                self.accounts.push(account);
                assert(self@.accounts =~= before.accounts.push(account@));
                assert(before.wf() && account@.wf() ==> self@.wf()) by {
                    if before.wf() && account@.wf() {
                        assert forall|i: int, j: int|
                            0 <= i < j < self@.accounts.len() implies (#[trigger] self@.accounts[i]).uuid
                            != (#[trigger] self@.accounts[j]).uuid by {
                            if j < before.accounts.len() {
                                assert(before.accounts[i].uuid != before.accounts[j].uuid);
                            } else {
                                assert(before.accounts[i].uuid != account@.uuid);
                            }
                        }
                        assert forall|i: int| 0 <= i < self@.accounts.len() implies (
                        #[trigger] self@.accounts[i]).wf() by {
                            if i < before.accounts.len() {
                                assert(before.accounts[i].wf());
                            }
                        }
                    }
                }
            },
        }
    }

    /// Takes out the account that `uuid` names, and says whether there was
    /// one.
    pub fn remove_account(&mut self, uuid: &str) -> (removed: bool)
        ensures
            removed == old(self)@.has_account(uuid@),
            final(self)@ == old(self)@.without(uuid@),
            old(self)@.wf() ==> final(self)@.wf(),
    {
        let ghost before = self@;
        match self.find(uuid) {
            Some(i) => {
                proof {
                    lemma_first_is_position(before, uuid@, i as int);
                }
                self.accounts.remove(i);
                assert(self@.accounts =~= before.accounts.remove(i as int));
                assert(before.wf() ==> self@.wf()) by {
                    if before.wf() {
                        assert forall|a: int, b: int|
                            0 <= a < b < self@.accounts.len() implies (#[trigger] self@.accounts[a]).uuid
                            != (#[trigger] self@.accounts[b]).uuid by {
                            let a0 = if a < i { a } else { a + 1 };
                            let b0 = if b < i { b } else { b + 1 };
                            assert(before.accounts[a0].uuid != before.accounts[b0].uuid);
                        }
                        assert forall|a: int| 0 <= a < self@.accounts.len() implies (
                        #[trigger] self@.accounts[a]).wf() by {
                            let a0 = if a < i { a } else { a + 1 };
                            assert(before.accounts[a0].wf());
                        }
                    }
                }
                true
            },
            None => false,
        }
    }

    /// Registers a credential under a fresh identifier, offline and set to
    /// start with the process, and returns the identifier.
    pub fn add_account(&mut self, alias: String, token: String) -> (uuid: String)
        ensures
            final(self)@ == old(self)@.inserted(
                AccountStateView::fresh(uuid@, alias@, token@, true),
            ),
            old(self)@.wf() ==> final(self)@.wf(),
    {
        let uuid = fresh_uuid();
        let account = AccountState::new(uuid.clone(), alias, token);
        self.insert_account(account);
        uuid
    }

    /// Selects an account, and with it no guild.
    pub fn select_account(&mut self, uuid: String)
        ensures
            final(self)@ == (AppStateView {
                ui_context: UiContextView {
                    selected_account_uuid: Some(uuid@),
                    selected_guild_id: None,
                },
                ..old(self)@
            }),
    {
        self.ui_context.selected_account_uuid = Some(uuid);
        self.ui_context.selected_guild_id = None;
    }

    /// Selects a guild of the selected account.
    pub fn select_guild(&mut self, guild_id: u64)
        ensures
            final(self)@ == (AppStateView {
                ui_context: UiContextView {
                    selected_guild_id: Some(guild_id),
                    ..old(self)@.ui_context
                },
                ..old(self)@
            }),
    {
        self.ui_context.selected_guild_id = Some(guild_id);
    }

    /// Hands `cmd` to the worker of the account `uuid` and says whether the
    /// worker's channel took it. Without such an account, or without a handle
    /// installed on it, the command is dropped.
    pub fn send_command(&self, uuid: &str, cmd: BotCommand) -> (taken: bool)
        ensures
            taken ==> self@.has_account(uuid@) && self@.account(uuid@).live(),
    {
        match self.command_handle(uuid) {
            Some(tx) => offer(tx, cmd),
            None => false,
        }
    }

    /// The handle through which commands reach the worker of the account
    /// `uuid`: the one installed on the first account that carries the
    /// identifier; none where there is no such account or no handle on it.
    pub fn command_handle(&self, uuid: &str) -> (handle: Option<&Sender<BotCommand>>)
        ensures
            handle is Some <==> self@.has_account(uuid@) && self@.account(uuid@).live(),
            handle matches Some(tx) ==> self@.account(uuid@).command_tx == Some(*tx),
    {
        match self.find(uuid) {
            Some(i) => {
                proof {
                    lemma_first_is_position(self@, uuid@, i as int);
                }
                match &self.accounts[i].command_tx {
                    Some(tx) => Some(tx),
                    None => None,
                }
            },
            None => None,
        }
    }

    /// Takes the record of `guild_id` out of the account at place `i`, to be
    /// put back by [`Self::put_guild`].
    pub(crate) fn take_guild(&mut self, i: usize, guild_id: u64) -> (taken: Option<GuildState>)
        requires
            i < old(self)@.accounts.len(),
        ensures
            taken is Some <==> old(self)@.accounts[i as int].guilds.contains_key(guild_id),
            taken matches Some(g) ==> g@ == old(self)@.accounts[i as int].guilds[guild_id],
            taken is None ==> final(self)@ == old(self)@,
            final(self)@ == old(self)@.with_account_at(
                i as int,
                old(self)@.accounts[i as int].without_guild(guild_id),
            ),
    {
        broadcast use vstd::std_specs::hash::group_hash_axioms;

        let ghost before = self@;
        let taken = self.accounts[i].guilds.remove(&guild_id);
        proof {
            assert(self@.accounts[i as int].guilds =~= before.accounts[i as int].guilds.remove(
                guild_id,
            ));
            assert(self@.accounts =~= before.accounts.update(
                i as int,
                before.accounts[i as int].without_guild(guild_id),
            ));
            if taken is None {
                assert(before.accounts[i as int].guilds.remove(guild_id)
                    =~= before.accounts[i as int].guilds);
                assert(self@.accounts =~= before.accounts);
            }
        }
        taken
    }

    /// Files `guild` under `guild_id` in the account at place `i`.
    pub(crate) fn put_guild(&mut self, i: usize, guild_id: u64, guild: GuildState)
        requires
            i < old(self)@.accounts.len(),
        ensures
            final(self)@ == old(self)@.with_account_at(
                i as int,
                old(self)@.accounts[i as int].with_guild(guild_id, guild@),
            ),
    {
        broadcast use vstd::std_specs::hash::group_hash_axioms;

        let ghost before = self@;
        self.accounts[i].guilds.insert(guild_id, guild);
        proof {
            assert(self@.accounts[i as int].guilds =~= before.accounts[i as int].guilds.insert(
                guild_id,
                guild@,
            ));
            assert(self@.accounts =~= before.accounts.update(
                i as int,
                before.accounts[i as int].with_guild(guild_id, guild@),
            ));
        }
    }
}

/// The store after each of `lines` went to the system log, in their order.
pub open spec fn logged_all(s: AppStateView, lines: Seq<Seq<char>>) -> AppStateView
    decreases lines.len(),
{
    if lines.len() == 0 {
        s
    } else {
        logged_all(s, lines.drop_last()).logged(lines.last())
    }
}

/// The first account that carries an identifier is the one that the
/// identifier names.
pub proof fn lemma_first_is_position(s: AppStateView, uuid: Seq<char>, i: int)
    requires
        s.is_first(uuid, i),
    ensures
        s.has_account(uuid),
        s.position(uuid) == i,
        s.account(uuid) == s.accounts[i],
{
    let p = s.position(uuid);
    assert(s.is_first(uuid, p));
    if p < i {
        assert(s.accounts[p].uuid != uuid);
    }
    if i < p {
        assert(s.accounts[i].uuid != uuid);
    }
}

/// An identifier that names an account has a first account that carries it.
pub proof fn lemma_position_is_first(s: AppStateView, uuid: Seq<char>)
    requires
        s.has_account(uuid),
    ensures
        s.is_first(uuid, s.position(uuid)),
{
    let k = choose|k: int| 0 <= k < s.accounts.len() && (#[trigger] s.accounts[k]).uuid == uuid;
    lemma_has_first(s, uuid, k);
}

proof fn lemma_has_first(s: AppStateView, uuid: Seq<char>, k: int)
    requires
        0 <= k < s.accounts.len(),
        s.accounts[k].uuid == uuid,
    ensures
        exists|i: int| s.is_first(uuid, i),
    decreases k,
{
    if exists|j: int| 0 <= j < k && (#[trigger] s.accounts[j]).uuid == uuid {
        let j = choose|j: int| 0 <= j < k && (#[trigger] s.accounts[j]).uuid == uuid;
        lemma_has_first(s, uuid, j);
    } else {
        assert(s.is_first(uuid, k));
    }
}

/// Putting an account with the same identifier in the place of another keeps
/// the store well formed.
pub proof fn lemma_with_account_wf(s: AppStateView, uuid: Seq<char>, account: AccountStateView)
    requires
        s.wf(),
        account.uuid == uuid,
        account.wf(),
    ensures
        s.with_account(uuid, account).wf(),
{
    if s.has_account(uuid) {
        lemma_position_is_first(s, uuid);
        let p = s.position(uuid);
        let t = s.with_account(uuid, account);
        assert forall|i: int, j: int| 0 <= i < j < t.accounts.len() implies (
        #[trigger] t.accounts[i]).uuid != (#[trigger] t.accounts[j]).uuid by {
            assert(s.accounts[i].uuid != s.accounts[j].uuid);
        }
        assert forall|i: int| 0 <= i < t.accounts.len() implies (#[trigger] t.accounts[i]).wf() by {
            if i != p {
                assert(s.accounts[i].wf());
            }
        }
    }
}

/// Putting a well-formed record in the place of a guild's record keeps the
/// store well formed.
pub proof fn lemma_with_guild_wf(
    s: AppStateView,
    uuid: Seq<char>,
    guild_id: u64,
    guild: GuildStateView,
)
    requires
        s.wf(),
        guild.guild_id == guild_id,
        guild.wf(),
    ensures
        s.with_guild(uuid, guild_id, guild).wf(),
{
    if s.has_guild(uuid, guild_id) {
        lemma_position_is_first(s, uuid);
        let account = s.account(uuid);
        assert(account.wf());
        let next = AccountStateView { guilds: account.guilds.insert(guild_id, guild), ..account };
        assert forall|id: u64| #[trigger] next.guilds.contains_key(id) implies next.guilds[id].guild_id
            == id && next.guilds[id].wf() by {
            if id != guild_id {
                assert(account.guilds.contains_key(id));
            }
        }
        lemma_with_account_wf(s, uuid, next);
    }
}

/// Taking a guild's record out of the first account that carries `uuid` and
/// filing another under the same identifier is the update of that record.
pub proof fn lemma_take_put(
    s: AppStateView,
    uuid: Seq<char>,
    i: int,
    guild_id: u64,
    guild: GuildStateView,
)
    requires
        s.is_first(uuid, i),
        s.accounts[i].guilds.contains_key(guild_id),
    ensures
        s.has_guild(uuid, guild_id),
        s.guild(uuid, guild_id) == s.accounts[i].guilds[guild_id],
        s.with_account_at(i, s.accounts[i].without_guild(guild_id)).with_account_at(
            i,
            s.accounts[i].without_guild(guild_id).with_guild(guild_id, guild),
        ) == s.with_guild(uuid, guild_id, guild),
{
    lemma_first_is_position(s, uuid, i);
    let a = s.accounts[i];
    assert(a.without_guild(guild_id).with_guild(guild_id, guild).guilds =~= a.guilds.insert(
        guild_id,
        guild,
    ));
    assert(s.with_account_at(i, a.without_guild(guild_id)).with_account_at(
        i,
        a.without_guild(guild_id).with_guild(guild_id, guild),
    ).accounts =~= s.with_guild(uuid, guild_id, guild).accounts);
}

/// Putting an account in the place of the one that an identifier names
/// touches no other account.
pub proof fn lemma_with_account_same_but(s: AppStateView, uuid: Seq<char>, account: AccountStateView)
    ensures
        s.same_but(s.with_account(uuid, account), uuid),
{
    if s.has_account(uuid) {
        lemma_position_is_first(s, uuid);
    }
}

/// An account put in the place of another is the account that its
/// identifier names afterwards, and every other account stays.
pub proof fn lemma_with_account_reads(s: AppStateView, uuid: Seq<char>, account: AccountStateView)
    requires
        s.has_account(uuid),
        account.uuid == uuid,
    ensures
        s.with_account(uuid, account).has_account(uuid),
        s.with_account(uuid, account).account(uuid) == account,
        s.with_account(uuid, account).position(uuid) == s.position(uuid),
        s.with_account(uuid, account).system_logs == s.system_logs,
{
    lemma_position_is_first(s, uuid);
    let p = s.position(uuid);
    let t = s.with_account(uuid, account);
    assert(t.is_first(uuid, p)) by {
        assert forall|j: int| 0 <= j < p implies (#[trigger] t.accounts[j]).uuid != uuid by {
            assert(s.accounts[j].uuid != uuid);
        }
    }
    lemma_first_is_position(t, uuid, p);
}

/// A record put in the place of a guild's record is the record of that
/// guild afterwards.
pub proof fn lemma_with_guild_reads(
    s: AppStateView,
    uuid: Seq<char>,
    guild_id: u64,
    guild: GuildStateView,
)
    requires
        s.has_guild(uuid, guild_id),
        s.account(uuid).uuid == uuid,
    ensures
        s.with_guild(uuid, guild_id, guild).has_guild(uuid, guild_id),
        s.with_guild(uuid, guild_id, guild).guild(uuid, guild_id) == guild,
{
    let account = s.account(uuid);
    lemma_with_account_reads(s, uuid, account.with_guild(guild_id, guild));
}

/// The system log is bounded, and it evicts in the order of arrival: after
/// any number of lines went to it, it holds the last [`LOG_CAPACITY`] of
/// what it held before followed by those lines, and nothing else of the
/// store has changed.
pub proof fn lemma_log_is_bounded(s: AppStateView, lines: Seq<Seq<char>>)
    requires
        lines.len() > 0,
    ensures
        logged_all(s, lines).system_logs == capped(s.system_logs + lines),
        logged_all(s, lines).system_logs.len() <= LOG_CAPACITY,
        logged_all(s, lines).accounts == s.accounts,
        logged_all(s, lines).ui_context == s.ui_context,
    decreases lines.len(),
{
    let rest = lines.drop_last();
    let last = lines.last();
    assert(s.system_logs + lines =~= (s.system_logs + rest).push(last));
    assert(logged_all(s, lines) == logged_all(s, rest).logged(last));
    if rest.len() == 0 {
        assert(logged_all(s, rest) == s);
        assert(s.system_logs + rest =~= s.system_logs);
    } else {
        lemma_log_is_bounded(s, rest);
        let all = s.system_logs + rest;
        assert(capped(capped(all).push(last)) =~= capped(all.push(last)));
    }
}

/// A log that starts empty holds, after more lines than it keeps, exactly
/// the last [`LOG_CAPACITY`] of them.
pub proof fn lemma_log_keeps_latest(lines: Seq<Seq<char>>)
    requires
        lines.len() >= LOG_CAPACITY,
    ensures
        logged_all(AppStateView::empty(), lines).system_logs == lines.subrange(
            lines.len() - LOG_CAPACITY,
            lines.len() as int,
        ),
{
    lemma_log_is_bounded(AppStateView::empty(), lines);
    assert(AppStateView::empty().system_logs + lines =~= lines);
    assert(capped(lines) =~= lines.subrange(lines.len() - LOG_CAPACITY, lines.len() as int));
}

} // verus!
