//! The tracks of a worker: a track that the engine took enters the index,
//! a removal finds its entry in the engine's queue, and the channels that
//! the service lists become the guild's selectable channels.

use crate::engine::{ChannelInfo, ChannelInfoView, ChannelKind, PlayOutcome, PlayOutcomeView};
use crate::liveness::{lemma_channels_keep_handles, lemma_play_keeps_handles, same_handles};
use crate::outside::fresh_uuid;
use crate::state::{
    lemma_first_is_position, lemma_take_put, lemma_with_guild_wf, AppState, AppStateView,
    GuildStateView, NameId, NameIdView, TrackMetadata, TrackMetadataView,
};
use crate::text::{is_time_of_day, join_texts, same_text, time_stamp};
use crate::worker::{reported, BotInstance, BotInstanceView};
use vstd::prelude::*;
use vstd::string::*;

verus! {

/// The metadata that a worker makes for a track that it enqueued.
pub open spec fn queued_track(
    id: Seq<char>,
    title: Seq<char>,
    url: Seq<char>,
    duration_secs: Option<u64>,
) -> TrackMetadataView {
    TrackMetadataView {
        uuid: id,
        title,
        artist: None,
        url,
        duration_secs,
        thumbnail_url: None,
        added_by: "User"@,
    }
}

/// The store after an attempt to enqueue a track ended.
pub open spec fn play_logged(
    s: AppStateView,
    uuid: Seq<char>,
    stamp: Seq<char>,
    outcome: PlayOutcomeView,
) -> AppStateView {
    match outcome {
        PlayOutcomeView::NotConnected => reported(
            s,
            uuid,
            stamp,
            "Error: Not connected to a voice channel."@,
        ),
        PlayOutcomeView::SourceError(e) => reported(s, uuid, stamp, "Source Error: "@ + e),
        PlayOutcomeView::Queued { handle, title, duration_secs } => reported(
            s,
            uuid,
            stamp,
            "Queued: "@ + title,
        ),
    }
}

/// The worker after an attempt to enqueue the track at `url` ended: a track
/// that the engine took is in the index under its handle, with `id` as its
/// local identifier.
pub open spec fn play_indexed(
    w: BotInstanceView,
    id: Seq<char>,
    url: Seq<char>,
    outcome: PlayOutcomeView,
) -> BotInstanceView {
    match outcome {
        PlayOutcomeView::Queued { handle, title, duration_secs } => BotInstanceView {
            tracks: w.tracks.insert(handle, queued_track(id, title, url, duration_secs)),
            ..w
        },
        _ => w,
    }
}

/// Whether the index files under `handle` the track with the local
/// identifier `target`.
pub open spec fn is_target(
    tracks: Map<u128, TrackMetadataView>,
    handle: u128,
    target: Seq<char>,
) -> bool {
    tracks.contains_key(handle) && tracks[handle].uuid == target
}

/// Whether some entry of the engine queue is the track `target`.
pub open spec fn has_target(
    queue: Seq<u128>,
    tracks: Map<u128, TrackMetadataView>,
    target: Seq<char>,
) -> bool {
    exists|i: int| 0 <= i < queue.len() && is_target(tracks, #[trigger] queue[i], target)
}

/// Whether `i` is the place of the first entry of the engine queue that is
/// the track `target`.
pub open spec fn first_target(
    queue: Seq<u128>,
    tracks: Map<u128, TrackMetadataView>,
    target: Seq<char>,
    i: int,
) -> bool {
    &&& 0 <= i < queue.len()
    &&& is_target(tracks, queue[i], target)
    &&& forall|j: int| 0 <= j < i ==> !is_target(tracks, #[trigger] queue[j], target)
}

/// The voice channels among `channels`, in their order, each as name and
/// identifier.
pub open spec fn voice_channels(channels: Seq<ChannelInfoView>) -> Seq<NameIdView>
    decreases channels.len(),
{
    if channels.len() == 0 {
        Seq::empty()
    } else {
        let rest = voice_channels(channels.drop_last());
        let c = channels.last();
        if c.kind == ChannelKind::Voice {
            rest.push(NameIdView { id: c.id, name: c.name })
        } else {
            rest
        }
    }
}

/// The store with `list` as the selectable channels of a guild.
pub open spec fn with_channels(
    s: AppStateView,
    uuid: Seq<char>,
    guild_id: u64,
    list: Seq<NameIdView>,
) -> AppStateView {
    s.with_guild(uuid, guild_id, GuildStateView { voice_channels: list, ..s.guild(uuid, guild_id) })
}

impl BotInstance {
    /// Files `meta` in the index under the engine's handle of the track.
    pub fn index_track(&mut self, handle: u128, meta: TrackMetadata)
        ensures
            final(self)@ == (BotInstanceView {
                tracks: old(self)@.tracks.insert(handle, meta@),
                ..old(self)@
            }),
    {
        broadcast use vstd::std_specs::hash::group_hash_axioms;

        self.track_lookup.insert(handle, meta);
        assert(self@.tracks =~= old(self)@.tracks.insert(handle, meta@));
    }

    /// Takes the outcome of an attempt to enqueue the track at `url`. A track
    /// that the engine took gets metadata with a fresh local identifier, filed
    /// in the index under the engine's handle, and a line in the log. A
    /// failure is logged and changes nothing else.
    pub fn play_track(&mut self, state: &mut AppState, url: String, outcome: PlayOutcome)
        ensures
            exists|stamp: Seq<char>, id: Seq<char>|
                is_time_of_day(stamp) && final(state)@ == #[trigger] play_logged(
                    old(state)@,
                    old(self)@.uuid,
                    stamp,
                    outcome@,
                ) && final(self)@ == #[trigger] play_indexed(old(self)@, id, url@, outcome@),
            same_handles(old(state)@, final(state)@),
            old(state)@.wf() ==> final(state)@.wf(),
    {
        let stamp = time_stamp();
        proof {
            lemma_play_keeps_handles(state@, self@.uuid, stamp@, outcome@);
        }
        let ghost mut id_text: Seq<char> = Seq::empty();
        match outcome {
            PlayOutcome::NotConnected => {
                self.log_at(state, stamp.as_str(), "Error: Not connected to a voice channel.");
            },
            PlayOutcome::SourceError(e) => {
                let msg = join_texts("Source Error: ", e.as_str());
                self.log_at(state, stamp.as_str(), msg.as_str());
            },
            PlayOutcome::Queued { handle, title, duration_secs } => {
                let id = fresh_uuid();
                proof {
                    id_text = id@;
                }
                let msg = join_texts("Queued: ", title.as_str());
                let meta = TrackMetadata {
                    uuid: id,
                    title,
                    artist: None,
                    url,
                    duration_secs,
                    thumbnail_url: None,
                    added_by: String::from_str("User"),
                };
                self.index_track(handle, meta);
                self.log_at(state, stamp.as_str(), msg.as_str());
            },
        }
        assert(state@ == play_logged(old(state)@, old(self)@.uuid, stamp@, outcome@));
        assert(self@ == play_indexed(old(self)@, id_text, url@, outcome@));
    }

    /// The place of the first entry of the engine queue whose metadata
    /// carries the local identifier `target_uuid`.
    pub fn find_track(&self, queue: &Vec<u128>, target_uuid: &str) -> (place: Option<usize>)
        ensures
            match place {
                Some(i) => first_target(queue@, self@.tracks, target_uuid@, i as int),
                None => !has_target(queue@, self@.tracks, target_uuid@),
            },
    {
        broadcast use vstd::std_specs::hash::group_hash_axioms;

        let mut i: usize = 0;
        while i < queue.len()
            invariant
                i <= queue.len(),
                forall|j: int|
                    0 <= j < i ==> !is_target(self@.tracks, #[trigger] queue@[j], target_uuid@),
            decreases queue.len() - i,
        {
            if let Some(meta) = self.track_lookup.get(&queue[i]) {
                if same_text(meta.uuid.as_str(), target_uuid) {
                    return Some(i);
                }
            }
            i += 1;
        }
        None
    }

    /// Picks the entry of the engine queue that a removal of `target_uuid`
    /// stops: the first whose metadata carries that identifier. Where there is
    /// one, logs the removal; where there is none, changes nothing.
    pub fn remove_track(&self, state: &mut AppState, queue: &Vec<u128>, target_uuid: &str) -> (place:
        Option<usize>)
        ensures
            match place {
                Some(i) => first_target(queue@, self@.tracks, target_uuid@, i as int) && exists|
                    stamp: Seq<char>,
                |
                    is_time_of_day(stamp) && final(state)@ == #[trigger] reported(
                        old(state)@,
                        self@.uuid,
                        stamp,
                        "Track removed from queue."@,
                    ),
                None => !has_target(queue@, self@.tracks, target_uuid@) && final(state)@ == old(
                    state,
                )@,
            },
            same_handles(old(state)@, final(state)@),
            old(state)@.wf() ==> final(state)@.wf(),
    {
        let place = self.find_track(queue, target_uuid);
        if place.is_some() {
            self.log(state, "Track removed from queue.");
        }
        place
    }

    /// The voice channels among `channels`, in their order.
    pub fn voice_only(channels: &Vec<ChannelInfo>) -> (list: Vec<NameId>)
        ensures
            list.deep_view() == voice_channels(channels.deep_view()),
    {
        let ghost all = channels.deep_view();
        let mut list: Vec<NameId> = Vec::new();
        let mut k: usize = 0;
        assert(all.take(0) =~= Seq::<ChannelInfoView>::empty());
        assert(list.deep_view() =~= voice_channels(all.take(0)));
        while k < channels.len()
            invariant
                k <= channels.len(),
                all == channels.deep_view(),
                list.deep_view() == voice_channels(all.take(k as int)),
            decreases channels.len() - k,
        {
            let ghost before = list.deep_view();
            proof {
                assert(all.take(k as int + 1).drop_last() =~= all.take(k as int));
                assert(all.take(k as int + 1).last() == channels[k as int]@);
            }
            let is_voice = match channels[k].kind {
                ChannelKind::Voice => true,
                _ => false,
            };
            if is_voice {
                let entry = NameId { id: channels[k].id, name: channels[k].name.clone() };
                list.push(entry);
                assert(list.deep_view() =~= before.push(entry@));
            }
            k += 1;
        }
        assert(all.take(k as int) =~= all);
        list
    }

    /// Takes the channels that the remote service listed for a guild, and
    /// puts the voice channels among them in the place of the guild's
    /// selectable channels.
    pub fn fetch_channels(&self, state: &mut AppState, guild_id: u64, channels: &Vec<ChannelInfo>)
        ensures
            final(state)@ == with_channels(
                old(state)@,
                self@.uuid,
                guild_id,
                voice_channels(channels.deep_view()),
            ),
            same_handles(old(state)@, final(state)@),
            old(state)@.wf() ==> final(state)@.wf(),
    {
        let list = Self::voice_only(channels);
        proof {
            lemma_channels_keep_handles(state@, self@.uuid, guild_id, list.deep_view());
        }
        let ghost before = state@;
        if let Some(i) = state.find(self.uuid.as_str()) {
            proof {
                lemma_first_is_position(before, self@.uuid, i as int);
            }
            if let Some(mut guild) = state.take_guild(i, guild_id) {
                guild.voice_channels = list;
                proof {
                    lemma_take_put(before, self@.uuid, i as int, guild_id, guild@);
                    if before.wf() {
                        assert(before.accounts[i as int].wf());
                        lemma_with_guild_wf(before, self@.uuid, guild_id, guild@);
                    }
                }
                state.put_guild(i, guild_id, guild);
            }
        }
    }
}

} // verus!
