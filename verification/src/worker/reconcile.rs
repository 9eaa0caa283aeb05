//! The reconciliation pass: the engine's state, as snapshots, goes into the
//! guild records, and the index forgets the tracks that the engine no longer
//! holds.

use crate::engine::{
    EngineSnapshot, EngineSnapshotView, GuildSync, GuildSyncView, PlayMode, TrackInfoView,
};
use crate::liveness::{lemma_pass_keeps_handles, lemma_with_guild_keeps_handles, same_handles};
use crate::state::{
    lemma_first_is_position, lemma_position_is_first, lemma_take_put, lemma_with_account_reads,
    lemma_with_guild_wf, AccountStateView, AppState, AppStateView, GuildStateView, TrackMetadata,
    TrackMetadataView, Volume, FULL_VOLUME_BITS,
};
use crate::worker::{BotInstance, BotInstanceView};
use std::collections::{HashMap, VecDeque};
use vstd::prelude::*;
use vstd::std_specs::iter::IteratorSpec;

verus! {

/// The metadata of those of `handles` that the index knows, in their order.
/// A handle that the index does not know contributes nothing.
pub open spec fn known(handles: Seq<u128>, tracks: Map<u128, TrackMetadataView>) -> Seq<
    TrackMetadataView,
>
    decreases handles.len(),
{
    if handles.len() == 0 {
        Seq::empty()
    } else {
        let rest = known(handles.drop_last(), tracks);
        if tracks.contains_key(handles.last()) {
            rest.push(tracks[handles.last()])
        } else {
            rest
        }
    }
}

/// The visible queue: the metadata of what the engine holds behind the
/// track that plays now.
pub open spec fn upcoming(queue: Seq<u128>, tracks: Map<u128, TrackMetadataView>) -> Seq<
    TrackMetadataView,
> {
    if queue.len() == 0 {
        Seq::empty()
    } else {
        known(queue.subrange(1, queue.len() as int), tracks)
    }
}

/// What the engine said of the current track, if there is one and the
/// engine answered for it.
pub open spec fn current_info(snapshot: EngineSnapshotView) -> Option<TrackInfoView> {
    match snapshot.current {
        Some(c) => c.info,
        None => None,
    }
}

/// The record of a guild, rebuilt from a snapshot of the engine: play
/// state, position, volume, current track, visible queue and joined channel
/// come from the snapshot; the rest of the record stays.
pub open spec fn reconciled(
    guild: GuildStateView,
    snapshot: EngineSnapshotView,
    tracks: Map<u128, TrackMetadataView>,
) -> GuildStateView {
    GuildStateView {
        is_playing: match current_info(snapshot) {
            Some(info) => info.mode is Play,
            None => false,
        },
        is_paused: match current_info(snapshot) {
            Some(info) => info.mode is Pause,
            None => false,
        },
        position_secs: match current_info(snapshot) {
            Some(info) => info.position_secs,
            None => 0,
        },
        volume: match current_info(snapshot) {
            Some(info) => info.volume,
            None => Volume { bits: FULL_VOLUME_BITS },
        },
        now_playing: match snapshot.current {
            Some(c) => if c.info is Some && tracks.contains_key(c.handle) {
                Some(tracks[c.handle])
            } else {
                None
            },
            None => None,
        },
        queue: upcoming(snapshot.queue, tracks),
        channel_id: snapshot.channel_id,
        ..guild
    }
}

/// The store after the record of one guild was rebuilt from its snapshot.
/// A guild that the account does not know is passed over.
pub open spec fn synced_one(
    s: AppStateView,
    uuid: Seq<char>,
    sync: GuildSyncView,
    tracks: Map<u128, TrackMetadataView>,
) -> AppStateView {
    s.with_guild(
        uuid,
        sync.guild_id,
        reconciled(s.guild(uuid, sync.guild_id), sync.snapshot, tracks),
    )
}

/// The store after the records of the guilds of `syncs` were rebuilt, one
/// after the other.
pub open spec fn synced(
    s: AppStateView,
    uuid: Seq<char>,
    syncs: Seq<GuildSyncView>,
    tracks: Map<u128, TrackMetadataView>,
) -> AppStateView
    decreases syncs.len(),
{
    if syncs.len() == 0 {
        s
    } else {
        synced_one(synced(s, uuid, syncs.drop_last(), tracks), uuid, syncs.last(), tracks)
    }
}

/// What the engine holds for a guild without a call: nothing.
pub open spec fn idle() -> EngineSnapshotView {
    EngineSnapshotView { current: None, queue: Seq::empty(), channel_id: None }
}

/// Whether the pass holds a snapshot for the guild.
pub open spec fn listed(syncs: Seq<GuildSyncView>, guild_id: u64) -> bool {
    exists|k: int| 0 <= k < syncs.len() && (#[trigger] syncs[k]).guild_id == guild_id
}

/// The guilds of an account after those of `done` for which the pass holds
/// no snapshot were rebuilt from the idle snapshot.
pub open spec fn idled(
    guilds: Map<u64, GuildStateView>,
    done: Set<u64>,
    syncs: Seq<GuildSyncView>,
    tracks: Map<u128, TrackMetadataView>,
) -> Map<u64, GuildStateView> {
    Map::new(
        |g: u64| guilds.contains_key(g),
        |g: u64|
            if done.contains(g) && !listed(syncs, g) {
                reconciled(guilds[g], idle(), tracks)
            } else {
                guilds[g]
            },
    )
}

/// The store after the guilds of `done` for which the pass holds no
/// snapshot were rebuilt from the idle snapshot.
pub open spec fn settled(
    s: AppStateView,
    uuid: Seq<char>,
    done: Set<u64>,
    syncs: Seq<GuildSyncView>,
    tracks: Map<u128, TrackMetadataView>,
) -> AppStateView {
    s.with_account(
        uuid,
        AccountStateView {
            guilds: idled(s.account(uuid).guilds, done, syncs, tracks),
            ..s.account(uuid)
        },
    )
}

/// The store after a reconciliation pass: every guild that the account
/// knows is rebuilt, from its snapshot where the pass holds one, and from
/// the idle snapshot where it holds none.
pub open spec fn passed(
    s: AppStateView,
    uuid: Seq<char>,
    syncs: Seq<GuildSyncView>,
    tracks: Map<u128, TrackMetadataView>,
) -> AppStateView {
    let listed_done = synced(s, uuid, syncs, tracks);
    settled(listed_done, uuid, listed_done.account(uuid).guilds.dom(), syncs, tracks)
}

/// The handles that the engine still holds in any of the snapshots.
pub open spec fn active_handles(syncs: Seq<GuildSyncView>) -> Set<u128> {
    Set::new(
        |h: u128| exists|k: int| 0 <= k < syncs.len() && (#[trigger] syncs[k]).snapshot.holds(h),
    )
}

/// The worker after a reconciliation pass: its index keeps the handles that
/// the engine still holds, and no others.
pub open spec fn pruned(w: BotInstanceView, syncs: Seq<GuildSyncView>) -> BotInstanceView {
    BotInstanceView { tracks: w.tracks.restrict(active_handles(syncs)), ..w }
}

/// The handles that one snapshot holds as current or among the first `j`
/// entries of its queue.
pub open spec fn held_upto(snapshot: EngineSnapshotView, j: int) -> Set<u128> {
    Set::new(
        |h: u128|
            (snapshot.current matches Some(c) && c.handle == h) || snapshot.queue.take(j).contains(
                h,
            ),
    )
}

/// Moves the entry of `handle`, if `from` has one, over to `to`.
fn move_entry(
    from: &mut HashMap<u128, TrackMetadata>,
    to: &mut HashMap<u128, TrackMetadata>,
    handle: u128,
)
    ensures
        final(from)@ == old(from)@.remove(handle),
        final(to)@ == (if old(from)@.contains_key(handle) {
            old(to)@.insert(handle, old(from)@[handle])
        } else {
            old(to)@
        }),
{
    broadcast use vstd::std_specs::hash::group_hash_axioms;

    if let Some(meta) = from.remove(&handle) {
        to.insert(handle, meta);
    }
}

impl BotInstance {
    /// The metadata that the index holds for `handle`, copied.
    fn lookup(&self, handle: u128) -> (found: Option<TrackMetadata>)
        ensures
            found is Some <==> self@.tracks.contains_key(handle),
            found matches Some(m) ==> m@ == self@.tracks[handle],
    {
        broadcast use vstd::std_specs::hash::group_hash_axioms;

        match self.track_lookup.get(&handle) {
            Some(meta) => Some(meta.clone()),
            None => None,
        }
    }

    /// The visible queue for the engine queue `queue`.
    fn visible_queue(&self, queue: &Vec<u128>) -> (out: VecDeque<TrackMetadata>)
        ensures
            out.deep_view() == upcoming(queue@, self@.tracks),
    {
        broadcast use vstd::std_specs::vecdeque::group_vec_dequeue_axioms;

        let mut out: VecDeque<TrackMetadata> = VecDeque::new();
        if queue.len() == 0 {
            assert(out.deep_view() =~= upcoming(queue@, self@.tracks));
            return out;
        }
        let mut k: usize = 1;
        assert(queue@.subrange(1, 1) =~= Seq::<u128>::empty());
        assert(out.deep_view() =~= known(queue@.subrange(1, 1), self@.tracks));
        while k < queue.len()
            invariant
                1 <= k <= queue.len(),
                out.deep_view() == known(queue@.subrange(1, k as int), self@.tracks),
            decreases queue.len() - k,
        {
            let ghost prefix = queue@.subrange(1, k as int);
            let ghost grown = queue@.subrange(1, k as int + 1);
            let ghost before = out.deep_view();
            assert(grown.drop_last() =~= prefix);
            assert(grown.last() == queue@[k as int]);
            if let Some(meta) = self.lookup(queue[k]) {
                out.push_back(meta);
                assert(out.deep_view() =~= before.push(meta@));
            }
            k += 1;
        }
        assert(queue@.subrange(1, queue.len() as int) == queue@.subrange(1, k as int));
        out
    }

    /// Rebuilds the record of one guild from a snapshot of the engine. A
    /// handle that the index does not know is left out of what is shown.
    pub fn sync_guild(&self, state: &mut AppState, sync: &GuildSync)
        ensures
            final(state)@ == synced_one(old(state)@, self@.uuid, sync@, self@.tracks),
            same_handles(old(state)@, final(state)@),
            old(state)@.wf() ==> final(state)@.wf(),
    {
        proof {
            lemma_with_guild_keeps_handles(
                state@,
                self@.uuid,
                sync.guild_id,
                reconciled(state@.guild(self@.uuid, sync.guild_id), sync@.snapshot, self@.tracks),
            );
        }
        let ghost before = state@;
        if let Some(i) = state.find(self.uuid.as_str()) {
            proof {
                lemma_first_is_position(before, self@.uuid, i as int);
            }
            if let Some(mut guild) = state.take_guild(i, sync.guild_id) {
                let ghost old_guild = guild@;
                let mut now_playing: Option<TrackMetadata> = None;
                let mut is_playing = false;
                let mut is_paused = false;
                let mut position: u64 = 0;
                let mut volume = Volume { bits: FULL_VOLUME_BITS };
                if let Some(track) = &sync.snapshot.current {
                    if let Some(info) = &track.info {
                        is_playing = match &info.mode {
                            PlayMode::Play => true,
                            _ => false,
                        };
                        is_paused = match &info.mode {
                            PlayMode::Pause => true,
                            _ => false,
                        };
                        position = info.position_secs;
                        volume = info.volume;
                        now_playing = self.lookup(track.handle);
                    }
                }
                let queue = self.visible_queue(&sync.snapshot.queue);
                guild.is_playing = is_playing;
                guild.is_paused = is_paused;
                guild.position_secs = position;
                guild.volume = volume;
                guild.now_playing = now_playing;
                guild.queue = queue;
                guild.channel_id = sync.snapshot.channel_id;
                proof {
                    assert(guild@ =~= reconciled(old_guild, sync@.snapshot, self@.tracks));
                    lemma_take_put(before, self@.uuid, i as int, sync.guild_id, guild@);
                    if before.wf() {
                        assert(before.accounts[i as int].wf());
                        lemma_with_guild_wf(before, self@.uuid, sync.guild_id, guild@);
                    }
                }
                state.put_guild(i, sync.guild_id, guild);
            }
        }
    }

    /// Drops from the index every handle that none of the snapshots holds.
    pub fn prune(&mut self, snapshots: &Vec<GuildSync>)
        ensures
            final(self)@ == pruned(old(self)@, snapshots.deep_view()),
    {
        broadcast use vstd::std_specs::hash::group_hash_axioms;

        let ghost orig = self.track_lookup@;
        let ghost syncs = snapshots.deep_view();
        let mut kept: HashMap<u128, TrackMetadata> = HashMap::new();
        let ghost mut seen: Set<u128> = Set::empty();
        let mut k: usize = 0;
        assert(active_handles(syncs.take(0)) =~= Set::<u128>::empty());
        assert(kept@ =~= orig.restrict(seen));
        assert(self.track_lookup@ =~= orig.remove_keys(seen));
        while k < snapshots.len()
            invariant
                k <= snapshots.len(),
                syncs == snapshots.deep_view(),
                self.uuid == old(self).uuid,
                seen == active_handles(syncs.take(k as int)),
                kept@ == orig.restrict(seen),
                self.track_lookup@ == orig.remove_keys(seen),
            decreases snapshots.len() - k,
        {
            let snapshot = &snapshots[k].snapshot;
            let ghost base = seen;
            assert(syncs[k as int].snapshot == snapshot@);
            if let Some(c) = &snapshot.current {
                move_entry(&mut self.track_lookup, &mut kept, c.handle);
                proof {
                    seen = seen.insert(c.handle);
                }
            }
            assert(snapshot@.queue.take(0) =~= Seq::<u128>::empty());
            assert(seen =~= base.union(held_upto(snapshot@, 0)));
            assert(kept@ =~= orig.restrict(seen));
            assert(self.track_lookup@ =~= orig.remove_keys(seen));
            let mut j: usize = 0;
            while j < snapshot.queue.len()
                invariant
                    j <= snapshot.queue.len(),
                    self.uuid == old(self).uuid,
                    seen == base.union(held_upto(snapshot@, j as int)),
                    kept@ == orig.restrict(seen),
                    self.track_lookup@ == orig.remove_keys(seen),
                decreases snapshot.queue.len() - j,
            {
                let handle = snapshot.queue[j];
                let ghost prior = seen;
                move_entry(&mut self.track_lookup, &mut kept, handle);
                proof {
                    seen = seen.insert(handle);
                    assert(snapshot@.queue.take(j as int + 1) =~= snapshot@.queue.take(
                        j as int,
                    ).push(handle));
                    assert forall|h: u128| held_upto(snapshot@, j as int + 1).contains(h)
                        <==> held_upto(snapshot@, j as int).contains(h) || h == handle by {
                        vstd::seq_lib::lemma_seq_contains_after_push(
                            snapshot@.queue.take(j as int),
                            handle,
                            h,
                        );
                    }
                    assert forall|h: u128| seen.contains(h) <==> base.union(
                        held_upto(snapshot@, j as int + 1),
                    ).contains(h) by {
                        assert(seen.contains(h) <==> prior.contains(h) || h == handle);
                        assert(prior.contains(h) <==> base.contains(h) || held_upto(
                            snapshot@,
                            j as int,
                        ).contains(h));
                    }
                    assert(seen =~= base.union(held_upto(snapshot@, j as int + 1)));
                    assert(kept@ =~= orig.restrict(seen));
                    assert(self.track_lookup@ =~= orig.remove_keys(seen));
                }
                j += 1;
            }
            proof {
                lemma_active_step(syncs, k as int);
            }
            k += 1;
        }
        assert(syncs.take(k as int) =~= syncs);
        self.track_lookup = kept;
        assert(self@.tracks =~= old(self)@.tracks.restrict(active_handles(syncs)));
    }

    /// Whether `snapshots` holds a snapshot for the guild.
    pub fn is_listed(snapshots: &Vec<GuildSync>, guild_id: u64) -> (found: bool)
        ensures
            found == listed(snapshots.deep_view(), guild_id),
    {
        let mut k: usize = 0;
        while k < snapshots.len()
            invariant
                k <= snapshots.len(),
                forall|j: int| 0 <= j < k ==> (#[trigger] snapshots.deep_view()[j]).guild_id != guild_id,
            decreases snapshots.len() - k,
        {
            if snapshots[k].guild_id == guild_id {
                assert(snapshots.deep_view()[k as int].guild_id == guild_id);
                return true;
            }
            k += 1;
        }
        false
    }

    /// One reconciliation pass. Where the store knows the worker's account,
    /// rebuilds the record of every guild that the account knows: each guild
    /// in `snapshots` from its snapshot, in their order, and each guild for
    /// which `snapshots` holds nothing as a guild with nothing loaded. Then
    /// drops from the index every handle that none of the snapshots holds.
    /// Where the store does not know the account, changes nothing.
    pub fn sync_state(&mut self, state: &mut AppState, snapshots: &Vec<GuildSync>)
        ensures
            old(state)@.has_account(old(self)@.uuid) ==> final(state)@ == passed(
                old(state)@,
                old(self)@.uuid,
                snapshots.deep_view(),
                old(self)@.tracks,
            ) && final(self)@ == pruned(old(self)@, snapshots.deep_view()),
            !old(state)@.has_account(old(self)@.uuid) ==> final(state)@ == old(state)@
                && final(self)@ == old(self)@,
            forall|g: u64|
                #![trigger final(state)@.guild(old(self)@.uuid, g)]
                old(state)@.has_guild(old(self)@.uuid, g) && !listed(snapshots.deep_view(), g)
                    ==> final(state)@.has_guild(old(self)@.uuid, g) && final(state)@.guild(
                    old(self)@.uuid,
                    g,
                ) == reconciled(old(state)@.guild(old(self)@.uuid, g), idle(), old(self)@.tracks),
            same_handles(old(state)@, final(state)@),
            old(state)@.wf() ==> final(state)@.wf(),
    {
        proof {
            lemma_pass_keeps_handles(state@, self@.uuid, snapshots.deep_view(), self@.tracks);
        }
        let ghost before = state@;
        let ghost syncs = snapshots.deep_view();
        if state.find(self.uuid.as_str()).is_none() {
            return;
        }
        let mut k: usize = 0;
        assert(syncs.take(0) =~= Seq::<GuildSyncView>::empty());
        while k < snapshots.len()
            invariant
                k <= snapshots.len(),
                syncs == snapshots.deep_view(),
                self@ == old(self)@,
                state@ == synced(before, self@.uuid, syncs.take(k as int), self@.tracks),
                before.wf() ==> state@.wf(),
            decreases snapshots.len() - k,
        {
            assert(syncs.take(k as int + 1).drop_last() =~= syncs.take(k as int));
            assert(syncs.take(k as int + 1).last() == snapshots[k as int]@);
            self.sync_guild(state, &snapshots[k]);
            k += 1;
        }
        assert(syncs.take(k as int) =~= syncs);
        let ghost listed_done = state@;
        if let Some(ids) = self.active_guilds(state) {
            let ghost guilds = listed_done.account(self@.uuid).guilds;
            let mut j: usize = 0;
            proof {
                assert(ids@.take(0) =~= Seq::<u64>::empty());
                lemma_settled_nothing(listed_done, self@.uuid, syncs, self@.tracks);
                assert(ids@.take(0).to_set() =~= Set::<u64>::empty());
            }
            while j < ids.len()
                invariant
                    j <= ids.len(),
                    syncs == snapshots.deep_view(),
                    self@ == old(self)@,
                    listed_done.has_account(self@.uuid),
                    guilds == listed_done.account(self@.uuid).guilds,
                    ids@.no_duplicates(),
                    ids@.to_set() == guilds.dom(),
                    state@ == settled(
                        listed_done,
                        self@.uuid,
                        ids@.take(j as int).to_set(),
                        syncs,
                        self@.tracks,
                    ),
                    before.wf() ==> state@.wf(),
                decreases ids.len() - j,
            {
                let id = ids[j];
                let ghost done = ids@.take(j as int).to_set();
                proof {
                    assert(ids@.to_set().contains(ids@[j as int]));
                    assert(!done.contains(id)) by {
                        if ids@.take(j as int).contains(id) {
                            let w = choose|w: int|
                                0 <= w < ids@.take(j as int).len() && ids@.take(j as int)[w] == id;
                            assert(ids@[w] == ids@[j as int]);
                        }
                    }
                    assert(ids@.take(j as int + 1) =~= ids@.take(j as int).push(id));
                    assert(ids@.take(j as int + 1).to_set() =~= done.insert(id)) by {
                        assert forall|x: u64| ids@.take(j as int + 1).to_set().contains(x)
                            <==> done.insert(id).contains(x) by {
                            vstd::seq_lib::lemma_seq_contains_after_push(
                                ids@.take(j as int),
                                id,
                                x,
                            );
                        }
                    }
                    lemma_settle_step(listed_done, self@.uuid, done, id, syncs, self@.tracks);
                }
                if !Self::is_listed(snapshots, id) {
                    let nothing = GuildSync {
                        guild_id: id,
                        snapshot: EngineSnapshot {
                            current: None,
                            queue: Vec::new(),
                            channel_id: None,
                        },
                    };
                    assert(nothing@.snapshot =~= idle());
                    self.sync_guild(state, &nothing);
                }
                j += 1;
            }
            proof {
                assert(ids@.take(j as int) =~= ids@);
            }
        } else {
            proof {
                assert(!listed_done.has_account(self@.uuid));
            }
        }
        proof {
            assert(state@ == passed(before, self@.uuid, syncs, self@.tracks));
            assert forall|g: u64|
                before.has_guild(self@.uuid, g) && !listed(syncs, g) implies state@.has_guild(
                self@.uuid,
                g,
            ) && #[trigger] state@.guild(self@.uuid, g) == reconciled(
                before.guild(self@.uuid, g),
                idle(),
                self@.tracks,
            ) by {
                lemma_pass_settles_unlisted(before, self@.uuid, syncs, self@.tracks, g);
            }
        }
        self.prune(snapshots);
    }

    /// The guilds that the worker's account knows, in no particular order;
    /// nothing where the store does not know the account.
    pub fn active_guilds(&self, state: &AppState) -> (ids: Option<Vec<u64>>)
        ensures
            ids is Some <==> state@.has_account(self@.uuid),
            ids matches Some(v) ==> v@.no_duplicates() && v@.to_set() == state@.account(
                self@.uuid,
            ).guilds.dom(),
    {
        broadcast use vstd::std_specs::hash::group_hash_axioms;

        match state.account(self.uuid.as_str()) {
            Some(account) => {
                let mut ids: Vec<u64> = Vec::new();
                let ghost all = vstd::std_specs::hash::spec_keys_iter(&account.guilds).remaining();
                for id in it: account.guilds.keys()
                    invariant
                        it.seq() == all,
                        ids@ == all.take(it.index()).unref(),
                {
                    ids.push(*id);
                    assert(all.take(it.index() + 1).unref() =~= all.take(it.index()).unref().push(
                        *id,
                    ));
                }
                proof {
                    assert(ids@ =~= all.unref());
                    assert(account@.guilds.dom() =~= account.guilds@.dom());
                    assert forall|i: int, j: int|
                        0 <= i < ids@.len() && 0 <= j < ids@.len() && i != j implies ids@[i]
                        != ids@[j] by {
                        assert(all[i] != all[j]);
                    }
                }
                Some(ids)
            },
            None => None,
        }
    }
}

/// The handles of one more snapshot are those of the snapshots before it
/// and its own.
pub proof fn lemma_active_step(syncs: Seq<GuildSyncView>, k: int)
    requires
        0 <= k < syncs.len(),
    ensures
        active_handles(syncs.take(k + 1)) == active_handles(syncs.take(k)).union(
            held_upto(syncs[k].snapshot, syncs[k].snapshot.queue.len() as int),
        ),
{
    let more = syncs.take(k + 1);
    let less = syncs.take(k);
    let own = held_upto(syncs[k].snapshot, syncs[k].snapshot.queue.len() as int);
    assert(syncs[k].snapshot.queue.take(syncs[k].snapshot.queue.len() as int)
        =~= syncs[k].snapshot.queue);
    assert forall|h: u128| active_handles(more).contains(h) implies active_handles(less).union(
        own,
    ).contains(h) by {
        let i = choose|i: int| 0 <= i < more.len() && (#[trigger] more[i]).snapshot.holds(h);
        if i < k {
            assert(less[i].snapshot.holds(h));
        } else {
            assert(own.contains(h));
        }
    }
    assert forall|h: u128| active_handles(less).union(own).contains(h) implies active_handles(
        more,
    ).contains(h) by {
        if active_handles(less).contains(h) {
            let i = choose|i: int| 0 <= i < less.len() && (#[trigger] less[i]).snapshot.holds(h);
            assert(more[i].snapshot.holds(h));
        } else {
            assert(more[k].snapshot.holds(h));
        }
    }
    assert(active_handles(more) =~= active_handles(less).union(own));
}

/// A handle that the engine holds in none of the snapshots of a pass is not
/// in the index after the pass, and every handle that stays keeps its
/// metadata.
pub proof fn lemma_prune_forgets_ended(w: BotInstanceView, syncs: Seq<GuildSyncView>, handle: u128)
    ensures
        !active_handles(syncs).contains(handle) ==> !pruned(w, syncs).tracks.contains_key(handle),
        pruned(w, syncs).tracks.contains_key(handle) ==> w.tracks.contains_key(handle) && pruned(
            w,
            syncs,
        ).tracks[handle] == w.tracks[handle],
        w.tracks.contains_key(handle) && active_handles(syncs).contains(handle) ==> pruned(
            w,
            syncs,
        ).tracks.contains_key(handle),
{
}

/// A guild whose snapshot holds no current track shows none after the
/// pass, and is neither playing nor paused.
pub proof fn lemma_idle_engine_shows_nothing(
    guild: GuildStateView,
    snapshot: EngineSnapshotView,
    tracks: Map<u128, TrackMetadataView>,
)
    requires
        snapshot.current is None,
    ensures
        reconciled(guild, snapshot, tracks).now_playing is None,
        !reconciled(guild, snapshot, tracks).is_playing,
        !reconciled(guild, snapshot, tracks).is_paused,
{
}

/// A rebuilt record never plays and pauses at once, whatever the snapshot
/// holds.
pub proof fn lemma_reconciled_wf(
    guild: GuildStateView,
    snapshot: EngineSnapshotView,
    tracks: Map<u128, TrackMetadataView>,
)
    ensures
        reconciled(guild, snapshot, tracks).wf(),
        reconciled(guild, snapshot, tracks).guild_id == guild.guild_id,
{
}

/// Before any guild is settled the store is as the snapshots left it.
pub proof fn lemma_settled_nothing(
    s: AppStateView,
    uuid: Seq<char>,
    syncs: Seq<GuildSyncView>,
    tracks: Map<u128, TrackMetadataView>,
)
    ensures
        settled(s, uuid, Set::empty(), syncs, tracks) == s,
{
    if s.has_account(uuid) {
        lemma_position_is_first(s, uuid);
        let account = s.account(uuid);
        assert(idled(account.guilds, Set::empty(), syncs, tracks) =~= account.guilds);
        assert(settled(s, uuid, Set::empty(), syncs, tracks).accounts =~= s.accounts);
    }
}

/// Settling one more guild: a guild with a snapshot stays as its snapshot
/// left it, and a guild without one is rebuilt from the idle snapshot.
pub proof fn lemma_settle_step(
    s: AppStateView,
    uuid: Seq<char>,
    done: Set<u64>,
    guild_id: u64,
    syncs: Seq<GuildSyncView>,
    tracks: Map<u128, TrackMetadataView>,
)
    requires
        s.has_account(uuid),
        s.account(uuid).guilds.contains_key(guild_id),
        !done.contains(guild_id),
    ensures
        listed(syncs, guild_id) ==> settled(s, uuid, done.insert(guild_id), syncs, tracks)
            == settled(s, uuid, done, syncs, tracks),
        !listed(syncs, guild_id) ==> settled(s, uuid, done.insert(guild_id), syncs, tracks)
            == synced_one(
            settled(s, uuid, done, syncs, tracks),
            uuid,
            GuildSyncView { guild_id, snapshot: idle() },
            tracks,
        ),
{
    lemma_position_is_first(s, uuid);
    let p = s.position(uuid);
    let account = s.account(uuid);
    let now = AccountStateView { guilds: idled(account.guilds, done, syncs, tracks), ..account };
    let next = AccountStateView {
        guilds: idled(account.guilds, done.insert(guild_id), syncs, tracks),
        ..account
    };
    let before = settled(s, uuid, done, syncs, tracks);
    lemma_with_account_reads(s, uuid, now);
    if listed(syncs, guild_id) {
        assert(next.guilds =~= now.guilds);
    } else {
        let rebuilt = reconciled(before.guild(uuid, guild_id), idle(), tracks);
        assert(before.has_guild(uuid, guild_id));
        assert(before.guild(uuid, guild_id) == account.guilds[guild_id]);
        assert(now.guilds.insert(guild_id, rebuilt) =~= next.guilds);
        assert(before.with_guild(uuid, guild_id, rebuilt).accounts =~= s.accounts.update(p, next));
    }
}

/// The snapshots of a pass leave a guild alone for which the pass holds
/// none, and they leave the account in its place.
pub proof fn lemma_synced_keeps_unlisted(
    s: AppStateView,
    uuid: Seq<char>,
    syncs: Seq<GuildSyncView>,
    tracks: Map<u128, TrackMetadataView>,
    guild_id: u64,
)
    requires
        s.has_account(uuid),
        !listed(syncs, guild_id),
    ensures
        synced(s, uuid, syncs, tracks).has_account(uuid),
        synced(s, uuid, syncs, tracks).has_guild(uuid, guild_id) == s.has_guild(uuid, guild_id),
        s.has_guild(uuid, guild_id) ==> synced(s, uuid, syncs, tracks).guild(uuid, guild_id)
            == s.guild(uuid, guild_id),
    decreases syncs.len(),
{
    if syncs.len() > 0 {
        let rest = syncs.drop_last();
        let last = syncs.last();
        assert(!listed(rest, guild_id)) by {
            if listed(rest, guild_id) {
                let k = choose|k: int| 0 <= k < rest.len() && (#[trigger] rest[k]).guild_id == guild_id;
                assert(syncs[k].guild_id == guild_id);
            }
        }
        assert(last.guild_id != guild_id) by {
            assert(syncs[syncs.len() - 1] == last);
        }
        lemma_synced_keeps_unlisted(s, uuid, rest, tracks, guild_id);
        let prev = synced(s, uuid, rest, tracks);
        if prev.has_guild(uuid, last.guild_id) {
            lemma_position_is_first(prev, uuid);
            let account = prev.account(uuid);
            let rebuilt = reconciled(prev.guild(uuid, last.guild_id), last.snapshot, tracks);
            lemma_with_account_reads(prev, uuid, account.with_guild(last.guild_id, rebuilt));
        }
    }
}

/// A pass rebuilds every guild that the account knows: a guild for which it
/// holds no snapshot is afterwards a guild with nothing loaded.
pub proof fn lemma_pass_settles_unlisted(
    s: AppStateView,
    uuid: Seq<char>,
    syncs: Seq<GuildSyncView>,
    tracks: Map<u128, TrackMetadataView>,
    guild_id: u64,
)
    requires
        s.has_guild(uuid, guild_id),
        !listed(syncs, guild_id),
    ensures
        passed(s, uuid, syncs, tracks).has_guild(uuid, guild_id),
        passed(s, uuid, syncs, tracks).guild(uuid, guild_id) == reconciled(
            s.guild(uuid, guild_id),
            idle(),
            tracks,
        ),
        passed(s, uuid, syncs, tracks).guild(uuid, guild_id).now_playing is None,
        passed(s, uuid, syncs, tracks).guild(uuid, guild_id).queue.len() == 0,
        !passed(s, uuid, syncs, tracks).guild(uuid, guild_id).is_playing,
{
    lemma_synced_keeps_unlisted(s, uuid, syncs, tracks, guild_id);
    let t = synced(s, uuid, syncs, tracks);
    lemma_position_is_first(t, uuid);
    let account = t.account(uuid);
    lemma_with_account_reads(
        t,
        uuid,
        AccountStateView {
            guilds: idled(account.guilds, account.guilds.dom(), syncs, tracks),
            ..account
        },
    );
}

} // verus!
