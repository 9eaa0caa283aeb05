//! The observer of a track's events: it patches the store at once when a
//! track ends or fails, without waiting for the next reconciliation pass.

use crate::engine::{PlayMode, PlayModeView};
use crate::liveness::{lemma_observer_keeps_handles, same_handles};
use crate::state::{
    lemma_first_is_position, lemma_take_put, lemma_with_guild_wf, logged_all, AppState,
    AppStateView, GuildStateView,
};
use crate::text::{decimal, push_decimal, tagged};
use vstd::prelude::*;
use vstd::string::*;

verus! {

/// The observer registered for the tracks of one guild of one account.
#[derive(Debug)]
pub struct TrackObserver {
    pub uuid: String,
    pub guild_id: u64,
}

/// The line that goes to the log for a failed track. It carries no time
/// stamp.
pub open spec fn playback_error_line(uuid: Seq<char>, guild_id: u64, error: Seq<char>) -> Seq<char> {
    tagged(uuid, "Playback Error in guild "@ + decimal(guild_id as nat) + ": "@ + error)
}

/// The lines for the failed tracks among `events`, in their order.
pub open spec fn error_lines(uuid: Seq<char>, guild_id: u64, events: Seq<PlayModeView>) -> Seq<
    Seq<char>,
>
    decreases events.len(),
{
    if events.len() == 0 {
        Seq::empty()
    } else {
        let rest = error_lines(uuid, guild_id, events.drop_last());
        match events.last() {
            PlayModeView::Errored(e) => rest.push(playback_error_line(uuid, guild_id, e)),
            _ => rest,
        }
    }
}

/// Whether one of `events` reports the end of a track.
pub open spec fn any_ended(events: Seq<PlayModeView>) -> bool {
    exists|i: int| 0 <= i < events.len() && (#[trigger] events[i]) is End
}

/// The record of a guild after the events of a track: the end of a track
/// clears the current track and the playing flag; nothing else changes.
pub open spec fn after_events(guild: GuildStateView, events: Seq<PlayModeView>) -> GuildStateView {
    if any_ended(events) {
        GuildStateView { now_playing: None, is_playing: false, ..guild }
    } else {
        guild
    }
}

/// The store after the observer of the guild `guild_id` of the account
/// `uuid` took `events`. Where the store does not know the guild, nothing
/// changes.
pub open spec fn observed(
    s: AppStateView,
    uuid: Seq<char>,
    guild_id: u64,
    events: Seq<PlayModeView>,
) -> AppStateView {
    if s.has_guild(uuid, guild_id) {
        let patched = s.with_guild(uuid, guild_id, after_events(s.guild(uuid, guild_id), events));
        logged_all(patched, error_lines(uuid, guild_id, events))
    } else {
        s
    }
}

impl TrackObserver {
    /// The line for a failed track.
    pub fn error_line(&self, error: &str) -> (line: String)
        ensures
            line@ == playback_error_line(self.uuid@, self.guild_id, error@),
    {
        let mut line = String::from_str("[");
        line.append(self.uuid.as_str());
        line.append("] ");
        line.append("Playback Error in guild ");
        push_decimal(&mut line, self.guild_id);
        line.append(": ");
        line.append(error);
        proof {
            reveal_strlit("[");
            reveal_strlit("] ");
            assert("["@ =~= seq!['[']);
            assert("] "@ =~= seq![']', ' ']);
            assert(line@ =~= playback_error_line(self.uuid@, self.guild_id, error@));
        }
        line
    }

    /// Takes the states that the engine reports with an event of a track.
    /// The end of a track clears the guild's current track and its playing
    /// flag. Each failure sends a line to the system log and changes no flag.
    /// Where the store does not know the account or the guild, nothing
    /// changes.
    pub fn act(&self, state: &mut AppState, events: &Vec<PlayMode>)
        ensures
            final(state)@ == observed(old(state)@, self.uuid@, self.guild_id, events.deep_view()),
            same_handles(old(state)@, final(state)@),
            old(state)@.wf() ==> final(state)@.wf(),
    {
        proof {
            lemma_observer_keeps_handles(state@, self.uuid@, self.guild_id, events.deep_view());
        }
        let ghost before = state@;
        let ghost all = events.deep_view();
        if let Some(i) = state.find(self.uuid.as_str()) {
            proof {
                lemma_first_is_position(before, self.uuid@, i as int);
            }
            if let Some(mut guild) = state.take_guild(i, self.guild_id) {
                let ghost old_guild = guild@;
                let mut errors: Vec<String> = Vec::new();
                let mut ended = false;
                let mut k: usize = 0;
                assert(all.take(0) =~= Seq::<PlayModeView>::empty());
                assert(errors.deep_view() =~= error_lines(self.uuid@, self.guild_id, all.take(0)));
                while k < events.len()
                    invariant
                        k <= events.len(),
                        all == events.deep_view(),
                        errors.deep_view() == error_lines(
                            self.uuid@,
                            self.guild_id,
                            all.take(k as int),
                        ),
                        ended == any_ended(all.take(k as int)),
                    decreases events.len() - k,
                {
                    let ghost lines = errors.deep_view();
                    proof {
                        assert(all.take(k as int + 1).drop_last() =~= all.take(k as int));
                        assert(all.take(k as int + 1).last() == events[k as int]@);
                        assert(any_ended(all.take(k as int + 1)) <==> any_ended(all.take(k as int))
                            || events[k as int]@ is End) by {
                            if any_ended(all.take(k as int)) {
                                let w = choose|w: int|
                                    0 <= w < all.take(k as int).len() && (#[trigger] all.take(
                                        k as int,
                                    )[w]) is End;
                                assert(all.take(k as int + 1)[w] is End);
                            }
                            if events[k as int]@ is End {
                                assert(all.take(k as int + 1)[k as int] is End);
                            }
                            if any_ended(all.take(k as int + 1)) {
                                let w = choose|w: int|
                                    0 <= w < all.take(k as int + 1).len() && (#[trigger] all.take(
                                        k as int + 1,
                                    )[w]) is End;
                                if w < k {
                                    assert(all.take(k as int)[w] is End);
                                }
                            }
                        }
                    }
                    match &events[k] {
                        PlayMode::Errored(e) => {
                            let line = self.error_line(e.as_str());
                            errors.push(line);
                            assert(errors.deep_view() =~= lines.push(line@));
                        },
                        PlayMode::End => {
                            ended = true;
                        },
                        _ => {},
                    }
                    k += 1;
                }
                assert(all.take(k as int) =~= all);
                if ended {
                    guild.now_playing = None;
                    guild.is_playing = false;
                }
                proof {
                    assert(guild@ =~= after_events(old_guild, all));
                    lemma_take_put(before, self.uuid@, i as int, self.guild_id, guild@);
                    if before.wf() {
                        assert(before.accounts[i as int].wf());
                        lemma_with_guild_wf(before, self.uuid@, self.guild_id, guild@);
                    }
                }
                state.put_guild(i, self.guild_id, guild);
                let ghost patched = state@;
                let ghost lines = errors.deep_view();
                let mut j: usize = 0;
                assert(lines.take(0) =~= Seq::<Seq<char>>::empty());
                while j < errors.len()
                    invariant
                        j <= errors.len(),
                        lines == errors.deep_view(),
                        state@ == logged_all(patched, lines.take(j as int)),
                        before.wf() ==> state@.wf(),
                    decreases errors.len() - j,
                {
                    proof {
                        assert(lines.take(j as int + 1).drop_last() =~= lines.take(j as int));
                        assert(lines.take(j as int + 1).last() == errors[j as int]@);
                    }
                    let line = errors[j].clone();
                    state.append_line(line);
                    j += 1;
                }
                assert(lines.take(j as int) =~= lines);
            }
        }
    }
}

/// Lines that go to the log leave the accounts as they are.
pub proof fn lemma_logging_keeps_accounts(s: AppStateView, lines: Seq<Seq<char>>)
    ensures
        logged_all(s, lines).accounts == s.accounts,
        logged_all(s, lines).ui_context == s.ui_context,
    decreases lines.len(),
{
    if lines.len() > 0 {
        lemma_logging_keeps_accounts(s, lines.drop_last());
    }
}

/// The end of a track is seen at once: after the observer took an end
/// event for a guild that the store knows, the guild shows no current track
/// and does not play.
pub proof fn lemma_end_clears_now_playing(
    s: AppStateView,
    uuid: Seq<char>,
    guild_id: u64,
    events: Seq<PlayModeView>,
)
    requires
        s.has_guild(uuid, guild_id),
        any_ended(events),
    ensures
        observed(s, uuid, guild_id, events).has_guild(uuid, guild_id),
        observed(s, uuid, guild_id, events).guild(uuid, guild_id).now_playing is None,
        !observed(s, uuid, guild_id, events).guild(uuid, guild_id).is_playing,
{
    crate::state::lemma_position_is_first(s, uuid);
    let patched_guild = after_events(s.guild(uuid, guild_id), events);
    crate::state::lemma_with_guild_reads(s, uuid, guild_id, patched_guild);
    let patched = s.with_guild(uuid, guild_id, patched_guild);
    let out = observed(s, uuid, guild_id, events);
    lemma_logging_keeps_accounts(patched, error_lines(uuid, guild_id, events));
    assert(out.accounts == patched.accounts);
    crate::state::lemma_position_is_first(patched, uuid);
    let p = patched.position(uuid);
    assert(out.is_first(uuid, p));
    lemma_first_is_position(out, uuid, p);
}

/// A failure changes no flag: events without an end leave the guild's
/// record as it was.
pub proof fn lemma_errors_change_no_flag(guild: GuildStateView, events: Seq<PlayModeView>)
    requires
        !any_ended(events),
    ensures
        after_events(guild, events) == guild,
{
}

} // verus!
