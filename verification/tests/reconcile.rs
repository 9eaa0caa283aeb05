use disco_bot::engine::{CurrentTrack, EngineSnapshot, GuildSync, PlayMode, TrackInfo};
use disco_bot::observer::TrackObserver;
use disco_bot::state::{
    AccountState, AppState, GuildState, NameId, TrackMetadata, Volume, FULL_VOLUME_BITS,
};
use disco_bot::worker::BotInstance;
use std::collections::VecDeque;

fn store_with_guilds(uuid: &str, guild_ids: &[u64]) -> AppState {
    let mut state = AppState::default();
    let mut account = AccountState::new(uuid.to_string(), "Main".to_string(), "tok".to_string());
    for id in guild_ids {
        account.guilds.insert(*id, GuildState::new(*id, format!("guild-{}", id)));
    }
    state.insert_account(account);
    state
}

fn track(uuid: &str) -> TrackMetadata {
    TrackMetadata {
        uuid: uuid.to_string(),
        title: format!("title-{}", uuid),
        artist: None,
        url: format!("https://example.org/{}", uuid),
        duration_secs: Some(60),
        thumbnail_url: None,
        added_by: "User".to_string(),
    }
}

fn playing(handle: u128, position_secs: u64, volume: f32) -> Option<CurrentTrack> {
    Some(CurrentTrack {
        handle,
        info: Some(TrackInfo {
            mode: PlayMode::Play,
            position_secs,
            volume: Volume { bits: volume.to_bits() },
        }),
    })
}

#[test]
fn pass_rebuilds_guild_record_from_snapshot() {
    let mut state = store_with_guilds("u1", &[5]);
    state.accounts[0]
        .guilds
        .get_mut(&5)
        .unwrap()
        .voice_channels
        .push(NameId { id: 9, name: "Music".to_string() });
    let mut worker = BotInstance::new("u1".to_string());
    worker.index_track(1, track("a"));
    worker.index_track(2, track("b"));
    worker.index_track(3, track("c"));
    let snapshots = vec![GuildSync {
        guild_id: 5,
        snapshot: EngineSnapshot {
            current: playing(1, 17, 0.5),
            queue: vec![1, 2, 404, 3],
            channel_id: Some(9),
        },
    }];
    worker.sync_state(&mut state, &snapshots);
    let guild = &state.accounts[0].guilds[&5];
    assert!(guild.is_playing);
    assert!(!guild.is_paused);
    assert_eq!(guild.position_secs, 17);
    assert_eq!(f32::from_bits(guild.volume.bits), 0.5);
    assert_eq!(guild.now_playing, Some(track("a")));
    assert_eq!(guild.queue, VecDeque::from(vec![track("b"), track("c")]));
    assert_eq!(guild.channel_id, Some(9));
    assert_eq!(guild.guild_name, "guild-5");
    assert_eq!(guild.voice_channels, vec![NameId { id: 9, name: "Music".to_string() }]);
    assert_eq!(worker.track_lookup.len(), 3);
}

#[test]
fn paused_track_sets_paused_flag_only() {
    let mut state = store_with_guilds("u1", &[5]);
    let mut worker = BotInstance::new("u1".to_string());
    worker.index_track(1, track("a"));
    let snapshots = vec![GuildSync {
        guild_id: 5,
        snapshot: EngineSnapshot {
            current: Some(CurrentTrack {
                handle: 1,
                info: Some(TrackInfo {
                    mode: PlayMode::Pause,
                    position_secs: 3,
                    volume: Volume { bits: FULL_VOLUME_BITS },
                }),
            }),
            queue: vec![1],
            channel_id: None,
        },
    }];
    worker.sync_state(&mut state, &snapshots);
    let guild = &state.accounts[0].guilds[&5];
    assert!(!guild.is_playing);
    assert!(guild.is_paused);
    assert_eq!(guild.now_playing, Some(track("a")));
    assert!(guild.queue.is_empty());
}

#[test]
fn current_track_without_answer_shows_nothing_but_stays_indexed() {
    let mut state = store_with_guilds("u1", &[5]);
    let mut worker = BotInstance::new("u1".to_string());
    worker.index_track(1, track("a"));
    worker.index_track(2, track("b"));
    let snapshots = vec![GuildSync {
        guild_id: 5,
        snapshot: EngineSnapshot {
            current: Some(CurrentTrack { handle: 1, info: None }),
            queue: vec![1, 2],
            channel_id: Some(4),
        },
    }];
    worker.sync_state(&mut state, &snapshots);
    let guild = &state.accounts[0].guilds[&5];
    assert!(!guild.is_playing);
    assert!(!guild.is_paused);
    assert_eq!(guild.position_secs, 0);
    assert_eq!(guild.volume, Volume { bits: FULL_VOLUME_BITS });
    assert_eq!(guild.now_playing, None);
    assert_eq!(guild.queue, VecDeque::from(vec![track("b")]));
    assert_eq!(worker.track_lookup.len(), 2);
}

#[test]
fn pass_after_end_event_forgets_the_ended_track() {
    let mut state = store_with_guilds("u1", &[5]);
    let mut worker = BotInstance::new("u1".to_string());
    worker.index_track(1, track("a"));
    worker.index_track(2, track("b"));
    let before = vec![GuildSync {
        guild_id: 5,
        snapshot: EngineSnapshot {
            current: playing(1, 59, 1.0),
            queue: vec![1, 2],
            channel_id: Some(9),
        },
    }];
    worker.sync_state(&mut state, &before);
    assert_eq!(state.accounts[0].guilds[&5].now_playing, Some(track("a")));

    let observer = TrackObserver { uuid: "u1".to_string(), guild_id: 5 };
    observer.act(&mut state, &vec![PlayMode::End]);
    assert_eq!(state.accounts[0].guilds[&5].now_playing, None);
    assert!(!state.accounts[0].guilds[&5].is_playing);

    let after = vec![GuildSync {
        guild_id: 5,
        snapshot: EngineSnapshot { current: None, queue: vec![], channel_id: Some(9) },
    }];
    worker.sync_state(&mut state, &after);
    assert!(!worker.track_lookup.contains_key(&1));
    assert!(worker.track_lookup.is_empty());
    let guild = &state.accounts[0].guilds[&5];
    assert_eq!(guild.now_playing, None);
    assert!(!guild.is_playing);
    assert!(guild.queue.is_empty());
}

#[test]
fn pass_keeps_handles_of_every_snapshot() {
    let mut state = store_with_guilds("u1", &[5, 6]);
    let mut worker = BotInstance::new("u1".to_string());
    for h in 1..=5u128 {
        worker.index_track(h, track(&format!("t{}", h)));
    }
    let snapshots = vec![
        GuildSync {
            guild_id: 5,
            snapshot: EngineSnapshot { current: playing(1, 0, 1.0), queue: vec![1, 2], channel_id: None },
        },
        GuildSync {
            guild_id: 6,
            snapshot: EngineSnapshot { current: None, queue: vec![4], channel_id: None },
        },
    ];
    worker.sync_state(&mut state, &snapshots);
    let mut kept: Vec<u128> = worker.track_lookup.keys().copied().collect();
    kept.sort();
    assert_eq!(kept, vec![1, 2, 4]);
    assert_eq!(worker.track_lookup[&4], track("t4"));
    assert_eq!(state.accounts[0].guilds[&5].queue, VecDeque::from(vec![track("t2")]));
    assert!(state.accounts[0].guilds[&6].queue.is_empty());
    assert_eq!(state.accounts[0].guilds[&6].now_playing, None);
}

#[test]
fn pass_rebuilds_a_known_guild_without_snapshot_as_nothing_loaded() {
    let mut state = store_with_guilds("u1", &[5, 6]);
    {
        let guild = state.accounts[0].guilds.get_mut(&6).unwrap();
        guild.now_playing = Some(track("stale"));
        guild.queue.push_back(track("old"));
        guild.is_playing = true;
        guild.position_secs = 33;
        guild.volume = Volume { bits: 0.5f32.to_bits() };
        guild.channel_id = Some(9);
        guild.voice_channels.push(NameId { id: 9, name: "Music".to_string() });
    }
    let mut worker = BotInstance::new("u1".to_string());
    worker.index_track(1, track("a"));
    let snapshots = vec![GuildSync {
        guild_id: 5,
        snapshot: EngineSnapshot { current: playing(1, 2, 1.0), queue: vec![1], channel_id: Some(4) },
    }];
    assert!(BotInstance::is_listed(&snapshots, 5));
    assert!(!BotInstance::is_listed(&snapshots, 6));
    assert!(!BotInstance::is_listed(&Vec::new(), 5));
    worker.sync_state(&mut state, &snapshots);
    let listed = &state.accounts[0].guilds[&5];
    assert_eq!(listed.now_playing, Some(track("a")));
    assert!(listed.is_playing);
    let idle = &state.accounts[0].guilds[&6];
    assert_eq!(idle.now_playing, None);
    assert!(idle.queue.is_empty());
    assert!(!idle.is_playing);
    assert!(!idle.is_paused);
    assert_eq!(idle.position_secs, 0);
    assert_eq!(idle.volume, Volume { bits: FULL_VOLUME_BITS });
    assert_eq!(idle.channel_id, None);
    assert_eq!(idle.guild_id, 6);
    assert_eq!(idle.guild_name, "guild-6");
    assert_eq!(idle.voice_channels, vec![NameId { id: 9, name: "Music".to_string() }]);
    assert_eq!(state.accounts[0].guilds.len(), 2);
}

#[test]
fn pass_without_snapshots_empties_the_index() {
    let mut state = store_with_guilds("u1", &[5]);
    let mut worker = BotInstance::new("u1".to_string());
    worker.index_track(1, track("a"));
    worker.sync_state(&mut state, &Vec::new());
    assert!(worker.track_lookup.is_empty());
    assert_eq!(state.accounts[0].guilds[&5], GuildState::new(5, "guild-5".to_string()));
}

#[test]
fn pass_for_unknown_account_changes_nothing() {
    let mut state = store_with_guilds("u1", &[5]);
    let mut worker = BotInstance::new("gone".to_string());
    worker.index_track(1, track("a"));
    let snapshots = vec![GuildSync {
        guild_id: 5,
        snapshot: EngineSnapshot { current: None, queue: vec![], channel_id: Some(1) },
    }];
    worker.sync_state(&mut state, &snapshots);
    assert_eq!(worker.track_lookup.len(), 1);
    assert_eq!(state.accounts[0].guilds[&5], GuildState::new(5, "guild-5".to_string()));
}

#[test]
fn snapshot_of_unknown_guild_counts_for_the_index_only() {
    let mut state = store_with_guilds("u1", &[5]);
    let mut worker = BotInstance::new("u1".to_string());
    worker.index_track(1, track("a"));
    let snapshots = vec![GuildSync {
        guild_id: 77,
        snapshot: EngineSnapshot { current: None, queue: vec![1], channel_id: Some(1) },
    }];
    worker.sync_state(&mut state, &snapshots);
    assert_eq!(worker.track_lookup.len(), 1);
    assert_eq!(state.accounts[0].guilds.len(), 1);
    assert_eq!(state.accounts[0].guilds[&5], GuildState::new(5, "guild-5".to_string()));
}

#[test]
fn sync_guild_and_prune_are_the_steps_of_a_pass() {
    let mut state = store_with_guilds("u1", &[5]);
    let mut worker = BotInstance::new("u1".to_string());
    worker.index_track(1, track("a"));
    worker.index_track(2, track("b"));
    let snapshots = vec![GuildSync {
        guild_id: 5,
        snapshot: EngineSnapshot { current: playing(2, 1, 1.0), queue: vec![2], channel_id: None },
    }];
    worker.sync_guild(&mut state, &snapshots[0]);
    assert_eq!(state.accounts[0].guilds[&5].now_playing, Some(track("b")));
    assert_eq!(worker.track_lookup.len(), 2);
    worker.prune(&snapshots);
    assert_eq!(worker.track_lookup.len(), 1);
    assert!(worker.track_lookup.contains_key(&2));
}

#[test]
fn observer_logs_each_failure_without_time_stamp() {
    let mut state = store_with_guilds("u1", &[5]);
    state.accounts[0].guilds.get_mut(&5).unwrap().is_playing = true;
    state.accounts[0].guilds.get_mut(&5).unwrap().now_playing = Some(track("a"));
    let observer = TrackObserver { uuid: "u1".to_string(), guild_id: 5 };
    observer.act(
        &mut state,
        &vec![
            PlayMode::Errored("Parse(x)".to_string()),
            PlayMode::Play,
            PlayMode::Errored("Io".to_string()),
        ],
    );
    assert_eq!(
        state.system_logs,
        vec![
            "[u1] Playback Error in guild 5: Parse(x)".to_string(),
            "[u1] Playback Error in guild 5: Io".to_string(),
        ]
    );
    assert!(state.accounts[0].guilds[&5].is_playing);
    assert_eq!(state.accounts[0].guilds[&5].now_playing, Some(track("a")));
}

#[test]
fn observer_error_line_carries_guild_number_in_decimal() {
    let observer = TrackObserver { uuid: "acc".to_string(), guild_id: 18446744073709551615 };
    assert_eq!(
        observer.error_line("boom"),
        "[acc] Playback Error in guild 18446744073709551615: boom"
    );
    let zero = TrackObserver { uuid: "".to_string(), guild_id: 0 };
    assert_eq!(zero.error_line(""), "[] Playback Error in guild 0: ");
}

#[test]
fn observer_end_keeps_paused_flag_and_queue() {
    let mut state = store_with_guilds("u1", &[5]);
    {
        let guild = state.accounts[0].guilds.get_mut(&5).unwrap();
        guild.is_paused = true;
        guild.now_playing = Some(track("a"));
        guild.queue.push_back(track("b"));
        guild.position_secs = 12;
    }
    let observer = TrackObserver { uuid: "u1".to_string(), guild_id: 5 };
    observer.act(&mut state, &vec![PlayMode::Stop, PlayMode::End]);
    let guild = &state.accounts[0].guilds[&5];
    assert_eq!(guild.now_playing, None);
    assert!(!guild.is_playing);
    assert!(guild.is_paused);
    assert_eq!(guild.queue, VecDeque::from(vec![track("b")]));
    assert_eq!(guild.position_secs, 12);
    assert!(state.system_logs.is_empty());
}

#[test]
fn observer_of_unknown_guild_or_account_changes_nothing() {
    let mut state = store_with_guilds("u1", &[5]);
    let events = vec![PlayMode::End, PlayMode::Errored("x".to_string())];
    TrackObserver { uuid: "u1".to_string(), guild_id: 6 }.act(&mut state, &events);
    TrackObserver { uuid: "gone".to_string(), guild_id: 5 }.act(&mut state, &events);
    assert!(state.system_logs.is_empty());
    assert_eq!(state.accounts[0].guilds[&5], GuildState::new(5, "guild-5".to_string()));
}

#[test]
fn observer_keeps_the_log_within_its_capacity() {
    let mut state = store_with_guilds("u1", &[5]);
    for i in 0..1000 {
        state.log_at("t", &format!("{}", i));
    }
    let observer = TrackObserver { uuid: "u1".to_string(), guild_id: 5 };
    observer.act(
        &mut state,
        &vec![PlayMode::Errored("x".to_string()), PlayMode::Errored("y".to_string())],
    );
    assert_eq!(state.system_logs.len(), 1000);
    assert_eq!(state.system_logs[0], "[t] 2");
    assert_eq!(state.system_logs[998], "[u1] Playback Error in guild 5: x");
    assert_eq!(state.system_logs[999], "[u1] Playback Error in guild 5: y");
}
