use disco_bot::engine::{
    ChannelInfo, ChannelKind, ConnectEvent, EngineRequest, LoopEvent, LoopStep, PlayOutcome,
    QueueControl, VoiceReply,
};
use disco_bot::state::{
    AccountState, AppState, BotCommand, BotStatus, GuildState, NameId, TrackMetadata, Volume,
};
use disco_bot::worker::BotInstance;

fn store_with_guild(uuid: &str, guild_id: u64) -> AppState {
    let mut state = AppState::default();
    let mut account = AccountState::new(uuid.to_string(), "Main".to_string(), "tok".to_string());
    account.guilds.insert(guild_id, GuildState::new(guild_id, "Lounge".to_string()));
    state.insert_account(account);
    state
}

fn track(uuid: &str, title: &str) -> TrackMetadata {
    TrackMetadata {
        uuid: uuid.to_string(),
        title: title.to_string(),
        artist: None,
        url: format!("https://example.org/{}", title),
        duration_secs: Some(60),
        thumbnail_url: None,
        added_by: "User".to_string(),
    }
}

fn rest_of(line: &str) -> &str {
    // what follows the time stamp
    assert_eq!(&line[0..1], "[");
    assert_eq!(&line[9..11], "] ");
    &line[11..]
}

#[test]
fn new_worker_has_empty_index() {
    let worker = BotInstance::new("u1".to_string());
    assert_eq!(worker.uuid, "u1");
    assert!(worker.track_lookup.is_empty());
}

#[test]
fn worker_log_tags_message_with_account() {
    let mut state = AppState::default();
    let worker = BotInstance::new("u1".to_string());
    worker.log_at(&mut state, "01:02:03", "hello");
    assert_eq!(state.system_logs, vec!["[01:02:03] [u1] hello".to_string()]);
    worker.log(&mut state, "again");
    assert_eq!(rest_of(&state.system_logs[1]), "[u1] again");
}

#[test]
fn volume_is_in_guild_record_when_command_returns() {
    let mut state = store_with_guild("u1", 5);
    let worker = BotInstance::new("u1".to_string());
    let volume = Volume { bits: 0.35f32.to_bits() };
    let request = worker.handle_command(&mut state, BotCommand::Volume { guild_id: 5, volume });
    let guild = &state.accounts[0].guilds[&5];
    assert_eq!(f32::from_bits(guild.volume.bits), 0.35f32);
    assert_eq!(guild.volume, volume);
    match request {
        EngineRequest::Control { guild_id, control } => {
            assert_eq!(guild_id, 5);
            assert_eq!(control, QueueControl::SetVolume(volume));
        },
        other => panic!("unexpected: {:?}", other),
    }
    assert!(state.system_logs.is_empty());
}

#[test]
fn volume_for_unknown_guild_or_account_changes_nothing() {
    let mut state = store_with_guild("u1", 5);
    let volume = Volume { bits: 0.5f32.to_bits() };
    let worker = BotInstance::new("u1".to_string());
    worker.handle_command(&mut state, BotCommand::Volume { guild_id: 6, volume });
    assert_eq!(state.accounts[0].guilds.len(), 1);
    assert_eq!(f32::from_bits(state.accounts[0].guilds[&5].volume.bits), 1.0);
    let stranger = BotInstance::new("u2".to_string());
    stranger.handle_command(&mut state, BotCommand::Volume { guild_id: 5, volume });
    assert_eq!(f32::from_bits(state.accounts[0].guilds[&5].volume.bits), 1.0);
}

#[test]
fn commands_map_to_engine_requests() {
    let mut state = store_with_guild("u1", 5);
    let worker = BotInstance::new("u1".to_string());
    assert!(matches!(
        worker.handle_command(&mut state, BotCommand::Join { guild_id: 5, channel_id: 9 }),
        EngineRequest::Join { guild_id: 5, channel_id: 9 }
    ));
    assert!(matches!(
        worker.handle_command(&mut state, BotCommand::Leave { guild_id: 5 }),
        EngineRequest::Leave { guild_id: 5 }
    ));
    match worker.handle_command(
        &mut state,
        BotCommand::Play { guild_id: 5, url: "https://a/b".to_string() },
    ) {
        EngineRequest::Play { guild_id, url } => {
            assert_eq!(guild_id, 5);
            assert_eq!(url, "https://a/b");
        },
        other => panic!("unexpected: {:?}", other),
    }
    assert!(matches!(
        worker.handle_command(&mut state, BotCommand::Stop { guild_id: 5 }),
        EngineRequest::Control { guild_id: 5, control: QueueControl::Stop }
    ));
    assert!(matches!(
        worker.handle_command(&mut state, BotCommand::Skip { guild_id: 5 }),
        EngineRequest::Control { guild_id: 5, control: QueueControl::Skip }
    ));
    assert!(matches!(
        worker.handle_command(&mut state, BotCommand::Pause { guild_id: 5 }),
        EngineRequest::Control { guild_id: 5, control: QueueControl::Pause }
    ));
    assert!(matches!(
        worker.handle_command(&mut state, BotCommand::Resume { guild_id: 5 }),
        EngineRequest::Control { guild_id: 5, control: QueueControl::Resume }
    ));
    assert!(matches!(
        worker.handle_command(
            &mut state,
            BotCommand::MoveTrack { guild_id: 5, from_index: 0, to_index: 1 }
        ),
        EngineRequest::Control { guild_id: 5, control: QueueControl::Move { from: 0, to: 1 } }
    ));
    assert!(matches!(
        worker.handle_command(&mut state, BotCommand::ClearQueue { guild_id: 5 }),
        EngineRequest::Control { guild_id: 5, control: QueueControl::Clear }
    ));
    assert!(matches!(
        worker.handle_command(&mut state, BotCommand::FetchChannels { guild_id: 5 }),
        EngineRequest::FetchChannels { guild_id: 5 }
    ));
    match worker.handle_command(
        &mut state,
        BotCommand::RemoveTrack { guild_id: 5, track_uuid: "t-1".to_string() },
    ) {
        EngineRequest::RemoveTrack { guild_id, track_uuid } => {
            assert_eq!(guild_id, 5);
            assert_eq!(track_uuid, "t-1");
        },
        other => panic!("unexpected: {:?}", other),
    }
    assert_eq!(state.accounts[0].guilds[&5], GuildState::new(5, "Lounge".to_string()));
    assert!(state.system_logs.is_empty());
}

#[test]
fn begin_logs_that_the_client_is_initializing() {
    let mut state = store_with_guild("u1", 5);
    let worker = BotInstance::new("u1".to_string());
    assert!(!worker.run(&mut state, ConnectEvent::Begin));
    assert_eq!(state.system_logs.len(), 1);
    assert_eq!(rest_of(&state.system_logs[0]), "[u1] Initializing Discord client...");
    assert_eq!(state.accounts[0].status, BotStatus::Offline);
}

#[test]
fn connected_goes_online_and_keeps_existing_guild_records() {
    let mut state = store_with_guild("u1", 5);
    state.accounts[0].status = BotStatus::Starting;
    state.accounts[0].guilds.get_mut(&5).unwrap().is_playing = true;
    state.accounts[0].guilds.get_mut(&5).unwrap().position_secs = 42;
    let worker = BotInstance::new("u1".to_string());
    let roster = vec![
        NameId { id: 5, name: "Renamed".to_string() },
        NameId { id: 6, name: "Garden".to_string() },
        NameId { id: 6, name: "Twice".to_string() },
    ];
    let looping = worker.run(
        &mut state,
        ConnectEvent::Connected { application_id: Some(77), roster: Ok(roster) },
    );
    assert!(looping);
    let account = &state.accounts[0];
    assert_eq!(account.status, BotStatus::Online);
    assert_eq!(account.application_id, Some(77));
    assert_eq!(account.guilds.len(), 2);
    assert_eq!(account.guilds[&5].guild_name, "Lounge");
    assert!(account.guilds[&5].is_playing);
    assert_eq!(account.guilds[&5].position_secs, 42);
    assert_eq!(account.guilds[&6], GuildState::new(6, "Garden".to_string()));
    assert_eq!(state.system_logs.len(), 1);
    assert_eq!(rest_of(&state.system_logs[0]), "[u1] Connected and Ready.");
}

#[test]
fn connected_without_application_id_logs_that_and_goes_online() {
    let mut state = store_with_guild("u1", 5);
    state.accounts[0].status = BotStatus::Starting;
    let worker = BotInstance::new("u1".to_string());
    let looping = worker.run(
        &mut state,
        ConnectEvent::Connected { application_id: None, roster: Ok(vec![]) },
    );
    assert!(looping);
    assert_eq!(state.accounts[0].status, BotStatus::Online);
    assert_eq!(state.accounts[0].application_id, None);
    assert_eq!(state.system_logs.len(), 2);
    assert_eq!(
        rest_of(&state.system_logs[0]),
        "[u1] Failed to fetch Application ID. Invite functionality may be limited."
    );
    assert_eq!(rest_of(&state.system_logs[1]), "[u1] Connected and Ready.");
}

#[test]
fn connect_without_roster_ends_as_a_failed_connect() {
    let mut state = store_with_guild("u1", 5);
    state.accounts[0].status = BotStatus::Starting;
    let worker = BotInstance::new("u1".to_string());
    let looping = worker.run(
        &mut state,
        ConnectEvent::Connected { application_id: Some(77), roster: Err("no guilds".to_string()) },
    );
    assert!(!looping);
    assert_eq!(state.accounts[0].status, BotStatus::Error("no guilds".to_string()));
    assert_eq!(state.accounts[0].application_id, Some(77));
    assert_eq!(state.accounts[0].guilds.len(), 1);
    assert_eq!(state.system_logs.len(), 1);
    assert_eq!(rest_of(&state.system_logs[0]), "[u1] Connection Failed: no guilds");
}

#[test]
fn loop_never_begins_on_an_account_that_is_not_online() {
    for (application_id, roster_ok) in [(None, true), (Some(1), true), (None, false), (Some(1), false)] {
        let mut state = store_with_guild("u1", 5);
        state.accounts[0].status = BotStatus::Starting;
        let worker = BotInstance::new("u1".to_string());
        let roster = if roster_ok { Ok(vec![]) } else { Err("x".to_string()) };
        let looping = worker.run(&mut state, ConnectEvent::Connected { application_id, roster });
        assert_eq!(looping, state.accounts[0].status == BotStatus::Online);
        assert_eq!(!looping, state.accounts[0].status == BotStatus::Error("x".to_string()));
    }
}

#[test]
fn failed_connection_sets_error_status_with_reason() {
    let mut state = store_with_guild("u1", 5);
    state.accounts[0].status = BotStatus::Starting;
    let worker = BotInstance::new("u1".to_string());
    let looping =
        worker.run(&mut state, ConnectEvent::Failed { reason: "bad token".to_string() });
    assert!(!looping);
    assert_eq!(state.accounts[0].status, BotStatus::Error("bad token".to_string()));
    assert_eq!(state.system_logs.len(), 1);
    assert_eq!(rest_of(&state.system_logs[0]), "[u1] Connection Failed: bad token");
}

#[test]
fn connection_of_unknown_account_only_logs() {
    let mut state = store_with_guild("u1", 5);
    let worker = BotInstance::new("gone".to_string());
    worker.run(
        &mut state,
        ConnectEvent::Connected { application_id: Some(1), roster: Ok(vec![]) },
    );
    assert_eq!(state.accounts[0].status, BotStatus::Offline);
    assert_eq!(state.accounts[0].application_id, None);
    assert_eq!(rest_of(&state.system_logs[0]), "[gone] Connected and Ready.");
}

#[test]
fn closed_channel_ends_loop_and_sets_offline() {
    let mut state = store_with_guild("u1", 5);
    state.accounts[0].status = BotStatus::Online;
    let worker = BotInstance::new("u1".to_string());
    let step = worker.command_loop(&mut state, LoopEvent::Closed);
    assert!(matches!(step, LoopStep::Exit));
    assert_eq!(state.accounts[0].status, BotStatus::Offline);
    assert_eq!(state.system_logs.len(), 1);
    assert_eq!(rest_of(&state.system_logs[0]), "[u1] Command channel closed. Shutting down.");
}

#[test]
fn tick_asks_for_reconciliation_and_command_for_its_request() {
    let mut state = store_with_guild("u1", 5);
    let worker = BotInstance::new("u1".to_string());
    assert!(matches!(worker.command_loop(&mut state, LoopEvent::Tick), LoopStep::Sync));
    let step =
        worker.command_loop(&mut state, LoopEvent::Command(BotCommand::Skip { guild_id: 5 }));
    assert!(matches!(
        step,
        LoopStep::Request(EngineRequest::Control { guild_id: 5, control: QueueControl::Skip })
    ));
    let volume = Volume { bits: 0.25f32.to_bits() };
    worker.command_loop(
        &mut state,
        LoopEvent::Command(BotCommand::Volume { guild_id: 5, volume }),
    );
    assert_eq!(state.accounts[0].guilds[&5].volume, volume);
    assert!(state.system_logs.is_empty());
    assert_eq!(state.accounts[0].status, BotStatus::Offline);
}

#[test]
fn join_failure_is_logged_and_changes_no_status() {
    let mut state = store_with_guild("u1", 5);
    state.accounts[0].status = BotStatus::Online;
    let worker = BotInstance::new("u1".to_string());
    worker.voice_reply(&mut state, VoiceReply::JoinFailed { reason: "timeout".to_string() });
    assert_eq!(state.accounts[0].status, BotStatus::Online);
    assert_eq!(rest_of(&state.system_logs[0]), "[u1] Failed to join channel: timeout");
}

#[test]
fn leave_clears_joined_channel_whether_it_failed_or_not() {
    let mut state = store_with_guild("u1", 5);
    let worker = BotInstance::new("u1".to_string());
    state.accounts[0].guilds.get_mut(&5).unwrap().channel_id = Some(9);
    worker.voice_reply(&mut state, VoiceReply::Left { guild_id: 5, failure: None });
    assert_eq!(state.accounts[0].guilds[&5].channel_id, None);
    assert!(state.system_logs.is_empty());
    state.accounts[0].guilds.get_mut(&5).unwrap().channel_id = Some(9);
    worker.voice_reply(
        &mut state,
        VoiceReply::Left { guild_id: 5, failure: Some("no call".to_string()) },
    );
    assert_eq!(state.accounts[0].guilds[&5].channel_id, None);
    assert_eq!(rest_of(&state.system_logs[0]), "[u1] Failed to leave channel: no call");
}

#[test]
fn queued_track_is_indexed_under_engine_handle() {
    let mut state = store_with_guild("u1", 5);
    let mut worker = BotInstance::new("u1".to_string());
    worker.play_track(
        &mut state,
        "https://a/song".to_string(),
        PlayOutcome::Queued { handle: 1234, title: "Song".to_string(), duration_secs: Some(61) },
    );
    assert_eq!(worker.track_lookup.len(), 1);
    let meta = &worker.track_lookup[&1234];
    assert_eq!(meta.title, "Song");
    assert_eq!(meta.url, "https://a/song");
    assert_eq!(meta.duration_secs, Some(61));
    assert_eq!(meta.artist, None);
    assert_eq!(meta.thumbnail_url, None);
    assert_eq!(meta.added_by, "User");
    assert_eq!(meta.uuid.len(), 36);
    assert_eq!(rest_of(&state.system_logs[0]), "[u1] Queued: Song");
    worker.play_track(
        &mut state,
        "https://a/other".to_string(),
        PlayOutcome::Queued { handle: 99, title: "Other".to_string(), duration_secs: None },
    );
    assert_eq!(worker.track_lookup.len(), 2);
    assert_ne!(worker.track_lookup[&99].uuid, worker.track_lookup[&1234].uuid);
}

#[test]
fn failed_play_is_logged_and_leaves_index_alone() {
    let mut state = store_with_guild("u1", 5);
    let mut worker = BotInstance::new("u1".to_string());
    worker.play_track(&mut state, "x".to_string(), PlayOutcome::NotConnected);
    worker.play_track(
        &mut state,
        "x".to_string(),
        PlayOutcome::SourceError("yt-dlp failed to fetch metadata".to_string()),
    );
    assert!(worker.track_lookup.is_empty());
    assert_eq!(
        rest_of(&state.system_logs[0]),
        "[u1] Error: Not connected to a voice channel."
    );
    assert_eq!(
        rest_of(&state.system_logs[1]),
        "[u1] Source Error: yt-dlp failed to fetch metadata"
    );
    assert_eq!(state.accounts[0].guilds[&5], GuildState::new(5, "Lounge".to_string()));
}

#[test]
fn remove_picks_first_entry_with_the_local_identifier() {
    let mut state = store_with_guild("u1", 5);
    let mut worker = BotInstance::new("u1".to_string());
    worker.index_track(1, track("a", "A"));
    worker.index_track(2, track("b", "B"));
    worker.index_track(3, track("b", "B again"));
    let queue = vec![1u128, 7, 2, 3];
    assert_eq!(worker.find_track(&queue, "b"), Some(2));
    assert_eq!(worker.find_track(&queue, "a"), Some(0));
    assert_eq!(worker.find_track(&queue, "zz"), None);
    assert_eq!(worker.find_track(&Vec::new(), "a"), None);
    assert_eq!(worker.remove_track(&mut state, &queue, "b"), Some(2));
    assert_eq!(state.system_logs.len(), 1);
    assert_eq!(rest_of(&state.system_logs[0]), "[u1] Track removed from queue.");
    assert_eq!(worker.remove_track(&mut state, &queue, "zz"), None);
    assert_eq!(state.system_logs.len(), 1);
    assert_eq!(state.accounts[0].guilds[&5], GuildState::new(5, "Lounge".to_string()));
}

#[test]
fn fetch_channels_replaces_list_with_voice_channels_only() {
    let mut state = store_with_guild("u1", 5);
    state.accounts[0]
        .guilds
        .get_mut(&5)
        .unwrap()
        .voice_channels
        .push(NameId { id: 1, name: "stale".to_string() });
    let worker = BotInstance::new("u1".to_string());
    let channels = vec![
        ChannelInfo { id: 10, name: "general".to_string(), kind: ChannelKind::Text },
        ChannelInfo { id: 11, name: "Music".to_string(), kind: ChannelKind::Voice },
        ChannelInfo { id: 12, name: "Stage".to_string(), kind: ChannelKind::Stage },
        ChannelInfo { id: 13, name: "Chill".to_string(), kind: ChannelKind::Voice },
        ChannelInfo { id: 14, name: "Cat".to_string(), kind: ChannelKind::Category },
        ChannelInfo { id: 15, name: "Misc".to_string(), kind: ChannelKind::Other },
    ];
    worker.fetch_channels(&mut state, 5, &channels);
    assert_eq!(
        state.accounts[0].guilds[&5].voice_channels,
        vec![
            NameId { id: 11, name: "Music".to_string() },
            NameId { id: 13, name: "Chill".to_string() },
        ]
    );
    worker.fetch_channels(&mut state, 5, &Vec::new());
    assert!(state.accounts[0].guilds[&5].voice_channels.is_empty());
    worker.fetch_channels(&mut state, 6, &channels);
    assert_eq!(state.accounts[0].guilds.len(), 1);
}

#[test]
fn active_guilds_lists_each_guild_once() {
    let mut state = store_with_guild("u1", 5);
    state.accounts[0].guilds.insert(8, GuildState::new(8, "Eight".to_string()));
    state.accounts[0].guilds.insert(2, GuildState::new(2, "Two".to_string()));
    let worker = BotInstance::new("u1".to_string());
    let mut ids = worker.active_guilds(&state).unwrap();
    ids.sort();
    assert_eq!(ids, vec![2, 5, 8]);
    assert_eq!(BotInstance::new("gone".to_string()).active_guilds(&state), None);
}
