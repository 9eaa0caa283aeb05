use disco_bot::state::{
    AccountState, AppState, BotCommand, BotStatus, GuildState, Volume, FULL_VOLUME_BITS,
    LOG_CAPACITY,
};

fn store_with(uuids: &[&str]) -> AppState {
    let mut state = AppState::default();
    for uuid in uuids {
        state.insert_account(AccountState::new(
            uuid.to_string(),
            format!("alias-{}", uuid),
            format!("token-{}", uuid),
        ));
    }
    state
}

#[test]
fn default_store_is_empty() {
    let state = AppState::default();
    assert!(state.accounts.is_empty());
    assert!(state.system_logs.is_empty());
    assert_eq!(state.ui_context.selected_account_uuid, None);
    assert_eq!(state.ui_context.selected_guild_id, None);
}

#[test]
fn new_guild_is_idle_at_full_volume() {
    let guild = GuildState::new(7, "Lounge".to_string());
    assert_eq!(guild.guild_id, 7);
    assert_eq!(guild.guild_name, "Lounge");
    assert_eq!(guild.channel_id, None);
    assert!(!guild.is_playing);
    assert!(!guild.is_paused);
    assert_eq!(guild.volume, Volume { bits: FULL_VOLUME_BITS });
    assert_eq!(f32::from_bits(guild.volume.bits), 1.0);
    assert_eq!(guild.position_secs, 0);
    assert_eq!(guild.now_playing, None);
    assert!(guild.queue.is_empty());
    assert!(guild.voice_channels.is_empty());
}

#[test]
fn new_account_is_offline_and_starts_with_the_process() {
    let account = AccountState::new("u1".to_string(), "Main".to_string(), "tok".to_string());
    assert_eq!(account.uuid, "u1");
    assert_eq!(account.alias, "Main");
    assert_eq!(account.token, "tok");
    assert_eq!(account.application_id, None);
    assert!(account.auto_start);
    assert_eq!(account.status, BotStatus::Offline);
    assert!(account.guilds.is_empty());
    assert!(account.command_tx.is_none());
}

#[test]
fn log_at_writes_stamp_in_brackets_before_message() {
    let mut state = AppState::default();
    state.log_at("12:34:56", "hello");
    assert_eq!(state.system_logs, vec!["[12:34:56] hello".to_string()]);
}

#[test]
fn log_prefixes_a_clock_time() {
    let mut state = AppState::default();
    state.log("ready");
    assert_eq!(state.system_logs.len(), 1);
    let line = &state.system_logs[0];
    assert!(line.ends_with("] ready"));
    let bytes = line.as_bytes();
    assert_eq!(bytes.len(), "[00:00:00] ready".len());
    assert_eq!(bytes[0], b'[');
    assert_eq!(bytes[3], b':');
    assert_eq!(bytes[6], b':');
    assert_eq!(bytes[9], b']');
    for i in [1usize, 2, 4, 5, 7, 8] {
        assert!(bytes[i].is_ascii_digit());
    }
    let hour: u32 = line[1..3].parse().unwrap();
    let minute: u32 = line[4..6].parse().unwrap();
    let second: u32 = line[7..9].parse().unwrap();
    assert!(hour <= 23);
    assert!(minute <= 59);
    assert!(second <= 60);
}

#[test]
fn command_handle_is_the_handle_installed_on_the_account() {
    let mut state = store_with(&["a", "b"]);
    assert!(state.command_handle("a").is_none());
    assert!(state.command_handle("nobody").is_none());
    let (tx, mut rx) = tokio::sync::mpsc::channel(4);
    state.accounts[1].command_tx = Some(tx);
    assert!(state.command_handle("a").is_none());
    let handle = state.command_handle("b").unwrap();
    assert!(handle.try_send(BotCommand::Stop { guild_id: 8 }).is_ok());
    assert!(matches!(rx.try_recv(), Ok(BotCommand::Stop { guild_id: 8 })));
    assert!(state.send_command("b", BotCommand::Skip { guild_id: 9 }));
    assert!(matches!(rx.try_recv(), Ok(BotCommand::Skip { guild_id: 9 })));
    assert!(!state.send_command("a", BotCommand::Skip { guild_id: 9 }));
}

#[test]
fn log_never_exceeds_capacity_and_evicts_in_arrival_order() {
    let mut state = AppState::default();
    for i in 0..2000 {
        state.log(&format!("line {}", i));
        assert!(state.system_logs.len() <= 1000);
    }
    assert_eq!(LOG_CAPACITY, 1000);
    assert_eq!(state.system_logs.len(), 1000);
    for (k, line) in state.system_logs.iter().enumerate() {
        assert!(line.ends_with(&format!("] line {}", 1000 + k)));
    }
}

#[test]
fn log_at_capacity_drops_exactly_the_oldest_line() {
    let mut state = AppState::default();
    for i in 0..1000 {
        state.log_at("t", &format!("{}", i));
    }
    assert_eq!(state.system_logs.len(), 1000);
    assert_eq!(state.system_logs[0], "[t] 0");
    state.log_at("t", "1000");
    assert_eq!(state.system_logs.len(), 1000);
    assert_eq!(state.system_logs[0], "[t] 1");
    assert_eq!(state.system_logs[999], "[t] 1000");
}

#[test]
fn log_cuts_an_overlong_log_down_to_capacity() {
    let mut state = AppState::default();
    for i in 0..1005 {
        state.system_logs.push(format!("raw {}", i));
    }
    assert_eq!(state.system_logs.len(), 1005);
    state.log_at("t", "last");
    assert_eq!(state.system_logs.len(), 1000);
    assert_eq!(state.system_logs[0], "raw 6");
    assert_eq!(state.system_logs[999], "[t] last");
}

#[test]
fn append_line_takes_line_as_it_is() {
    let mut state = AppState::default();
    state.append_line("plain".to_string());
    assert_eq!(state.system_logs, vec!["plain".to_string()]);
}

#[test]
fn find_names_first_account_with_identifier() {
    let state = store_with(&["a", "b", "c"]);
    assert_eq!(state.find("a"), Some(0));
    assert_eq!(state.find("c"), Some(2));
    assert_eq!(state.find("zz"), None);
    assert_eq!(state.find(""), None);
    assert_eq!(state.account("b").map(|a| a.alias.clone()), Some("alias-b".to_string()));
    assert!(state.account("nobody").is_none());
}

#[test]
fn insert_account_replaces_account_with_same_identifier_in_place() {
    let mut state = store_with(&["a", "b"]);
    state.insert_account(AccountState::new("a".to_string(), "New".to_string(), "t2".to_string()));
    assert_eq!(state.accounts.len(), 2);
    assert_eq!(state.accounts[0].uuid, "a");
    assert_eq!(state.accounts[0].alias, "New");
    assert_eq!(state.accounts[1].uuid, "b");
}

#[test]
fn add_account_registers_under_fresh_identifier() {
    let mut state = AppState::default();
    let first = state.add_account("One".to_string(), "t1".to_string());
    let second = state.add_account("Two".to_string(), "t2".to_string());
    assert_ne!(first, second);
    assert_eq!(first.len(), 36);
    assert_eq!(first.matches('-').count(), 4);
    assert_eq!(state.accounts.len(), 2);
    let account = state.account(&first).unwrap();
    assert_eq!(account.alias, "One");
    assert_eq!(account.token, "t1");
    assert!(account.auto_start);
    assert_eq!(account.status, BotStatus::Offline);
    assert!(account.command_tx.is_none());
    assert_eq!(state.account(&second).unwrap().alias, "Two");
}

#[test]
fn remove_account_takes_out_only_the_named_account() {
    let mut state = store_with(&["a", "b", "c"]);
    assert!(state.remove_account("b"));
    assert_eq!(state.accounts.len(), 2);
    assert_eq!(state.accounts[0].uuid, "a");
    assert_eq!(state.accounts[1].uuid, "c");
    assert!(!state.remove_account("b"));
    assert_eq!(state.accounts.len(), 2);
}

#[test]
fn select_account_resets_selected_guild() {
    let mut state = store_with(&["a"]);
    state.select_guild(5);
    assert_eq!(state.ui_context.selected_guild_id, Some(5));
    state.select_account("a".to_string());
    assert_eq!(state.ui_context.selected_account_uuid, Some("a".to_string()));
    assert_eq!(state.ui_context.selected_guild_id, None);
    state.select_guild(9);
    assert_eq!(state.ui_context.selected_account_uuid, Some("a".to_string()));
    assert_eq!(state.ui_context.selected_guild_id, Some(9));
}

#[test]
fn send_command_without_account_or_worker_drops_command() {
    let state = store_with(&["a"]);
    assert!(!state.send_command("a", BotCommand::Pause { guild_id: 1 }));
    assert!(!state.send_command("nobody", BotCommand::Pause { guild_id: 1 }));
}
