use disco_bot::sources::{metadata_command, stream_command, title_or_unknown};

fn texts(args: &[&str]) -> Vec<String> {
    args.iter().map(|a| a.to_string()).collect()
}

#[test]
fn metadata_is_asked_of_the_downloader_for_a_single_track() {
    let plan = metadata_command("https://a/watch?v=1");
    assert_eq!(plan.program, "yt-dlp");
    assert_eq!(
        plan.args,
        texts(&["--dump-json", "--no-playlist", "-f", "bestaudio/best", "-q", "https://a/watch?v=1"])
    );
}

#[test]
fn direct_stream_address_goes_through_the_transcoder() {
    let plan = stream_command(Some("https://cdn/stream"), "https://a/watch?v=1");
    assert_eq!(plan.program, "ffmpeg");
    assert_eq!(
        plan.args,
        texts(&[
            "-reconnect",
            "1",
            "-reconnect_streamed",
            "1",
            "-reconnect_delay_max",
            "5",
            "-i",
            "https://cdn/stream",
            "-f",
            "wav",
            "-ar",
            "48000",
            "-ac",
            "2",
            "-map",
            "a",
            "-",
        ])
    );
}

#[test]
fn without_direct_address_the_downloader_pipes_the_audio() {
    let plan = stream_command(None, "https://a/watch?v=1");
    assert_eq!(plan.program, "yt-dlp");
    assert_eq!(
        plan.args,
        texts(&["-f", "bestaudio/best", "-o", "-", "-q", "--no-warnings", "https://a/watch?v=1"])
    );
}

#[test]
fn missing_title_gets_a_placeholder() {
    assert_eq!(title_or_unknown(Some("Song".to_string())), "Song");
    assert_eq!(title_or_unknown(Some(String::new())), "");
    assert_eq!(title_or_unknown(None), "Unknown Title");
}
