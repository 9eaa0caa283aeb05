//! Resolution of a reference into a playable stream, as far as it computes:
//! which processes are run, with which arguments, and which title a track
//! gets.

use vstd::prelude::*;
use vstd::string::*;

verus! {

/// A process to run: the program and its arguments.
#[derive(Debug, PartialEq, Eq)]
pub struct ProcessPlan {
    pub program: String,
    pub args: Vec<String>,
}

/// Mathematical model of a [`ProcessPlan`].
#[verifier::ext_equal]
pub struct ProcessPlanView {
    pub program: Seq<char>,
    pub args: Seq<Seq<char>>,
}

impl View for ProcessPlan {
    type V = ProcessPlanView;

    open spec fn view(&self) -> ProcessPlanView {
        ProcessPlanView { program: self.program@, args: self.args.deep_view() }
    }
}

/// The process that prints the metadata of the single track behind `url`.
pub open spec fn metadata_plan(url: Seq<char>) -> ProcessPlanView {
    ProcessPlanView {
        program: "yt-dlp"@,
        args: seq!["--dump-json"@, "--no-playlist"@, "-f"@, "bestaudio/best"@, "-q"@, url],
    }
}

/// The process that writes the audio of a track to its standard output:
/// a transcoder on the direct stream address where the metadata gave one,
/// and else the downloader on the reference itself.
pub open spec fn stream_plan(stream_url: Option<Seq<char>>, url: Seq<char>) -> ProcessPlanView {
    match stream_url {
        Some(direct) => ProcessPlanView {
            program: "ffmpeg"@,
            args: seq![
                "-reconnect"@,
                "1"@,
                "-reconnect_streamed"@,
                "1"@,
                "-reconnect_delay_max"@,
                "5"@,
                "-i"@,
                direct,
                "-f"@,
                "wav"@,
                "-ar"@,
                "48000"@,
                "-ac"@,
                "2"@,
                "-map"@,
                "a"@,
                "-"@,
            ],
        },
        None => ProcessPlanView {
            program: "yt-dlp"@,
            args: seq!["-f"@, "bestaudio/best"@, "-o"@, "-"@, "-q"@, "--no-warnings"@, url],
        },
    }
}

/// The title of a track: the one that the metadata gave, or a placeholder.
pub open spec fn shown_title(title: Option<Seq<char>>) -> Seq<char> {
    match title {
        Some(t) => t,
        None => "Unknown Title"@,
    }
}

fn push_arg(args: &mut Vec<String>, arg: &str)
    ensures
        final(args).deep_view() == old(args).deep_view().push(arg@),
{
    let ghost before = args.deep_view();
    args.push(String::from_str(arg));
    assert(args.deep_view() =~= before.push(arg@));
}

/// Plans the process that prints the metadata of the track behind `url`.
pub fn metadata_command(url: &str) -> (plan: ProcessPlan)
    ensures
        plan@ == metadata_plan(url@),
{
    let mut args: Vec<String> = Vec::new();
    assert(args.deep_view() =~= Seq::<Seq<char>>::empty());
    push_arg(&mut args, "--dump-json");
    push_arg(&mut args, "--no-playlist");
    push_arg(&mut args, "-f");
    push_arg(&mut args, "bestaudio/best");
    push_arg(&mut args, "-q");
    push_arg(&mut args, url);
    let plan = ProcessPlan { program: String::from_str("yt-dlp"), args };
    assert(plan@.args =~= metadata_plan(url@).args);
    plan
}

/// Plans the process that writes the audio of a track to its standard
/// output.
pub fn stream_command(stream_url: Option<&str>, url: &str) -> (plan: ProcessPlan)
    ensures
        plan@ == stream_plan(
            match stream_url {
                Some(direct) => Some(direct@),
                None => None,
            },
            url@,
        ),
{
    let mut args: Vec<String> = Vec::new();
    assert(args.deep_view() =~= Seq::<Seq<char>>::empty());
    match stream_url {
        Some(direct) => {
            push_arg(&mut args, "-reconnect");
            push_arg(&mut args, "1");
            push_arg(&mut args, "-reconnect_streamed");
            push_arg(&mut args, "1");
            push_arg(&mut args, "-reconnect_delay_max");
            push_arg(&mut args, "5");
            push_arg(&mut args, "-i");
            push_arg(&mut args, direct);
            push_arg(&mut args, "-f");
            push_arg(&mut args, "wav");
            push_arg(&mut args, "-ar");
            push_arg(&mut args, "48000");
            push_arg(&mut args, "-ac");
            push_arg(&mut args, "2");
            push_arg(&mut args, "-map");
            push_arg(&mut args, "a");
            push_arg(&mut args, "-");
            let plan = ProcessPlan { program: String::from_str("ffmpeg"), args };
            assert(plan@.args =~= stream_plan(Some(direct@), url@).args);
            plan
        },
        None => {
            push_arg(&mut args, "-f");
            push_arg(&mut args, "bestaudio/best");
            push_arg(&mut args, "-o");
            push_arg(&mut args, "-");
            push_arg(&mut args, "-q");
            push_arg(&mut args, "--no-warnings");
            push_arg(&mut args, url);
            let plan = ProcessPlan { program: String::from_str("yt-dlp"), args };
            assert(plan@.args =~= stream_plan(None, url@).args);
            plan
        },
    }
}

/// The title under which a track is queued.
pub fn title_or_unknown(title: Option<String>) -> (shown: String)
    ensures
        shown@ == shown_title(title.deep_view()),
{
    match title {
        Some(t) => t,
        None => String::from_str("Unknown Title"),
    }
}

} // verus!
