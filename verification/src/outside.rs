//! What the library takes on trust from the crates around it: the command
//! channel, fresh identifiers and the wall clock.

use crate::state::BotCommand;
use crate::text::is_time_of_day;
use tokio::sync::mpsc::{Receiver, Sender};
use vstd::prelude::*;

verus! {

/// The sending half of a bounded `tokio` channel, carried as an opaque value.
#[verifier::external_type_specification]
#[verifier::external_body]
#[verifier::reject_recursive_types(T)]
pub struct ExSender<T>(tokio::sync::mpsc::Sender<T>);

/// The receiving half of a bounded `tokio` channel, carried as an opaque value.
#[verifier::external_type_specification]
#[verifier::external_body]
#[verifier::reject_recursive_types(T)]
pub struct ExReceiver<T>(tokio::sync::mpsc::Receiver<T>);

/// Calls `tokio::sync::mpsc::channel`, which panics on a buffer of zero and
/// on one beyond the permits of its semaphore; both are left out here.
/// Nothing is claimed of the two halves.
#[verifier::external_body]
pub(crate) fn command_channel(buffer: usize) -> (halves: (
    Sender<BotCommand>,
    Receiver<BotCommand>,
))
    requires
        1 <= buffer <= 0x1FFF_FFFF,
{
    tokio::sync::mpsc::channel(buffer)
}

/// Calls `Sender::try_send` and reports whether the channel took the command.
/// The outcome depends on the channel's load and on its receiver, so nothing
/// is claimed of it.
#[verifier::external_body]
pub(crate) fn offer(tx: &Sender<BotCommand>, cmd: BotCommand) -> (taken: bool) {
    tx.try_send(cmd).is_ok()
}

/// Calls `uuid::Uuid::new_v4` and renders the identifier in its hyphenated
/// form. The identifier is random, so nothing is claimed of the text. The
/// call panics where the system's source of randomness fails; no input
/// decides that.
#[verifier::external_body]
pub(crate) fn fresh_uuid() -> (id: String) {
    uuid::Uuid::new_v4().to_string()
}

/// Reads the local wall clock through `chrono::Local::now` and renders it
/// with `DateTime::format`. Rendering fails on a pattern that `chrono` does
/// not know, so only the pattern of hours, minutes and seconds is let in.
/// For that pattern `chrono` writes the hour (00 to 23), the minute (00 to
/// 59) and the second (00 to 60), each padded with a zero to two digits,
/// with the colons of the pattern between them; the contract claims that
/// shape. Which time it is depends on the clock and the time zone, so
/// nothing more is claimed.
#[verifier::external_body]
pub(crate) fn clock_time(pattern: &str) -> (stamp: String)
    requires
        pattern@ == "%H:%M:%S"@,
    ensures
        is_time_of_day(stamp@),
{
    chrono::Local::now().format(pattern).to_string()
}

} // verus!
