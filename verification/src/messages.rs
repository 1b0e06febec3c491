//! The typed message bus between background tasks and the single observer.
//!
//! Any number of concurrent background tasks push [`AppMessage`]s (and, for
//! the confirmation round-trip, [`ConfirmRequest`]s) into multi-producer
//! channels whose single consumer is the observer.  These two types are the
//! entire surface the presentation layer may depend on.

use vstd::prelude::*;

verus! {

/// Progress fractions are carried in thousandths of the whole, so a full
/// build is `PROGRESS_FULL`.
pub const PROGRESS_FULL: u32 = 1000;

/// Everything a background task may report to the observer.
pub enum AppMessage {
    /// Append text to the observer's log buffer.
    Log(String),
    /// Set the progress indicator, in thousandths of the whole; the observer
    /// clamps the value into `0 ..= PROGRESS_FULL` on receipt.
    Progress(u32),
    /// The fetched version list for the first target project, newest first.
    BitcoinVersionsLoaded(Vec<String>),
    /// The fetched version list for the second target project, newest first.
    ElectrsVersionsLoaded(Vec<String>),
    /// Show a modal notification (no reply needed).
    ShowDialog { title: String, message: String, is_error: bool },
    /// A background task completed; the observer becomes interactive again.
    TaskDone,
}

/// The channel endpoint background tasks hold to reach the observer.
#[verifier::external_type_specification]
#[verifier::external_body]
#[verifier::reject_recursive_types(T)]
pub struct ExMpscSender<T>(std::sync::mpsc::Sender<T>);

/// The error a channel send reports when the observer is gone.
#[verifier::external_type_specification]
#[verifier::external_body]
#[verifier::reject_recursive_types(T)]
pub struct ExMpscSendError<T>(std::sync::mpsc::SendError<T>);

/// Relies on `std::sync::mpsc::Sender::send`: transfers the value to the
/// receiver's queue, or returns it in the error when the receiver is gone.
pub assume_specification<T>[ std::sync::mpsc::Sender::<T>::send ](
    s: &std::sync::mpsc::Sender<T>,
    t: T,
) -> Result<(), std::sync::mpsc::SendError<T>>;

/// The single-use reply slot of a confirmation request.
#[verifier::external_type_specification]
#[verifier::external_body]
#[verifier::reject_recursive_types(T)]
pub struct ExOneshotSender<T>(tokio::sync::oneshot::Sender<T>);

/// Relies on `tokio::sync::oneshot::Sender::send`: consumes the slot and
/// delivers the one reply, or hands the value back when the receiver is
/// gone.
pub assume_specification<T>[ tokio::sync::oneshot::Sender::<T>::send ](
    s: tokio::sync::oneshot::Sender<T>,
    t: T,
) -> Result<(), T>;

/// A question for the observer paired with a single-use reply slot.  The
/// observer writes exactly one reply (`true` for yes) into the slot; if the
/// slot is dropped unanswered, the issuing task treats that as "no".
pub struct ConfirmRequest {
    pub title: String,
    pub message: String,
    pub response_tx: tokio::sync::oneshot::Sender<bool>,
}

/// Push one log line to the observer.  A send error only means the observer
/// is shutting down and is silently ignored.
pub fn log_msg(tx: &std::sync::mpsc::Sender<AppMessage>, msg: &str) {
    let _ = tx.send(AppMessage::Log(msg.to_owned()));
}

/// Push one message to the observer, ignoring a send error the same way.
pub fn send_message(tx: &std::sync::mpsc::Sender<AppMessage>, msg: AppMessage) {
    let _ = tx.send(msg);
}

} // verus!
