//! The observer's state and how each received message changes it.
//!
//! The observer owns the log buffer, the progress indicator, the fetched
//! version lists and the current modal.  It drains its channels on its own
//! cadence and never blocks; every state change a drained message causes is
//! the [`ObserverState::apply`] function here.  A confirmation request is
//! taken on only while no other modal is outstanding, preserving "at most
//! one modal visible".

use vstd::prelude::*;

use crate::logbuf::append_rel;
use crate::logbuf::LogBuffer;
use crate::messages::AppMessage;
use crate::messages::ConfirmRequest;
use crate::messages::PROGRESS_FULL;

verus! {

/// The modal the observer is currently showing, if any.
pub enum Modal {
    /// An informational or error notification; closes with no reply.
    Alert { title: String, message: String, is_error: bool },
    /// A yes/no question whose answer goes back through the reply slot.
    Confirm { title: String, message: String, response_tx: tokio::sync::oneshot::Sender<bool> },
}

/// What interacting with the current modal decided.
pub enum ModalAction {
    /// Close an alert.
    Close,
    /// Answer a confirmation with yes (`true`) or no.
    Confirm(bool),
}

/// The observer's state.
pub struct ObserverState {
    pub log: LogBuffer,
    /// Progress in thousandths of the whole, clamped on receipt.
    pub progress: u32,
    pub is_busy: bool,
    pub bitcoin_versions: Vec<String>,
    pub selected_bitcoin: String,
    pub electrs_versions: Vec<String>,
    pub selected_electrs: String,
    pub modal: Option<Modal>,
}

/// The version lists and selections of two states agree.
pub open spec fn same_versions(a: ObserverState, b: ObserverState) -> bool {
    &&& a.bitcoin_versions == b.bitcoin_versions
    &&& a.selected_bitcoin == b.selected_bitcoin
    &&& a.electrs_versions == b.electrs_versions
    &&& a.selected_electrs == b.selected_electrs
}

/// Everything but the log agrees between two states.
pub open spec fn same_but_log(a: ObserverState, b: ObserverState) -> bool {
    &&& b.progress == a.progress
    &&& b.is_busy == a.is_busy
    &&& b.modal == a.modal
    &&& same_versions(a, b)
}

/// Everything but the progress indicator agrees between two states.
pub open spec fn same_but_progress(a: ObserverState, b: ObserverState) -> bool {
    &&& b.log == a.log
    &&& b.is_busy == a.is_busy
    &&& b.modal == a.modal
    &&& same_versions(a, b)
}

/// Everything but the modal agrees between two states.
pub open spec fn same_but_modal(a: ObserverState, b: ObserverState) -> bool {
    &&& b.log == a.log
    &&& b.progress == a.progress
    &&& b.is_busy == a.is_busy
    &&& same_versions(a, b)
}

/// Everything but the busy flag and the progress agrees between two states.
pub open spec fn same_but_task_state(a: ObserverState, b: ObserverState) -> bool {
    &&& b.log == a.log
    &&& b.modal == a.modal
    &&& same_versions(a, b)
}

/// A progress value clamped into the unit range on receipt.
pub open spec fn spec_clamp_progress(v: u32) -> u32 {
    if v > PROGRESS_FULL {
        PROGRESS_FULL
    } else {
        v
    }
}

/// `b` is `a` with one loaded version list applied: the list for `p` is
/// replaced by `vs` and its selection moves to the newest entry (the first),
/// or stays when the list is empty; the other project's list, the log, the
/// progress, the busy flag and the modal are untouched.
pub open spec fn versions_loaded(
    a: ObserverState,
    b: ObserverState,
    p: crate::pipeline::Project,
    vs: Vec<String>,
) -> bool {
    &&& b.log == a.log
    &&& b.progress == a.progress
    &&& b.is_busy == a.is_busy
    &&& b.modal == a.modal
    &&& match p {
        crate::pipeline::Project::Bitcoin => {
            &&& b.bitcoin_versions == vs
            &&& b.selected_bitcoin == (if vs@.len() > 0 {
                vs@[0]
            } else {
                a.selected_bitcoin
            })
            &&& b.electrs_versions == a.electrs_versions
            &&& b.selected_electrs == a.selected_electrs
        },
        crate::pipeline::Project::Electrs => {
            &&& b.electrs_versions == vs
            &&& b.selected_electrs == (if vs@.len() > 0 {
                vs@[0]
            } else {
                a.selected_electrs
            })
            &&& b.bitcoin_versions == a.bitcoin_versions
            &&& b.selected_bitcoin == a.selected_bitcoin
        },
    }
}

impl ObserverState {
    /// The observer invariant: the log buffer is well-formed and progress
    /// never leaves the unit range.
    pub open spec fn wf(&self) -> bool {
        &&& self.log.wf()
        &&& self.progress <= PROGRESS_FULL
    }

    /// A fresh observer: empty log capped at `max_log_lines`, idle, with
    /// placeholder version lists and no modal.
    pub fn new(max_log_lines: usize) -> (r: ObserverState)
        requires
            max_log_lines >= 1,
        ensures
            r.wf(),
            r.log.spec_text() == Seq::<char>::empty(),
            r.log.spec_max_lines() == max_log_lines as int,
            r.progress == 0,
            !r.is_busy,
            r.bitcoin_versions.deep_view() == seq!["Loading..."@],
            r.selected_bitcoin@ == "Loading..."@,
            r.electrs_versions.deep_view() == seq!["Loading..."@],
            r.selected_electrs@ == "Loading..."@,
            r.modal is None,
    {
        let mut bv: Vec<String> = Vec::new();
        bv.push(String::from_str("Loading..."));
        let mut ev: Vec<String> = Vec::new();
        ev.push(String::from_str("Loading..."));
        proof {
            assert(bv.deep_view() =~= seq!["Loading..."@]);
            assert(ev.deep_view() =~= seq!["Loading..."@]);
        }
        ObserverState {
            log: LogBuffer::new(max_log_lines),
            progress: 0,
            is_busy: false,
            bitcoin_versions: bv,
            selected_bitcoin: String::from_str("Loading..."),
            electrs_versions: ev,
            selected_electrs: String::from_str("Loading..."),
            modal: None,
        }
    }

    /// Whether a modal is outstanding; while one is, no confirmation
    /// request is taken on.
    pub fn has_modal(&self) -> (r: bool)
        ensures
            r == (self.modal is Some),
    {
        match &self.modal {
            Some(_) => true,
            None => false,
        }
    }

    /// Apply one drained message: a log line extends the buffer, a progress
    /// value is clamped into range, a loaded version list replaces the old
    /// one (selecting its newest entry), a dialog becomes the modal, and a
    /// task-finished signal returns the observer to the interactive state.
    pub fn apply(&mut self, msg: AppMessage)
        requires
            old(self).wf(),
        ensures
            final(self).wf(),
            msg matches AppMessage::Log(s) ==> append_rel(old(self).log, final(self).log, s@)
                && same_but_log(*old(self), *final(self)),
            msg matches AppMessage::Progress(v) ==> final(self).progress == spec_clamp_progress(v)
                && same_but_progress(*old(self), *final(self)),
            msg matches AppMessage::BitcoinVersionsLoaded(vs) ==> versions_loaded(
                *old(self),
                *final(self),
                crate::pipeline::Project::Bitcoin,
                vs,
            ),
            msg matches AppMessage::ElectrsVersionsLoaded(vs) ==> versions_loaded(
                *old(self),
                *final(self),
                crate::pipeline::Project::Electrs,
                vs,
            ),
            msg matches AppMessage::ShowDialog { title, message, is_error } ==> final(self).modal
                == Some(Modal::Alert { title, message, is_error }) && same_but_modal(
                *old(self),
                *final(self),
            ),
            msg matches AppMessage::TaskDone ==> final(self).is_busy == false
                && final(self).progress == 0 && same_but_task_state(*old(self), *final(self)),
    {
        match msg {
            AppMessage::Log(s) => {
                self.log.append(s.as_str());
            },
            AppMessage::Progress(v) => {
                self.progress = if v > PROGRESS_FULL {
                    PROGRESS_FULL
                } else {
                    v
                };
            },
            AppMessage::BitcoinVersionsLoaded(vs) => {
                if vs.len() > 0 {
                    self.selected_bitcoin = vs[0].clone();
                }
                self.bitcoin_versions = vs;
            },
            AppMessage::ElectrsVersionsLoaded(vs) => {
                if vs.len() > 0 {
                    self.selected_electrs = vs[0].clone();
                }
                self.electrs_versions = vs;
            },
            AppMessage::ShowDialog { title, message, is_error } => {
                self.modal = Some(Modal::Alert { title, message, is_error });
            },
            AppMessage::TaskDone => {
                self.is_busy = false;
                self.progress = 0;
            },
        }
    }

    /// Take on a confirmation request as the current modal.  Called only
    /// while no modal is outstanding, so at most one is ever visible.
    pub fn accept_confirm(&mut self, req: ConfirmRequest)
        requires
            old(self).wf(),
            old(self).modal is None,
        ensures
            final(self).wf(),
            final(self).modal == Some(
                Modal::Confirm {
                    title: req.title,
                    message: req.message,
                    response_tx: req.response_tx,
                },
            ),
            final(self).log == old(self).log,
            final(self).progress == old(self).progress,
            final(self).is_busy == old(self).is_busy,
            same_versions(*old(self), *final(self)),
    {
        let ConfirmRequest { title, message, response_tx } = req;
        self.modal = Some(Modal::Confirm { title, message, response_tx });
    }

    /// Resolve the current modal: closing dismisses it, and answering a
    /// confirmation writes exactly one reply into its slot.  Either way no
    /// modal remains.
    pub fn apply_modal_action(&mut self, action: ModalAction)
        requires
            old(self).wf(),
        ensures
            final(self).wf(),
            final(self).modal is None,
            final(self).log == old(self).log,
            final(self).progress == old(self).progress,
            final(self).is_busy == old(self).is_busy,
            same_versions(*old(self), *final(self)),
    {
        match action {
            ModalAction::Close => {
                self.modal = None;
            },
            ModalAction::Confirm(answer) => {
                let taken = self.modal.take();
                match taken {
                    Some(Modal::Confirm { title: _, message: _, response_tx }) => {
                        let _ = response_tx.send(answer);
                    },
                    _ => {},
                }
            },
        }
    }
}

} // verus!
