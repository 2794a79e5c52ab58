//! The install orchestrator, as a state machine.
//!
//! The unverified shell performs I/O — the HTTP request, the temp
//! file, the worker dispatch, the final rename — and reports each
//! outcome as an [`InstallEvent`].  Every decision is made here:
//! [`InstallState::on_event`] returns the next state together with
//! the exact actions the shell must perform.  Steps only move
//! forward, terminal steps absorb every further event, and each
//! failure is reported once, as one `error` progress record plus one
//! concluding error value.

use vstd::prelude::*;
use crate::error::{CommandError, CommandResult, prefixed};
use crate::fname::{derive_save_filename, spec_save_filename};
use crate::models::{InstallStep, InstallationProgress, InstallationResult};
use crate::numfmt::{spec_dec, u64_to_dec};
use crate::progress::{ProgressSignal, ProgressTracker};
use crate::sniff::ContentKind;

verus! {

/// The orchestrator's state for one install in flight.
pub struct InstallState {
    pub step: InstallStep,
    pub source_url: String,
    pub tracker: ProgressTracker,
    pub content_disposition: Option<String>,
    /// Whether the whole response body reached the temp file.
    pub body_done: bool,
}

/// What the shell reports to the orchestrator.
pub enum InstallEvent {
    /// The HTTP response header arrived.
    ResponseHeader {
        status_code: u16,
        content_length: Option<u64>,
        content_disposition: Option<String>,
    },
    /// One body chunk was appended to the temp file.
    BodyChunk { len: u64 },
    /// The body ended; the temp file is complete.
    BodyFinished,
    /// The transport failed mid-download.
    TransportFailed { detail: String },
    /// The first bytes of the temp file were read back.
    Sniffed { kind: ContentKind },
    /// The worker finished extracting, into the given directory.
    ExtractionFinished { final_path: String, elapsed_ms: u64 },
    /// Analysis or extraction failed on the worker.
    ExtractionFailed { error: CommandError },
    /// Dispatching the worker itself failed.
    WorkerFailed { detail: String },
    /// The temp file was renamed into the destination.
    SaveFinished { final_path: String, elapsed_ms: u64 },
    /// The rename failed.
    SaveFailed { detail: String },
}

/// What the shell must do next, in order.
pub enum InstallAction {
    /// Deliver one progress record.
    Emit(InstallationProgress),
    /// Delete the temp file.
    DeleteTemp,
    /// Read the temp file's first bytes and report `Sniffed`.
    SniffTemp,
    /// Run analysis and extraction on a worker and report the
    /// outcome.
    StartExtraction,
    /// Rename the temp file to `filename` under the destination.
    StartSave { filename: String },
    /// The install is over; hand the outcome to the caller.
    Conclude(CommandResult<InstallationResult>),
}

/// An `Emit` action with the given fields.
pub open spec fn is_emit(
    a: InstallAction,
    step: InstallStep,
    percent: u8,
    message: Seq<char>,
    source: Seq<char>,
) -> bool {
    &&& a matches InstallAction::Emit(pr)
    &&& pr.step == step
    &&& pr.percent == percent
    &&& pr.message@ == message
    &&& pr.source@ == source
}

/// A successful `Conclude` with the given fields.
pub open spec fn is_ok_conclusion(
    a: InstallAction,
    message: Seq<char>,
    final_path: Seq<char>,
    source: Seq<char>,
) -> bool {
    &&& a matches InstallAction::Conclude(r)
    &&& r matches Ok(res)
    &&& res.success
    &&& res.message@ == message
    &&& res.final_path matches Some(p) && p@ == final_path
    &&& res.source@ == source
}

/// A state unchanged, with nothing to do: the event does not apply.
pub open spec fn stutters(pre: InstallState, post: InstallState, actions: Seq<InstallAction>) -> bool {
    post == pre && actions.len() == 0
}

/// The view of an optional header value.
pub open spec fn opt_view(o: Option<String>) -> Option<Seq<char>> {
    match o {
        Some(s) => Some(s@),
        None => None,
    }
}

/// The complete transition relation of the orchestrator, for a
/// non-terminal starting state.
pub open spec fn spec_transition(
    pre: InstallState,
    event: InstallEvent,
    post: InstallState,
    actions: Seq<InstallAction>,
) -> bool {
    let src = pre.source_url@;
    match event {
        InstallEvent::ResponseHeader { status_code, content_length, content_disposition } => {
            if !(pre.step is Downloading) {
                stutters(pre, post, actions)
            } else if 200 <= status_code < 300 {
                &&& post == InstallState {
                    tracker: ProgressTracker {
                        total: match content_length {
                            Some(n) => n,
                            None => 0,
                        },
                        downloaded: 0,
                        last_percent: None,
                        emitted_bytes: false,
                    },
                    content_disposition,
                    ..pre
                }
                &&& actions.len() == 0
            } else {
                &&& post == InstallState { step: InstallStep::Error, ..pre }
                &&& actions.len() == 3
                &&& is_emit(
                    actions[0],
                    InstallStep::Error,
                    0,
                    "HTTP "@ + spec_dec(status_code as nat),
                    src,
                )
                &&& actions[1] is DeleteTemp
                &&& actions[2] matches InstallAction::Conclude(r) && r matches Err(e) && e matches
                    CommandError::Download { status_code: c, message: m } && c == status_code && m@
                    == "HTTP "@ + spec_dec(status_code as nat)
            }
        },
        InstallEvent::BodyChunk { len } => {
            if !(pre.step is Downloading) {
                stutters(pre, post, actions)
            } else {
                let rec = pre.tracker.spec_record(len);
                &&& post == InstallState { tracker: rec.0, ..pre }
                &&& match rec.1 {
                    ProgressSignal::Percent(p) => actions.len() == 1 && is_emit(
                        actions[0],
                        InstallStep::Downloading,
                        p,
                        "Downloading... "@ + spec_dec(p as nat) + "%"@,
                        src,
                    ),
                    ProgressSignal::Bytes(b) => actions.len() == 1 && is_emit(
                        actions[0],
                        InstallStep::Downloading,
                        0,
                        "Downloaded "@ + spec_dec(b as nat) + " bytes"@,
                        src,
                    ),
                    ProgressSignal::Quiet => actions.len() == 0,
                }
            }
        },
        InstallEvent::BodyFinished => {
            if !(pre.step is Downloading) {
                stutters(pre, post, actions)
            } else {
                &&& post == InstallState { body_done: true, ..pre }
                &&& actions.len() == 2
                &&& is_emit(
                    actions[0],
                    InstallStep::Downloading,
                    100,
                    "Download complete."@,
                    src,
                )
                &&& actions[1] is SniffTemp
            }
        },
        InstallEvent::TransportFailed { detail } => {
            if !(pre.step is Downloading) {
                stutters(pre, post, actions)
            } else {
                &&& post == InstallState { step: InstallStep::Error, ..pre }
                &&& actions.len() == 2
                &&& is_emit(actions[0], InstallStep::Error, 0, detail@, src)
                &&& actions[1] matches InstallAction::Conclude(r) && r matches Err(e) && e matches
                    CommandError::Network(m) && m@ == detail@
            }
        },
        InstallEvent::Sniffed { kind } => {
            if !(pre.step is Downloading && pre.body_done) {
                stutters(pre, post, actions)
            } else if kind is Zip {
                &&& post == InstallState { step: InstallStep::Extracting, ..pre }
                &&& actions.len() == 2
                &&& is_emit(
                    actions[0],
                    InstallStep::Extracting,
                    0,
                    "Starting extraction..."@,
                    src,
                )
                &&& actions[1] is StartExtraction
            } else {
                &&& post == InstallState { step: InstallStep::Saving, ..pre }
                &&& actions.len() == 2
                &&& is_emit(actions[0], InstallStep::Saving, 100, "Saving file..."@, src)
                &&& actions[1] matches InstallAction::StartSave { filename } && filename@
                    == spec_save_filename(opt_view(pre.content_disposition), src)
            }
        },
        InstallEvent::ExtractionFinished { final_path, elapsed_ms } => {
            if !(pre.step is Extracting) {
                stutters(pre, post, actions)
            } else {
                &&& post == InstallState { step: InstallStep::Complete, ..pre }
                &&& actions.len() == 3
                &&& actions[0] is DeleteTemp
                &&& is_emit(
                    actions[1],
                    InstallStep::Complete,
                    100,
                    "Installed in "@ + spec_dec(elapsed_ms as nat) + " ms"@,
                    src,
                )
                &&& is_ok_conclusion(
                    actions[2],
                    "Installed in "@ + spec_dec(elapsed_ms as nat) + " ms"@,
                    final_path@,
                    src,
                )
            }
        },
        InstallEvent::ExtractionFailed { error } => {
            if !(pre.step is Extracting) {
                stutters(pre, post, actions)
            } else {
                // The temp archive is deliberately kept for post-mortem
                // inspection: no DeleteTemp among the actions.
                &&& post == InstallState { step: InstallStep::Error, ..pre }
                &&& actions.len() == 2
                &&& is_emit(actions[0], InstallStep::Error, 0, error.spec_message(), src)
                &&& actions[1] matches InstallAction::Conclude(r) && r matches Err(e) && e == error
            }
        },
        InstallEvent::WorkerFailed { detail } => {
            if !(pre.step is Extracting) {
                stutters(pre, post, actions)
            } else {
                &&& post == InstallState { step: InstallStep::Error, ..pre }
                &&& actions.len() == 2
                &&& is_emit(actions[0], InstallStep::Error, 0, detail@, src)
                &&& actions[1] matches InstallAction::Conclude(r) && r matches Err(e) && e matches
                    CommandError::TaskJoin(m) && m@ == detail@
            }
        },
        InstallEvent::SaveFinished { final_path, elapsed_ms } => {
            if !(pre.step is Saving) {
                stutters(pre, post, actions)
            } else {
                &&& post == InstallState { step: InstallStep::Complete, ..pre }
                &&& actions.len() == 2
                &&& is_emit(
                    actions[0],
                    InstallStep::Complete,
                    100,
                    "Saved in "@ + spec_dec(elapsed_ms as nat) + " ms"@,
                    src,
                )
                &&& is_ok_conclusion(
                    actions[1],
                    "Saved in "@ + spec_dec(elapsed_ms as nat) + " ms"@,
                    final_path@,
                    src,
                )
            }
        },
        InstallEvent::SaveFailed { detail } => {
            if !(pre.step is Saving) {
                stutters(pre, post, actions)
            } else {
                &&& post == InstallState { step: InstallStep::Error, ..pre }
                &&& actions.len() == 3
                &&& is_emit(actions[0], InstallStep::Error, 0, detail@, src)
                &&& actions[1] is DeleteTemp
                &&& actions[2] matches InstallAction::Conclude(r) && r matches Err(e) && e matches
                    CommandError::Io(m) && m@ == detail@
            }
        },
    }
}

impl InstallState {
    /// The state's invariant.
    pub open spec fn wf(&self) -> bool {
        self.tracker.wf()
    }

    /// A fresh install of `url`, entering the `downloading` step; the
    /// returned action announces it.
    pub fn begin(url: String) -> (r: (InstallState, Vec<InstallAction>))
        ensures
            r.0.wf(),
            r.0.step is Downloading,
            !r.0.body_done,
            r.0.source_url@ == url@,
            r.1@.len() == 1,
            is_emit(r.1@[0], InstallStep::Downloading, 0, "Starting download..."@, url@),
    {
        let source = url.clone();
        let state = InstallState {
            step: InstallStep::Downloading,
            source_url: url,
            tracker: ProgressTracker::new(None),
            content_disposition: None,
            body_done: false,
        };
        let mut actions: Vec<InstallAction> = Vec::new();
        actions.push(
            InstallAction::Emit(
                InstallationProgress {
                    step: InstallStep::Downloading,
                    percent: 0,
                    message: "Starting download...".to_owned(),
                    source,
                },
            ),
        );
        (state, actions)
    }

    /// Feed one event; the shell then performs the returned actions
    /// in order.  Terminal states absorb every event; steps never
    /// move backwards.
    pub fn on_event(&mut self, event: InstallEvent) -> (actions: Vec<InstallAction>)
        requires
            old(self).wf(),
        ensures
            final(self).wf(),
            final(self).source_url == old(self).source_url,
            old(self).step.rank() <= final(self).step.rank(),
            old(self).step.is_terminal() ==> *final(self) == *old(self) && actions@.len() == 0,
            !old(self).step.is_terminal() ==> spec_transition(
                *old(self),
                event,
                *final(self),
                actions@,
            ),
    {
        let mut actions: Vec<InstallAction> = Vec::new();
        if self.step.is_terminal_exec() {
            return actions;
        }
        match event {
            InstallEvent::ResponseHeader { status_code, content_length, content_disposition } => {
                if !matches!(self.step, InstallStep::Downloading) {
                    return actions;
                }
                if 200 <= status_code && status_code < 300 {
                    self.tracker = ProgressTracker::new(content_length);
                    self.content_disposition = content_disposition;
                } else {
                    let msg = prefixed("HTTP ", u64_to_dec(status_code as u64).as_str());
                    self.step = InstallStep::Error;
                    actions.push(self.emit_record(InstallStep::Error, 0, msg.clone()));
                    actions.push(InstallAction::DeleteTemp);
                    actions.push(
                        InstallAction::Conclude(
                            Err(CommandError::Download { status_code, message: msg }),
                        ),
                    );
                }
            },
            InstallEvent::BodyChunk { len } => {
                if !matches!(self.step, InstallStep::Downloading) {
                    return actions;
                }
                let signal = self.tracker.record_chunk(len);
                match signal {
                    ProgressSignal::Percent(p) => {
                        let mut msg = prefixed("Downloading... ", u64_to_dec(p as u64).as_str());
                        msg.append("%");
                        actions.push(self.emit_record(InstallStep::Downloading, p, msg));
                    },
                    ProgressSignal::Bytes(b) => {
                        let mut msg = prefixed("Downloaded ", u64_to_dec(b).as_str());
                        msg.append(" bytes");
                        actions.push(self.emit_record(InstallStep::Downloading, 0, msg));
                    },
                    ProgressSignal::Quiet => {},
                }
            },
            InstallEvent::BodyFinished => {
                if !matches!(self.step, InstallStep::Downloading) {
                    return actions;
                }
                self.body_done = true;
                actions.push(
                    self.emit_record(InstallStep::Downloading, 100, "Download complete.".to_owned()),
                );
                actions.push(InstallAction::SniffTemp);
            },
            InstallEvent::TransportFailed { detail } => {
                if !matches!(self.step, InstallStep::Downloading) {
                    return actions;
                }
                self.step = InstallStep::Error;
                actions.push(self.emit_record(InstallStep::Error, 0, detail.clone()));
                actions.push(InstallAction::Conclude(Err(CommandError::Network(detail))));
            },
            InstallEvent::Sniffed { kind } => {
                if !(matches!(self.step, InstallStep::Downloading) && self.body_done) {
                    return actions;
                }
                match kind {
                    ContentKind::Zip => {
                        self.step = InstallStep::Extracting;
                        actions.push(
                            self.emit_record(
                                InstallStep::Extracting,
                                0,
                                "Starting extraction...".to_owned(),
                            ),
                        );
                        actions.push(InstallAction::StartExtraction);
                    },
                    ContentKind::Opaque => {
                        self.step = InstallStep::Saving;
                        actions.push(
                            self.emit_record(InstallStep::Saving, 100, "Saving file...".to_owned()),
                        );
                        let header = match &self.content_disposition {
                            Some(h) => Some(h.as_str()),
                            None => None,
                        };
                        let filename = derive_save_filename(header, self.source_url.as_str());
                        actions.push(InstallAction::StartSave { filename });
                    },
                }
            },
            InstallEvent::ExtractionFinished { final_path, elapsed_ms } => {
                if !matches!(self.step, InstallStep::Extracting) {
                    return actions;
                }
                self.step = InstallStep::Complete;
                let mut msg = prefixed("Installed in ", u64_to_dec(elapsed_ms).as_str());
                msg.append(" ms");
                actions.push(InstallAction::DeleteTemp);
                actions.push(self.emit_record(InstallStep::Complete, 100, msg.clone()));
                actions.push(
                    InstallAction::Conclude(
                        Ok(
                            InstallationResult {
                                success: true,
                                message: msg,
                                final_path: Some(final_path),
                                source: self.source_url.clone(),
                            },
                        ),
                    ),
                );
            },
            InstallEvent::ExtractionFailed { error } => {
                if !matches!(self.step, InstallStep::Extracting) {
                    return actions;
                }
                self.step = InstallStep::Error;
                actions.push(self.emit_record(InstallStep::Error, 0, error.message()));
                actions.push(InstallAction::Conclude(Err(error)));
            },
            InstallEvent::WorkerFailed { detail } => {
                if !matches!(self.step, InstallStep::Extracting) {
                    return actions;
                }
                self.step = InstallStep::Error;
                actions.push(self.emit_record(InstallStep::Error, 0, detail.clone()));
                actions.push(InstallAction::Conclude(Err(CommandError::TaskJoin(detail))));
            },
            InstallEvent::SaveFinished { final_path, elapsed_ms } => {
                if !matches!(self.step, InstallStep::Saving) {
                    return actions;
                }
                self.step = InstallStep::Complete;
                let mut msg = prefixed("Saved in ", u64_to_dec(elapsed_ms).as_str());
                msg.append(" ms");
                actions.push(self.emit_record(InstallStep::Complete, 100, msg.clone()));
                actions.push(
                    InstallAction::Conclude(
                        Ok(
                            InstallationResult {
                                success: true,
                                message: msg,
                                final_path: Some(final_path),
                                source: self.source_url.clone(),
                            },
                        ),
                    ),
                );
            },
            InstallEvent::SaveFailed { detail } => {
                if !matches!(self.step, InstallStep::Saving) {
                    return actions;
                }
                self.step = InstallStep::Error;
                actions.push(self.emit_record(InstallStep::Error, 0, detail.clone()));
                actions.push(InstallAction::DeleteTemp);
                actions.push(InstallAction::Conclude(Err(CommandError::Io(detail))));
            },
        }
        actions
    }

    /// Build one progress record for the current install.
    fn emit_record(&self, step: InstallStep, percent: u8, message: String) -> (a: InstallAction)
        ensures
            is_emit(a, step, percent, message@, self.source_url@),
    {
        InstallAction::Emit(
            InstallationProgress { step, percent, message, source: self.source_url.clone() },
        )
    }
}

impl InstallStep {
    /// Whether the step is `Complete` or `Error`.
    pub fn is_terminal_exec(&self) -> (r: bool)
        ensures
            r == self.is_terminal(),
    {
        matches!(self, InstallStep::Complete | InstallStep::Error)
    }
}

/// Decide how to treat the resolved destination directory before the
/// download starts: create it when absent, use it when it is a
/// directory, and reject anything else as invalid input.
pub fn destination_decision(exists: bool, is_directory: bool, path: &str) -> (r: CommandResult<
    bool,
>)
    ensures
        !exists ==> (r matches Ok(create) && create),
        exists && is_directory ==> (r matches Ok(create) && !create),
        (exists && !is_directory) <==> r is Err,
        r matches Err(e) ==> e matches CommandError::Input(m) && m@
            == "Destination exists but is not a directory: "@ + path@,
{
    if !exists {
        Ok(true)
    } else if is_directory {
        Ok(false)
    } else {
        Err(
            CommandError::Input(
                prefixed("Destination exists but is not a directory: ", path),
            ),
        )
    }
}

} // verus!
