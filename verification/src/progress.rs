//! Phase bookkeeping for the progress display, and the shared cancellation
//! flag of parallel work.
use std::sync::atomic::{AtomicBool, Ordering};
use std::sync::Arc;
use vstd::prelude::*;

use crate::text::{decimal, push_decimal, push_str};

verus! {

/// Which phase the run is in, out of how many, and whether anything is shown.
pub struct ProgressManager {
    pub verbose: bool,
    pub enabled: bool,
    pub current_phase: usize,
    pub total_phases: usize,
}

/// How a phase is drawn: its `indicatif` template and, for a bar, its
/// length (a spinner has none).
#[derive(Debug, Clone)]
pub struct PhaseDisplay {
    pub template: String,
    pub length: Option<usize>,
}

/// A started phase: how it is drawn (nothing when the display is off) and
/// whether progress messages are wanted.
#[derive(Debug, Clone)]
pub struct ProgressPhase {
    pub display: Option<PhaseDisplay>,
    pub verbose: bool,
}

/// Where a progress message goes.
#[derive(Debug, Clone, PartialEq, Eq)]
pub enum MessageRoute {
    /// Not shown: the run is not verbose.
    Drop,
    /// Shown as the message of the phase's bar.
    ToBar(String),
    /// Printed on its own line to standard error.
    Print(String),
}

/// The number of phases of a run: a patch phase makes five.
pub open spec fn phase_count(has_patch: bool) -> usize {
    if has_patch { 5 } else { 4 }
}

/// `[phase/total] ` as the templates begin.
pub open spec fn phase_prefix(phase: usize, total: usize) -> Seq<char> {
    seq!['['] + decimal(phase as nat) + seq!['/'] + decimal(total as nat) + seq![']', ' ']
}

/// The template of a spinner: `[phase/total] {spinner} message`.
pub open spec fn spinner_template(phase: usize, total: usize, message: Seq<char>) -> Seq<char> {
    phase_prefix(phase, total) + "{spinner} "@ + message
}

/// The template of a bar:
/// `[phase/total] message: [{bar:40}] {percent}% ({pos}/{len})`.
pub open spec fn bar_template(phase: usize, total: usize, message: Seq<char>) -> Seq<char> {
    phase_prefix(phase, total) + message + ": [{bar:40}] {percent}% ({pos}/{len})"@
}

/// A count followed by a word and a full stop, after a leading word:
/// `Found 3 items.` and the like.
pub open spec fn count_line(lead: Seq<char>, count: usize, tail: Seq<char>) -> Seq<char> {
    lead + decimal(count as nat) + tail
}

impl ProgressManager {
    /// A manager for a run with or without a patch phase; `enabled` is
    /// whether standard output is a terminal (nothing is drawn when piped).
    pub fn new(verbose: bool, has_patch: bool, enabled: bool) -> (r: ProgressManager)
        ensures
            r.verbose == verbose,
            r.enabled == enabled,
            r.current_phase == 0,
            r.total_phases == phase_count(has_patch),
    {
        ProgressManager { verbose, enabled, current_phase: 0, total_phases: if has_patch { 5 } else { 4 } }
    }

    /// Sets whether the run has a patch phase.
    pub fn set_has_patch(&mut self, has_patch: bool)
        ensures
            final(self).total_phases == phase_count(has_patch),
            final(self).verbose == old(self).verbose,
            final(self).enabled == old(self).enabled,
            final(self).current_phase == old(self).current_phase,
    {
        self.total_phases = if has_patch { 5 } else { 4 };
    }

    fn prefix(&self) -> (r: String)
        ensures
            r@ == phase_prefix(self.current_phase, self.total_phases),
    {
        let mut s = String::new();
        push_str(&mut s, "[");
        push_decimal(&mut s, self.current_phase as u64);
        push_str(&mut s, "/");
        push_decimal(&mut s, self.total_phases as u64);
        push_str(&mut s, "] ");
        proof {
            reveal_strlit("[");
            reveal_strlit("/");
            reveal_strlit("] ");
            assert(s@ =~= phase_prefix(self.current_phase, self.total_phases));
        }
        s
    }

    fn create_spinner(&self, message: &str) -> (r: Option<PhaseDisplay>)
        ensures
            self.enabled ==> (r matches Some(d) && d.length is None
                && d.template@ == spinner_template(self.current_phase, self.total_phases, message@)),
            !self.enabled ==> r is None,
    {
        if !self.enabled {
            return None;
        }
        let mut t = self.prefix();
        push_str(&mut t, "{spinner} ");
        push_str(&mut t, message);
        Some(PhaseDisplay { template: t, length: None })
    }

    fn create_progress_bar(&self, total: usize, message: &str) -> (r: Option<PhaseDisplay>)
        ensures
            self.enabled ==> (r matches Some(d) && d.length == Some(total)
                && d.template@ == bar_template(self.current_phase, self.total_phases, message@)),
            !self.enabled ==> r is None,
    {
        if !self.enabled {
            return None;
        }
        let mut t = self.prefix();
        push_str(&mut t, message);
        push_str(&mut t, ": [{bar:40}] {percent}% ({pos}/{len})");
        Some(PhaseDisplay { template: t, length: Some(total) })
    }

    /// Starts the scanning phase (phase 1), drawn as a spinner.
    pub fn start_scanning(&mut self) -> (r: ProgressPhase)
        ensures
            final(self).current_phase == 1,
            final(self).total_phases == old(self).total_phases,
            final(self).enabled == old(self).enabled,
            final(self).verbose == old(self).verbose,
            r.verbose == old(self).verbose,
            old(self).enabled ==> (r.display matches Some(d) && d.length is None
                && d.template@ == spinner_template(1, old(self).total_phases, "Scanning Directories..."@)),
            !old(self).enabled ==> r.display is None,
    {
        self.current_phase = 1;
        let d = self.create_spinner("Scanning Directories...");
        ProgressPhase { display: d, verbose: self.verbose }
    }

    /// The line printed when scanning ends, if the display is on.
    pub fn finish_scanning(&self, count: usize) -> (r: Option<String>)
        ensures
            self.enabled ==> (r matches Some(s) && s@ == count_line("Found "@, count, " items."@)),
            !self.enabled ==> r is None,
    {
        if self.enabled { Some(Self::count_message("Found ", count, " items.")) } else { None }
    }

    fn count_message(lead: &str, count: usize, tail: &str) -> (r: String)
        ensures
            r@ == count_line(lead@, count, tail@),
    {
        let mut s = lead.to_owned();
        push_decimal(&mut s, count as u64);
        push_str(&mut s, tail);
        s
    }

    /// Starts the comparing phase (phase 2), drawn as a bar of `total` steps.
    pub fn start_comparing(&mut self, total: usize) -> (r: ProgressPhase)
        ensures
            final(self).current_phase == 2,
            final(self).total_phases == old(self).total_phases,
            final(self).enabled == old(self).enabled,
            final(self).verbose == old(self).verbose,
            r.verbose == old(self).verbose,
            old(self).enabled ==> (r.display matches Some(d) && d.length == Some(total)
                && d.template@ == bar_template(2, old(self).total_phases, "Comparing Files"@)),
            !old(self).enabled ==> r.display is None,
    {
        self.current_phase = 2;
        let d = self.create_progress_bar(total, "Comparing Files");
        ProgressPhase { display: d, verbose: self.verbose }
    }

    /// The line printed when comparing ends, if the display is on.
    pub fn finish_comparing(&self, count: usize) -> (r: Option<String>)
        ensures
            self.enabled ==> (r matches Some(s) && s@ == count_line("Compared "@, count, " items."@)),
            !self.enabled ==> r is None,
    {
        if self.enabled { Some(Self::count_message("Compared ", count, " items.")) } else { None }
    }

    /// Starts the copying phase (phase 3), drawn as a bar of `total` steps.
    pub fn start_copying(&mut self, total: usize) -> (r: ProgressPhase)
        ensures
            final(self).current_phase == 3,
            final(self).total_phases == old(self).total_phases,
            final(self).enabled == old(self).enabled,
            final(self).verbose == old(self).verbose,
            r.verbose == old(self).verbose,
            old(self).enabled ==> (r.display matches Some(d) && d.length == Some(total)
                && d.template@ == bar_template(3, old(self).total_phases, "Copying Files"@)),
            !old(self).enabled ==> r.display is None,
    {
        self.current_phase = 3;
        let d = self.create_progress_bar(total, "Copying Files");
        ProgressPhase { display: d, verbose: self.verbose }
    }

    /// The line printed when copying ends, if the display is on.
    pub fn finish_copying(&self, count: usize) -> (r: Option<String>)
        ensures
            self.enabled ==> (r matches Some(s) && s@ == count_line("Copied "@, count, " files."@)),
            !self.enabled ==> r is None,
    {
        if self.enabled { Some(Self::count_message("Copied ", count, " files.")) } else { None }
    }

    /// Starts the patch phase (phase 4), drawn as a bar of `total` steps.
    pub fn start_patching(&mut self, total: usize) -> (r: ProgressPhase)
        ensures
            final(self).current_phase == 4,
            final(self).total_phases == old(self).total_phases,
            final(self).enabled == old(self).enabled,
            final(self).verbose == old(self).verbose,
            r.verbose == old(self).verbose,
            old(self).enabled ==> (r.display matches Some(d) && d.length == Some(total)
                && d.template@ == bar_template(4, old(self).total_phases, "Generating Patches"@)),
            !old(self).enabled ==> r.display is None,
    {
        self.current_phase = 4;
        let d = self.create_progress_bar(total, "Generating Patches");
        ProgressPhase { display: d, verbose: self.verbose }
    }

    /// The line printed when the patch phase ends, if the display is on.
    pub fn finish_patching(&self, count: usize) -> (r: Option<String>)
        ensures
            self.enabled ==> (r matches Some(s) && s@ == count_line("Generated "@, count, " patches."@)),
            !self.enabled ==> r is None,
    {
        if self.enabled { Some(Self::count_message("Generated ", count, " patches.")) } else { None }
    }

    /// Starts the summary phase, the last one: 5 when there is a patch phase,
    /// else 4; drawn as a spinner.
    pub fn start_summary(&mut self) -> (r: ProgressPhase)
        ensures
            final(self).current_phase == (if old(self).total_phases == 5 { 5usize } else { 4usize }),
            final(self).total_phases == old(self).total_phases,
            final(self).enabled == old(self).enabled,
            final(self).verbose == old(self).verbose,
            r.verbose == old(self).verbose,
            old(self).enabled ==> (r.display matches Some(d) && d.length is None
                && d.template@ == spinner_template(final(self).current_phase, old(self).total_phases, "Writing Summary..."@)),
            !old(self).enabled ==> r.display is None,
    {
        self.current_phase = if self.total_phases == 5 { 5 } else { 4 };
        let d = self.create_spinner("Writing Summary...");
        ProgressPhase { display: d, verbose: self.verbose }
    }

    /// The line printed when the run completes, if the display is on.
    pub fn finish_summary(&self) -> (r: Option<String>)
        ensures
            self.enabled ==> (r matches Some(s) && s@ == "Completed."@),
            !self.enabled ==> r is None,
    {
        if self.enabled { Some("Completed.".to_owned()) } else { None }
    }
}

impl ProgressPhase {
    /// Where a progress message goes: nowhere unless verbose; to the bar
    /// when the phase is drawn; else printed, indented by two spaces.
    pub fn set_message(&self, msg: &str) -> (r: MessageRoute)
        ensures
            !self.verbose ==> r == MessageRoute::Drop,
            self.verbose && self.display is Some ==> (r matches MessageRoute::ToBar(m) && m@ == msg@),
            self.verbose && self.display is None ==> (r matches MessageRoute::Print(m) && m@ == "  "@ + msg@),
    {
        if !self.verbose {
            MessageRoute::Drop
        } else if self.display.is_some() {
            MessageRoute::ToBar(msg.to_owned())
        } else {
            let mut m = "  ".to_owned();
            push_str(&mut m, msg);
            MessageRoute::Print(m)
        }
    }
}

/// A cancellation flag shared by the workers of a parallel phase.
pub struct CancellationToken {
    cancelled: Arc<AtomicBool>,
}

/// Another handle on a shared flag (`Arc::clone`). The contract claims what
/// the documentation says: the new `Arc` points to the same allocation, so
/// it holds the same flag.
#[verifier::external_body]
fn share_flag(a: &Arc<AtomicBool>) -> (r: Arc<AtomicBool>)
    ensures
        r == *a,
{
    Arc::clone(a)
}

impl CancellationToken {
    /// A flag that is not set.
    pub fn new() -> (r: CancellationToken) {
        CancellationToken { cancelled: Arc::new(AtomicBool::new(false)) }
    }

    /// Sets the flag; every holder of the shared flag sees it.
    pub fn cancel(&self) {
        self.cancelled.store(true, Ordering::SeqCst);
    }

    /// Whether the flag is set. Other threads may set it at any time, so
    /// nothing is stated of the result.
    pub fn is_cancelled(&self) -> (r: bool) {
        self.cancelled.load(Ordering::SeqCst)
    }

    /// The flag the token shares.
    pub closed spec fn flag(self) -> Arc<AtomicBool> {
        self.cancelled
    }

    /// The shared flag itself, for workers that poll it.
    pub fn clone_inner(&self) -> (r: Arc<AtomicBool>)
        ensures
            r == self.flag(),
    {
        share_flag(&self.cancelled)
    }
}

impl Default for CancellationToken {
    fn default() -> (r: CancellationToken) {
        CancellationToken::new()
    }
}

} // verus!
