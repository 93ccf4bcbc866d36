//! Unpack phase: how the unpacking tool is invoked on each executable, how
//! its exit is read, and how the phase accounts for each executable.
use vstd::prelude::*;
use crate::progress::{lemma_unpack_percent_monotone, unpack_percent, unpack_percent_spec};
use crate::text::concat2;

verus! {

pub enum UnpackError {
    /// The tool's executable does not exist.
    ToolMissing,
    /// The tool ran and exited unsuccessfully, with this code (-1 when it
    /// had none).
    ToolExitNonZero(i32),
}

/// The fixed flags passed before the executable's path.
pub open spec fn unpack_args_spec(exe_path: Seq<char>) -> Seq<Seq<char>> {
    seq!["--quiet"@, "--keep-bind-section"@, "--unpacked-name"@, "--all-plugins"@, exe_path]
}

/// The arguments for one run of the tool on `exe_path`, or `ToolMissing`.
pub fn unpack_args(tool_exists: bool, exe_path: &str) -> (r: Result<Vec<String>, UnpackError>)
    ensures
        !tool_exists <==> r is Err,
        !tool_exists ==> r == Err::<Vec<String>, UnpackError>(UnpackError::ToolMissing),
        r matches Ok(v) ==> v@.map_values(|s: String| s@) == unpack_args_spec(exe_path@),
{
    if !tool_exists {
        return Err(UnpackError::ToolMissing);
    }
    let mut v: Vec<String> = Vec::new();
    v.push(String::from_str("--quiet"));
    v.push(String::from_str("--keep-bind-section"));
    v.push(String::from_str("--unpacked-name"));
    v.push(String::from_str("--all-plugins"));
    v.push(String::from_str(exe_path));
    assert(v@.map_values(|s: String| s@) =~= unpack_args_spec(exe_path@));
    Ok(v)
}

/// Reads the tool's exit: success, or the exit code (-1 when the process
/// ended without one).
pub fn exit_outcome(success: bool, code: Option<i32>) -> (r: Result<(), UnpackError>)
    ensures
        success ==> r is Ok,
        !success ==> r == Err::<(), UnpackError>(UnpackError::ToolExitNonZero(
            match code {
                Some(c) => c,
                None => -1i32,
            },
        )),
{
    if success {
        Ok(())
    } else {
        match code {
            Some(c) => Err(UnpackError::ToolExitNonZero(c)),
            None => Err(UnpackError::ToolExitNonZero(-1)),
        }
    }
}

/// What follows the tool's run on one executable.
pub enum AfterTool {
    /// The tool ran: move its output into place.
    Reconcile,
    /// The tool failed: a warning is recorded and the executable is left as
    /// it is; the phase goes on with the next one.
    Skip,
}

/// Accounting of the unpack phase over `total` executables.
#[derive(Clone, Copy)]
pub struct UnpackPhase {
    pub total: usize,
    pub done: usize,
    pub processed: usize,
    pub warnings: usize,
    /// The last percentage reported.
    pub reported: u32,
    /// The tool ran on the current executable, whose output awaits moving
    /// into place.
    pub reconciling: bool,
}

pub open spec fn percent_of(p: UnpackPhase) -> int {
    unpack_percent_spec(p.done as nat, p.total as nat)
}

/// The state once the next executable is announced at the current
/// percentage.
pub open spec fn start_spec(p: UnpackPhase) -> UnpackPhase {
    UnpackPhase { reported: percent_of(p) as u32, ..p }
}

/// The state after the tool's run on the current executable.
pub open spec fn after_tool_spec(p: UnpackPhase, tool_ok: bool) -> UnpackPhase {
    if tool_ok {
        UnpackPhase { reconciling: true, ..p }
    } else {
        UnpackPhase { done: (p.done + 1) as usize, warnings: (p.warnings + 1) as usize, ..p }
    }
}

/// The state once the current executable's output was moved into place,
/// or failed to be.
pub open spec fn after_reconcile_spec(p: UnpackPhase, ok: bool) -> UnpackPhase {
    let q = UnpackPhase {
        done: (p.done + 1) as usize,
        processed: if ok { (p.processed + 1) as usize } else { p.processed },
        warnings: if ok { p.warnings } else { (p.warnings + 1) as usize },
        reconciling: false,
        ..p
    };
    UnpackPhase { reported: percent_of(q) as u32, ..q }
}

impl UnpackPhase {
    pub open spec fn wf(&self) -> bool {
        &&& self.done <= self.total
        &&& self.processed + self.warnings == self.done
        &&& self.reconciling ==> self.done < self.total
    }

    pub fn new(total: usize) -> (r: UnpackPhase)
        ensures
            r.wf(),
            r.total == total,
            r.done == 0,
            r.processed == 0,
            r.warnings == 0,
            r.reported == 0,
            !r.reconciling,
    {
        UnpackPhase { total, done: 0, processed: 0, warnings: 0, reported: 0, reconciling: false }
    }

    /// Percentage at the current point.
    pub fn percent(&self) -> (r: u32)
        requires
            self.wf(),
        ensures
            r == percent_of(*self),
            r <= 50,
    {
        unpack_percent(self.done, self.total)
    }

    /// Announces the next executable: the percentage to report with it.
    pub fn start_exe(&mut self) -> (r: u32)
        requires
            old(self).wf(),
            !old(self).reconciling,
            old(self).done < old(self).total,
        ensures
            *final(self) == start_spec(*old(self)),
            final(self).wf(),
            r == final(self).reported,
    {
        self.reported = self.percent();
        self.reported
    }

    /// Records the tool's run on the current executable and says what
    /// follows: its output is reconciled exactly when the tool succeeded.
    pub fn after_tool(&mut self, tool_ok: bool) -> (r: AfterTool)
        requires
            old(self).wf(),
            !old(self).reconciling,
            old(self).done < old(self).total,
        ensures
            *final(self) == after_tool_spec(*old(self), tool_ok),
            final(self).wf(),
            tool_ok <==> r is Reconcile,
    {
        if tool_ok {
            self.reconciling = true;
            AfterTool::Reconcile
        } else {
            self.done = self.done + 1;
            self.warnings = self.warnings + 1;
            AfterTool::Skip
        }
    }

    /// Records whether the current executable's output was moved into
    /// place, and returns the percentage to report.
    pub fn after_reconcile(&mut self, ok: bool) -> (r: u32)
        requires
            old(self).wf(),
            old(self).reconciling,
        ensures
            *final(self) == after_reconcile_spec(*old(self), ok),
            final(self).wf(),
            r == final(self).reported,
    {
        self.done = self.done + 1;
        if ok {
            self.processed = self.processed + 1;
        } else {
            self.warnings = self.warnings + 1;
        }
        self.reconciling = false;
        self.reported = self.percent();
        self.reported
    }

    /// Once every executable was handled: the closing percentage to
    /// report when the last one reported fell short of the phase's end.
    pub fn closing(&self) -> (r: Option<u32>)
        requires
            self.wf(),
            self.done == self.total,
        ensures
            r == (if self.reported < 50 { Some(50u32) } else { None::<u32> }),
    {
        if self.reported < 50 {
            Some(50)
        } else {
            None
        }
    }
}

/// Executables whose tool run or reconcile failed, among `tool_ok` and
/// `reconciled_ok` (the latter read only where the tool succeeded).
pub open spec fn failures(tool_ok: Seq<bool>, reconciled_ok: Seq<bool>) -> nat
    decreases tool_ok.len(),
{
    if tool_ok.len() == 0 {
        0
    } else {
        (if tool_ok[0] && reconciled_ok[0] { 0nat } else { 1nat }) + failures(
            tool_ok.drop_first(),
            reconciled_ok.drop_first(),
        )
    }
}

/// The phase after handling one executable per entry of `tool_ok`, as the
/// caller drives it: announce, run the tool, and reconcile only where the
/// tool succeeded.
pub open spec fn drive(p: UnpackPhase, tool_ok: Seq<bool>, reconciled_ok: Seq<bool>) -> UnpackPhase
    decreases tool_ok.len(),
{
    if tool_ok.len() == 0 {
        p
    } else {
        let q = after_tool_spec(start_spec(p), tool_ok[0]);
        let q2 = if tool_ok[0] {
            after_reconcile_spec(q, reconciled_ok[0])
        } else {
            q
        };
        drive(q2, tool_ok.drop_first(), reconciled_ok.drop_first())
    }
}

/// A failing tool does not stop the phase: driven over all remaining
/// executables, the phase handles every one, records one warning per
/// executable whose tool run (or reconcile) failed, counts the others as
/// processed, and ends at 50 percent.
pub proof fn lemma_phase_goes_on(p: UnpackPhase, tool_ok: Seq<bool>, reconciled_ok: Seq<bool>)
    requires
        p.wf(),
        !p.reconciling,
        tool_ok.len() == reconciled_ok.len(),
        p.done + tool_ok.len() == p.total,
    ensures
        drive(p, tool_ok, reconciled_ok).done == p.total,
        drive(p, tool_ok, reconciled_ok).warnings == p.warnings + failures(tool_ok, reconciled_ok),
        drive(p, tool_ok, reconciled_ok).processed + drive(p, tool_ok, reconciled_ok).warnings == p.total,
        !drive(p, tool_ok, reconciled_ok).reconciling,
        percent_of(drive(p, tool_ok, reconciled_ok)) == 50,
    decreases tool_ok.len(),
{
    if tool_ok.len() == 0 {
        lemma_unpack_percent_monotone(p.total as nat, p.total as nat, p.total as nat);
    } else {
        let q = after_tool_spec(start_spec(p), tool_ok[0]);
        let q2 = if tool_ok[0] {
            after_reconcile_spec(q, reconciled_ok[0])
        } else {
            q
        };
        lemma_phase_goes_on(q2, tool_ok.drop_first(), reconciled_ok.drop_first());
    }
}

/// The phase's result message for a game directory.
pub fn unpack_summary(game_location: &str) -> (r: String)
    ensures
        r@ == "Steamless DRM removal completed for: "@ + game_location@,
{
    concat2("Steamless DRM removal completed for: ", game_location)
}

} // verus!
