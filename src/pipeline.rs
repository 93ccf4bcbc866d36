//! Pipeline orchestrator: the order of the steps for each target library,
//! the progress reported after each, how a run starts from a scan, and the
//! run's summary.
use vstd::prelude::*;
use crate::progress::{library_percent_spec, ProgressBudget, STEPS_PER_TARGET};
use crate::scan::{ScanError, ScanReport};
use crate::text::{concat2, concat3};

verus! {

/// The steps that each target library goes through, in order.
#[derive(PartialEq, Eq, Structural, Clone, Copy, Debug)]
pub enum Stage {
    ValidateSources,
    CreateMetadataDir,
    GenerateInterfaces,
    FetchAchievements,
    CreateBackupDir,
    BackupOriginal,
    CopyLibrary,
    CopyCompanion,
    CopyAssets,
    WriteConfigs,
    WriteDlcs,
    WriteDepots,
    WriteLanguages,
    WriteAppId,
    CreateArchive,
}

pub open spec fn stage_spec(i: usize) -> Stage {
    match i {
        0 => Stage::ValidateSources,
        1 => Stage::CreateMetadataDir,
        2 => Stage::GenerateInterfaces,
        3 => Stage::FetchAchievements,
        4 => Stage::CreateBackupDir,
        5 => Stage::BackupOriginal,
        6 => Stage::CopyLibrary,
        7 => Stage::CopyCompanion,
        8 => Stage::CopyAssets,
        9 => Stage::WriteConfigs,
        10 => Stage::WriteDlcs,
        11 => Stage::WriteDepots,
        12 => Stage::WriteLanguages,
        13 => Stage::WriteAppId,
        _ => Stage::CreateArchive,
    }
}

pub fn stage_at(i: usize) -> (r: Stage)
    requires
        i < STEPS_PER_TARGET,
    ensures
        r == stage_spec(i),
{
    match i {
        0 => Stage::ValidateSources,
        1 => Stage::CreateMetadataDir,
        2 => Stage::GenerateInterfaces,
        3 => Stage::FetchAchievements,
        4 => Stage::CreateBackupDir,
        5 => Stage::BackupOriginal,
        6 => Stage::CopyLibrary,
        7 => Stage::CopyCompanion,
        8 => Stage::CopyAssets,
        9 => Stage::WriteConfigs,
        10 => Stage::WriteDlcs,
        11 => Stage::WriteDepots,
        12 => Stage::WriteLanguages,
        13 => Stage::WriteAppId,
        _ => Stage::CreateArchive,
    }
}

pub open spec fn stage_message_spec(s: Stage) -> Seq<char> {
    match s {
        Stage::ValidateSources => "Validated source files"@,
        Stage::CreateMetadataDir => "Created steam_settings directory"@,
        Stage::GenerateInterfaces => "Generated steam_interfaces.txt"@,
        Stage::FetchAchievements => "Fetched achievements, stats, and images"@,
        Stage::CreateBackupDir => "Created backup directory"@,
        Stage::BackupOriginal => "Backed up original DLL"@,
        Stage::CopyLibrary => "Copied Goldberg DLL"@,
        Stage::CopyCompanion => "Copied steamclient DLL"@,
        Stage::CopyAssets => "Copied sound and font files"@,
        Stage::WriteConfigs => "Generated configuration files"@,
        Stage::WriteDlcs => "Fetched and wrote DLCs"@,
        Stage::WriteDepots => "Fetched and wrote depots"@,
        Stage::WriteLanguages => "Fetched and wrote languages"@,
        Stage::WriteAppId => "Created steam_appid.txt"@,
        Stage::CreateArchive => "Created backup archive"@,
    }
}

/// The progress message reported once a step is done.
pub fn stage_message(s: Stage) -> (r: &'static str)
    ensures
        r@ == stage_message_spec(s),
{
    match s {
        Stage::ValidateSources => "Validated source files",
        Stage::CreateMetadataDir => "Created steam_settings directory",
        Stage::GenerateInterfaces => "Generated steam_interfaces.txt",
        Stage::FetchAchievements => "Fetched achievements, stats, and images",
        Stage::CreateBackupDir => "Created backup directory",
        Stage::BackupOriginal => "Backed up original DLL",
        Stage::CopyLibrary => "Copied Goldberg DLL",
        Stage::CopyCompanion => "Copied steamclient DLL",
        Stage::CopyAssets => "Copied sound and font files",
        Stage::WriteConfigs => "Generated configuration files",
        Stage::WriteDlcs => "Fetched and wrote DLCs",
        Stage::WriteDepots => "Fetched and wrote depots",
        Stage::WriteLanguages => "Fetched and wrote languages",
        Stage::WriteAppId => "Created steam_appid.txt",
        Stage::CreateArchive => "Created backup archive",
    }
}

/// One progress event: a percentage and a message.
pub struct ProgressEvent {
    pub percent: u32,
    pub message: String,
}

/// What the run does next.
pub enum RunStep {
    /// Perform this step for the target library with this index.
    Perform { target: usize, stage: Stage },
    /// Every step of every target is done.
    Done,
}

pub open spec fn next_step_spec(n_targets: nat, done: nat) -> RunStep {
    if done >= n_targets * STEPS_PER_TARGET as nat {
        RunStep::Done
    } else {
        RunStep::Perform {
            target: (done / STEPS_PER_TARGET as nat) as usize,
            stage: stage_spec((done % STEPS_PER_TARGET as nat) as usize),
        }
    }
}

/// The replacement phase of one run, over its target libraries in order.
/// A failing step ends the run: the caller stops asking for steps.
pub struct CrackRun {
    pub progress: ProgressBudget,
}

impl CrackRun {
    pub open spec fn wf(&self) -> bool {
        self.progress.wf()
    }

    pub open spec fn finished(&self) -> bool {
        self.progress.done == self.progress.total()
    }

    pub fn new(n_targets: usize) -> (r: CrackRun)
        requires
            n_targets > 0,
        ensures
            r.wf(),
            r.progress.n_targets == n_targets,
            r.progress.done == 0,
    {
        CrackRun { progress: ProgressBudget::new(n_targets) }
    }

    /// The step to perform next.
    pub fn next_step(&self) -> (r: RunStep)
        requires
            self.wf(),
        ensures
            r == next_step_spec(self.progress.n_targets as nat, self.progress.done as nat),
    {
        let total: u128 = self.progress.n_targets as u128 * 15;
        if self.progress.done >= total {
            return RunStep::Done;
        }
        let d = self.progress.done;
        proof {
            assert(d / 15 < self.progress.n_targets) by (nonlinear_arith)
                requires d < self.progress.n_targets as nat * 15;
        }
        RunStep::Perform { target: (d / 15) as usize, stage: stage_at((d % 15) as usize) }
    }

    /// Records that the step `next_step` named succeeded, and returns the
    /// progress event to report for it.
    pub fn complete_step(&mut self) -> (r: ProgressEvent)
        requires
            old(self).wf(),
            !old(self).finished(),
        ensures
            final(self).wf(),
            final(self).progress.n_targets == old(self).progress.n_targets,
            final(self).progress.done == old(self).progress.done + 1,
            r.percent == library_percent_spec(final(self).progress.n_targets as nat, final(self).progress.done as nat),
            r.message@ == stage_message_spec(stage_spec((old(self).progress.done as nat % STEPS_PER_TARGET as nat) as usize)),
    {
        let stage = stage_at((self.progress.done % 15) as usize);
        let percent = self.progress.advance();
        ProgressEvent { percent, message: String::from_str(stage_message(stage)) }
    }
}

/// How a run begins, given the scan of the game directory.
pub enum RunStart {
    /// Process the scanned targets.
    Run(CrackRun),
    /// Nothing to do: no target library was found. This is informational,
    /// with a final progress event; nothing is written.
    NoTargets(ProgressEvent),
    /// The game directory is not a directory.
    Invalid(String),
}

pub open spec fn no_targets_message() -> Seq<char> {
    "No Steam API DLLs found in game directory"@
}

/// Starts a run only when the scan found targets; otherwise no step is
/// ever performed.
pub fn start_run(game_location: &str, scan: &Result<ScanReport, ScanError>) -> (r: RunStart)
    ensures
        scan matches Err(ScanError::NotADirectory) ==> r matches RunStart::Invalid(m)
            && m@ == "Invalid game directory: "@ + game_location@,
        scan matches Err(ScanError::NoTargetsFound) ==> r matches RunStart::NoTargets(e)
            && e.percent == 100 && e.message@ == no_targets_message(),
        scan matches Ok(rep) ==> (rep.targets@.len() > 0 ==> (r matches RunStart::Run(run)
            && run.wf() && run.progress.done == 0 && run.progress.n_targets == rep.targets@.len())),
        scan matches Ok(rep) ==> (rep.targets@.len() == 0 ==> (r matches RunStart::NoTargets(e)
            && e.percent == 100 && e.message@ == no_targets_message())),
{
    match scan {
        Err(ScanError::NotADirectory) => RunStart::Invalid(concat2("Invalid game directory: ", game_location)),
        Err(ScanError::NoTargetsFound) => RunStart::NoTargets(ProgressEvent {
            percent: 100,
            message: String::from_str("No Steam API DLLs found in game directory"),
        }),
        Ok(rep) => {
            if rep.targets.len() == 0 {
                RunStart::NoTargets(ProgressEvent {
                    percent: 100,
                    message: String::from_str("No Steam API DLLs found in game directory"),
                })
            } else {
                RunStart::Run(CrackRun::new(rep.targets.len()))
            }
        },
    }
}

/// The file name of the emulation library for a target of this kind.
pub open spec fn library_name_spec(is_64bit: bool) -> Seq<char> {
    if is_64bit { "steam_api64.dll"@ } else { "steam_api.dll"@ }
}

pub fn library_name(is_64bit: bool) -> (r: &'static str)
    ensures
        r@ == library_name_spec(is_64bit),
{
    if is_64bit { "steam_api64.dll" } else { "steam_api.dll" }
}

/// The file name of the companion client library for a target of this kind.
pub open spec fn companion_name_spec(is_64bit: bool) -> Seq<char> {
    if is_64bit { "steamclient64.dll"@ } else { "steamclient.dll"@ }
}

pub fn companion_name(is_64bit: bool) -> (r: &'static str)
    ensures
        r@ == companion_name_spec(is_64bit),
{
    if is_64bit { "steamclient64.dll" } else { "steamclient.dll" }
}

/// The files a target of this kind needs from the dependency cache, in the
/// order in which they are checked.
pub open spec fn cache_files_spec(is_64bit: bool) -> Seq<Seq<char>> {
    seq![
        library_name_spec(is_64bit),
        companion_name_spec(is_64bit),
        "overlay_achievement_notification.wav"@,
        "Roboto-Medium.ttf"@,
    ]
}

pub fn cache_files(is_64bit: bool) -> (r: Vec<String>)
    ensures
        r@.map_values(|s: String| s@) == cache_files_spec(is_64bit),
{
    let mut v: Vec<String> = Vec::new();
    v.push(String::from_str(library_name(is_64bit)));
    v.push(String::from_str(companion_name(is_64bit)));
    v.push(String::from_str("overlay_achievement_notification.wav"));
    v.push(String::from_str("Roboto-Medium.ttf"));
    assert(v@.map_values(|s: String| s@) =~= cache_files_spec(is_64bit));
    v
}

/// The first cache file that is missing, given whether each exists.
pub fn first_missing(exists: &Vec<bool>) -> (r: Option<usize>)
    ensures
        match r {
            Some(i) => i < exists@.len() && !exists@[i as int] && forall|j: int| 0 <= j < i ==> exists@[j],
            None => forall|j: int| 0 <= j < exists@.len() ==> exists@[j],
        },
{
    let mut i: usize = 0;
    while i < exists.len()
        invariant
            i <= exists@.len(),
            forall|j: int| 0 <= j < i ==> exists@[j],
        decreases exists@.len() - i,
    {
        if !exists[i] {
            return Some(i);
        }
        i += 1;
    }
    None
}

/// The error for a dependency missing from the cache.
pub fn missing_dependency_message(name: &str, path: &str) -> (r: String)
    ensures
        r@ == name@ + " not found in cache: "@ + path@,
{
    concat3(name, " not found in cache: ", path)
}

/// The summary line for one processed target.
pub fn library_summary(library: &str, dir: &str) -> (r: String)
    ensures
        r@ == "Applied Goldberg to "@ + library@ + " in "@ + dir@,
{
    let mut s = concat3("Applied Goldberg to ", library, " in ");
    s.append(dir);
    s
}

/// Lines joined by newlines, without a trailing one.
pub open spec fn joined_spec(lines: Seq<Seq<char>>) -> Seq<char>
    decreases lines.len(),
{
    if lines.len() == 0 {
        Seq::empty()
    } else if lines.len() == 1 {
        lines[0]
    } else {
        joined_spec(lines.drop_last()) + "\n"@ + lines.last()
    }
}

/// The run's summary: one line per processed target.
pub fn join_lines(lines: &Vec<String>) -> (r: String)
    ensures
        r@ == joined_spec(lines@.map_values(|s: String| s@)),
{
    let mut out = String::new();
    let mut i: usize = 0;
    while i < lines.len()
        invariant
            i <= lines@.len(),
            out@ == joined_spec(lines@.subrange(0, i as int).map_values(|s: String| s@)),
        decreases lines@.len() - i,
    {
        if i > 0 {
            out.append("\n");
        }
        out.append(lines[i].as_str());
        proof {
            let v = lines@.subrange(0, i + 1).map_values(|s: String| s@);
            assert(v.drop_last() =~= lines@.subrange(0, i as int).map_values(|s: String| s@));
            if i == 0 {
                assert(out@ =~= v[0]);
            }
        }
        i += 1;
    }
    assert(lines@.subrange(0, lines@.len() as int) =~= lines@);
    out
}

/// The result of a whole run: the unpack phase's message, then the
/// replacement phase's summary.
pub fn run_summary(unpack: &str, replace: &str) -> (r: String)
    ensures
        r@ == unpack@ + "\n"@ + replace@,
{
    concat3(unpack, "\n", replace)
}

} // verus!
