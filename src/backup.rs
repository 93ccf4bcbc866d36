//! Backup protocol and guarded replacement: when an original is preserved,
//! under which name, how a copy is retried, and how an unpacked executable is
//! moved into place. The filesystem effects are modelled as maps from path
//! to contents.
use vstd::prelude::*;
use crate::text::{concat2, ends_with_spec};

verus! {

/// Index of the last `.` in `s`, or -1.
pub open spec fn last_dot(s: Seq<char>, n: int) -> int
    decreases n,
{
    if n <= 0 {
        -1
    } else if s[n - 1] == '.' {
        n - 1
    } else {
        last_dot(s, n - 1)
    }
}

proof fn lemma_last_dot_range(s: Seq<char>, n: int)
    requires
        0 <= n <= s.len(),
    ensures
        -1 <= last_dot(s, n) < n,
    decreases n,
{
    if n > 0 {
        lemma_last_dot_range(s, n - 1);
    }
}

/// The stem of a file name: without its extension, where the extension
/// follows a dot that is not the name's first character.
pub open spec fn stem_spec(name: Seq<char>) -> Seq<char> {
    let d = last_dot(name, name.len() as int);
    if d > 0 {
        name.subrange(0, d)
    } else {
        name
    }
}

/// The backup file name for a file: its stem with the reserved extension.
pub open spec fn backup_name_spec(name: Seq<char>) -> Seq<char> {
    stem_spec(name) + ".svrn"@
}

pub fn backup_name(name: &str) -> (r: String)
    ensures
        r@ == backup_name_spec(name@),
{
    let n = name.unicode_len();
    let mut i: usize = n;
    while i > 0
        invariant
            n == name@.len(),
            i <= n,
            last_dot(name@, n as int) == last_dot(name@, i as int),
        ensures
            i <= n,
            last_dot(name@, n as int) == last_dot(name@, i as int),
            i == 0 || name@[i - 1] == '.',
        decreases i,
    {
        if name.get_char(i - 1) == '.' {
            break;
        }
        i -= 1;
    }
    proof {
        lemma_last_dot_range(name@, n as int);
    }
    if i > 1 {
        concat2(name.substring_char(0, i - 1), ".svrn")
    } else {
        assert(last_dot(name@, n as int) <= 0);
        concat2(name, ".svrn")
    }
}

/// The name under which the unpacking tool writes its output for `name`.
pub open spec fn unpacked_name_spec(name: Seq<char>) -> Seq<char> {
    name + ".unpacked.exe"@
}

pub fn unpacked_name(name: &str) -> (r: String)
    ensures
        r@ == unpacked_name_spec(name@),
{
    concat2(name, ".unpacked.exe")
}

/// Whether an existing original must be preserved before it is overwritten:
/// it exists and its size is not known to equal the replacement's (a file
/// of the replacement's size is taken as already replaced).
pub open spec fn needs_backup_spec(
    original_exists: bool,
    original_len: Option<u64>,
    replacement_len: Option<u64>,
) -> bool {
    original_exists && !(original_len is Some && replacement_len is Some && original_len
        == replacement_len)
}

pub fn needs_backup(original_exists: bool, original_len: Option<u64>, replacement_len: Option<u64>) -> (r: bool)
    ensures
        r == needs_backup_spec(original_exists, original_len, replacement_len),
{
    if !original_exists {
        return false;
    }
    match (original_len, replacement_len) {
        (Some(a), Some(b)) => a != b,
        _ => true,
    }
}

/// Whether the signatures are read from the backup rather than from the
/// library itself: a backup exists and the library is taken as already
/// replaced, so the backup holds the pristine original.
pub open spec fn signatures_from_backup_spec(
    backup_exists: bool,
    original_exists: bool,
    original_len: Option<u64>,
    replacement_len: Option<u64>,
) -> bool {
    backup_exists && !needs_backup_spec(original_exists, original_len, replacement_len)
}

pub fn signatures_from_backup(
    backup_exists: bool,
    original_exists: bool,
    original_len: Option<u64>,
    replacement_len: Option<u64>,
) -> (r: bool)
    ensures
        r == signatures_from_backup_spec(backup_exists, original_exists, original_len, replacement_len),
{
    backup_exists && !needs_backup(original_exists, original_len, replacement_len)
}

/// A second run reads its signatures from the same bytes as the first: the
/// first run left the backup holding the original it read, and the library
/// at the replacement's size.
pub proof fn lemma_signature_source_stable(
    fs: FileTree,
    original: Seq<char>,
    backup: Seq<char>,
    replacement: Seq<u8>,
)
    requires
        original != backup,
        fs.contains_key(original),
        fs[original].len() != replacement.len(),
        replacement.len() <= u64::MAX,
        fs[original].len() <= u64::MAX,
    ensures
        ({
            let after = replace_spec(fs, original, backup, replacement);
            let n = replacement.len() as u64;
            &&& !signatures_from_backup_spec(fs.contains_key(backup), true, Some(fs[original].len() as u64), Some(n))
            &&& signatures_from_backup_spec(true, true, Some(after[original].len() as u64), Some(n))
            &&& after[backup] == fs[original]
        }),
{
}

/// Files by path.
pub type FileTree = Map<Seq<char>, Seq<u8>>;

/// Replacing `original` by `replacement`, with its backup at `backup`,
/// where both sizes are known.
pub open spec fn replace_spec(
    fs: FileTree,
    original: Seq<char>,
    backup: Seq<char>,
    replacement: Seq<u8>,
) -> FileTree {
    let keep = fs.contains_key(original) && fs[original].len() != replacement.len();
    let fs1 = if keep {
        fs.insert(backup, fs[original])
    } else {
        fs
    };
    fs1.insert(original, replacement)
}

/// A second replacement run over the result of the first changes nothing:
/// the original now has the replacement's size, so no new backup is made.
pub proof fn lemma_replace_idempotent(
    fs: FileTree,
    original: Seq<char>,
    backup: Seq<char>,
    replacement: Seq<u8>,
)
    requires
        original != backup,
    ensures
        replace_spec(replace_spec(fs, original, backup, replacement), original, backup, replacement)
            == replace_spec(fs, original, backup, replacement),
{
    let once = replace_spec(fs, original, backup, replacement);
    assert(once[original] == replacement);
    assert(once.insert(original, replacement) =~= once);
}

/// When the original differs in size from the replacement, afterwards its
/// single backup holds the original's former contents byte for byte, the
/// original holds the replacement, and no other path changed.
pub proof fn lemma_backup_preserves_original(
    fs: FileTree,
    original: Seq<char>,
    backup: Seq<char>,
    replacement: Seq<u8>,
)
    requires
        original != backup,
        fs.contains_key(original),
        fs[original].len() != replacement.len(),
    ensures
        replace_spec(fs, original, backup, replacement).contains_key(backup),
        replace_spec(fs, original, backup, replacement)[backup] == fs[original],
        replace_spec(fs, original, backup, replacement)[original] == replacement,
        replace_spec(fs, original, backup, replacement).dom() == fs.dom().insert(backup),
        forall|p: Seq<char>|
            p != original && p != backup && fs.contains_key(p) ==> #[trigger] replace_spec(
                fs,
                original,
                backup,
                replacement,
            )[p] == fs[p],
{
    assert(replace_spec(fs, original, backup, replacement).dom() =~= fs.dom().insert(backup));
}

proof fn lemma_backup_name_ends(name: Seq<char>)
    ensures
        ends_with_spec(backup_name_spec(name), ".svrn"@),
{
    reveal_strlit(".svrn");
    let b = backup_name_spec(name);
    let st = stem_spec(name);
    assert(b == st + ".svrn"@);
    assert(".svrn"@.len() == 5);
    assert(b.len() == st.len() + 5);
    assert(b.subrange(b.len() - 5, b.len() as int) =~= ".svrn"@);
}

/// The path of file `name` in directory `dir`.
pub open spec fn path_in(dir: Seq<char>, name: Seq<char>) -> Seq<char> {
    dir + "/"@ + name
}

/// For a file whose name does not already end in the reserved extension,
/// replacing it where its size differs leaves exactly one backup beside it,
/// at the backup name in the same directory, holding the former contents
/// byte for byte; the file holds the replacement and no other path changed.
pub proof fn lemma_backup_in_directory(fs: FileTree, dir: Seq<char>, name: Seq<char>, replacement: Seq<u8>)
    requires
        !ends_with_spec(name, ".svrn"@),
        fs.contains_key(path_in(dir, name)),
        fs[path_in(dir, name)].len() != replacement.len(),
    ensures
        ({
            let original = path_in(dir, name);
            let backup = path_in(dir, backup_name_spec(name));
            let after = replace_spec(fs, original, backup, replacement);
            &&& original != backup
            &&& after.contains_key(backup)
            &&& after[backup] == fs[original]
            &&& after[original] == replacement
            &&& after.dom() == fs.dom().insert(backup)
            &&& forall|p: Seq<char>| p != original && p != backup && fs.contains_key(p) ==> #[trigger] after[p] == fs[p]
        }),
{
    let original = path_in(dir, name);
    let backup = path_in(dir, backup_name_spec(name));
    lemma_backup_name_ends(name);
    let prefix = dir + "/"@;
    if original == backup {
        assert(original.subrange(prefix.len() as int, original.len() as int) =~= name);
        assert(backup.subrange(prefix.len() as int, backup.len() as int) =~= backup_name_spec(name));
        assert(name == backup_name_spec(name));
    }
    lemma_backup_preserves_original(fs, original, backup, replacement);
}

/// Copy attempts so far against a retry budget: one attempt plus up to
/// `budget` more.
pub struct CopyRetry {
    pub budget: u32,
    pub attempts: u32,
}

/// What to do after one copy attempt.
pub enum RetryAction {
    /// The copy is done, after this many attempts.
    Succeeded { attempts: u32 },
    /// Wait one time unit, then attempt again.
    WaitAndRetry,
    /// The budget is spent; this many attempts were made.
    GaveUp { attempts: u32 },
}

/// The outcome of a run of copy attempts, as counted in the model.
pub enum CopyRun {
    Copied(nat),
    Exhausted(nat),
    Pending,
}

/// What one attempt leads to, after `attempts` earlier ones.
pub open spec fn attempt_outcome(budget: nat, attempts: nat, copied: bool) -> CopyRun {
    if copied {
        CopyRun::Copied(attempts + 1)
    } else if attempts + 1 > budget {
        CopyRun::Exhausted(attempts + 1)
    } else {
        CopyRun::Pending
    }
}

/// The outcome of feeding `outcomes` (true: that attempt copied) to a retry
/// state that has made `attempts` attempts so far.
pub open spec fn run_copy(budget: nat, attempts: nat, outcomes: Seq<bool>) -> CopyRun
    decreases outcomes.len(),
{
    if outcomes.len() == 0 {
        CopyRun::Pending
    } else {
        match attempt_outcome(budget, attempts, outcomes[0]) {
            CopyRun::Pending => run_copy(budget, attempts + 1, outcomes.drop_first()),
            done => done,
        }
    }
}

/// The model's reading of an action.
pub open spec fn action_outcome(a: RetryAction) -> CopyRun {
    match a {
        RetryAction::Succeeded { attempts } => CopyRun::Copied(attempts as nat),
        RetryAction::WaitAndRetry => CopyRun::Pending,
        RetryAction::GaveUp { attempts } => CopyRun::Exhausted(attempts as nat),
    }
}

impl CopyRetry {
    pub open spec fn wf(&self) -> bool {
        self.attempts <= self.budget && self.budget < u32::MAX
    }

    pub fn new(budget: u32) -> (r: CopyRetry)
        requires
            budget < u32::MAX,
        ensures
            r.wf(),
            r.budget == budget,
            r.attempts == 0,
    {
        CopyRetry { budget, attempts: 0 }
    }

    /// Records one attempt and says what follows it.
    pub fn on_attempt(&mut self, copied: bool) -> (r: RetryAction)
        requires
            old(self).wf(),
        ensures
            final(self).budget == old(self).budget,
            final(self).attempts == old(self).attempts + 1,
            copied ==> r == (RetryAction::Succeeded { attempts: final(self).attempts }),
            !copied && final(self).attempts > final(self).budget ==> r == (RetryAction::GaveUp {
                attempts: final(self).attempts,
            }),
            !copied && final(self).attempts <= final(self).budget ==> r == RetryAction::WaitAndRetry
                && final(self).wf(),
            action_outcome(r) == attempt_outcome(old(self).budget as nat, old(self).attempts as nat, copied),
    {
        self.attempts = self.attempts + 1;
        if copied {
            RetryAction::Succeeded { attempts: self.attempts }
        } else if self.attempts > self.budget {
            RetryAction::GaveUp { attempts: self.attempts }
        } else {
            RetryAction::WaitAndRetry
        }
    }
}

/// `k` failed attempts followed by one that copies.
pub open spec fn fails_then_copies(k: nat) -> Seq<bool> {
    Seq::new(k + 1, |i: int| i == k)
}

proof fn lemma_run_from(budget: nat, a: nat, k: nat)
    requires
        a <= budget,
    ensures
        a + k <= budget ==> run_copy(budget, a, fails_then_copies(k)) == CopyRun::Copied(a + k + 1),
        a + k > budget ==> run_copy(budget, a, fails_then_copies(k)) == CopyRun::Exhausted(budget + 1),
    decreases k,
{
    let s = fails_then_copies(k);
    if k > 0 {
        assert(s.drop_first() =~= fails_then_copies((k - 1) as nat));
        if a + 1 <= budget {
            lemma_run_from(budget, a + 1, (k - 1) as nat);
        }
    }
}

/// With `k` transient failures before a copy that succeeds: up to `budget`
/// failures end in success after exactly `k + 1` attempts (the budget allows
/// `budget` attempts beyond the first); more end in failure after
/// `budget + 1` attempts.
pub proof fn lemma_retry_bound(budget: nat, k: nat)
    ensures
        k <= budget ==> run_copy(budget, 0, fails_then_copies(k)) == CopyRun::Copied(k + 1),
        k > budget ==> run_copy(budget, 0, fails_then_copies(k)) == CopyRun::Exhausted(budget + 1),
{
    lemma_run_from(budget, 0, k);
}

/// How an unpacked executable is moved into place.
pub enum ReconcileStep {
    /// No unpacked output: the file carried no wrapper.
    NoWrapper,
    /// Rename the original to its backup, then the unpacked file over it.
    BackupThenReplace,
    /// A backup exists already: delete the original, then rename the
    /// unpacked file over it.
    DiscardThenReplace,
}

pub open spec fn reconcile_step_spec(unpacked_exists: bool, backup_exists: bool) -> ReconcileStep {
    if !unpacked_exists {
        ReconcileStep::NoWrapper
    } else if !backup_exists {
        ReconcileStep::BackupThenReplace
    } else {
        ReconcileStep::DiscardThenReplace
    }
}

pub fn reconcile_step(unpacked_exists: bool, backup_exists: bool) -> (r: ReconcileStep)
    ensures
        r == reconcile_step_spec(unpacked_exists, backup_exists),
{
    if !unpacked_exists {
        ReconcileStep::NoWrapper
    } else if !backup_exists {
        ReconcileStep::BackupThenReplace
    } else {
        ReconcileStep::DiscardThenReplace
    }
}

/// The effect of a reconcile step on the files.
pub open spec fn reconcile_spec(
    fs: FileTree,
    original: Seq<char>,
    backup: Seq<char>,
    unpacked: Seq<char>,
) -> FileTree {
    match reconcile_step_spec(fs.contains_key(unpacked), fs.contains_key(backup)) {
        ReconcileStep::NoWrapper => fs,
        ReconcileStep::BackupThenReplace => fs.insert(backup, fs[original]).remove(unpacked).insert(
            original,
            fs[unpacked],
        ),
        ReconcileStep::DiscardThenReplace => fs.remove(unpacked).insert(original, fs[unpacked]),
    }
}

/// After a reconcile with unpacked output, the original path holds the
/// unpacked contents, the unpacked file is gone, and the backup holds the
/// first original ever seen; running it again changes nothing.
pub proof fn lemma_reconcile(fs: FileTree, original: Seq<char>, backup: Seq<char>, unpacked: Seq<char>)
    requires
        original != backup,
        original != unpacked,
        backup != unpacked,
        fs.contains_key(original),
        fs.contains_key(unpacked),
    ensures
        reconcile_spec(fs, original, backup, unpacked).contains_key(original),
        reconcile_spec(fs, original, backup, unpacked)[original] == fs[unpacked],
        !reconcile_spec(fs, original, backup, unpacked).contains_key(unpacked),
        reconcile_spec(fs, original, backup, unpacked).contains_key(backup),
        reconcile_spec(fs, original, backup, unpacked)[backup] == (if fs.contains_key(backup) {
            fs[backup]
        } else {
            fs[original]
        }),
        reconcile_spec(reconcile_spec(fs, original, backup, unpacked), original, backup, unpacked)
            == reconcile_spec(fs, original, backup, unpacked),
{
}

} // verus!
