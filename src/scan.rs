//! Directory scanner: classifies the regular files found under a root
//! directory into target libraries and executables.
use vstd::prelude::*;
use crate::text::{eq_ignore_ascii_case, eq_ignore_ascii_case_spec};

verus! {

pub open spec fn is_sep(c: char) -> bool {
    c == '/' || c == '\\'
}

/// Index of the last character in `s[..n]` that is a dot (when `dot`) or a
/// path separator (otherwise); -1 when there is none.
pub open spec fn last_index_before(s: Seq<char>, n: int, dot: bool) -> int
    decreases n,
{
    if n <= 0 {
        -1
    } else if (dot && s[n - 1] == '.') || (!dot && is_sep(s[n - 1])) {
        n - 1
    } else {
        last_index_before(s, n - 1, dot)
    }
}

/// Where the path ends once trailing separators and trailing `.`
/// components are dropped, as path components are read.
pub open spec fn tail_end(s: Seq<char>, e: int) -> int
    decreases e,
{
    if e <= 0 {
        0
    } else if is_sep(s[e - 1]) || (s[e - 1] == '.' && (e == 1 || is_sep(s[e - 2]))) {
        tail_end(s, e - 1)
    } else {
        e
    }
}

/// The extension of the last path component: the text after its last dot,
/// where that dot is not the component's first character.
pub open spec fn extension_spec(path: Seq<char>) -> Option<Seq<char>> {
    let e = tail_end(path, path.len() as int);
    let d = last_index_before(path, e, true);
    let sep = last_index_before(path, e, false);
    if d > sep + 1 {
        Some(path.subrange(d + 1, e))
    } else {
        None
    }
}

pub open spec fn is_exe_spec(path: Seq<char>) -> bool {
    match extension_spec(path) {
        Some(e) => eq_ignore_ascii_case_spec(e, "exe"@),
        None => false,
    }
}

proof fn lemma_last_index_range(s: Seq<char>, n: int, dot: bool)
    requires
        0 <= n <= s.len(),
    ensures
        -1 <= last_index_before(s, n, dot) < n,
    decreases n,
{
    if n > 0 {
        lemma_last_index_range(s, n - 1, dot);
    }
}

fn last_index(s: &str, n: usize, dot: bool) -> (r: Option<usize>)
    requires
        n <= s@.len(),
    ensures
        match r {
            Some(k) => k == last_index_before(s@, n as int, dot),
            None => last_index_before(s@, n as int, dot) == -1,
        },
{
    let mut i: usize = n;
    while i > 0
        invariant
            n <= s@.len(),
            i <= n,
            last_index_before(s@, n as int, dot) == last_index_before(s@, i as int, dot),
        decreases i,
    {
        let c = s.get_char(i - 1);
        if (dot && c == '.') || (!dot && (c == '/' || c == '\\')) {
            return Some(i - 1);
        }
        i -= 1;
    }
    None
}

/// Whether the character before `e` ends the path as a separator or as a
/// `.` component.
fn tail_char(s: &str, e: usize) -> (r: bool)
    requires
        0 < e <= s@.len(),
    ensures
        r == (is_sep(s@[e - 1]) || (s@[e - 1] == '.' && (e == 1 || is_sep(s@[e - 2])))),
{
    let c = s.get_char(e - 1);
    if c == '/' || c == '\\' {
        return true;
    }
    if c != '.' {
        return false;
    }
    if e == 1 {
        return true;
    }
    let p = s.get_char(e - 2);
    p == '/' || p == '\\'
}

/// Whether the path names a file whose extension is `exe`, in any ASCII case.
pub fn is_exe_file(path: &str) -> (r: bool)
    ensures
        r == is_exe_spec(path@),
{
    let len = path.unicode_len();
    let mut n: usize = len;
    while n > 0 && tail_char(path, n)
        invariant
            len == path@.len(),
            n <= len,
            tail_end(path@, len as int) == tail_end(path@, n as int),
        decreases n,
    {
        n -= 1;
    }
    proof {
        lemma_last_index_range(path@, n as int, true);
        lemma_last_index_range(path@, n as int, false);
    }
    let start = match last_index(path, n, false) {
        Some(k) => k + 1,
        None => 0,
    };
    match last_index(path, n, true) {
        Some(d) => {
            if d > start {
                let ext = path.substring_char(d + 1, n);
                eq_ignore_ascii_case(ext, "exe")
            } else {
                false
            }
        },
        None => false,
    }
}

/// Which target library a file name is, ignoring ASCII case:
/// `Some(true)` for the 64-bit one, `Some(false)` for the 32-bit one.
pub open spec fn library_kind_spec(name: Seq<char>) -> Option<bool> {
    if eq_ignore_ascii_case_spec(name, "steam_api64.dll"@) {
        Some(true)
    } else if eq_ignore_ascii_case_spec(name, "steam_api.dll"@) {
        Some(false)
    } else {
        None
    }
}

pub fn library_kind(name: &str) -> (r: Option<bool>)
    ensures
        r == library_kind_spec(name@),
{
    if eq_ignore_ascii_case(name, "steam_api64.dll") {
        Some(true)
    } else if eq_ignore_ascii_case(name, "steam_api.dll") {
        Some(false)
    } else {
        None
    }
}

/// One regular file met during the walk: its full path, the directory that
/// holds it, its bare name, and its size when it could be read.
pub struct FileEntry {
    pub path: String,
    pub dir: String,
    pub name: String,
    pub size: Option<u64>,
}

/// A target library found by the scan.
pub struct TargetLibrary {
    pub path: String,
    pub dir: String,
    pub is_64bit: bool,
}

pub struct TargetLibraryView {
    pub path: Seq<char>,
    pub dir: Seq<char>,
    pub is_64bit: bool,
}

impl View for TargetLibrary {
    type V = TargetLibraryView;

    open spec fn view(&self) -> TargetLibraryView {
        TargetLibraryView { path: self.path@, dir: self.dir@, is_64bit: self.is_64bit }
    }
}

/// The target libraries among the first `n` entries, in walk order.
pub open spec fn targets_upto(es: Seq<FileEntry>, n: int) -> Seq<TargetLibraryView>
    decreases n,
{
    if n <= 0 {
        Seq::empty()
    } else {
        let prev = targets_upto(es, n - 1);
        match library_kind_spec(es[n - 1].name@) {
            Some(b) => prev.push(TargetLibraryView { path: es[n - 1].path@, dir: es[n - 1].dir@, is_64bit: b }),
            None => prev,
        }
    }
}

/// Whether entry `e` is an executable whose size is known.
pub open spec fn sized_exe(e: FileEntry) -> bool {
    is_exe_spec(e.path@) && e.size is Some
}

/// The index of the largest executable among the first `n` entries; the
/// first one met wins a tie.
pub open spec fn largest_exe_upto(es: Seq<FileEntry>, n: int) -> Option<int>
    decreases n,
{
    if n <= 0 {
        None
    } else {
        let prev = largest_exe_upto(es, n - 1);
        if sized_exe(es[n - 1]) && (match prev {
            Some(j) => es[n - 1].size->0 > es[j].size->0,
            None => true,
        }) {
            Some(n - 1)
        } else {
            prev
        }
    }
}

proof fn lemma_largest_is_sized(es: Seq<FileEntry>, n: int)
    requires
        0 <= n <= es.len(),
    ensures
        largest_exe_upto(es, n) matches Some(j) ==> 0 <= j < n && sized_exe(es[j]),
    decreases n,
{
    if n > 0 {
        lemma_largest_is_sized(es, n - 1);
    }
}

pub open spec fn index_opt(o: Option<int>) -> Option<usize> {
    match o {
        Some(j) => Some(j as usize),
        None => None,
    }
}

pub enum ScanError {
    NotADirectory,
    NoTargetsFound,
}

/// What a scan found: the target libraries in walk order, and the index in
/// the entry list of the largest executable, if any.
pub struct ScanReport {
    pub targets: Vec<TargetLibrary>,
    pub largest_exe: Option<usize>,
}

/// Classifies the files under a root directory. `root_is_dir` tells whether
/// the root exists and is a directory; `entries` are its regular files, each
/// met once, in walk order.
pub fn scan_directory(root_is_dir: bool, entries: &Vec<FileEntry>) -> (r: Result<ScanReport, ScanError>)
    ensures
        !root_is_dir ==> r == Err::<ScanReport, ScanError>(ScanError::NotADirectory),
        root_is_dir && targets_upto(entries@, entries@.len() as int).len() == 0
            ==> r == Err::<ScanReport, ScanError>(ScanError::NoTargetsFound),
        root_is_dir && targets_upto(entries@, entries@.len() as int).len() > 0 ==> (r matches Ok(rep)
            && rep.targets@.map_values(|t: TargetLibrary| t@) == targets_upto(entries@, entries@.len() as int)
            && rep.largest_exe == index_opt(largest_exe_upto(entries@, entries@.len() as int))),
{
    if !root_is_dir {
        return Err(ScanError::NotADirectory);
    }
    let mut targets: Vec<TargetLibrary> = Vec::new();
    let mut largest: Option<usize> = None;
    let mut max_size: u64 = 0;
    let mut i: usize = 0;
    while i < entries.len()
        invariant
            i <= entries@.len(),
            targets@.map_values(|t: TargetLibrary| t@) == targets_upto(entries@, i as int),
            largest == index_opt(largest_exe_upto(entries@, i as int)),
            largest_exe_upto(entries@, i as int) matches Some(j) ==> max_size == entries@[j].size->0,
        decreases entries@.len() - i,
    {
        proof {
            lemma_largest_is_sized(entries@, i as int);
        }
        let e = &entries[i];
        match library_kind(e.name.as_str()) {
            Some(b) => {
                targets.push(TargetLibrary { path: e.path.clone(), dir: e.dir.clone(), is_64bit: b });
            },
            None => {},
        }
        if is_exe_file(e.path.as_str()) {
            match e.size {
                Some(s) => {
                    if largest.is_none() || s > max_size {
                        largest = Some(i);
                        max_size = s;
                    }
                },
                None => {},
            }
        }
        proof {
            assert(targets@.map_values(|t: TargetLibrary| t@) =~= targets_upto(entries@, i + 1));
        }
        i += 1;
    }
    if targets.len() == 0 {
        return Err(ScanError::NoTargetsFound);
    }
    Ok(ScanReport { targets, largest_exe: largest })
}

} // verus!
