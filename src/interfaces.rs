//! Binary signature extractor: finds the interface names that a library
//! binary carries and lists them, one per line.
use vstd::prelude::*;
use vstd::utf8::{decode_utf8, valid_utf8};
use crate::text::{lines_text, render_lines, str_eq, views};

verus! {

/// Number of patterns in the interface catalog.
pub const CATALOG_LEN: usize = 36;

/// The interface catalog, in the order in which the manifest lists matches.
pub open spec fn pattern_spec(i: usize) -> Seq<char> {
    match i {
        0 => "STEAMAPPS_INTERFACE_VERSION\\d+"@,
        1 => "STEAMAPPLIST_INTERFACE_VERSION\\d+"@,
        2 => "STEAMAPPTICKET_INTERFACE_VERSION\\d+"@,
        3 => "SteamClient\\d+"@,
        4 => "STEAMCONTROLLER_INTERFACE_VERSION"@,
        5 => "SteamController\\d+"@,
        6 => "SteamFriends\\d+"@,
        7 => "SteamGameServerStats\\d+"@,
        8 => "SteamGameCoordinator\\d+"@,
        9 => "SteamGameServer\\d+"@,
        10 => "STEAMHTMLSURFACE_INTERFACE_VERSION_\\d+"@,
        11 => "STEAMHTTP_INTERFACE_VERSION\\d+"@,
        12 => "SteamInput\\d+"@,
        13 => "STEAMINVENTORY_INTERFACE_V\\d+"@,
        14 => "SteamMatchMakingServers\\d+"@,
        15 => "SteamMatchMaking\\d+"@,
        16 => "SteamMatchGameSearch\\d+"@,
        17 => "SteamParties\\d+"@,
        18 => "STEAMMUSIC_INTERFACE_VERSION\\d+"@,
        19 => "STEAMMUSICREMOTE_INTERFACE_VERSION\\d+"@,
        20 => "SteamNetworkingMessages\\d+"@,
        21 => "SteamNetworkingSockets\\d+"@,
        22 => "SteamNetworkingUtils\\d+"@,
        23 => "SteamNetworking\\d+"@,
        24 => "STEAMPARENTALSETTINGS_INTERFACE_VERSION\\d+"@,
        25 => "STEAMREMOTEPLAY_INTERFACE_VERSION\\d+"@,
        26 => "STEAMREMOTESTORAGE_INTERFACE_VERSION\\d+"@,
        27 => "STEAMSCREENSHOTS_INTERFACE_VERSION\\d+"@,
        28 => "STEAMTIMELINE_INTERFACE_V\\d+"@,
        29 => "STEAMUGC_INTERFACE_VERSION\\d+"@,
        30 => "SteamUser\\d+"@,
        31 => "STEAMUSERSTATS_INTERFACE_VERSION\\d+"@,
        32 => "SteamUtils\\d+"@,
        33 => "STEAMVIDEO_INTERFACE_V\\d+"@,
        34 => "STEAMUNIFIEDMESSAGES_INTERFACE_VERSION\\d+"@,
        35 => "SteamMasterServerUpdater\\d+"@,
        _ => Seq::empty(),
    }
}

pub fn pattern(i: usize) -> (r: &'static str)
    requires
        i < CATALOG_LEN,
    ensures
        r@ == pattern_spec(i),
{
    match i {
        0 => "STEAMAPPS_INTERFACE_VERSION\\d+",
        1 => "STEAMAPPLIST_INTERFACE_VERSION\\d+",
        2 => "STEAMAPPTICKET_INTERFACE_VERSION\\d+",
        3 => "SteamClient\\d+",
        4 => "STEAMCONTROLLER_INTERFACE_VERSION",
        5 => "SteamController\\d+",
        6 => "SteamFriends\\d+",
        7 => "SteamGameServerStats\\d+",
        8 => "SteamGameCoordinator\\d+",
        9 => "SteamGameServer\\d+",
        10 => "STEAMHTMLSURFACE_INTERFACE_VERSION_\\d+",
        11 => "STEAMHTTP_INTERFACE_VERSION\\d+",
        12 => "SteamInput\\d+",
        13 => "STEAMINVENTORY_INTERFACE_V\\d+",
        14 => "SteamMatchMakingServers\\d+",
        15 => "SteamMatchMaking\\d+",
        16 => "SteamMatchGameSearch\\d+",
        17 => "SteamParties\\d+",
        18 => "STEAMMUSIC_INTERFACE_VERSION\\d+",
        19 => "STEAMMUSICREMOTE_INTERFACE_VERSION\\d+",
        20 => "SteamNetworkingMessages\\d+",
        21 => "SteamNetworkingSockets\\d+",
        22 => "SteamNetworkingUtils\\d+",
        23 => "SteamNetworking\\d+",
        24 => "STEAMPARENTALSETTINGS_INTERFACE_VERSION\\d+",
        25 => "STEAMREMOTEPLAY_INTERFACE_VERSION\\d+",
        26 => "STEAMREMOTESTORAGE_INTERFACE_VERSION\\d+",
        27 => "STEAMSCREENSHOTS_INTERFACE_VERSION\\d+",
        28 => "STEAMTIMELINE_INTERFACE_V\\d+",
        29 => "STEAMUGC_INTERFACE_VERSION\\d+",
        30 => "SteamUser\\d+",
        31 => "STEAMUSERSTATS_INTERFACE_VERSION\\d+",
        32 => "SteamUtils\\d+",
        33 => "STEAMVIDEO_INTERFACE_V\\d+",
        34 => "STEAMUNIFIEDMESSAGES_INTERFACE_VERSION\\d+",
        35 => "SteamMasterServerUpdater\\d+",
        _ => "",
    }
}

pub uninterp spec fn regex_find_all(pattern: Seq<char>, text: Seq<char>) -> Option<Seq<Seq<char>>>;

/// Relies on `regex::Regex::new` and `regex::Regex::find_iter`: `None` when
/// the pattern does not compile, else the text of each successive
/// non-overlapping match, left to right, a function of pattern and text.
#[verifier::external_body]
fn find_all(pattern: &str, text: &str) -> (r: Option<Vec<String>>)
    ensures
        match r {
            Some(v) => regex_find_all(pattern@, text@) == Some(views(v@)),
            None => regex_find_all(pattern@, text@) is None,
        },
{
    let re = regex::Regex::new(pattern).ok()?;
    Some(re.find_iter(text).map(|m| m.as_str().to_string()).collect())
}

pub uninterp spec fn utf8_lossy(bytes: Seq<u8>) -> Seq<char>;

/// Relies on `String::from_utf8_lossy`: valid UTF-8 decodes as it is, and
/// each invalid sequence becomes one U+FFFD, so the text is empty exactly
/// when the bytes are.
#[verifier::external_body]
fn decode_lossy(bytes: &Vec<u8>) -> (r: String)
    ensures
        r@ == utf8_lossy(bytes@),
        r@.len() == 0 <==> bytes@.len() == 0,
        valid_utf8(bytes@) ==> r@ == decode_utf8(bytes@),
{
    String::from_utf8_lossy(bytes).into_owned()
}

/// The matches of catalog pattern `i` in `text`; none when it does not compile.
pub open spec fn matches_for(i: int, text: Seq<char>) -> Seq<Seq<char>> {
    match regex_find_all(pattern_spec(i as usize), text) {
        Some(m) => m,
        None => Seq::empty(),
    }
}

/// Every match of the first `n` catalog patterns, pattern by pattern,
/// repeats included.
pub open spec fn matches_upto(text: Seq<char>, n: int) -> Seq<Seq<char>>
    decreases n,
{
    if n <= 0 {
        Seq::empty()
    } else {
        matches_upto(text, n - 1) + matches_for(n - 1, text)
    }
}

/// The sequence with each repeat after the first occurrence dropped, in
/// discovery order.
pub open spec fn dedup_spec(s: Seq<Seq<char>>) -> Seq<Seq<char>>
    decreases s.len(),
{
    if s.len() == 0 {
        Seq::empty()
    } else {
        let d = dedup_spec(s.drop_last());
        if d.contains(s.last()) {
            d
        } else {
            d.push(s.last())
        }
    }
}

/// The manifest of a text: every catalog match, in catalog order and then
/// in text order, each listed once.
pub open spec fn manifest_spec(text: Seq<char>) -> Seq<Seq<char>> {
    dedup_spec(matches_upto(text, CATALOG_LEN as int))
}

/// Whether `x` is among the strings.
fn listed(v: &Vec<String>, x: &str) -> (r: bool)
    ensures
        r == views(v@).contains(x@),
{
    let mut i: usize = 0;
    while i < v.len()
        invariant
            i <= v@.len(),
            forall|j: int| 0 <= j < i ==> views(v@)[j] != x@,
        decreases v@.len() - i,
    {
        if str_eq(v[i].as_str(), x) {
            assert(views(v@)[i as int] == x@);
            return true;
        }
        i += 1;
    }
    false
}

/// The catalog patterns that did not compile, by index.
pub open spec fn skipped_upto(text: Seq<char>, n: int) -> Seq<usize>
    decreases n,
{
    if n <= 0 {
        Seq::empty()
    } else if regex_find_all(pattern_spec((n - 1) as usize), text) is None {
        skipped_upto(text, n - 1).push((n - 1) as usize)
    } else {
        skipped_upto(text, n - 1)
    }
}

/// The signature manifest of one binary.
pub struct InterfaceManifest {
    /// Each match, in catalog order and then in file order.
    pub entries: Vec<String>,
    /// Catalog patterns that were skipped because they did not compile.
    pub skipped: Vec<usize>,
}

impl InterfaceManifest {
    /// The manifest file's text: one match per line.
    pub fn to_text(&self) -> (r: String)
        ensures
            r@ == lines_text(views(self.entries@)),
    {
        render_lines(&self.entries)
    }

    /// Number of matches.
    pub fn count(&self) -> (r: usize)
        ensures
            r == self.entries@.len(),
    {
        self.entries.len()
    }
}

pub enum ExtractError {
    EmptyOrUnreadable,
}

/// The manifest of decoded text, over the whole catalog.
pub fn interfaces_in_text(text: &str) -> (r: InterfaceManifest)
    ensures
        views(r.entries@) == manifest_spec(text@),
        r.skipped@ == skipped_upto(text@, CATALOG_LEN as int),
{
    let mut entries: Vec<String> = Vec::new();
    let mut skipped: Vec<usize> = Vec::new();
    let ghost mut raw: Seq<Seq<char>> = Seq::empty();
    let mut i: usize = 0;
    while i < CATALOG_LEN
        invariant
            i <= CATALOG_LEN,
            raw == matches_upto(text@, i as int),
            views(entries@) == dedup_spec(raw),
            skipped@ == skipped_upto(text@, i as int),
        decreases CATALOG_LEN - i,
    {
        match find_all(pattern(i), text) {
            Some(found) => {
                let mut k: usize = 0;
                let ghost before = raw;
                while k < found.len()
                    invariant
                        k <= found@.len(),
                        raw == before + views(found@).subrange(0, k as int),
                        views(entries@) == dedup_spec(raw),
                    decreases found@.len() - k,
                {
                    let ghost prev = entries@;
                    let x = found[k].as_str();
                    proof {
                        assert(views(found@).subrange(0, k + 1) =~= views(found@).subrange(0, k as int).push(found@[k as int]@));
                        assert(raw.push(x@).drop_last() =~= raw);
                    }
                    if !listed(&entries, x) {
                        entries.push(found[k].clone());
                        proof {
                            assert(entries@ =~= prev.push(found@[k as int]));
                            assert(views(entries@) =~= views(prev).push(found@[k as int]@));
                        }
                    }
                    proof {
                        raw = raw.push(x@);
                    }
                    k += 1;
                }
                assert(views(found@).subrange(0, found@.len() as int) =~= views(found@));
            },
            None => {
                skipped.push(i);
                assert(matches_upto(text@, i + 1) =~= matches_upto(text@, i as int));
            },
        }
        i += 1;
    }
    InterfaceManifest { entries, skipped }
}

/// Extracts the interface manifest from a binary's raw bytes: decodes them
/// lossily and lists every catalog match.
pub fn generate_steam_interfaces(contents: &Vec<u8>) -> (r: Result<InterfaceManifest, ExtractError>)
    ensures
        contents@.len() == 0 <==> r is Err,
        r matches Ok(m) ==> views(m.entries@) == manifest_spec(utf8_lossy(contents@))
            && m.skipped@ == skipped_upto(utf8_lossy(contents@), CATALOG_LEN as int),
{
    let text = decode_lossy(contents);
    if text.as_str().unicode_len() == 0 {
        return Err(ExtractError::EmptyOrUnreadable);
    }
    Ok(interfaces_in_text(text.as_str()))
}

/// The manifest lists each match of the catalog exactly once: its entries
/// are pairwise distinct, each is a match, and every match is among them.
pub proof fn lemma_manifest_distinct(s: Seq<Seq<char>>)
    ensures
        forall|i: int, j: int| 0 <= i < j < dedup_spec(s).len() ==> dedup_spec(s)[i] != dedup_spec(s)[j],
        forall|x: Seq<char>| dedup_spec(s).contains(x) <==> s.contains(x),
    decreases s.len(),
{
    if s.len() > 0 {
        let p = s.drop_last();
        lemma_manifest_distinct(p);
        let d = dedup_spec(p);
        assert forall|x: Seq<char>| s.contains(x) <==> p.contains(x) || x == s.last() by {
            if s.contains(x) {
                let k = choose|k: int| 0 <= k < s.len() && s[k] == x;
                if k < p.len() {
                    assert(p[k] == x);
                }
            }
            if p.contains(x) {
                let k = choose|k: int| 0 <= k < p.len() && p[k] == x;
                assert(s[k] == x);
            }
            if x == s.last() {
                assert(s[s.len() - 1] == x);
            }
        }
        if !d.contains(s.last()) {
            let e = d.push(s.last());
            assert forall|x: Seq<char>| e.contains(x) <==> d.contains(x) || x == s.last() by {
                if e.contains(x) {
                    let k = choose|k: int| 0 <= k < e.len() && e[k] == x;
                    if k < d.len() {
                        assert(d[k] == x);
                    }
                }
                if d.contains(x) {
                    let k = choose|k: int| 0 <= k < d.len() && d[k] == x;
                    assert(e[k] == x);
                }
                if x == s.last() {
                    assert(e[d.len() as int] == x);
                }
            }
            assert forall|i: int, j: int| 0 <= i < j < e.len() implies e[i] != e[j] by {
                if j == d.len() {
                    assert(e[i] == d[i]);
                }
            }
        }
    }
}

} // verus!
