//! The application's commands, as decisions on values: the ordered-term
//! game search and the DRM report.
use vstd::prelude::*;
use crate::search::{
    byte_len, clamp, clamp_i64, indices_increasing, rank, ranked, same_elements, SearchResult,
};
pub use crate::search::Game;
use crate::text::{
    concat2, concat3, contains, contains_spec, lower_of, split_words, str_eq, to_lowercase, trim,
    trim_spec, words_spec,
};

verus! {

/// Punctuation stripped from the ends of a word before it is compared.
pub open spec fn is_punct(c: char) -> bool {
    c == ':' || c == '(' || c == ')' || c == '[' || c == ']'
}

pub open spec fn strip_start(s: Seq<char>) -> Seq<char>
    decreases s.len(),
{
    if s.len() > 0 && is_punct(s[0]) {
        strip_start(s.drop_first())
    } else {
        s
    }
}

pub open spec fn strip_end(s: Seq<char>) -> Seq<char>
    decreases s.len(),
{
    if s.len() > 0 && is_punct(s.last()) {
        strip_end(s.drop_last())
    } else {
        s
    }
}

/// The word without punctuation at either end.
pub open spec fn clean_word_spec(s: Seq<char>) -> Seq<char> {
    strip_end(strip_start(s))
}

proof fn lemma_strip_start(s: Seq<char>, i: int)
    requires
        0 <= i <= s.len(),
        forall|k: int| 0 <= k < i ==> is_punct(#[trigger] s[k]),
    ensures
        strip_start(s) == strip_start(s.subrange(i, s.len() as int)),
    decreases i,
{
    if i > 0 {
        assert(s.drop_first().subrange(i - 1, s.drop_first().len() as int) =~= s.subrange(i, s.len() as int));
        assert forall|k: int| 0 <= k < i - 1 implies is_punct(#[trigger] s.drop_first()[k]) by {
            assert(s.drop_first()[k] == s[k + 1]);
        }
        lemma_strip_start(s.drop_first(), i - 1);
    } else {
        assert(s.subrange(0, s.len() as int) =~= s);
    }
}

proof fn lemma_strip_end(s: Seq<char>, j: int)
    requires
        0 <= j <= s.len(),
        forall|k: int| j <= k < s.len() ==> is_punct(#[trigger] s[k]),
    ensures
        strip_end(s) == strip_end(s.subrange(0, j)),
    decreases s.len() - j,
{
    if j < s.len() {
        assert(s.drop_last().subrange(0, j) =~= s.subrange(0, j));
        assert forall|k: int| j <= k < s.drop_last().len() implies is_punct(#[trigger] s.drop_last()[k]) by {
            assert(s.drop_last()[k] == s[k]);
        }
        lemma_strip_end(s.drop_last(), j);
    } else {
        assert(s.subrange(0, s.len() as int) =~= s);
    }
}

fn punct_at(s: &str, i: usize) -> (r: bool)
    requires
        i < s@.len(),
    ensures
        r == is_punct(s@[i as int]),
{
    let c = s.get_char(i);
    c == ':' || c == '(' || c == ')' || c == '[' || c == ']'
}

pub fn clean_word(s: &str) -> (r: String)
    ensures
        r@ == clean_word_spec(s@),
{
    let n = s.unicode_len();
    let mut a: usize = 0;
    while a < n && punct_at(s, a)
        invariant
            n == s@.len(),
            a <= n,
            forall|k: int| 0 <= k < a ==> is_punct(#[trigger] s@[k]),
        decreases n - a,
    {
        a += 1;
    }
    proof {
        lemma_strip_start(s@, a as int);
    }
    let ghost t = s@.subrange(a as int, n as int);
    let mut b: usize = n;
    while b > a && punct_at(s, b - 1)
        invariant
            n == s@.len(),
            a <= b <= n,
            t == s@.subrange(a as int, n as int),
            forall|k: int| b - a <= k < t.len() ==> is_punct(#[trigger] t[k]),
        decreases b - a,
    {
        b -= 1;
    }
    proof {
        if a == n {
        } else {
            assert(!is_punct(t[0]));
        }
        assert(strip_start(t) == t);
        lemma_strip_end(t, (b - a) as int);
        assert(t.subrange(0, (b - a) as int) =~= s@.subrange(a as int, b as int));
        if b > a {
            assert(!is_punct(t.subrange(0, (b - a) as int).last()));
        }
    }
    String::from_str(s.substring_char(a, b))
}

/// How many of `terms` are found, in order, among the first `n` words.
pub open spec fn terms_found(words: Seq<Seq<char>>, terms: Seq<Seq<char>>, n: int) -> nat
    decreases n,
{
    if n <= 0 {
        0
    } else {
        let t = terms_found(words, terms, n - 1);
        if t < terms.len() && clean_word_spec(words[n - 1]) == terms[t as int] {
            t + 1
        } else {
            t
        }
    }
}

/// A game's score against a title whose lowered words all occur, in order,
/// as words of the lowered name: 10000, plus 5000 when the lowered name is
/// the lowered title, less the lowered name's length in bytes.
pub open spec fn term_score_spec(name: Seq<char>, title: Seq<char>) -> Option<i64> {
    let terms = words_spec(lower_of(title));
    let words = words_spec(lower_of(name));
    if terms_found(words, terms, words.len() as int) == terms.len() {
        Some(clamp_i64(10000 + (if lower_of(name) == lower_of(title) { 5000int } else { 0int }) - byte_len(lower_of(name))))
    } else {
        None
    }
}

pub fn term_score(name: &str, title: &str) -> (r: Option<i64>)
    ensures
        r == term_score_spec(name@, title@),
{
    let lt = to_lowercase(title);
    let terms = split_words(lt.as_str());
    let ln = to_lowercase(name);
    let words = split_words(ln.as_str());
    let ghost tv = terms@.map_values(|w: String| w@);
    let ghost wv = words@.map_values(|w: String| w@);
    let mut found: usize = 0;
    let mut i: usize = 0;
    while i < words.len()
        invariant
            i <= words@.len(),
            tv == terms@.map_values(|w: String| w@),
            wv == words@.map_values(|w: String| w@),
            found == terms_found(wv, tv, i as int),
            found <= terms@.len(),
        decreases words@.len() - i,
    {
        if found < terms.len() {
            let cw = clean_word(words[i].as_str());
            assert(wv[i as int] == words@[i as int]@);
            assert(tv[found as int] == terms@[found as int]@);
            if str_eq(cw.as_str(), terms[found].as_str()) {
                found += 1;
            }
        }
        i += 1;
    }
    if found != terms.len() {
        return None;
    }
    let bonus: i128 = if str_eq(ln.as_str(), lt.as_str()) { 5000 } else { 0 };
    Some(clamp(10000 + bonus - ln.as_str().len() as i128))
}

pub open spec fn term_candidates(games: Seq<Game>, title: Seq<char>, n: int) -> Seq<SearchResult>
    decreases n,
{
    if n <= 0 {
        Seq::empty()
    } else {
        match term_score_spec(games[n - 1].name@, title) {
            Some(s) => term_candidates(games, title, n - 1).push(SearchResult { score: s, index: (n - 1) as usize }),
            None => term_candidates(games, title, n - 1),
        }
    }
}

proof fn lemma_term_candidates(games: Seq<Game>, title: Seq<char>, n: int)
    requires
        0 <= n <= games.len(),
        games.len() <= usize::MAX,
    ensures
        indices_increasing(term_candidates(games, title, n)),
        forall|k: int| 0 <= k < term_candidates(games, title, n).len() ==> (#[trigger] term_candidates(games, title, n)[k]).index < n,
    decreases n,
{
    if n > 0 {
        lemma_term_candidates(games, title, n - 1);
        let prev = term_candidates(games, title, n - 1);
        let cur = term_candidates(games, title, n);
        match term_score_spec(games[n - 1].name@, title) {
            Some(sc) => {
                assert(cur == prev.push(SearchResult { score: sc, index: (n - 1) as usize }));
            },
            None => {
                assert(cur == prev);
            },
        }
        assert forall|i: int, j: int| 0 <= i < j < cur.len() implies (#[trigger] cur[i]).index < (
        #[trigger] cur[j]).index by {
            assert(cur[i] == prev[i]);
            if j < prev.len() {
                assert(cur[j] == prev[j]);
            }
        }
        assert forall|k: int| 0 <= k < cur.len() implies (#[trigger] cur[k]).index < n by {
            if k < prev.len() {
                assert(cur[k] == prev[k]);
            }
        }
    }
}

/// Finds games whose names hold the title's words in order: nothing for a
/// blank title; else the five best by score, highest first and in list order
/// among equals.
pub fn find_games(games: &Vec<Game>, title: &str) -> (r: Vec<Game>)
    ensures
        trim_spec(title@).len() == 0 ==> r@.len() == 0,
        trim_spec(title@).len() > 0 ==> exists|order: Seq<SearchResult>|
            ranked(order) && same_elements(order, term_candidates(games@, title@, games@.len() as int))
                && r@.len() == (if order.len() < 5 { order.len() } else { 5 })
                && forall|k: int| 0 <= k < r@.len() ==> (#[trigger] r@[k]).name@ == games@[order[k].index as int].name@
                    && r@[k].appid == games@[order[k].index as int].appid,
{
    if trim_is_empty(title) {
        return Vec::new();
    }
    let mut cands: Vec<SearchResult> = Vec::new();
    let mut i: usize = 0;
    while i < games.len()
        invariant
            i <= games@.len(),
            cands@ == term_candidates(games@, title@, i as int),
        decreases games@.len() - i,
    {
        match term_score(games[i].name.as_str(), title) {
            Some(s) => cands.push(SearchResult { score: s, index: i }),
            None => {},
        }
        i += 1;
    }
    proof {
        assert(games@.len() <= usize::MAX);
        lemma_term_candidates(games@, title@, games@.len() as int);
    }
    let order = rank(&cands);
    let mut out: Vec<Game> = Vec::new();
    let mut k: usize = 0;
    while k < order.len() && k < 5
        invariant
            k <= order@.len(),
            k <= 5,
            out@.len() == k,
            same_elements(order@, cands@),
            forall|m: int| 0 <= m < cands@.len() ==> (#[trigger] cands@[m]).index < games@.len(),
            forall|m: int| 0 <= m < k ==> (#[trigger] out@[m]).name@ == games@[order@[m].index as int].name@
                && out@[m].appid == games@[order@[m].index as int].appid,
        decreases order@.len() - k,
    {
        proof {
            let j = choose|j: int| 0 <= j < cands@.len() && order@[k as int] == cands@[j];
            assert(order@[k as int].index < games@.len());
        }
        let idx = order[k].index;
        out.push(games[idx].clone_game());
        k += 1;
    }
    out
}

fn trim_is_empty(s: &str) -> (r: bool)
    ensures
        r == (trim_spec(s@).len() == 0),
{
    trim(s).unicode_len() == 0
}

/// What the store says of an app's DRM, when it has an entry for the app.
pub struct DrmEntry {
    pub success: bool,
    pub has_data: bool,
    pub drm_notice: Option<String>,
}

/// The DRM report for an app.
pub fn drm_report(app_id: &str, entry: &Option<DrmEntry>) -> (r: Result<String, String>)
    ensures
        entry is None ==> (r matches Err(m) && m@ == "No data for App ID "@ + app_id@),
        entry matches Some(e) ==> r is Ok && ({
            let m = r->Ok_0@;
            if !e.success || !e.has_data {
                m == "No DRM information available"@
            } else {
                match e.drm_notice {
                    Some(n) => if contains_spec(lower_of(n@), "denuvo"@) {
                        m == "App ID "@ + app_id@ + " uses Denuvo DRM"@
                    } else {
                        m == "App ID "@ + app_id@ + " has DRM notice: "@ + n@
                    },
                    None => m == "App ID "@ + app_id@ + " has no DRM notice"@,
                }
            }
        }),
{
    match entry {
        None => Err(concat2("No data for App ID ", app_id)),
        Some(e) => {
            if !e.success || !e.has_data {
                return Ok(String::from_str("No DRM information available"));
            }
            match &e.drm_notice {
                Some(n) => {
                    let lowered = to_lowercase(n.as_str());
                    if contains(lowered.as_str(), "denuvo") {
                        Ok(concat3("App ID ", app_id, " uses Denuvo DRM"))
                    } else {
                        let mut s = concat3("App ID ", app_id, " has DRM notice: ");
                        s.append(n.as_str());
                        Ok(s)
                    }
                },
                None => Ok(concat3("App ID ", app_id, " has no DRM notice")),
            }
        },
    }
}

} // verus!
