//! Game search: scoring of names against a query, a stable ranking by
//! score, lookup by App ID, and a cache of the game list filled once.
use vstd::prelude::*;
use vstd::utf8::encode_utf8;
use crate::text::{
    concat2, concat3, contains, contains_spec, ends_with, ends_with_spec, lower_of, starts_with,
    split_words, starts_with_spec, str_eq, to_lowercase, trim, trim_spec, words_spec,
};

verus! {

/// A game of the store's list.
pub struct Game {
    pub name: String,
    pub appid: u32,
}

impl Game {
    pub fn clone_game(&self) -> (r: Game)
        ensures
            r.name@ == self.name@,
            r.appid == self.appid,
    {
        Game { name: self.name.clone(), appid: self.appid }
    }
}

/// A scored candidate: its score and its index in the game list.
#[derive(Clone, Copy, PartialEq, Eq, Structural)]
pub struct SearchResult {
    pub score: i64,
    pub index: usize,
}

/// `a` ranks before `b`: a higher score, or an equal score and an earlier
/// index.
pub open spec fn ranks_before(a: SearchResult, b: SearchResult) -> bool {
    a.score > b.score || (a.score == b.score && a.index < b.index)
}

pub open spec fn ranked(s: Seq<SearchResult>) -> bool {
    forall|i: int, j: int| 0 <= i < j < s.len() ==> ranks_before(#[trigger] s[i], #[trigger] s[j])
}

pub open spec fn indices_increasing(s: Seq<SearchResult>) -> bool {
    forall|i: int, j: int| 0 <= i < j < s.len() ==> (#[trigger] s[i]).index < (#[trigger] s[j]).index
}

/// `r` holds exactly the elements of `c`, each once.
pub open spec fn same_elements(r: Seq<SearchResult>, c: Seq<SearchResult>) -> bool {
    &&& r.len() == c.len()
    &&& forall|k: int| 0 <= k < r.len() ==> exists|j: int| 0 <= j < c.len() && #[trigger] r[k] == c[j]
    &&& forall|j: int| 0 <= j < c.len() ==> exists|k: int| 0 <= k < r.len() && r[k] == #[trigger] c[j]
}

proof fn lemma_insert_ranked(prev: Seq<SearchResult>, p: int, c: SearchResult)
    requires
        ranked(prev),
        0 <= p <= prev.len(),
        forall|k: int| 0 <= k < p ==> (#[trigger] prev[k]).score >= c.score,
        p < prev.len() ==> prev[p].score < c.score,
        forall|k: int| 0 <= k < prev.len() ==> (#[trigger] prev[k]).index < c.index,
    ensures
        ranked(prev.insert(p, c)),
{
    prev.insert_ensures(p, c);
    let out = prev.insert(p, c);
    assert forall|a: int, b: int| 0 <= a < b < out.len() implies ranks_before(
        #[trigger] out[a],
        #[trigger] out[b],
    ) by {
        if b < p {
        } else if a < p && b == p {
        } else if a < p {
            assert(out[b] == prev[b - 1]);
        } else if a == p {
            assert(out[b] == prev[b - 1]);
            if b - 1 > p {
                assert(ranks_before(prev[p], prev[b - 1]));
            }
        } else {
            assert(out[a] == prev[a - 1]);
            assert(out[b] == prev[b - 1]);
        }
    }
}

proof fn lemma_insert_same(
    prev: Seq<SearchResult>,
    sub: Seq<SearchResult>,
    nsub: Seq<SearchResult>,
    p: int,
    c: SearchResult,
)
    requires
        same_elements(prev, sub),
        0 <= p <= prev.len(),
        nsub == sub.push(c),
    ensures
        same_elements(prev.insert(p, c), nsub),
{
    prev.insert_ensures(p, c);
    let out = prev.insert(p, c);
    assert forall|k: int| 0 <= k < out.len() implies exists|j: int|
        0 <= j < nsub.len() && #[trigger] out[k] == nsub[j] by {
        if k < p {
            let j = choose|j: int| 0 <= j < sub.len() && prev[k] == sub[j];
            assert(nsub[j] == sub[j]);
        } else if k == p {
            assert(nsub[sub.len() as int] == c);
        } else {
            assert(out[k] == prev[k - 1]);
            let j = choose|j: int| 0 <= j < sub.len() && prev[k - 1] == sub[j];
            assert(nsub[j] == sub[j]);
        }
    }
    assert forall|j: int| 0 <= j < nsub.len() implies exists|k: int|
        0 <= k < out.len() && out[k] == #[trigger] nsub[j] by {
        if j < sub.len() {
            assert(nsub[j] == sub[j]);
            let k = choose|k: int| 0 <= k < prev.len() && prev[k] == sub[j];
            if k < p {
                assert(out[k] == prev[k]);
            } else {
                assert(out[k + 1] == prev[k]);
            }
        } else {
            assert(out[p] == c);
        }
    }
}

/// Orders candidates by score, highest first; equal scores keep the order of
/// the list.
pub fn rank(cands: &Vec<SearchResult>) -> (r: Vec<SearchResult>)
    requires
        indices_increasing(cands@),
    ensures
        ranked(r@),
        same_elements(r@, cands@),
{
    let mut out: Vec<SearchResult> = Vec::new();
    let mut i: usize = 0;
    while i < cands.len()
        invariant
            i <= cands@.len(),
            indices_increasing(cands@),
            ranked(out@),
            same_elements(out@, cands@.subrange(0, i as int)),
        decreases cands@.len() - i,
    {
        let c = cands[i];
        let mut p: usize = 0;
        while p < out.len() && out[p].score >= c.score
            invariant
                p <= out@.len(),
                forall|k: int| 0 <= k < p ==> (#[trigger] out@[k]).score >= c.score,
            decreases out@.len() - p,
        {
            p += 1;
        }
        let ghost prev = out@;
        let ghost sub = cands@.subrange(0, i as int);
        assert forall|k: int| 0 <= k < prev.len() implies (#[trigger] prev[k]).index < c.index by {
            let j = choose|j: int| 0 <= j < sub.len() && prev[k] == sub[j];
            assert(sub[j] == cands@[j]);
        }
        assert(cands@.subrange(0, i + 1) == sub.push(c));
        out.insert(p, c);
        proof {
            lemma_insert_ranked(prev, p as int, c);
            lemma_insert_same(prev, sub, cands@.subrange(0, i + 1), p as int, c);
        }
        i += 1;
    }
    assert(cands@.subrange(0, cands@.len() as int) =~= cands@);
    out
}

/// Length in bytes of the UTF-8 text, as `str::len` gives it.
pub open spec fn byte_len(s: Seq<char>) -> int {
    (encode_utf8(s).len() as usize) as int
}

/// Text shorter than two bytes: empty, or one ASCII character.
pub open spec fn too_short(s: Seq<char>) -> bool {
    s.len() == 0 || (s.len() == 1 && (s[0] as u32) < 128)
}

/// `x` truncated toward zero after division by ten.
pub open spec fn tenth_spec(x: int) -> int {
    if x >= 0 {
        x / 10
    } else {
        -((-x) / 10)
    }
}

pub open spec fn clamp_i64(x: int) -> i64 {
    if x > i64::MAX {
        i64::MAX
    } else if x < i64::MIN {
        i64::MIN
    } else {
        x as i64
    }
}

/// How the lowered name relates to the lowered query: equal, a prefix, a
/// whole word, or contained anywhere.
pub open spec fn match_bonus_spec(g: Seq<char>, q: Seq<char>) -> int {
    if g == q {
        10000
    } else if starts_with_spec(g, q) {
        5000
    } else if contains_spec(g, " "@ + q + " "@) || starts_with_spec(g, q + " "@) || ends_with_spec(
        g,
        " "@ + q,
    ) {
        2000
    } else if contains_spec(g, q) {
        1000
    } else {
        0
    }
}

/// The bonus added to a fuzzy score: the match bonus, less the name's excess
/// length in bytes over the query's (at most 500), plus a tenth of the fuzzy
/// score.
pub open spec fn bonus_spec(name: Seq<char>, query: Seq<char>, fuzzy: int) -> i64 {
    let excess = byte_len(name) - byte_len(query);
    let penalty = if excess < 500 { excess } else { 500 };
    clamp_i64(match_bonus_spec(lower_of(name), lower_of(query)) - penalty + tenth_spec(fuzzy))
}

pub(crate) fn clamp(x: i128) -> (r: i64)
    ensures
        r == clamp_i64(x as int),
{
    if x > i64::MAX as i128 {
        i64::MAX
    } else if x < i64::MIN as i128 {
        i64::MIN
    } else {
        x as i64
    }
}

pub fn calculate_bonus_score(game_name: &str, query: &str, fuzzy_score: i64) -> (r: i64)
    ensures
        r == bonus_spec(game_name@, query@, fuzzy_score as int),
{
    let g = to_lowercase(game_name);
    let q = to_lowercase(query);
    let gs = g.as_str();
    let qs = q.as_str();
    let spaced = concat3(" ", qs, " ");
    let trailing = concat2(qs, " ");
    let leading = concat2(" ", qs);
    let tier: i128 = if str_eq(gs, qs) {
        10000
    } else if starts_with(gs, qs) {
        5000
    } else if contains(gs, spaced.as_str()) || starts_with(gs, trailing.as_str()) || ends_with(
        gs,
        leading.as_str(),
    ) {
        2000
    } else if contains(gs, qs) {
        1000
    } else {
        0
    };
    let excess: i128 = game_name.len() as i128 - query.len() as i128;
    let penalty: i128 = if excess < 500 { excess } else { 500 };
    let f = fuzzy_score as i128;
    let tenth: i128 = if f >= 0 { f / 10 } else { -((-f) / 10) };
    clamp(tier - penalty + tenth)
}

pub uninterp spec fn skim_score(choice: Seq<char>, pattern: Seq<char>) -> Option<i64>;

/// Relies on fuzzy_matcher's `SkimMatcherV2` with smart case and its
/// `fuzzy_match`: `None` when the pattern does not match the choice, else
/// the match score, a function of the two strings.
#[verifier::external_body]
fn fuzzy_match(choice: &str, pattern: &str) -> (r: Option<i64>)
    ensures
        r == skim_score(choice@, pattern@),
{
    let matcher = fuzzy_matcher::skim::SkimMatcherV2::default().smart_case();
    fuzzy_matcher::FuzzyMatcher::fuzzy_match(&matcher, choice, pattern)
}

/// Whether every word of `words` occurs in `text`.
pub open spec fn all_words_in(words: Seq<Seq<char>>, text: Seq<char>) -> bool {
    forall|i: int| 0 <= i < words.len() ==> contains_spec(text, #[trigger] words[i])
}

/// A name's score against a trimmed query: the fuzzy score plus its bonus
/// when the fuzzy matcher matches; otherwise, when the query has words and
/// each occurs in the lowered name, 100 less the name's length in bytes.
pub open spec fn name_score_spec(name: Seq<char>, query: Seq<char>) -> Option<i64> {
    match skim_score(name, query) {
        Some(f) => Some(clamp_i64(f + bonus_spec(name, query, f as int))),
        None => {
            let words = words_spec(lower_of(query));
            if words.len() > 0 && all_words_in(words, lower_of(name)) {
                Some(clamp_i64(100 - byte_len(name)))
            } else {
                None
            }
        },
    }
}

pub fn name_score(name: &str, query: &str) -> (r: Option<i64>)
    ensures
        r == name_score_spec(name@, query@),
{
    match fuzzy_match(name, query) {
        Some(f) => {
            let b = calculate_bonus_score(name, query, f);
            Some(clamp(f as i128 + b as i128))
        },
        None => {
            let ql = to_lowercase(query);
            let words = split_words(ql.as_str());
            let nl = to_lowercase(name);
            if words.len() == 0 {
                assert(words_spec(lower_of(query@)).len() == 0);
                return None;
            }
            let mut i: usize = 0;
            while i < words.len()
                invariant
                    i <= words@.len(),
                    words@.map_values(|w: String| w@) == words_spec(lower_of(query@)),
                    nl@ == lower_of(name@),
                    skim_score(name@, query@) is None,
                    forall|k: int| 0 <= k < i ==> contains_spec(nl@, #[trigger] words_spec(lower_of(query@))[k]),
                decreases words@.len() - i,
            {
                if !contains(nl.as_str(), words[i].as_str()) {
                    assert(words@.map_values(|w: String| w@)[i as int] == words@[i as int]@);
                    assert(!all_words_in(words_spec(lower_of(query@)), lower_of(name@)));
                    assert(name_score_spec(name@, query@) is None);
                    return None;
                }
                assert(words@.map_values(|w: String| w@)[i as int] == words@[i as int]@);
                i += 1;
            }
            assert(all_words_in(words_spec(lower_of(query@)), lower_of(name@)));
            Some(clamp(100 - name.len() as i128))
        },
    }
}

/// The candidates among the first `n` games: each game whose name scores
/// against the query, with its score and index.
pub open spec fn candidates_upto(games: Seq<Game>, query: Seq<char>, n: int) -> Seq<SearchResult>
    decreases n,
{
    if n <= 0 {
        Seq::empty()
    } else {
        match name_score_spec(games[n - 1].name@, query) {
            Some(s) => candidates_upto(games, query, n - 1).push(SearchResult { score: s, index: (n - 1) as usize }),
            None => candidates_upto(games, query, n - 1),
        }
    }
}

proof fn lemma_candidates_indices(games: Seq<Game>, query: Seq<char>, n: int)
    requires
        0 <= n <= games.len(),
        games.len() <= usize::MAX,
    ensures
        indices_increasing(candidates_upto(games, query, n)),
        forall|k: int| 0 <= k < candidates_upto(games, query, n).len() ==> (#[trigger] candidates_upto(games, query, n)[k]).index < n,
    decreases n,
{
    if n > 0 {
        lemma_candidates_indices(games, query, n - 1);
        let prev = candidates_upto(games, query, n - 1);
        let cur = candidates_upto(games, query, n);
        match name_score_spec(games[n - 1].name@, query) {
            Some(sc) => {
                assert(cur == prev.push(SearchResult { score: sc, index: (n - 1) as usize }));
            },
            None => {
                assert(cur == prev);
            },
        }
        assert forall|i: int, j: int| 0 <= i < j < cur.len() implies (#[trigger] cur[i]).index < (
        #[trigger] cur[j]).index by {
            if j < prev.len() {
                assert(cur[i] == prev[i]);
                assert(cur[j] == prev[j]);
            } else {
                assert(cur[i] == prev[i]);
            }
        }
        assert forall|k: int| 0 <= k < cur.len() implies (#[trigger] cur[k]).index < n by {
            if k < prev.len() {
                assert(cur[k] == prev[k]);
            }
        }
    }
}

pub open spec fn min_usize(a: usize, b: usize) -> usize {
    if a < b { a } else { b }
}

/// Games listed in the order of `order`, up to `limit` of them.
pub open spec fn listed(games: Seq<Game>, order: Seq<SearchResult>, r: Seq<Game>, limit: usize) -> bool {
    &&& r.len() == min_usize(limit, order.len() as usize)
    &&& forall|k: int| 0 <= k < r.len() ==> (#[trigger] r[k]).name@ == games[order[k].index as int].name@
        && r[k].appid == games[order[k].index as int].appid
}

/// Searches the game list for a title: the trimmed title must be at least
/// two bytes long; the results are the best-scoring games, highest first and
/// in list order among equals, at most `limit` of them (10 when none is
/// given, never more than 50).
pub fn search_games(games: &Vec<Game>, title: &str, limit: Option<usize>) -> (r: Vec<Game>)
    ensures
        too_short(trim_spec(title@)) ==> r@.len() == 0,
        !too_short(trim_spec(title@)) ==> exists|order: Seq<SearchResult>|
            ranked(order) && same_elements(order, candidates_upto(games@, trim_spec(title@), games@.len() as int))
                && listed(games@, order, r@, min_usize(match limit { Some(l) => l, None => 10 }, 50)),
{
    let t = trim(title);
    let n = t.unicode_len();
    if n == 0 || (n == 1 && (t.get_char(0) as u32) < 128) {
        return Vec::new();
    }
    let lim: usize = match limit {
        Some(l) => if l < 50 { l } else { 50 },
        None => 10,
    };
    let mut cands: Vec<SearchResult> = Vec::new();
    let mut i: usize = 0;
    while i < games.len()
        invariant
            i <= games@.len(),
            cands@ == candidates_upto(games@, t@, i as int),
        decreases games@.len() - i,
    {
        match name_score(games[i].name.as_str(), t) {
            Some(s) => cands.push(SearchResult { score: s, index: i }),
            None => {},
        }
        i += 1;
    }
    proof {
        assert(games@.len() <= usize::MAX);
        lemma_candidates_indices(games@, t@, games@.len() as int);
    }
    let order = rank(&cands);
    let mut out: Vec<Game> = Vec::new();
    let mut k: usize = 0;
    while k < order.len() && k < lim
        invariant
            k <= order@.len(),
            k <= lim,
            out@.len() == k,
            same_elements(order@, cands@),
            forall|m: int| 0 <= m < cands@.len() ==> (#[trigger] cands@[m]).index < games@.len(),
            forall|m: int| 0 <= m < k ==> (#[trigger] out@[m]).name@ == games@[order@[m].index as int].name@
                && out@[m].appid == games@[order@[m].index as int].appid,
        decreases order@.len() - k,
    {
        proof {
            let j = choose|j: int| 0 <= j < cands@.len() && order@[k as int] == cands@[j];
            assert(order@[k as int].index < games@.len());
        }
        let idx = order[k].index;
        out.push(games[idx].clone_game());
        k += 1;
    }
    assert(listed(games@, order@, out@, lim));
    assert(cands@ == candidates_upto(games@, trim_spec(title@), games@.len() as int));
    out
}

/// Finds the first game with this App ID.
pub fn find_by_appid(games: &Vec<Game>, appid: u32) -> (r: Option<usize>)
    ensures
        match r {
            Some(i) => i < games@.len() && games@[i as int].appid == appid && forall|j: int|
                0 <= j < i ==> games@[j].appid != appid,
            None => forall|j: int| 0 <= j < games@.len() ==> games@[j].appid != appid,
        },
{
    let mut i: usize = 0;
    while i < games.len()
        invariant
            i <= games@.len(),
            forall|j: int| 0 <= j < i ==> games@[j].appid != appid,
        decreases games@.len() - i,
    {
        if games[i].appid == appid {
            return Some(i);
        }
        i += 1;
    }
    None
}

/// The game list, fetched at most once per cache and then only read.
pub struct GameCache {
    pub games: Option<Vec<Game>>,
}

/// What is known of the cache.
pub struct CacheStats {
    pub cached: bool,
    pub game_count: usize,
    pub status: String,
}

impl GameCache {
    pub fn new() -> (r: GameCache)
        ensures
            r.games is None,
    {
        GameCache { games: None }
    }

    /// Fills the cache unless it was filled before; says whether it filled it.
    pub fn populate(&mut self, games: Vec<Game>) -> (r: bool)
        ensures
            r == old(self).games is None,
            old(self).games is None ==> final(self).games == Some(games),
            old(self).games is Some ==> final(self).games == old(self).games,
    {
        if self.games.is_some() {
            return false;
        }
        self.games = Some(games);
        true
    }

    pub fn stats(&self) -> (r: CacheStats)
        ensures
            r.cached == self.games is Some,
            match self.games {
                Some(g) => r.game_count == g@.len() && r.status@ == "ready"@,
                None => r.game_count == 0 && r.status@ == "not_initialized"@,
            },
    {
        match &self.games {
            Some(g) => CacheStats { cached: true, game_count: g.len(), status: String::from_str("ready") },
            None => CacheStats { cached: false, game_count: 0, status: String::from_str("not_initialized") },
        }
    }
}

} // verus!
