//! Config materializer: the text of each file written into the metadata
//! directory. Every file is written whole, replacing what was there.
use vstd::prelude::*;
use crate::text::{
    concat2, concat3, decimal, decimal_spec, lines_text, lower_of, render_lines, str_eq,
    to_lowercase, views,
};

verus! {

pub open spec fn main_ini_spec() -> Seq<char> {
    "[main::stats]\nrecord_playtime=1\n"@
}

/// General behaviour flags.
pub fn main_ini() -> (r: String)
    ensures
        r@ == main_ini_spec(),
{
    String::from_str("[main::stats]\nrecord_playtime=1\n")
}

pub open spec fn user_ini_spec(language: Seq<char>) -> Seq<char> {
    "[user::general]\naccount_name=Player\naccount_steamid=76561197960287930\nlanguage="@ + language
        + "\n"@
}

/// The language chosen for the run, English when none was chosen.
pub open spec fn language_or_default(language: Option<Seq<char>>) -> Seq<char> {
    match language {
        Some(l) => l,
        None => "english"@,
    }
}

/// Identity and locale defaults.
pub fn user_ini(language: Option<&str>) -> (r: String)
    ensures
        r@ == user_ini_spec(
            language_or_default(
                match language {
                    Some(l) => Some(l@),
                    None => None,
                },
            ),
        ),
{
    let lang = match language {
        Some(l) => l,
        None => "english",
    };
    concat3(
        "[user::general]\naccount_name=Player\naccount_steamid=76561197960287930\nlanguage=",
        lang,
        "\n",
    )
}

pub open spec fn overlay_ini_spec() -> Seq<char> {
    "[overlay::general]\nenable_experimental_overlay=1\n[overlay::appearance]\nFont_Override=Roboto-Medium.ttf\n"@
}

/// Overlay flags.
pub fn overlay_ini() -> (r: String)
    ensures
        r@ == overlay_ini_spec(),
{
    String::from_str(
        "[overlay::general]\nenable_experimental_overlay=1\n[overlay::appearance]\nFont_Override=Roboto-Medium.ttf\n",
    )
}

/// The numeric identifier file.
pub fn appid_txt(app_id: &str) -> (r: String)
    ensures
        r@ == app_id@ + "\n"@,
{
    concat2(app_id, "\n")
}

/// What the store says of one DLC: its id, and its name when it has one.
pub struct DlcInfo {
    pub id: u32,
    pub name: Option<String>,
}

/// The DLC lines for the first `n` entries: `id=name` for each named one.
pub open spec fn dlc_lines_upto(dlcs: Seq<DlcInfo>, n: int) -> Seq<char>
    decreases n,
{
    if n <= 0 {
        Seq::empty()
    } else {
        let prev = dlc_lines_upto(dlcs, n - 1);
        match dlcs[n - 1].name {
            Some(name) => prev + decimal_spec(dlcs[n - 1].id as nat) + "="@ + name@ + "\n"@,
            None => prev,
        }
    }
}

pub open spec fn dlc_ini_spec(dlcs: Seq<DlcInfo>) -> Seq<char> {
    "[app::dlcs]\nunlock_all=0\n"@ + dlc_lines_upto(dlcs, dlcs.len() as int)
}

/// The DLC list; DLCs without a name are left out.
pub fn dlc_ini(dlcs: &Vec<DlcInfo>) -> (r: String)
    ensures
        r@ == dlc_ini_spec(dlcs@),
{
    let mut out = String::from_str("[app::dlcs]\nunlock_all=0\n");
    let mut i: usize = 0;
    while i < dlcs.len()
        invariant
            i <= dlcs@.len(),
            out@ == "[app::dlcs]\nunlock_all=0\n"@ + dlc_lines_upto(dlcs@, i as int),
        decreases dlcs@.len() - i,
    {
        match &dlcs[i].name {
            Some(name) => {
                let id = decimal(dlcs[i].id as u64);
                out.append(id.as_str());
                out.append("=");
                out.append(name.as_str());
                out.append("\n");
                proof {
                    assert(out@ =~= "[app::dlcs]\nunlock_all=0\n"@ + dlc_lines_upto(dlcs@, i + 1));
                }
            },
            None => {},
        }
        i += 1;
    }
    out
}

/// The depot list: one id per line.
pub fn depots_txt(depot_ids: &Vec<String>) -> (r: String)
    ensures
        r@ == lines_text(views(depot_ids@)),
{
    render_lines(depot_ids)
}

/// Whether a language support flag means supported: `1`, or `true` in any
/// case.
pub open spec fn is_supported_spec(flag: Seq<char>) -> bool {
    flag == "1"@ || lower_of(flag) == "true"@
}

/// The supported ones among the first `n` (language, flag) pairs.
pub open spec fn supported_upto(langs: Seq<(String, String)>, n: int) -> Seq<Seq<char>>
    decreases n,
{
    if n <= 0 {
        Seq::empty()
    } else if is_supported_spec(langs[n - 1].1@) {
        supported_upto(langs, n - 1).push(langs[n - 1].0@)
    } else {
        supported_upto(langs, n - 1)
    }
}

/// The supported languages, in the order given; English alone when none is.
pub open spec fn supported_languages_spec(langs: Seq<(String, String)>) -> Seq<Seq<char>> {
    let s = supported_upto(langs, langs.len() as int);
    if s.len() == 0 {
        seq!["english"@]
    } else {
        s
    }
}

pub fn supported_languages(langs: &Vec<(String, String)>) -> (r: Vec<String>)
    ensures
        views(r@) == supported_languages_spec(langs@),
        r@.len() > 0,
{
    let mut out: Vec<String> = Vec::new();
    let mut i: usize = 0;
    while i < langs.len()
        invariant
            i <= langs@.len(),
            views(out@) == supported_upto(langs@, i as int),
        decreases langs@.len() - i,
    {
        let flag = langs[i].1.as_str();
        let lowered = to_lowercase(flag);
        if str_eq(flag, "1") || str_eq(lowered.as_str(), "true") {
            let ghost prev = out@;
            out.push(langs[i].0.clone());
            proof {
                assert(views(out@) =~= views(prev).push(langs@[i as int].0@));
            }
        }
        i += 1;
    }
    if out.len() == 0 {
        out.push(String::from_str("english"));
        assert(views(out@) =~= seq!["english"@]);
    }
    out
}

/// The supported-languages file: one language per line.
pub fn languages_txt(langs: &Vec<(String, String)>) -> (r: String)
    ensures
        r@ == lines_text(supported_languages_spec(langs@)),
{
    let v = supported_languages(langs);
    render_lines(&v)
}

} // verus!
