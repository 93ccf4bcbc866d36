//! Achievements and stats: how the store's schema becomes the records
//! written into the metadata directory, and which icons are fetched.
use vstd::prelude::*;

verus! {

pub struct DlcEntry {
    pub id: String,
    pub name: String,
}

/// An achievement as written to the metadata directory.
pub struct Achievement {
    pub name: String,
    pub display_name: String,
    pub description: String,
    pub hidden: bool,
    pub icon: String,
    pub icon_gray: String,
}

/// A stat as written to the metadata directory.
pub struct Stat {
    pub name: String,
    pub stat_type: String,
    pub default: i32,
    pub global: i32,
}

/// An achievement as the store's schema gives it.
pub struct SchemaAchievement {
    pub name: String,
    pub display_name: String,
    pub hidden: i32,
    pub description: Option<String>,
    pub icon: String,
    pub icongray: String,
    pub default_value: i32,
}

/// A stat as the store's schema gives it.
pub struct SchemaStat {
    pub name: String,
    pub default_value: i32,
    pub display_name: String,
}

pub open spec fn achievement_of(a: SchemaAchievement, r: Achievement) -> bool {
    &&& r.name@ == a.name@
    &&& r.display_name@ == a.display_name@
    &&& r.description@ == (match a.description {
        Some(d) => d@,
        None => "No description available"@,
    })
    &&& r.hidden == (a.hidden != 0)
    &&& r.icon@ == a.icon@
    &&& r.icon_gray@ == a.icongray@
}

pub fn to_achievement(a: &SchemaAchievement) -> (r: Achievement)
    ensures
        achievement_of(*a, r),
{
    let description = match &a.description {
        Some(d) => d.clone(),
        None => String::from_str("No description available"),
    };
    Achievement {
        name: a.name.clone(),
        display_name: a.display_name.clone(),
        description,
        hidden: a.hidden != 0,
        icon: a.icon.clone(),
        icon_gray: a.icongray.clone(),
    }
}

/// Every achievement of the schema, in order.
pub fn to_achievements(schema: &Vec<SchemaAchievement>) -> (r: Vec<Achievement>)
    ensures
        r@.len() == schema@.len(),
        forall|i: int| 0 <= i < r@.len() ==> achievement_of(schema@[i], #[trigger] r@[i]),
{
    let mut out: Vec<Achievement> = Vec::new();
    let mut i: usize = 0;
    while i < schema.len()
        invariant
            i <= schema@.len(),
            out@.len() == i,
            forall|k: int| 0 <= k < i ==> achievement_of(schema@[k], #[trigger] out@[k]),
        decreases schema@.len() - i,
    {
        out.push(to_achievement(&schema[i]));
        i += 1;
    }
    out
}

pub open spec fn stat_of(s: SchemaStat, r: Stat) -> bool {
    &&& r.name@ == s.name@
    &&& r.stat_type@ == "int"@
    &&& r.default == s.default_value
    &&& r.global == 0
}

/// Every stat of the schema, in order, as an integer stat with a global
/// value of zero.
pub fn to_stats(schema: &Vec<SchemaStat>) -> (r: Vec<Stat>)
    ensures
        r@.len() == schema@.len(),
        forall|i: int| 0 <= i < r@.len() ==> stat_of(schema@[i], #[trigger] r@[i]),
{
    let mut out: Vec<Stat> = Vec::new();
    let mut i: usize = 0;
    while i < schema.len()
        invariant
            i <= schema@.len(),
            out@.len() == i,
            forall|k: int| 0 <= k < i ==> stat_of(schema@[k], #[trigger] out@[k]),
        decreases schema@.len() - i,
    {
        out.push(
            Stat {
                name: schema[i].name.clone(),
                stat_type: String::from_str("int"),
                default: schema[i].default_value,
                global: 0,
            },
        );
        i += 1;
    }
    out
}

/// The last `/`-separated segment of a URL.
pub open spec fn last_segment(url: Seq<char>, n: int) -> Seq<char>
    decreases n,
{
    if n <= 0 {
        url
    } else if url[n - 1] == '/' {
        url.subrange(n, url.len() as int)
    } else {
        last_segment(url, n - 1)
    }
}

/// The file name under which an icon is stored: the URL's last segment.
pub fn icon_file_name(url: &str) -> (r: String)
    ensures
        r@ == last_segment(url@, url@.len() as int),
{
    let n = url.unicode_len();
    let mut i: usize = n;
    while i > 0
        invariant
            n == url@.len(),
            i <= n,
            last_segment(url@, n as int) == last_segment(url@, i as int),
        decreases i,
    {
        if url.get_char(i - 1) == '/' {
            return String::from_str(url.substring_char(i, n));
        }
        i -= 1;
    }
    assert(url@.subrange(0, n as int) =~= url@);
    String::from_str(url)
}

/// One icon to fetch: where from, and the file name to store it under.
pub struct IconDownload {
    pub url: String,
    pub file_name: String,
}

/// The icons of the achievements, in order: each achievement's icon and
/// then its gray icon.
pub open spec fn icon_urls(achs: Seq<Achievement>) -> Seq<Seq<char>>
    decreases achs.len(),
{
    if achs.len() == 0 {
        Seq::empty()
    } else {
        icon_urls(achs.drop_last()).push(achs.last().icon@).push(achs.last().icon_gray@)
    }
}

pub fn icon_downloads(achs: &Vec<Achievement>) -> (r: Vec<IconDownload>)
    ensures
        r@.map_values(|d: IconDownload| d.url@) == icon_urls(achs@),
        forall|i: int| 0 <= i < r@.len() ==> (#[trigger] r@[i]).file_name@ == last_segment(r@[i].url@, r@[i].url@.len() as int),
{
    let mut out: Vec<IconDownload> = Vec::new();
    let mut i: usize = 0;
    while i < achs.len()
        invariant
            i <= achs@.len(),
            out@.map_values(|d: IconDownload| d.url@) == icon_urls(achs@.subrange(0, i as int)),
            forall|k: int| 0 <= k < out@.len() ==> (#[trigger] out@[k]).file_name@ == last_segment(out@[k].url@, out@[k].url@.len() as int),
        decreases achs@.len() - i,
    {
        let a = &achs[i];
        let ghost prev = out@;
        out.push(IconDownload { url: a.icon.clone(), file_name: icon_file_name(a.icon.as_str()) });
        out.push(IconDownload { url: a.icon_gray.clone(), file_name: icon_file_name(a.icon_gray.as_str()) });
        proof {
            assert(achs@.subrange(0, i + 1).drop_last() =~= achs@.subrange(0, i as int));
            assert(out@.map_values(|d: IconDownload| d.url@) =~= prev.map_values(|d: IconDownload| d.url@).push(
                achs@[i as int].icon@,
            ).push(achs@[i as int].icon_gray@));
        }
        i += 1;
    }
    assert(achs@.subrange(0, achs@.len() as int) =~= achs@);
    out
}

} // verus!
