//! Countdown / days-since widget: the calendar-day difference with an
//! injected "today", the label that flips for past dates, the artwork
//! choices made around the Met Museum API and its cache, and the page.

use vstd::prelude::*;
use crate::datetime::{
    chrono_formatted, date_after, day_number, days_between, format_date, law_day_difference_sign,
    lemma_day_number_bounds,
    valid_date,
    CivilDate,
};
use crate::encoding::{data_uri, data_uri_text};
use crate::text::{
    chars_of, dec_i64, dec_u64, decimal, decimal_int, push_chars, push_str, string_from_chars,
};
use super::template::{leftover_token, render, replace, replace_all, substitute, TemplateError};
use super::WidgetError;

verus! {

/// The Met Museum search endpoint.
pub const DEFAULT_MET_SEARCH_URL: &'static str =
    "https://collectionapi.metmuseum.org/public/collection/v1/search";

/// The Met Museum object endpoint; `{}` is replaced with the object id.
pub const DEFAULT_MET_OBJECT_URL_TEMPLATE: &'static str =
    "https://collectionapi.metmuseum.org/public/collection/v1/objects/{}";

/// How many search results are considered.
pub const MAX_SEARCH_RESULTS: usize = 60;

/// How many objects are tried before giving up.
pub const MAX_OBJECT_ATTEMPTS: usize = 12;

#[verifier::external_type_specification]
#[verifier::external_body]
pub struct ExPathBuf(std::path::PathBuf);

/// Met Museum API endpoints, overridable to point at another server.
#[derive(Debug, Clone, PartialEq)]
pub struct MetEndpoints {
    pub search_url: String,
    /// Must contain a single `{}` placeholder for the object id.
    pub object_url_template: String,
}

impl Default for MetEndpoints {
    fn default() -> (m: Self)
        ensures
            m.search_url@ == DEFAULT_MET_SEARCH_URL@,
            m.object_url_template@ == DEFAULT_MET_OBJECT_URL_TEMPLATE@,
    {
        MetEndpoints {
            search_url: string_from_chars(&chars_of(DEFAULT_MET_SEARCH_URL)),
            object_url_template: string_from_chars(&chars_of(DEFAULT_MET_OBJECT_URL_TEMPLATE)),
        }
    }
}

/// The user-facing countdown configuration.
#[derive(Debug)]
pub struct CountdownConfig {
    pub target_date: CivilDate,
    pub title: String,
    /// Local photo path; when set, no artwork is fetched.
    pub bg_photo: Option<std::path::PathBuf>,
    pub bg_query: String,
    /// Directory of the artwork cache (`met_<id>.jpg` + `.txt` credit).
    pub cache_dir: std::path::PathBuf,
}

/// Resolved background art: an embeddable data URI and its credit line.
#[derive(Debug, Clone, PartialEq)]
pub struct CountdownArt {
    pub bg_uri: String,
    pub credit: String,
}

/// Calendar-day difference: positive when `target` is after `today`,
/// negative when before.
pub fn days_until(target: CivilDate, today: CivilDate) -> (d: i64)
    requires
        valid_date(target),
        valid_date(today),
    ensures
        d == day_number(target) - day_number(today),
        d > 0 <==> date_after(target, today),
        d == 0 <==> target == today,
{
    proof {
        law_day_difference_sign(target, today);
    }
    days_between(&target, &today)
}

/// The label for a day count.
pub open spec fn label_for(days: i64) -> Seq<char> {
    if days >= 0 { "days until"@ } else { "days since"@ }
}

/// `days until` for today or a future date, `days since` for a past one.
pub fn countdown_label(days: i64) -> (l: &'static str)
    ensures
        l@ == label_for(days),
{
    if days >= 0 {
        "days until"
    } else {
        "days since"
    }
}

/// The label says "until" exactly when the target is today or later.
pub proof fn law_label_follows_date(target: CivilDate, today: CivilDate)
    requires
        valid_date(target),
        valid_date(today),
    ensures
        label_for((day_number(target) - day_number(today)) as i64) == "days until"@ <==> (
        date_after(target, today) || target == today),
{
    reveal_strlit("days until");
    reveal_strlit("days since");
    assert("days until"@[5] != "days since"@[5]);
    law_day_difference_sign(target, today);
    lemma_day_number_bounds(target);
    lemma_day_number_bounds(today);
}

/// `|days|` as text.
pub open spec fn abs_text(days: i64) -> Seq<char> {
    decimal((if days < 0 { -(days as int) } else { days as int }) as nat)
}

fn abs_days(days: i64) -> (r: u64)
    ensures
        r == (if days < 0 { -(days as int) } else { days as int }),
{
    if days < 0 {
        if days == i64::MIN {
            9223372036854775808u64
        } else {
            (-days) as u64
        }
    } else {
        days as u64
    }
}

/// The placeholder values of the countdown page.
pub open spec fn countdown_values(
    config: CountdownConfig,
    art: CountdownArt,
    days: i64,
) -> Seq<(Seq<char>, Seq<char>)> {
    let t = config.target_date;
    seq![
        ("BG_URI"@, art.bg_uri@),
        ("DAYS"@, abs_text(days)),
        ("LABEL"@, label_for(days)),
        ("TITLE"@, config.title@),
        ("DATE"@, chrono_formatted(t.year, t.month, t.day, 0, 0, 0, "%B %-d, %Y"@)),
        ("CREDIT"@, art.credit@),
    ]
}

/// Renders the countdown page for `today`: the absolute day count, the
/// until/since label, the title, the long target date, the art and its
/// credit.
pub fn render_html(
    template_html: &str,
    config: &CountdownConfig,
    art: &CountdownArt,
    today: CivilDate,
) -> (r: Result<String, WidgetError>)
    requires
        valid_date(config.target_date),
        valid_date(today),
    ensures
        ({
            let out = substitute(
                template_html@,
                countdown_values(
                    *config,
                    *art,
                    (day_number(config.target_date) - day_number(today)) as i64,
                ),
            );
            match r {
                Ok(s) => s@ == out && leftover_token(out) is None,
                Err(WidgetError::Template(TemplateError::UnresolvedPlaceholder(t))) =>
                    leftover_token(out) == Some(t@),
                _ => false,
            }
        }),
{
    let days = days_until(config.target_date, today);
    let label = countdown_label(days);
    let days_s = string_from_chars(&dec_u64(abs_days(days)));
    let date_s = format_date(&config.target_date, "%B %-d, %Y");
    let values = [
        ("BG_URI", art.bg_uri.as_str()),
        ("DAYS", days_s.as_str()),
        ("LABEL", label),
        ("TITLE", config.title.as_str()),
        ("DATE", date_s.as_str()),
        ("CREDIT", art.credit.as_str()),
    ];
    proof {
        assert(values@.map_values(|kv: (&str, &str)| (kv.0@, kv.1@)) =~= countdown_values(
            *config,
            *art,
            days,
        ));
    }
    match render(template_html, values.as_slice()) {
        Ok(s) => Ok(s),
        Err(e) => Err(WidgetError::Template(e)),
    }
}

/// ASCII lower case of a character.
pub open spec fn ascii_lower(c: char) -> char {
    if 'A' <= c && c <= 'Z' { ((c as u32) + 32) as char } else { c }
}

/// Equality ignoring ASCII case.
pub open spec fn eq_ignore_ascii_case(a: Seq<char>, b: Seq<char>) -> bool {
    a.len() == b.len() && forall|i: int| 0 <= i < a.len() ==> ascii_lower(a[i]) == ascii_lower(b[i])
}

fn lower_ascii(c: char) -> (r: u32)
    ensures
        r == ascii_lower(c) as u32,
{
    if 'A' <= c && c <= 'Z' {
        (c as u32) + 32
    } else {
        c as u32
    }
}

/// The MIME type of a user photo by its extension: `image/png` for `png` in
/// any ASCII case, `image/jpeg` otherwise.
pub fn photo_mime(ext: Option<&str>) -> (m: &'static str)
    ensures
        m@ == (if ext matches Some(e) && eq_ignore_ascii_case(e@, "png"@) {
            "image/png"@
        } else {
            "image/jpeg"@
        }),
{
    match ext {
        Some(e) => {
            let v = chars_of(e);
            let p = chars_of("png");
            if v.len() != p.len() {
                assert(!eq_ignore_ascii_case(e@, "png"@));
                return "image/jpeg";
            }
            let mut i: usize = 0;
            while i < v.len()
                invariant
                    i <= v.len(),
                    v.len() == p.len(),
                    v@ == e@,
                    ext == Some(e),
                    p@ == "png"@,
                    forall|j: int| 0 <= j < i ==> ascii_lower(v@[j]) == ascii_lower(p@[j]),
                decreases v.len() - i,
            {
                if lower_ascii(v[i]) != lower_ascii(p[i]) {
                    assert(ascii_lower(e@[i as int]) != ascii_lower("png"@[i as int]));
                    assert(!eq_ignore_ascii_case(e@, "png"@));
                    return "image/jpeg";
                }
                i = i + 1;
            }
            "image/png"
        },
        None => "image/jpeg",
    }
}

/// The art of a user photo: its bytes embedded with the MIME type of its
/// extension, and no credit.
pub fn photo_art(ext: Option<&str>, bytes: &[u8]) -> (a: CountdownArt)
    ensures
        a.bg_uri@ == data_uri_text(
            (if ext matches Some(e) && eq_ignore_ascii_case(e@, "png"@) {
                "image/png"@
            } else {
                "image/jpeg"@
            }),
            bytes@,
        ),
        a.credit@ == Seq::<char>::empty(),
{
    let mime = photo_mime(ext);
    let e: Vec<char> = Vec::new();
    CountdownArt { bg_uri: data_uri(mime, bytes), credit: string_from_chars(&e) }
}

/// The art of fetched or cached artwork: JPEG bytes and their credit.
pub fn artwork_art(bytes: &[u8], credit: String) -> (a: CountdownArt)
    ensures
        a.bg_uri@ == data_uri_text("image/jpeg"@, bytes@),
        a.credit == credit,
{
    CountdownArt { bg_uri: data_uri("image/jpeg", bytes), credit }
}

/// The deterministic artwork pick for a day count: `|days|`, so the art is
/// stable within a day and rotates daily.
pub fn art_pick(days: i64) -> (p: u64)
    ensures
        p == (if days < 0 { -(days as int) } else { days as int }),
{
    abs_days(days)
}

/// The ids tried, in order: starting at `pick` (modulo the number of ids
/// considered, at most the first 60) and walking forward, at most 12 of them.
pub open spec fn candidate_ids(ids: Seq<i64>, pick: nat) -> Seq<i64> {
    let considered = if ids.len() > 60 { ids.take(60) } else { ids };
    let n = considered.len();
    let attempts = if n < 12 { n } else { 12 };
    Seq::new(attempts, |k: int| considered[((pick + k) % (n as int))])
}

/// The artwork rotates daily: the first id tried is search result number
/// `pick` (counted modulo the results considered, the first 60), and the
/// ids tried for the next day's pick are the same walk moved on by one.
/// At most 12 ids are tried, all of them when fewer are considered.
pub proof fn law_artwork_rotates_daily(ids: Seq<i64>, pick: nat)
    requires
        ids.len() > 0,
    ensures
        ({
            let n: int = if ids.len() > 60 { 60 } else { ids.len() as int };
            let c = candidate_ids(ids, pick);
            &&& c.len() == (if n < 12 { n } else { 12 })
            &&& c[0] == ids[(pick as int) % n]
            &&& forall|k: int| 0 <= k < c.len() ==> #[trigger] c[k] == ids[(pick + k) % n]
            &&& forall|k: int| 0 <= k < c.len() - 1 ==> #[trigger] candidate_ids(ids, pick + 1)[k]
                == c[k + 1]
        }),
{
    let n: int = if ids.len() > 60 { 60 } else { ids.len() as int };
    let considered = if ids.len() > 60 { ids.take(60) } else { ids };
    let c = candidate_ids(ids, pick);
    assert forall|k: int| 0 <= k < c.len() implies #[trigger] c[k] == ids[(pick + k) % n] by {
        assert(0 <= (pick + k) % n < n);
        assert(considered[(pick + k) % n] == ids[(pick + k) % n]);
    }
    assert(c[0] == ids[(pick + 0int) % n]);
    assert forall|k: int| 0 <= k < c.len() - 1 implies #[trigger] candidate_ids(ids, pick + 1)[k]
        == c[k + 1] by {
        assert((pick + 1) + k == pick + (k + 1));
    }
}

/// The artwork object ids to try for a search result, in order.
pub fn artwork_candidates(ids: &Vec<i64>, pick: u64) -> (r: Vec<i64>)
    ensures
        r@ == candidate_ids(ids@, pick as nat),
        ids@.len() > 0 ==> r@.len() > 0,
        ids@.len() > 60 ==> r@[0] == ids@[(pick as int) % 60],
        0 < ids@.len() <= 60 ==> r@[0] == ids@[(pick as int) % (ids@.len() as int)],
{
    let n: usize = if ids.len() > MAX_SEARCH_RESULTS { MAX_SEARCH_RESULTS } else { ids.len() };
    let attempts: usize = if n < MAX_OBJECT_ATTEMPTS { n } else { MAX_OBJECT_ATTEMPTS };
    let mut out: Vec<i64> = Vec::new();
    if n == 0 {
        assert(out@ =~= candidate_ids(ids@, pick as nat));
        return out;
    }
    let start: u64 = pick % (n as u64);
    let mut k: usize = 0;
    while k < attempts
        invariant
            k <= attempts,
            attempts <= n,
            n <= ids.len(),
            n <= 60,
            n > 0,
            n == (if ids@.len() > 60 { 60 } else { ids@.len() }),
            attempts == (if n < 12 { n } else { 12 }),
            start == pick % (n as u64),
            forall|j: int| 0 <= j < k ==> #[trigger] out@[j] == ids@[((pick + j) % (n as int))],
            out@.len() == k,
        decreases attempts - k,
    {
        let idx = ((start as usize) + k) % n;
        proof {
            let pi = pick as int;
            let ni = n as int;
            let ki = k as int;
            vstd::arithmetic::div_mod::lemma_add_mod_noop_right(ki, pi, ni);
            assert((ki + pi) == (pi + ki));
        }
        out.push(ids[idx]);
        k = k + 1;
    }
    proof {
        let considered = if ids@.len() > 60 { ids@.take(60) } else { ids@ };
        assert forall|j: int| 0 <= j < attempts implies #[trigger] out@[j] == considered[((pick + j)
            % (n as int))] by {
            assert(0 <= (pick + j) % (n as int) < n);
        }
        assert(out@ =~= candidate_ids(ids@, pick as nat));
        law_artwork_rotates_daily(ids@, pick as nat);
    }
    out
}

/// Which cached background an offline run falls back to: entry
/// `pick mod count` of the sorted cache listing, none for an empty cache.
pub fn cached_pick(count: usize, pick: u64) -> (r: Option<usize>)
    ensures
        count == 0 ==> r is None,
        count > 0 ==> r == Some((pick % (count as u64)) as usize),
{
    if count == 0 {
        None
    } else {
        Some((pick % (count as u64)) as usize)
    }
}

/// `met_<id>.jpg`: the cache file of an artwork.
pub fn artwork_file_name(oid: i64) -> (s: String)
    ensures
        s@ == "met_"@ + decimal_int(oid as int) + ".jpg"@,
{
    let mut v = chars_of("met_");
    let d = dec_i64(oid);
    push_chars(&mut v, &d);
    push_str(&mut v, ".jpg");
    string_from_chars(&v)
}

/// `met_<id>.txt`: the credit sidecar of an artwork.
pub fn artwork_credit_file_name(oid: i64) -> (s: String)
    ensures
        s@ == "met_"@ + decimal_int(oid as int) + ".txt"@,
{
    let mut v = chars_of("met_");
    let d = dec_i64(oid);
    push_chars(&mut v, &d);
    push_str(&mut v, ".txt");
    string_from_chars(&v)
}

/// The object URL of an artwork: the template with `{}` replaced by the id.
pub fn object_url(template: &str, oid: i64) -> (s: String)
    ensures
        s@ == replace_all(template@, "{}"@, decimal_int(oid as int)),
{
    let t = chars_of(template);
    let p = chars_of("{}");
    proof {
        reveal_strlit("{}");
    }
    let d = dec_i64(oid);
    let r = replace(&t, &p, &d);
    string_from_chars(&r)
}

/// The credit line: title and artist, whichever are present, joined by an
/// em dash.
pub open spec fn credit_text(title: Option<Seq<char>>, artist: Option<Seq<char>>) -> Seq<char> {
    match (title, artist) {
        (Some(t), Some(a)) => t + " \u{2014} "@ + a,
        (Some(t), None) => t,
        (None, Some(a)) => a,
        (None, None) => Seq::empty(),
    }
}

/// Joins an artwork's title and artist into its credit line.
pub fn credit_line(title: Option<&str>, artist: Option<&str>) -> (s: String)
    ensures
        s@ == credit_text(
            match title {
                Some(t) => Some(t@),
                None => None,
            },
            match artist {
                Some(a) => Some(a@),
                None => None,
            },
        ),
{
    let mut v: Vec<char> = Vec::new();
    match (title, artist) {
        (Some(t), Some(a)) => {
            push_str(&mut v, t);
            push_str(&mut v, " \u{2014} ");
            push_str(&mut v, a);
        },
        (Some(t), None) => {
            push_str(&mut v, t);
        },
        (None, Some(a)) => {
            push_str(&mut v, a);
        },
        (None, None) => {},
    }
    string_from_chars(&v)
}

/// The failure of a search that found no artwork: `no artwork found for
/// '<query>'`.
pub fn no_artwork_error(query: &str) -> (e: WidgetError)
    ensures
        e == WidgetError::Data(e->Data_0) && e->Data_0@ == "no artwork found for '"@ + query@ + "'"@,
{
    let mut v = chars_of("no artwork found for '");
    push_str(&mut v, query);
    push_str(&mut v, "'");
    WidgetError::Data(string_from_chars(&v))
}

/// The failure when none of the tried objects has a public-domain image.
pub fn no_public_domain_error(query: &str) -> (e: WidgetError)
    ensures
        e == WidgetError::Data(e->Data_0) && e->Data_0@ == "no public-domain image among results for '"@
            + query@ + "'"@,
{
    let mut v = chars_of("no public-domain image among results for '");
    push_str(&mut v, query);
    push_str(&mut v, "'");
    WidgetError::Data(string_from_chars(&v))
}

/// The failure of an offline run with an empty artwork cache (`dir` is the
/// cache directory as displayed).
pub fn empty_cache_error(dir: &str) -> (e: WidgetError)
    ensures
        e == WidgetError::Data(e->Data_0) && e->Data_0@
            == "artwork API failed and no cached backgrounds available in "@ + dir@,
{
    let mut v = chars_of("artwork API failed and no cached backgrounds available in ");
    push_str(&mut v, dir);
    WidgetError::Data(string_from_chars(&v))
}

} // verus!
