//! Crypto price dashboard widget: symbol normalisation, the quote-suffix
//! split, thousands grouping, supported ranges, grid density and the
//! dashboard page around the cards.

use vstd::prelude::*;
use crate::text::{
    ascii_upper_char, ascii_upper_text, chars_of, dec_u64, decimal, ends_with, has_suffix,
    is_ascii_text, join_lines, lemma_trimmed_ends, lemma_trimmed_unchanged, push_chars, push_str,
    string_from_chars, to_uppercase, trim, trimmed, upper_text,
};
use crate::encoding::{data_uri, data_uri_text};
use crate::text::{lower_case, to_lowercase};
use super::template::{render, leftover_token, replace, replace_all, substitute, TemplateError};
use super::WidgetError;

verus! {

/// Binance hosts, tried in order.
pub const DEFAULT_HOSTS: [&'static str; 3] = [
    "https://api.binance.com",
    "https://api1.binance.com",
    "https://api2.binance.com",
];

/// Icon CDN; `{}` is replaced with the lower-cased base symbol.
pub const DEFAULT_ICON_CDN: &'static str =
    "https://raw.githubusercontent.com/spothq/cryptocurrency-icons/master/128/color/{}.png";

/// Accent colour of a rising market.
pub const UP_COLOR: &'static str = "#009e3c";
/// Accent colour of a falling market.
pub const DOWN_COLOR: &'static str = "#e11900";

/// The quote suffixes, in the order they are tried.
pub open spec fn quote_suffix(i: int) -> Seq<char> {
    if i == 0 { "USDT"@ } else if i == 1 { "USDC"@ } else if i == 2 { "FDUSD"@ } else { "TUSD"@ }
}

fn quote_suffix_exec(i: usize) -> (s: &'static str)
    requires
        i < 4,
    ensures
        s@ == quote_suffix(i as int),
{
    if i == 0 { "USDT" } else if i == 1 { "USDC" } else if i == 2 { "FDUSD" } else { "TUSD" }
}

/// Index of the first quote suffix that `s` ends with.
pub open spec fn first_quote_suffix(s: Seq<char>) -> Option<int> {
    if has_suffix(s, quote_suffix(0)) {
        Some(0int)
    } else if has_suffix(s, quote_suffix(1)) {
        Some(1int)
    } else if has_suffix(s, quote_suffix(2)) {
        Some(2int)
    } else if has_suffix(s, quote_suffix(3)) {
        Some(3int)
    } else {
        None
    }
}

fn find_quote_suffix(s: &Vec<char>) -> (r: Option<usize>)
    ensures
        r matches Some(i) ==> first_quote_suffix(s@) == Some(i as int),
        r is None ==> first_quote_suffix(s@) is None,
{
    let mut i: usize = 0;
    while i < 4
        invariant
            i <= 4,
            forall|j: int| 0 <= j < i ==> !has_suffix(s@, quote_suffix(j)),
        decreases 4 - i,
    {
        let q = chars_of(quote_suffix_exec(i));
        if ends_with(s, &q) {
            return Some(i);
        }
        i = i + 1;
    }
    None
}

/// The normalised trading symbol: trimmed, upper-cased, with `USDT` appended
/// unless it already ends with a quote suffix.
pub open spec fn normalized_symbol(sym: Seq<char>) -> Seq<char> {
    let u = upper_text(trimmed(sym));
    if first_quote_suffix(u) is Some {
        u
    } else {
        u + "USDT"@
    }
}

/// `btc` -> `BTCUSDT`, ` eth ` -> `ETHUSDT`, `solusdc` -> `SOLUSDC`: bare
/// tickers get `USDT` appended, symbols with a quote suffix stay as they
/// are.
pub fn normalize_symbol(sym: &str) -> (r: String)
    ensures
        r@ == normalized_symbol(sym@),
{
    let v = chars_of(sym);
    let t = trim(&v);
    let ts = string_from_chars(&t);
    let up = to_uppercase(ts.as_str());
    let mut u = chars_of(up.as_str());
    match find_quote_suffix(&u) {
        Some(_) => string_from_chars(&u),
        None => {
            push_str(&mut u, "USDT");
            string_from_chars(&u)
        },
    }
}

/// The (base, quote) split of a normalised symbol: at the first quote
/// suffix it ends with, else the whole symbol and an empty quote.
pub open spec fn split_text(symbol: Seq<char>) -> (Seq<char>, Seq<char>) {
    match first_quote_suffix(symbol) {
        Some(i) => (symbol.take(symbol.len() - quote_suffix(i).len()), quote_suffix(i)),
        None => (symbol, Seq::empty()),
    }
}

/// Splits a normalised symbol into base and quote, e.g. `BTCUSDT` ->
/// (`BTC`, `USDT`).
pub fn split_symbol(symbol: &str) -> (r: (String, String))
    ensures
        r.0@ == split_text(symbol@).0,
        r.1@ == split_text(symbol@).1,
{
    let s = chars_of(symbol);
    match find_quote_suffix(&s) {
        Some(i) => {
            let q = quote_suffix_exec(i);
            let ql = chars_of(q);
            let n = s.len() - ql.len();
            let mut base: Vec<char> = Vec::new();
            let mut k: usize = 0;
            while k < n
                invariant
                    k <= n,
                    n <= s.len(),
                    base@ == s@.take(k as int),
                decreases n - k,
            {
                base.push(s[k]);
                assert(s@.take(k + 1) == s@.take(k as int).push(s@[k as int]));
                k = k + 1;
            }
            (string_from_chars(&base), string_from_chars(&ql))
        },
        None => {
            let e: Vec<char> = Vec::new();
            (string_from_chars(&s), string_from_chars(&e))
        },
    }
}

/// The first `k` characters of `s` with a `,` before every character that
/// has a positive multiple of three characters after it in `s`.
pub open spec fn grouped_prefix(s: Seq<char>, k: nat) -> Seq<char>
    decreases k,
{
    if k == 0 {
        Seq::empty()
    } else {
        let i = (k - 1) as int;
        let sep: Seq<char> = if i > 0 && (s.len() - i) % 3 == 0 { seq![','] } else { Seq::empty() };
        grouped_prefix(s, (k - 1) as nat) + sep + seq![s[i]]
    }
}

/// `s` with thousands separators: `1234567` -> `1,234,567`.
pub open spec fn grouped(s: Seq<char>) -> Seq<char> {
    grouped_prefix(s, s.len())
}

/// Inserts a `,` thousands separator every three digits from the right.
pub fn group_thousands(int_part: &str) -> (r: String)
    ensures
        r@ == grouped(int_part@),
{
    let s = chars_of(int_part);
    let len = s.len();
    let mut out: Vec<char> = Vec::new();
    let mut i: usize = 0;
    while i < len
        invariant
            i <= len,
            len == s@.len(),
            s@ == int_part@,
            out@ == grouped_prefix(s@, i as nat),
        decreases len - i,
    {
        if i > 0 && (len - i) % 3 == 0 {
            out.push(',');
        }
        out.push(s[i]);
        i = i + 1;
    }
    string_from_chars(&out)
}

/// What a crypto fetch asks the exchange for: refused when no symbol is
/// given, else the kline interval and count of the range.
pub fn crypto_request(symbols: &Vec<String>, range: &str) -> (r: Result<
    (&'static str, u32),
    WidgetError,
>)
    ensures
        symbols.len() == 0 ==> (r matches Err(WidgetError::Data(m)) && m@
            == "no symbols given"@),
        symbols.len() > 0 ==> (range_spec(range@) matches Some((iv, n)) ==> (r matches Ok((a, b))
            && a@ == iv && b == n)),
        symbols.len() > 0 && range_spec(range@) is None ==> (r matches Err(WidgetError::Data(m))
            && m@ == "unsupported crypto range: "@ + range@),
{
    if symbols.len() == 0 {
        let m = chars_of("no symbols given");
        return Err(WidgetError::Data(string_from_chars(&m)));
    }
    range_params(range)
}

/// Kline interval and count of each supported range.
pub open spec fn range_spec(range: Seq<char>) -> Option<(Seq<char>, u32)> {
    if range == "24h"@ {
        Some(("1h"@, 24u32))
    } else if range == "7d"@ {
        Some(("4h"@, 42u32))
    } else if range == "30d"@ {
        Some(("1d"@, 30u32))
    } else {
        None
    }
}

/// `(interval, limit)` of each supported range: `24h` -> 24 hourly klines,
/// `7d` -> 42 four-hourly, `30d` -> 30 daily; any other range is an error.
pub fn range_params(range: &str) -> (r: Result<(&'static str, u32), WidgetError>)
    ensures
        range_spec(range@) matches Some((iv, n)) ==> (r matches Ok((a, b)) && a@ == iv && b == n),
        range_spec(range@) is None ==> (r matches Err(WidgetError::Data(m)) && m@
            == "unsupported crypto range: "@ + range@),
{
    if crate::text::str_eq(range, "24h") {
        Ok(("1h", 24))
    } else if crate::text::str_eq(range, "7d") {
        Ok(("4h", 42))
    } else if crate::text::str_eq(range, "30d") {
        Ok(("1d", 30))
    } else {
        let mut m = chars_of("unsupported crypto range: ");
        push_str(&mut m, range);
        Err(WidgetError::Data(string_from_chars(&m)))
    }
}

/// The lettered-circle icon markup: the first character of the base symbol,
/// or `?` for an empty one.
pub open spec fn fallback_icon_html(base: Seq<char>) -> Seq<char> {
    "<div class=\"icon fallback\">"@ + (if base.len() > 0 { seq![base[0]] } else { seq!['?'] })
        + "</div>"@
}

/// Lettered-circle fallback markup for a coin without an icon.
pub fn icon_fallback_html(base: &str) -> (r: String)
    ensures
        r@ == fallback_icon_html(base@),
{
    let b = chars_of(base);
    let mut out = chars_of("<div class=\"icon fallback\">");
    if b.len() > 0 {
        out.push(b[0]);
    } else {
        out.push('?');
    }
    push_str(&mut out, "</div>");
    string_from_chars(&out)
}

/// Grid density: up to three cards stack in one line (1 column portrait, n
/// landscape); beyond that they wrap into two rows (2 columns portrait,
/// ceil(n/2) landscape).
pub fn grid_columns(n: usize) -> (r: (usize, usize))
    ensures
        n <= 3 ==> r == (1usize, n),
        n > 3 ==> r == (2usize, ((n + 1) / 2) as usize),
{
    if n <= 3 {
        (1, n)
    } else {
        (2, n / 2 + n % 2)
    }
}

/// The user-facing widget configuration, without the icon cache location
/// (a file-system path the caller owns).
#[derive(Debug, Clone, PartialEq)]
pub struct CryptoConfig {
    /// Raw symbols as typed, e.g. `["BTC", "ETH", "SOLUSDC"]`.
    pub symbols: Vec<String>,
    /// One of `24h`, `7d`, `30d`.
    pub range: String,
}

/// The placeholder values of the dashboard page.
pub open spec fn dashboard_values(
    cards: Seq<Seq<char>>,
    range: Seq<char>,
    updated_at: Seq<char>,
) -> Seq<(Seq<char>, Seq<char>)> {
    let n = cards.len();
    let cp: nat = if n <= 3 { 1 } else { 2 };
    let cl: nat = if n <= 3 { n } else { ((n + 1) / 2) as nat };
    seq![
        ("CARDS"@, join_lines(cards)),
        ("COLS_PORTRAIT"@, decimal(cp)),
        ("COLS_LANDSCAPE"@, decimal(cl)),
        ("RANGE_LABEL"@, upper_text(range)),
        ("UPDATED_AT"@, updated_at),
    ]
}

/// The dashboard page around already-built cards (one per market, with its
/// icon, price and sparkline): fails with "no symbols given" for no cards,
/// and when the icon count does not match the card count; otherwise renders
/// the template with the cards, the grid columns, the upper-cased range and
/// the "updated at" stamp.
pub fn render_html(
    template_html: &str,
    config: &CryptoConfig,
    cards: &Vec<String>,
    icon_count: usize,
    updated_at: &str,
) -> (r: Result<String, WidgetError>)
    ensures
        cards@.len() == 0 ==> (r matches Err(WidgetError::Data(m)) && m@ == "no symbols given"@),
        cards@.len() > 0 && icon_count != cards@.len() ==> (r matches Err(WidgetError::Data(m))
            && m@ == "icons and markets must have the same length"@),
        cards@.len() > 0 && icon_count == cards@.len() ==> ({
            let out = substitute(
                template_html@,
                dashboard_values(
                    cards@.map_values(|c: String| c@),
                    config.range@,
                    updated_at@,
                ),
            );
            match r {
                Ok(s) => s@ == out && leftover_token(out) is None,
                Err(WidgetError::Template(TemplateError::UnresolvedPlaceholder(t))) =>
                    leftover_token(out) == Some(t@),
                _ => false,
            }
        }),
{
    if cards.len() == 0 {
        let m = chars_of("no symbols given");
        return Err(WidgetError::Data(string_from_chars(&m)));
    }
    if icon_count != cards.len() {
        let m = chars_of("icons and markets must have the same length");
        return Err(WidgetError::Data(string_from_chars(&m)));
    }
    let n = cards.len();
    let (cp, cl) = grid_columns(n);
    let ghost cs = cards@.map_values(|c: String| c@);
    let cards_s = crate::text::join_with_newlines(cards);
    let cp_s = string_from_chars(&dec_u64(cp as u64));
    let cl_s = string_from_chars(&dec_u64(cl as u64));
    let range_label = to_uppercase(config.range.as_str());
    let values = [
        ("CARDS", cards_s.as_str()),
        ("COLS_PORTRAIT", cp_s.as_str()),
        ("COLS_LANDSCAPE", cl_s.as_str()),
        ("RANGE_LABEL", range_label.as_str()),
        ("UPDATED_AT", updated_at),
    ];
    let r = render(template_html, values.as_slice());
    proof {
        assert(values@.map_values(|kv: (&str, &str)| (kv.0@, kv.1@)) =~= dashboard_values(
            cs,
            config.range@,
            updated_at@,
        ));
    }
    match r {
        Ok(s) => Ok(s),
        Err(e) => Err(WidgetError::Template(e)),
    }
}

/// An icon fetched from the CDN, embedded as a PNG `data:` URI.
pub fn icon_embed_html(bytes: &[u8]) -> (r: String)
    ensures
        r@ == "<img class=\"icon\" src=\""@ + data_uri_text("image/png"@, bytes@) + "\">"@,
{
    let mut v = chars_of("<img class=\"icon\" src=\"");
    push_str(&mut v, data_uri("image/png", bytes).as_str());
    push_str(&mut v, "\">");
    string_from_chars(&v)
}

/// The cache file of a coin's icon: `<lower-cased base>.png`.
pub fn icon_cache_file_name(base: &str) -> (r: String)
    ensures
        r@ == lower_case(base@) + ".png"@,
{
    let mut v = chars_of(to_lowercase(base).as_str());
    push_str(&mut v, ".png");
    string_from_chars(&v)
}

/// The CDN address of a coin's icon: every `{}` of the CDN template replaced
/// with the lower-cased base symbol.
pub fn icon_url(icon_cdn: &str, base: &str) -> (r: String)
    ensures
        r@ == replace_all(icon_cdn@, "{}"@, lower_case(base@)),
{
    let pat = chars_of("{}");
    proof {
        reveal_strlit("{}");
    }
    let rep = chars_of(to_lowercase(base).as_str());
    string_from_chars(&replace(&chars_of(icon_cdn), &pat, &rep))
}

/// Splitting a symbol loses nothing: base and quote put back together give
/// the symbol again.
pub proof fn law_split_rejoins(symbol: Seq<char>)
    ensures
        split_text(symbol).0 + split_text(symbol).1 == symbol,
{
    match first_quote_suffix(symbol) {
        Some(i) => {
            let q = quote_suffix(i);
            assert(has_suffix(symbol, q));
            assert(symbol.take(symbol.len() - q.len()) + q =~= symbol);
        },
        None => {
            assert(symbol + Seq::<char>::empty() =~= symbol);
        },
    }
}

/// A normalised symbol always names its quote asset: its split has a
/// non-empty quote.
pub proof fn law_normalized_symbol_has_quote(sym: Seq<char>)
    ensures
        first_quote_suffix(normalized_symbol(sym)) is Some,
        split_text(normalized_symbol(sym)).1.len() > 0,
{
    reveal_strlit("USDT");
    reveal_strlit("USDC");
    reveal_strlit("FDUSD");
    reveal_strlit("TUSD");
    let u = upper_text(trimmed(sym));
    if first_quote_suffix(u) is None {
        let n = u + "USDT"@;
        assert(n.subrange(n.len() - 4, n.len() as int) =~= "USDT"@);
        assert(has_suffix(n, quote_suffix(0)));
    }
}

/// Normalising is idempotent on ASCII input: a normalised symbol normalises
/// to itself.
pub proof fn law_normalize_symbol_is_idempotent(sym: Seq<char>)
    requires
        is_ascii_text(sym),
    ensures
        normalized_symbol(normalized_symbol(sym)) == normalized_symbol(sym),
{
    reveal_strlit("USDT");
    let t = trimmed(sym);
    lemma_trimmed_ends(sym);
    let u = upper_text(t);
    assert(u == ascii_upper_text(t));
    let r = normalized_symbol(sym);
    law_normalized_symbol_has_quote(sym);
    // every character of `r` is ASCII, upper-case-stable, and whitespace
    // appears at neither end
    assert forall|i: int| 0 <= i < r.len() implies (#[trigger] r[i] as u32) < 0x80
        && ascii_upper_char(r[i]) == r[i] by {
        if i < u.len() {
            assert(r[i] == ascii_upper_char(t[i]));
        } else {
            assert(r[i] == "USDT"@[i - u.len()]);
        }
    }
    if r.len() > 0 {
        if u.len() > 0 {
            assert(r[0] == ascii_upper_char(t[0]));
        }
        if r.len() == u.len() {
            assert(r.last() == ascii_upper_char(t.last()));
        } else {
            assert(r.last() == 'T');
        }
    }
    lemma_trimmed_unchanged(r);
    assert(ascii_upper_text(r) =~= r);
}

/// Grouping a prefix only looks at where each character stands from the
/// end, counted modulo three.
proof fn lemma_grouped_prefix_shift(s: Seq<char>, t: Seq<char>, k: nat)
    requires
        k <= t.len(),
        t.len() <= s.len(),
        (s.len() - t.len()) % 3 == 0,
        forall|i: int| 0 <= i < k ==> s[i] == t[i],
    ensures
        grouped_prefix(s, k) == grouped_prefix(t, k),
    decreases k,
{
    if k > 0 {
        lemma_grouped_prefix_shift(s, t, (k - 1) as nat);
        let i = (k - 1) as int;
        assert((s.len() - i) % 3 == (t.len() - i) % 3) by {
            vstd::arithmetic::div_mod::lemma_mod_add_multiples_vanish(
                (t.len() - i) as int,
                3,
            );
            assert(s.len() - i == (t.len() - i) + 3 * ((s.len() - t.len()) / 3));
            vstd::arithmetic::div_mod::lemma_mod_multiples_vanish(
                (s.len() - t.len()) / 3,
                t.len() - i,
                3,
            );
        }
    }
}

proof fn lemma_grouped_prefix_short(s: Seq<char>, k: nat)
    requires
        k <= s.len() <= 3,
    ensures
        grouped_prefix(s, k) == s.take(k as int),
    decreases k,
{
    if k > 0 {
        lemma_grouped_prefix_short(s, (k - 1) as nat);
        assert(s.take((k - 1) as int).push(s[k - 1]) =~= s.take(k as int));
    }
}

/// Thousands grouping counts from the right: a run of at most three
/// characters stays as it is, and a longer one is its part before the last
/// three characters, grouped, then a comma, then those three. So the
/// grouped text has one comma per full group of three beyond the first
/// character.
pub proof fn law_grouping_counts_from_the_right(s: Seq<char>)
    ensures
        s.len() <= 3 ==> grouped(s) == s,
        s.len() > 3 ==> grouped(s) == grouped(s.take(s.len() - 3)) + seq![','] + s.skip(
            s.len() - 3,
        ),
        s.len() > 0 ==> grouped(s).len() == s.len() + (s.len() - 1) / 3,
    decreases s.len(),
{
    let l = s.len() as int;
    if l <= 3 {
        lemma_grouped_prefix_short(s, s.len());
        assert(s.take(l) =~= s);
    } else {
        let t = s.take(l - 3);
        lemma_grouped_prefix_shift(s, t, t.len());
        let g = grouped_prefix(s, (l - 3) as nat);
        assert(grouped_prefix(s, (l - 2) as nat) == g + seq![','] + seq![s[l - 3]]);
        assert(grouped_prefix(s, (l - 1) as nat) == g + seq![','] + seq![s[l - 3]] + Seq::<char>::empty() + seq![s[l - 2]]);
        assert(grouped_prefix(s, l as nat) == g + seq![','] + seq![s[l - 3]] + Seq::<char>::empty() + seq![s[l - 2]] + Seq::<char>::empty() + seq![s[l - 1]]);
        assert(grouped(s) =~= grouped(t) + seq![','] + s.skip(l - 3));
        law_grouping_counts_from_the_right(t);
        assert((l - 1) / 3 == (l - 4) / 3 + 1);
    }
}

/// Not a comma.
pub open spec fn not_comma(c: char) -> bool {
    c != ','
}

proof fn lemma_grouped_prefix_digits(s: Seq<char>, k: nat)
    requires
        k <= s.len(),
        forall|i: int| 0 <= i < s.len() ==> s[i] != ',',
    ensures
        grouped_prefix(s, k).filter(|c: char| not_comma(c)) == s.take(k as int),
    decreases k,
{
    broadcast use vstd::seq_lib::group_filter_ensures;
    let f = |c: char| not_comma(c);
    if k == 0 {
        reveal(Seq::filter);
        assert(s.take(0) =~= Seq::<char>::empty());
    } else {
        let i = (k - 1) as int;
        lemma_grouped_prefix_digits(s, (k - 1) as nat);
        let sep: Seq<char> = if i > 0 && (s.len() - i) % 3 == 0 { seq![','] } else { Seq::empty() };
        let head = grouped_prefix(s, (k - 1) as nat);
        Seq::filter_distributes_over_add(head + sep, seq![s[i]], f);
        Seq::filter_distributes_over_add(head, sep, f);
        reveal(Seq::filter);
        assert(sep.filter(f) =~= Seq::<char>::empty()) by {
            reveal_with_fuel(Seq::filter, 2);
        }
        assert(seq![s[i]].filter(f) =~= seq![s[i]]) by {
            reveal_with_fuel(Seq::filter, 2);
            assert(seq![s[i]].drop_last() =~= Seq::<char>::empty());
        }
        assert(s.take(i) + seq![s[i]] =~= s.take(k as int));
    }
}

/// Grouping only inserts separators: without its commas, a grouped run of
/// digits is the run itself.
pub proof fn law_grouping_only_adds_separators(s: Seq<char>)
    requires
        forall|i: int| 0 <= i < s.len() ==> s[i] != ',',
    ensures
        grouped(s).filter(|c: char| not_comma(c)) == s,
{
    lemma_grouped_prefix_digits(s, s.len());
    assert(s.take(s.len() as int) =~= s);
}

} // verus!
