//! Today's-weather widget: WMO code table, condition themes, the `force_icon`
//! override, the five-slot outlook strip anchored at the current hour and the
//! page around it. Temperatures and probabilities arrive already rounded to
//! whole numbers.

use vstd::prelude::*;
use vstd::utf8::{encode_utf8, is_char_boundary};
use crate::datetime::{
    chrono_formatted, chrono_parse_error, chrono_parsed, format_datetime, parse_datetime,
    LocalDateTime, valid_datetime,
};
use crate::text::{
    chars_of, debug_quoted, debug_str, decimal, decimal_int, dec_i64, dec_u64, join_lines,
    join_with_newlines, lower_case, push_chars, push_str, str_eq, string_from_chars,
    to_lowercase, lemma_decimal_int_has_no_brace,
};
use super::template::{
    is_key, lemma_substitute_lone_placeholder, leftover_token, placeholder, render, substitute,
    TemplateError,
};
use super::WidgetError;

verus! {

/// The forecast API.
pub const DEFAULT_API_URL: &'static str = "https://api.open-meteo.com/v1/forecast";

/// Hours between two slots of the outlook strip.
pub const FORECAST_STEP_HOURS: usize = 2;

/// The display label and condition group of a WMO weather code.
pub open spec fn wmo_entry(code: i64) -> (Seq<char>, Seq<char>) {
    if code == 0 { ("Clear Sky"@, "clear"@) }
    else if code == 1 { ("Mainly Clear"@, "clear"@) }
    else if code == 2 { ("Partly Cloudy"@, "partly"@) }
    else if code == 3 { ("Overcast"@, "overcast"@) }
    else if code == 45 { ("Fog"@, "fog"@) }
    else if code == 48 { ("Rime Fog"@, "fog"@) }
    else if code == 51 { ("Light Drizzle"@, "drizzle"@) }
    else if code == 53 { ("Drizzle"@, "drizzle"@) }
    else if code == 55 { ("Heavy Drizzle"@, "drizzle"@) }
    else if code == 56 || code == 57 { ("Freezing Drizzle"@, "drizzle"@) }
    else if code == 61 { ("Light Rain"@, "rain"@) }
    else if code == 63 { ("Rain"@, "rain"@) }
    else if code == 65 { ("Heavy Rain"@, "rain"@) }
    else if code == 66 || code == 67 { ("Freezing Rain"@, "rain"@) }
    else if code == 71 { ("Light Snow"@, "snow"@) }
    else if code == 73 { ("Snow"@, "snow"@) }
    else if code == 75 { ("Heavy Snow"@, "snow"@) }
    else if code == 77 { ("Snow Grains"@, "snow"@) }
    else if code == 80 { ("Light Showers"@, "rain"@) }
    else if code == 81 { ("Rain Showers"@, "rain"@) }
    else if code == 82 { ("Heavy Showers"@, "rain"@) }
    else if code == 85 || code == 86 { ("Snow Showers"@, "snow"@) }
    else if code == 95 || code == 96 || code == 99 { ("Thunderstorm"@, "thunder"@) }
    else { ("Unknown"@, "overcast"@) }
}

/// WMO weather code -> (display label, condition group).
pub fn wmo_lookup(code: i64) -> (r: (&'static str, &'static str))
    ensures
        r.0@ == wmo_entry(code).0,
        r.1@ == wmo_entry(code).1,
{
    if code == 0 { ("Clear Sky", "clear") }
    else if code == 1 { ("Mainly Clear", "clear") }
    else if code == 2 { ("Partly Cloudy", "partly") }
    else if code == 3 { ("Overcast", "overcast") }
    else if code == 45 { ("Fog", "fog") }
    else if code == 48 { ("Rime Fog", "fog") }
    else if code == 51 { ("Light Drizzle", "drizzle") }
    else if code == 53 { ("Drizzle", "drizzle") }
    else if code == 55 { ("Heavy Drizzle", "drizzle") }
    else if code == 56 || code == 57 { ("Freezing Drizzle", "drizzle") }
    else if code == 61 { ("Light Rain", "rain") }
    else if code == 63 { ("Rain", "rain") }
    else if code == 65 { ("Heavy Rain", "rain") }
    else if code == 66 || code == 67 { ("Freezing Rain", "rain") }
    else if code == 71 { ("Light Snow", "snow") }
    else if code == 73 { ("Snow", "snow") }
    else if code == 75 { ("Heavy Snow", "snow") }
    else if code == 77 { ("Snow Grains", "snow") }
    else if code == 80 { ("Light Showers", "rain") }
    else if code == 81 { ("Rain Showers", "rain") }
    else if code == 82 { ("Heavy Showers", "rain") }
    else if code == 85 || code == 86 { ("Snow Showers", "snow") }
    else if code == 95 || code == 96 || code == 99 { ("Thunderstorm", "thunder") }
    else { ("Unknown", "overcast") }
}

/// Background theme of a condition group; the theme follows the condition,
/// never the clock.
pub open spec fn theme_of(icon: Seq<char>) -> Seq<char> {
    if icon == "clear"@ { "clear"@ }
    else if icon == "partly"@ || icon == "overcast"@ { "cloudy"@ }
    else if icon == "drizzle"@ || icon == "rain"@ { "rain"@ }
    else if icon == "snow"@ { "snow"@ }
    else if icon == "thunder"@ { "thunder"@ }
    else if icon == "fog"@ { "fog"@ }
    else { "cloudy"@ }
}

/// Condition group -> background gradient theme class.
pub fn pick_theme(icon: &str) -> (t: &'static str)
    ensures
        t@ == theme_of(icon@),
{
    if str_eq(icon, "clear") { "clear" }
    else if str_eq(icon, "partly") || str_eq(icon, "overcast") { "cloudy" }
    else if str_eq(icon, "drizzle") || str_eq(icon, "rain") { "rain" }
    else if str_eq(icon, "snow") { "snow" }
    else if str_eq(icon, "thunder") { "thunder" }
    else if str_eq(icon, "fog") { "fog" }
    else { "cloudy" }
}

/// The valid `force_icon` groups, in order.
pub open spec fn icon_group(i: int) -> Seq<char> {
    if i == 0 { "clear"@ } else if i == 1 { "partly"@ } else if i == 2 { "overcast"@ }
    else if i == 3 { "fog"@ } else if i == 4 { "drizzle"@ } else if i == 5 { "rain"@ }
    else if i == 6 { "snow"@ } else { "thunder"@ }
}

fn icon_group_exec(i: usize) -> (s: &'static str)
    requires
        i < 8,
    ensures
        s@ == icon_group(i as int),
{
    if i == 0 { "clear" } else if i == 1 { "partly" } else if i == 2 { "overcast" }
    else if i == 3 { "fog" } else if i == 4 { "drizzle" } else if i == 5 { "rain" }
    else if i == 6 { "snow" } else { "thunder" }
}

/// Whether `s` is one of the eight condition groups.
pub open spec fn is_icon_group(s: Seq<char>) -> bool {
    exists|i: int| 0 <= i < 8 && icon_group(i) == s
}

/// The group named `s`, if `s` is one of [`is_icon_group`]'s groups.
pub fn find_icon_group(s: &str) -> (r: Option<&'static str>)
    ensures
        is_icon_group(s@) <==> r is Some,
        r matches Some(g) ==> g@ == s@,
{
    let mut i: usize = 0;
    while i < 8
        invariant
            i <= 8,
            forall|j: int| 0 <= j < i ==> icon_group(j) != s@,
        decreases 8 - i,
    {
        let g = icon_group_exec(i);
        if str_eq(g, s) {
            return Some(g);
        }
        i = i + 1;
    }
    None
}

/// `12 AM`, `1 AM`, ..., `12 PM`, ..., `11 PM` for hours 0-23.
pub open spec fn hour12_text(h: u32) -> Seq<char> {
    let h12: nat = if h % 12 == 0 { 12 } else { (h % 12) as nat };
    decimal(h12) + (if h < 12 { " AM"@ } else { " PM"@ })
}

fn hour12_label(h: u32) -> (r: Vec<char>)
    ensures
        r@ == hour12_text(h),
{
    let h12: u64 = if h % 12 == 0 { 12 } else { (h % 12) as u64 };
    let mut v = dec_u64(h12);
    if h < 12 {
        push_str(&mut v, " AM");
    } else {
        push_str(&mut v, " PM");
    }
    v
}

/// The format of the forecast's local timestamps.
pub open spec fn api_time_format() -> Seq<char> {
    "%Y-%m-%dT%H:%M"@
}

/// The message of a timestamp that does not parse.
pub open spec fn bad_timestamp_message(t: Seq<char>) -> Seq<char> {
    "bad Open-Meteo timestamp "@ + debug_quoted(t) + ": "@ + chrono_parse_error(t, api_time_format())
}

/// The hour label of a forecast timestamp, or the message of its parse
/// failure.
pub open spec fn hour_label_of(t: Seq<char>) -> Result<Seq<char>, Seq<char>> {
    match chrono_parsed(t, api_time_format()) {
        Some(p) => Ok(hour12_text(p.3)),
        None => Err(bad_timestamp_message(t)),
    }
}

fn parse_api_time(iso_time: &str) -> (r: Result<LocalDateTime, WidgetError>)
    ensures
        r matches Ok(t) ==> chrono_parsed(iso_time@, api_time_format()) == Some(
            (t.date.year, t.date.month, t.date.day, t.hour, t.minute, t.second),
        ) && valid_datetime(t),
        r matches Err(e) ==> chrono_parsed(iso_time@, api_time_format()) is None && e
            == WidgetError::Data(e->Data_0) && e->Data_0@ == bad_timestamp_message(iso_time@),
{
    match parse_datetime(iso_time, "%Y-%m-%dT%H:%M") {
        Ok(t) => Ok(t),
        Err(msg) => {
            let mut m = chars_of("bad Open-Meteo timestamp ");
            let q = debug_str(iso_time);
            push_str(&mut m, q.as_str());
            push_str(&mut m, ": ");
            push_str(&mut m, msg.as_str());
            Err(WidgetError::Data(string_from_chars(&m)))
        },
    }
}

/// `"9 AM"`-style label of an API timestamp.
pub fn hour_label(iso_time: &str) -> (r: Result<String, WidgetError>)
    ensures
        hour_label_of(iso_time@) matches Ok(l) ==> (r matches Ok(s) && s@ == l),
        hour_label_of(iso_time@) matches Err(m) ==> (r matches Err(WidgetError::Data(e)) && e@
            == m),
{
    match parse_api_time(iso_time) {
        Ok(t) => {
            let v = hour12_label(t.hour);
            Ok(string_from_chars(&v))
        },
        Err(e) => Err(e),
    }
}

/// The hourly series, with temperatures and precipitation probabilities
/// rounded to whole numbers.
#[derive(Debug, Clone, PartialEq)]
pub struct HourlySlots {
    pub time: Vec<String>,
    pub temperature: Vec<i64>,
    pub precipitation_probability: Vec<Option<i64>>,
    pub weather_code: Vec<i64>,
}

/// The current conditions, rounded to whole numbers.
#[derive(Debug, Clone, PartialEq)]
pub struct CurrentConditions {
    /// Local time of the reading, `YYYY-MM-DDTHH:MM`.
    pub time: String,
    pub temperature: i64,
    pub apparent_temperature: i64,
    pub relative_humidity: i64,
    pub weather_code: i64,
}

/// The markup of one slot of the outlook strip.
pub open spec fn cell_html(label: Seq<char>, icon: Seq<char>, temp: i64, pop: Option<i64>) -> Seq<
    char,
> {
    "<div class=\"cell\"><div class=\"cell-time\">"@ + label
        + "</div><svg class=\"cell-icon\" viewBox=\"0 0 100 100\"><use href=\"#i-"@ + icon
        + "\"/></svg><div class=\"cell-temp\">"@ + decimal_int(temp as int)
        + "&deg;</div><div class=\"cell-pop\">"@ + (match pop {
        Some(p) => decimal_int(p as int) + "%"@,
        None => seq!['\u{2013}'],
    }) + "</div></div>"@
}

/// The first `k` slots of the strip anchored at `now_idx`, or the message of
/// the first failure.
pub open spec fn cells_upto(h: HourlySlots, now_idx: int, k: nat) -> Result<Seq<Seq<char>>, Seq<char>>
    decreases k,
{
    if k == 0 {
        Ok(Seq::empty())
    } else {
        match cells_upto(h, now_idx, (k - 1) as nat) {
            Err(e) => Err(e),
            Ok(cs) => {
                let step = k - 1;
                let i = now_idx + step * 2;
                if i >= h.time@.len() {
                    Err("hourly forecast too short for slot +"@ + decimal((step * 2) as nat) + "h"@)
                } else {
                    let label = if step == 0 { Ok("Now"@) } else { hour_label_of(h.time@[i]@) };
                    match label {
                        Err(e) => Err(e),
                        Ok(l) => Ok(cs.push(cell_html(
                            l,
                            wmo_entry(h.weather_code@[i]).1,
                            h.temperature@[i],
                            h.precipitation_probability@[i],
                        ))),
                    }
                }
            },
        }
    }
}

/// The outlook strip: five slots two hours apart from the current hour
/// (the first labelled `Now`), joined by newlines.
pub open spec fn forecast_cells(h: HourlySlots, now_idx: int) -> Result<Seq<char>, Seq<char>> {
    match cells_upto(h, now_idx, 5) {
        Ok(cs) => Ok(join_lines(cs)),
        Err(e) => Err(e),
    }
}

/// Slot `s` of the strip reads only readings that exist: once the strip
/// got that far and the slot has a timestamp, its condition code and
/// precipitation reading exist, and so does its temperature once its label
/// is made.
pub open spec fn slot_in_bounds(h: HourlySlots, now_idx: int, s: nat) -> bool {
    let i = now_idx + s * 2;
    (cells_upto(h, now_idx, s) is Ok && i < h.time@.len()) ==> {
        &&& i < h.weather_code@.len()
        &&& i < h.precipitation_probability@.len()
        &&& (s == 0 || hour_label_of(h.time@[i]@) is Ok) ==> i < h.temperature@.len()
    }
}

/// Every slot of the strip anchored at `now_idx` reads only readings that
/// exist.
pub open spec fn cells_in_bounds(h: HourlySlots, now_idx: int) -> bool {
    forall|s: nat| s < 5 ==> #[trigger] slot_in_bounds(h, now_idx, s)
}

proof fn lemma_cells_err_persists(h: HourlySlots, now_idx: int, k: nat, k2: nat)
    requires
        k <= k2,
        cells_upto(h, now_idx, k) is Err,
    ensures
        cells_upto(h, now_idx, k2) == cells_upto(h, now_idx, k),
    decreases k2 - k,
{
    if k < k2 {
        lemma_cells_err_persists(h, now_idx, k, (k2 - 1) as nat);
    }
}

proof fn lemma_icon_group_nonempty(s: Seq<char>)
    requires
        is_icon_group(s),
    ensures
        s.len() > 0,
        forall|k: int| 0 <= k < s.len() ==> 'a' <= #[trigger] s[k] <= 'z',
{
    reveal_strlit("clear");
    reveal_strlit("partly");
    reveal_strlit("overcast");
    reveal_strlit("fog");
    reveal_strlit("drizzle");
    reveal_strlit("rain");
    reveal_strlit("snow");
    reveal_strlit("thunder");
}

fn build_forecast_cells(hourly: &HourlySlots, now_idx: usize) -> (r: Result<String, WidgetError>)
    requires
        cells_in_bounds(*hourly, now_idx as int),
        now_idx < hourly.time@.len(),
    ensures
        forecast_cells(*hourly, now_idx as int) matches Ok(c) ==> (r matches Ok(s) && s@ == c),
        forecast_cells(*hourly, now_idx as int) matches Err(m) ==> (r matches Err(
            WidgetError::Data(e),
        ) && e@ == m),
{
    let mut cells: Vec<String> = Vec::new();
    let mut step: usize = 0;
    while step < 5
        invariant
            step <= 5,
            cells_in_bounds(*hourly, now_idx as int),
            now_idx < hourly.time@.len(),
            cells_upto(*hourly, now_idx as int, step as nat) matches Ok(cs) && cs == cells@.map_values(
                |c: String| c@,
            ),
        decreases 5 - step,
    {
        let off = step * FORECAST_STEP_HOURS;
        if off >= hourly.time.len() - now_idx {
            let mut m = chars_of("hourly forecast too short for slot +");
            let d = dec_u64(off as u64);
            push_chars(&mut m, &d);
            push_str(&mut m, "h");
            proof {
                lemma_cells_err_persists(*hourly, now_idx as int, (step + 1) as nat, 5);
            }
            return Err(WidgetError::Data(string_from_chars(&m)));
        }
        let i = now_idx + off;
        proof {
            assert(slot_in_bounds(*hourly, now_idx as int, step as nat));
        }
        let (_, icon) = wmo_lookup(hourly.weather_code[i]);
        let label = if step == 0 {
            let n = chars_of("Now");
            string_from_chars(&n)
        } else {
            match hour_label(hourly.time[i].as_str()) {
                Ok(l) => l,
                Err(e) => {
                    proof {
                        lemma_cells_err_persists(*hourly, now_idx as int, (step + 1) as nat, 5);
                    }
                    return Err(e);
                },
            }
        };
        let mut c = chars_of("<div class=\"cell\"><div class=\"cell-time\">");
        push_str(&mut c, label.as_str());
        push_str(&mut c, "</div><svg class=\"cell-icon\" viewBox=\"0 0 100 100\"><use href=\"#i-");
        push_str(&mut c, icon);
        push_str(&mut c, "\"/></svg><div class=\"cell-temp\">");
        let t = dec_i64(hourly.temperature[i]);
        push_chars(&mut c, &t);
        push_str(&mut c, "&deg;</div><div class=\"cell-pop\">");
        match hourly.precipitation_probability[i] {
            Some(p) => {
                let pd = dec_i64(p);
                push_chars(&mut c, &pd);
                push_str(&mut c, "%");
            },
            None => {
                c.push('\u{2013}');
            },
        }
        push_str(&mut c, "</div></div>");
        let ghost prev = cells@.map_values(|c: String| c@);
        proof {
            let pop_txt: Seq<char> = match hourly.precipitation_probability@[i as int] {
                Some(p) => decimal_int(p as int) + "%"@,
                None => seq!['\u{2013}'],
            };
            assert(c@ =~= cell_html(
                label@,
                icon@,
                hourly.temperature@[i as int],
                hourly.precipitation_probability@[i as int],
            ));
            if step == 0 {
                assert(label@ == "Now"@);
            }
            assert(cells_upto(*hourly, now_idx as int, (step + 1) as nat) == Ok::<
                Seq<Seq<char>>,
                Seq<char>,
            >(prev.push(c@)));
        }
        cells.push(string_from_chars(&c));
        proof {
            assert(cells@.map_values(|c: String| c@) == prev.push(c@));
        }
        step = step + 1;
    }
    Ok(join_with_newlines(&cells))
}

/// The first 13 bytes of a timestamp (`YYYY-MM-DDTHH`), when they end on a
/// character boundary.
pub open spec fn hour_key(t: Seq<u8>) -> Option<Seq<u8>> {
    if t.len() >= 13 && is_char_boundary(t, 13) {
        Some(t.take(13))
    } else {
        None
    }
}

/// Index of the first hourly timestamp whose hour key equals `key`.
pub open spec fn hour_index_from(times: Seq<String>, key: Seq<u8>, from: int) -> Option<int>
    decreases times.len() - from,
{
    if from < 0 || from >= times.len() {
        None
    } else if hour_key(encode_utf8(times[from]@)) == Some(key) {
        Some(from)
    } else {
        hour_index_from(times, key, from + 1)
    }
}

fn hour_key_of(t: &str) -> (r: Option<Vec<u8>>)
    ensures
        r matches Some(k) ==> hour_key(encode_utf8(t@)) == Some(k@),
        r is None ==> hour_key(encode_utf8(t@)) is None,
{
    let b = t.as_bytes();
    if b.len() >= 13 && t.is_char_boundary(13) {
        let mut k: Vec<u8> = Vec::new();
        let mut i: usize = 0;
        while i < 13
            invariant
                i <= 13,
                b@.len() >= 13,
                k@ == b@.take(i as int),
            decreases 13 - i,
        {
            k.push(b[i]);
            assert(b@.take(i + 1) == b@.take(i as int).push(b@[i as int]));
            i = i + 1;
        }
        Some(k)
    } else {
        None
    }
}

fn bytes_eq(a: &Vec<u8>, b: &Vec<u8>) -> (r: bool)
    ensures
        r == (a@ == b@),
{
    if a.len() != b.len() {
        return false;
    }
    let mut i: usize = 0;
    while i < a.len()
        invariant
            i <= a.len(),
            a.len() == b.len(),
            forall|j: int| 0 <= j < i ==> a@[j] == b@[j],
        decreases a.len() - i,
    {
        if a[i] != b[i] {
            return false;
        }
        i = i + 1;
    }
    assert(a@ =~= b@);
    true
}

fn find_hour_index(times: &Vec<String>, key: &Vec<u8>) -> (r: Option<usize>)
    ensures
        r matches Some(i) ==> hour_index_from(times@, key@, 0) == Some(i as int),
        r is None ==> hour_index_from(times@, key@, 0) is None,
{
    let mut i: usize = 0;
    while i < times.len()
        invariant
            i <= times.len(),
            hour_index_from(times@, key@, 0) == hour_index_from(times@, key@, i as int),
        decreases times.len() - i,
    {
        match hour_key_of(times[i].as_str()) {
            Some(k) => {
                if bytes_eq(&k, key) {
                    return Some(i);
                }
            },
            None => {},
        }
        i = i + 1;
    }
    None
}

proof fn lemma_hour_index(times: Seq<String>, key: Seq<u8>, from: int)
    requires
        0 <= from,
    ensures
        hour_index_from(times, key, from) matches Some(i) ==> from <= i < times.len(),
    decreases times.len() - from,
{
    if from < times.len() && hour_key(encode_utf8(times[from]@)) != Some(key) {
        lemma_hour_index(times, key, from + 1);
    }
}

/// The condition group shown and, when forced, the condition text: the
/// forced group must be one of the eight groups.
pub open spec fn forced_condition(icon: Seq<char>) -> Seq<char> {
    seq![upper_ascii(icon[0])] + icon.skip(1) + " (forced)"@
}

/// ASCII upper case of a lower-case letter.
pub open spec fn upper_ascii(c: char) -> char {
    if 'a' <= c && c <= 'z' { ((c as u32) - 32) as char } else { c }
}

/// Every placeholder value of the weather page, in order.
pub open spec fn weather_values(
    city: Seq<char>,
    date_s: Seq<char>,
    time_s: Seq<char>,
    icon: Seq<char>,
    condition: Seq<char>,
    cur: CurrentConditions,
    pop_now: i64,
    cells: Seq<char>,
) -> Seq<(Seq<char>, Seq<char>)> {
    seq![
        ("CITY"@, city),
        ("DATE"@, date_s),
        ("TIME"@, time_s),
        ("THEME"@, theme_of(icon)),
        ("TEMP"@, decimal_int(cur.temperature as int)),
        ("CONDITION"@, condition),
        ("ICON"@, icon),
        ("PRECIP"@, decimal_int(pop_now as int)),
        ("FEELS"@, decimal_int(cur.apparent_temperature as int)),
        ("HUMIDITY"@, decimal_int(cur.relative_humidity as int)),
        ("CELLS"@, cells),
    ]
}

/// Every key of the weather page is a placeholder key.
proof fn lemma_weather_keys_are_keys(vs: Seq<(Seq<char>, Seq<char>)>)
    requires
        vs.len() == 11,
        vs[0].0 == "CITY"@,
        vs[1].0 == "DATE"@,
        vs[2].0 == "TIME"@,
        vs[3].0 == "THEME"@,
        vs[4].0 == "TEMP"@,
        vs[5].0 == "CONDITION"@,
        vs[6].0 == "ICON"@,
        vs[7].0 == "PRECIP"@,
        vs[8].0 == "FEELS"@,
        vs[9].0 == "HUMIDITY"@,
        vs[10].0 == "CELLS"@,
    ensures
        forall|i: int| 0 <= i < vs.len() ==> is_key(#[trigger] vs[i].0),
{
    reveal_strlit("CITY");
    reveal_strlit("DATE");
    reveal_strlit("TIME");
    reveal_strlit("THEME");
    reveal_strlit("TEMP");
    reveal_strlit("CONDITION");
    reveal_strlit("ICON");
    reveal_strlit("PRECIP");
    reveal_strlit("FEELS");
    reveal_strlit("HUMIDITY");
    reveal_strlit("CELLS");
}

/// The current readings the weather page shows: a page made of the `TEMP`
/// placeholder shows the current temperature, one of `FEELS` the
/// feels-like temperature, and one of `HUMIDITY` the relative humidity,
/// each as a whole decimal number, whatever the rest of the reading.
pub proof fn law_weather_page_shows_current_readings(
    city: Seq<char>,
    force_icon: Option<Seq<char>>,
    cur: CurrentConditions,
    hourly: HourlySlots,
)
    ensures
        weather_page("{{TEMP}}"@, city, force_icon, cur, hourly) matches Ok(out) ==> out
            == decimal_int(cur.temperature as int),
        weather_page("{{FEELS}}"@, city, force_icon, cur, hourly) matches Ok(out) ==> out
            == decimal_int(cur.apparent_temperature as int),
        weather_page("{{HUMIDITY}}"@, city, force_icon, cur, hourly) matches Ok(out) ==> out
            == decimal_int(cur.relative_humidity as int),
{
    reveal_strlit("{{TEMP}}");
    reveal_strlit("{{FEELS}}");
    reveal_strlit("{{HUMIDITY}}");
    reveal_strlit("CITY");
    reveal_strlit("DATE");
    reveal_strlit("TIME");
    reveal_strlit("THEME");
    reveal_strlit("TEMP");
    reveal_strlit("CONDITION");
    reveal_strlit("ICON");
    reveal_strlit("PRECIP");
    reveal_strlit("FEELS");
    reveal_strlit("HUMIDITY");
    reveal_strlit("CELLS");
    assert(placeholder("TEMP"@) =~= "{{TEMP}}"@);
    assert(placeholder("FEELS"@) =~= "{{FEELS}}"@);
    assert(placeholder("HUMIDITY"@) =~= "{{HUMIDITY}}"@);
    assert forall|
        c: Seq<char>,
        d: Seq<char>,
        t: Seq<char>,
        icon: Seq<char>,
        cond: Seq<char>,
        x: CurrentConditions,
        pop: i64,
        cells: Seq<char>,
    |
        #![trigger weather_values(c, d, t, icon, cond, x, pop, cells)]
        substitute("{{TEMP}}"@, weather_values(c, d, t, icon, cond, x, pop, cells)) == decimal_int(
            x.temperature as int,
        ) && substitute("{{FEELS}}"@, weather_values(c, d, t, icon, cond, x, pop, cells))
            == decimal_int(x.apparent_temperature as int) && substitute(
            "{{HUMIDITY}}"@,
            weather_values(c, d, t, icon, cond, x, pop, cells),
        ) == decimal_int(x.relative_humidity as int) by {
        let vs = weather_values(c, d, t, icon, cond, x, pop, cells);
        lemma_weather_keys_are_keys(vs);
        lemma_decimal_int_has_no_brace(x.temperature as int);
        lemma_decimal_int_has_no_brace(x.apparent_temperature as int);
        lemma_decimal_int_has_no_brace(x.relative_humidity as int);
        assert("CITY"@[0] != "TEMP"@[0]);
        assert("DATE"@[0] != "TEMP"@[0]);
        assert("TIME"@[1] != "TEMP"@[1]);
        assert("THEME"@.len() != "TEMP"@.len());
        lemma_substitute_lone_placeholder(vs, 4);
        assert("THEME"@[0] != "FEELS"@[0]);
        assert("CITY"@.len() != "FEELS"@.len());
        assert("DATE"@.len() != "FEELS"@.len());
        assert("TIME"@.len() != "FEELS"@.len());
        assert("TEMP"@.len() != "FEELS"@.len());
        assert("CONDITION"@.len() != "FEELS"@.len());
        assert("ICON"@.len() != "FEELS"@.len());
        assert("PRECIP"@.len() != "FEELS"@.len());
        lemma_substitute_lone_placeholder(vs, 8);
        assert forall|i: int| 0 <= i < 9 implies #[trigger] vs[i].0 != vs[9].0 by {
            assert(vs[i].0.len() != vs[9].0.len());
        }
        lemma_substitute_lone_placeholder(vs, 9);
    }
}

/// The weather page text before the leftover-placeholder check, or the
/// message of the first failure on the way there.
pub open spec fn weather_page(
    template_html: Seq<char>,
    city: Seq<char>,
    force_icon: Option<Seq<char>>,
    cur: CurrentConditions,
    hourly: HourlySlots,
) -> Result<Seq<char>, Seq<char>> {
    match hour_key(encode_utf8(cur.time@)) {
        None => Err("malformed current.time: "@ + debug_quoted(cur.time@)),
        Some(key) => match hour_index_from(hourly.time@, key, 0) {
            None => Err("current time "@ + cur.time@ + " not found in hourly forecast"@),
            Some(now_idx) => {
                let pop_now: i64 = if now_idx < hourly.precipitation_probability@.len() {
                    match hourly.precipitation_probability@[now_idx] {
                        Some(p) => p,
                        None => 0,
                    }
                } else {
                    0
                };
                let forced_ok = match force_icon {
                    Some(f) => is_icon_group(f),
                    None => true,
                };
                if !forced_ok {
                    Err("unknown force_icon group: "@ + force_icon->0)
                } else {
                    let icon = match force_icon {
                        Some(f) => f,
                        None => wmo_entry(cur.weather_code).1,
                    };
                    let condition = match force_icon {
                        Some(f) => forced_condition(f),
                        None => wmo_entry(cur.weather_code).0,
                    };
                    match chrono_parsed(cur.time@, api_time_format()) {
                        None => Err(bad_timestamp_message(cur.time@)),
                        Some(p) => match forecast_cells(hourly, now_idx) {
                            Err(e) => Err(e),
                            Ok(cells) => {
                                let date_s = chrono_formatted(
                                    p.0,
                                    p.1,
                                    p.2,
                                    p.3,
                                    p.4,
                                    p.5,
                                    "%A, %B %-d"@,
                                );
                                let time_s = lower_case(
                                    chrono_formatted(p.0, p.1, p.2, p.3, p.4, p.5, "%-I:%M%p"@),
                                );
                                Ok(
                                    substitute(
                                        template_html,
                                        weather_values(
                                            city,
                                            date_s,
                                            time_s,
                                            icon,
                                            condition,
                                            cur,
                                            pop_now,
                                            cells,
                                        ),
                                    ),
                                )
                            },
                        },
                    }
                }
            },
        },
    }
}

/// The strip of the weather page reads only readings that exist, whenever
/// the page gets as far as building it: the current hour is found in the
/// hourly series, a forced condition group, if any, is known, and the
/// current timestamp parses.
pub open spec fn page_in_bounds(
    force_icon: Option<Seq<char>>,
    cur: CurrentConditions,
    hourly: HourlySlots,
) -> bool {
    match hour_key(encode_utf8(cur.time@)) {
        None => true,
        Some(key) => match hour_index_from(hourly.time@, key, 0) {
            None => true,
            Some(now_idx) => {
                let forced_ok = match force_icon {
                    Some(f) => is_icon_group(f),
                    None => true,
                };
                (forced_ok && chrono_parsed(cur.time@, api_time_format()) is Some) ==> cells_in_bounds(
                    hourly,
                    now_idx,
                )
            },
        },
    }
}

/// Whether the strip anchored at `now_idx` reads only readings that exist.
fn strip_in_bounds(hourly: &HourlySlots, now_idx: usize) -> (r: bool)
    ensures
        r == cells_in_bounds(*hourly, now_idx as int),
{
    let n = hourly.time.len();
    let mut step: usize = 0;
    while step < 5
        invariant
            step <= 5,
            n == hourly.time@.len(),
            cells_upto(*hourly, now_idx as int, step as nat) is Ok,
            forall|s: nat| s < step ==> #[trigger] slot_in_bounds(*hourly, now_idx as int, s),
        decreases 5 - step,
    {
        let off = step * FORECAST_STEP_HOURS;
        let ended = if now_idx >= n {
            true
        } else {
            off >= n - now_idx
        };
        if ended {
            proof {
                assert(cells_upto(*hourly, now_idx as int, (step + 1) as nat) is Err);
                assert forall|s: nat| s < 5 implies #[trigger] slot_in_bounds(
                    *hourly,
                    now_idx as int,
                    s,
                ) by {
                    if s > step {
                        lemma_cells_err_persists(*hourly, now_idx as int, (step + 1) as nat, s);
                    }
                }
            }
            return true;
        }
        let i = now_idx + off;
        if i >= hourly.weather_code.len() || i >= hourly.precipitation_probability.len() {
            proof {
                assert(!slot_in_bounds(*hourly, now_idx as int, step as nat));
            }
            return false;
        }
        let label_failed = if step == 0 {
            false
        } else {
            match hour_label(hourly.time[i].as_str()) {
                Ok(_) => false,
                Err(_) => true,
            }
        };
        if label_failed {
            proof {
                assert(cells_upto(*hourly, now_idx as int, (step + 1) as nat) is Err);
                assert forall|s: nat| s < 5 implies #[trigger] slot_in_bounds(
                    *hourly,
                    now_idx as int,
                    s,
                ) by {
                    if s > step {
                        lemma_cells_err_persists(*hourly, now_idx as int, (step + 1) as nat, s);
                    }
                }
            }
            return true;
        }
        if i >= hourly.temperature.len() {
            proof {
                assert(!slot_in_bounds(*hourly, now_idx as int, step as nat));
            }
            return false;
        }
        step = step + 1;
    }
    true
}

/// Whether rendering the weather page reads only readings that exist: the
/// condition [`render_html`] asks of its caller, tested.
fn page_in_bounds_of(
    force_icon: Option<&str>,
    current: &CurrentConditions,
    hourly: &HourlySlots,
) -> (r: bool)
    ensures
        ({
            let fi = match force_icon {
                Some(f) => Some(f@),
                None => None,
            };
            r == page_in_bounds(fi, *current, *hourly)
        }),
{
    let key = match hour_key_of(current.time.as_str()) {
        Some(k) => k,
        None => {
            return true;
        },
    };
    let now_idx = match find_hour_index(&hourly.time, &key) {
        Some(i) => i,
        None => {
            return true;
        },
    };
    match force_icon {
        Some(f) => {
            if find_icon_group(f).is_none() {
                return true;
            }
        },
        None => {},
    }
    if parse_api_time(current.time.as_str()).is_err() {
        return true;
    }
    strip_in_bounds(hourly, now_idx)
}

/// What rendering the weather page gives: the page when no placeholder is
/// left in it, the leftover placeholder otherwise, and the message of the
/// first failure on the way there.
pub open spec fn weather_outcome(
    r: Result<String, WidgetError>,
    template_html: Seq<char>,
    city: Seq<char>,
    force_icon: Option<Seq<char>>,
    cur: CurrentConditions,
    hourly: HourlySlots,
) -> bool {
    match weather_page(template_html, city, force_icon, cur, hourly) {
        Err(m) => r matches Err(WidgetError::Data(e)) && e@ == m,
        Ok(out) => match r {
            Ok(s) => s@ == out && leftover_token(out) is None,
            Err(WidgetError::Template(TemplateError::UnresolvedPlaceholder(t))) => leftover_token(
                out,
            ) == Some(t@),
            _ => false,
        },
    }
}

/// Renders the weather page from the template, the city, the optional
/// forced condition group and the (rounded) current and hourly readings.
/// All "now" context comes from the reading's own local timestamp, so the
/// page is a function of its inputs. The current hour is found in the
/// hourly series by its `YYYY-MM-DDTHH` key; its precipitation probability
/// (0 when missing) stands for the current one.
pub fn render_html(
    template_html: &str,
    city: &str,
    force_icon: Option<&str>,
    current: &CurrentConditions,
    hourly: &HourlySlots,
) -> (r: Result<String, WidgetError>)
    requires
        ({
            let fi = match force_icon {
                Some(f) => Some(f@),
                None => None,
            };
            page_in_bounds(fi, *current, *hourly)
        }),
    ensures
        ({
            let fi = match force_icon {
                Some(f) => Some(f@),
                None => None,
            };
            weather_outcome(r, template_html@, city@, fi, *current, *hourly)
        }),
{
    let key = match hour_key_of(current.time.as_str()) {
        Some(k) => k,
        None => {
            let mut m = chars_of("malformed current.time: ");
            let q = debug_str(current.time.as_str());
            push_str(&mut m, q.as_str());
            return Err(WidgetError::Data(string_from_chars(&m)));
        },
    };
    let now_idx = match find_hour_index(&hourly.time, &key) {
        Some(i) => i,
        None => {
            let mut m = chars_of("current time ");
            push_str(&mut m, current.time.as_str());
            push_str(&mut m, " not found in hourly forecast");
            return Err(WidgetError::Data(string_from_chars(&m)));
        },
    };
    proof {
        lemma_hour_index(hourly.time@, key@, 0);
    }
    let pop_now: i64 = if now_idx < hourly.precipitation_probability.len() {
        match hourly.precipitation_probability[now_idx] {
            Some(p) => p,
            None => 0,
        }
    } else {
        0
    };
    let (condition_default, default_icon) = wmo_lookup(current.weather_code);
    let (icon, condition): (&str, String) = match force_icon {
        Some(f) => match find_icon_group(f) {
            Some(g) => {
                let gc = chars_of(g);
                proof {
                    lemma_icon_group_nonempty(f@);
                }
                let mut c: Vec<char> = Vec::new();
                let c0 = gc[0];
                let up = if 'a' <= c0 && c0 <= 'z' {
                    char_from_u32((c0 as u32) - 32)
                } else {
                    c0
                };
                c.push(up);
                let mut k: usize = 1;
                while k < gc.len()
                    invariant
                        1 <= k <= gc.len(),
                        gc@.len() > 0,
                        c@ == seq![up] + gc@.skip(1).take(k - 1),
                    decreases gc.len() - k,
                {
                    c.push(gc[k]);
                    assert(gc@.skip(1).take(k as int) == gc@.skip(1).take(k - 1).push(gc@[k as int]));
                    k = k + 1;
                }
                assert(gc@.skip(1).take(gc@.len() - 1) == gc@.skip(1));
                push_str(&mut c, " (forced)");
                (g, string_from_chars(&c))
            },
            None => {
                let mut m = chars_of("unknown force_icon group: ");
                push_str(&mut m, f);
                return Err(WidgetError::Data(string_from_chars(&m)));
            },
        },
        None => {
            let c = chars_of(condition_default);
            (default_icon, string_from_chars(&c))
        },
    };
    let now_local = match parse_api_time(current.time.as_str()) {
        Ok(t) => t,
        Err(e) => {
            return Err(e);
        },
    };
    let cells = match build_forecast_cells(hourly, now_idx) {
        Ok(c) => c,
        Err(e) => {
            return Err(e);
        },
    };
    let date_s = format_datetime(&now_local, "%A, %B %-d");
    let time_raw = format_datetime(&now_local, "%-I:%M%p");
    let time_s = to_lowercase(time_raw.as_str());
    let theme = pick_theme(icon);
    let temp_s = string_from_chars(&dec_i64(current.temperature));
    let feels_s = string_from_chars(&dec_i64(current.apparent_temperature));
    let humidity_s = string_from_chars(&dec_i64(current.relative_humidity));
    let precip_s = string_from_chars(&dec_i64(pop_now));
    let values = [
        ("CITY", city),
        ("DATE", date_s.as_str()),
        ("TIME", time_s.as_str()),
        ("THEME", theme),
        ("TEMP", temp_s.as_str()),
        ("CONDITION", condition.as_str()),
        ("ICON", icon),
        ("PRECIP", precip_s.as_str()),
        ("FEELS", feels_s.as_str()),
        ("HUMIDITY", humidity_s.as_str()),
        ("CELLS", cells.as_str()),
    ];
    proof {
        let fi = match force_icon {
            Some(f) => Some(f@),
            None => None,
        };
        assert(values@.map_values(|kv: (&str, &str)| (kv.0@, kv.1@)) =~= weather_values(
            city@,
            date_s@,
            time_s@,
            icon@,
            condition@,
            *current,
            pop_now,
            cells@,
        ));
        assert(weather_page(template_html@, city@, fi, *current, *hourly) == Ok::<
            Seq<char>,
            Seq<char>,
        >(substitute(
            template_html@,
            weather_values(city@, date_s@, time_s@, icon@, condition@, *current, pop_now, cells@),
        )));
    }
    let r = render(template_html, values.as_slice());
    match r {
        Ok(s) => Ok(s),
        Err(e) => Err(WidgetError::Template(e)),
    }
}

/// The weather page as [`render_html`] renders it, when rendering it reads
/// only readings that exist; `None`, with nothing rendered, when the
/// forecast ends inside the outlook strip it would build.
pub fn render_html_checked(
    template_html: &str,
    city: &str,
    force_icon: Option<&str>,
    current: &CurrentConditions,
    hourly: &HourlySlots,
) -> (r: Option<Result<String, WidgetError>>)
    ensures
        ({
            let fi = match force_icon {
                Some(f) => Some(f@),
                None => None,
            };
            &&& r is None <==> !page_in_bounds(fi, *current, *hourly)
            &&& r matches Some(x) ==> weather_outcome(x, template_html@, city@, fi, *current, *hourly)
        }),
{
    if page_in_bounds_of(force_icon, current, hourly) {
        Some(render_html(template_html, city, force_icon, current, hourly))
    } else {
        None
    }
}

/// `char::from_u32` for a value known to be a character.
fn char_from_u32(u: u32) -> (c: char)
    requires
        0x41 <= u <= 0x5A,
    ensures
        c == u as char,
{
    if u == 0x41 { 'A' } else if u == 0x42 { 'B' } else if u == 0x43 { 'C' } else if u == 0x44 { 'D' }
    else if u == 0x45 { 'E' } else if u == 0x46 { 'F' } else if u == 0x47 { 'G' } else if u == 0x48 { 'H' }
    else if u == 0x49 { 'I' } else if u == 0x4A { 'J' } else if u == 0x4B { 'K' } else if u == 0x4C { 'L' }
    else if u == 0x4D { 'M' } else if u == 0x4E { 'N' } else if u == 0x4F { 'O' } else if u == 0x50 { 'P' }
    else if u == 0x51 { 'Q' } else if u == 0x52 { 'R' } else if u == 0x53 { 'S' } else if u == 0x54 { 'T' }
    else if u == 0x55 { 'U' } else if u == 0x56 { 'V' } else if u == 0x57 { 'W' } else if u == 0x58 { 'X' }
    else if u == 0x59 { 'Y' } else { 'Z' }
}

} // verus!
