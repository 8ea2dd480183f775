//! Tray icon texts and menu decisions: the tooltip built from the last
//! observed device status and the failure badge, and what a menu click
//! means.

use vstd::prelude::*;
use crate::scheduler::Schedule;
use crate::text::{
    chars_of, dec_i64, decimal_int, has_prefix, push_chars, push_str, starts_with, str_eq,
    string_from_chars,
};

verus! {

/// Fixed id of the tray icon.
pub const TRAY_ID: &'static str = "main-tray";

/// Whether the last observed scheduled run failed and was not yet
/// acknowledged.
#[derive(Debug, Clone, Copy, PartialEq, Eq, Default)]
pub struct FailureBadge {
    pub failed: bool,
}

impl FailureBadge {
    /// Sets or clears the badge.
    pub fn set(&mut self, failed: bool)
        ensures
            final(self).failed == failed,
    {
        self.failed = failed;
    }

    /// Whether the badge is set.
    pub fn get(&self) -> (b: bool)
        ensures
            b == self.failed,
    {
        self.failed
    }
}

/// The last passively observed device-status text; empty until the first
/// observation.
#[derive(Debug, Clone, PartialEq, Eq, Default)]
pub struct DeviceStatus {
    pub text: String,
}

impl DeviceStatus {
    /// Records a new status text.
    pub fn set(&mut self, s: String)
        ensures
            final(self).text == s,
    {
        self.text = s;
    }

    /// The recorded status text.
    pub fn get(&self) -> (s: String)
        ensures
            s == self.text,
    {
        self.text.clone()
    }
}

/// `Online · <battery>%`, or `Online` without a battery reading.
pub open spec fn status_text(battery: Option<i64>) -> Seq<char> {
    match battery {
        Some(b) => "Online \u{b7} "@ + decimal_int(b as int) + "%"@,
        None => "Online"@,
    }
}

/// The status text of a successful `/deviceInfo` reading.
pub fn device_status_text(battery: Option<i64>) -> (s: String)
    ensures
        s@ == status_text(battery),
{
    match battery {
        Some(b) => {
            let mut v = chars_of("Online \u{b7} ");
            let d = dec_i64(b);
            push_chars(&mut v, &d);
            push_str(&mut v, "%");
            string_from_chars(&v)
        },
        None => string_from_chars(&chars_of("Online")),
    }
}

/// `Bloomin8 — [⚠ ]<status>`, with `Status unknown` before the first
/// observation.
pub open spec fn tooltip_spec(status: Seq<char>, failed: bool) -> Seq<char> {
    "Bloomin8 \u{2014} "@ + (if failed { "\u{26A0} "@ } else { Seq::empty() }) + (if status.len()
        == 0 {
        "Status unknown"@
    } else {
        status
    })
}

/// The tray tooltip for a status text and the failure badge.
pub fn tooltip_text(status: &str, failed: bool) -> (s: String)
    ensures
        s@ == tooltip_spec(status@, failed),
{
    let mut v = chars_of("Bloomin8 \u{2014} ");
    if failed {
        push_str(&mut v, "\u{26A0} ");
    }
    if status.is_empty() {
        push_str(&mut v, "Status unknown");
    } else {
        push_str(&mut v, status);
    }
    string_from_chars(&v)
}

/// `refresh:<schedule id>`: the menu id of a schedule's refresh entry.
pub open spec fn refresh_id_text(schedule_id: Seq<char>) -> Seq<char> {
    "refresh:"@ + schedule_id
}

/// The menu id of a schedule's "Refresh now" entry.
pub fn refresh_menu_id(schedule_id: &str) -> (s: String)
    ensures
        s@ == refresh_id_text(schedule_id@),
{
    let mut v = chars_of("refresh:");
    push_str(&mut v, schedule_id);
    string_from_chars(&v)
}

/// `Refresh <name> now`: the label of a schedule's refresh entry.
pub fn refresh_menu_label(name: &str) -> (s: String)
    ensures
        s@ == "Refresh "@ + name@ + " now"@,
{
    let mut v = chars_of("Refresh ");
    push_str(&mut v, name);
    push_str(&mut v, " now");
    string_from_chars(&v)
}

/// What a tray menu click asks for.
#[derive(Debug, Clone, PartialEq, Eq)]
pub enum MenuAction {
    Quit,
    OpenApp,
    /// Run this schedule now.
    Refresh(String),
    /// An id the tray does not handle.
    Ignore,
}

/// Decodes a menu click.
pub fn menu_action(id: &str) -> (a: MenuAction)
    ensures
        id@ == "quit"@ ==> a == MenuAction::Quit,
        id@ != "quit"@ && id@ == "open-app"@ ==> a == MenuAction::OpenApp,
        id@ != "quit"@ && id@ != "open-app"@ && has_prefix(id@, "refresh:"@) ==> (a matches MenuAction::Refresh(s) && s@ == id@.skip(8)),
        id@ != "quit"@ && id@ != "open-app"@ && !has_prefix(id@, "refresh:"@) ==> a == MenuAction::Ignore,
{
    if str_eq(id, "quit") {
        return MenuAction::Quit;
    }
    if str_eq(id, "open-app") {
        return MenuAction::OpenApp;
    }
    let v = chars_of(id);
    let p = chars_of("refresh:");
    proof {
        reveal_strlit("refresh:");
    }
    if starts_with(&v, &p) {
        let mut rest: Vec<char> = Vec::new();
        let mut i: usize = 8;
        while i < v.len()
            invariant
                8 <= i <= v.len(),
                rest@ == v@.subrange(8, i as int),
            decreases v.len() - i,
        {
            rest.push(v[i]);
            assert(v@.subrange(8, i + 1) == v@.subrange(8, i as int).push(v@[i as int]));
            i = i + 1;
        }
        assert(rest@ == id@.skip(8));
        MenuAction::Refresh(string_from_chars(&rest))
    } else {
        MenuAction::Ignore
    }
}

/// Clicking a schedule's refresh entry runs exactly that schedule, whatever
/// its id.
pub proof fn law_refresh_entry_round_trip(schedule_id: Seq<char>)
    ensures
        refresh_id_text(schedule_id) != "quit"@,
        refresh_id_text(schedule_id) != "open-app"@,
        has_prefix(refresh_id_text(schedule_id), "refresh:"@),
        refresh_id_text(schedule_id).skip(8) == schedule_id,
{
    reveal_strlit("refresh:");
    reveal_strlit("quit");
    reveal_strlit("open-app");
    let t = refresh_id_text(schedule_id);
    assert(t[0] == 'r');
    assert(t.subrange(0, 8) =~= "refresh:"@);
    assert(t.skip(8) =~= schedule_id);
}

/// One entry of the tray menu.
#[derive(Debug, Clone, PartialEq, Eq)]
pub enum MenuEntry {
    /// A clickable entry: its id and its label.
    Item { id: String, label: String },
    Separator,
}

/// An entry as `(id, label)`, `None` for a separator.
pub open spec fn entry_view(e: MenuEntry) -> Option<(Seq<char>, Seq<char>)> {
    match e {
        MenuEntry::Item { id, label } => Some((id@, label@)),
        MenuEntry::Separator => None,
    }
}

/// The refresh entries of the enabled schedules among `s`, in order.
pub open spec fn refresh_entries(s: Seq<Schedule>) -> Seq<Option<(Seq<char>, Seq<char>)>>
    decreases s.len(),
{
    if s.len() == 0 {
        Seq::empty()
    } else {
        let rest = refresh_entries(s.drop_last());
        let last = s.last();
        if last.enabled {
            rest.push(Some((refresh_id_text(last.id@), "Refresh "@ + last.name@ + " now"@)))
        } else {
            rest
        }
    }
}

/// The whole tray menu: a refresh entry per enabled schedule, a separator
/// after them when there is any, then "Open app", a separator and "Quit".
pub open spec fn menu_layout(s: Seq<Schedule>) -> Seq<Option<(Seq<char>, Seq<char>)>> {
    let r = refresh_entries(s);
    (if r.len() > 0 { r.push(None) } else { r }) + seq![
        Some(("open-app"@, "Open app"@)),
        None,
        Some(("quit"@, "Quit"@)),
    ]
}

/// The enabled schedules among `s`, in order.
pub open spec fn enabled_schedules_of(s: Seq<Schedule>) -> Seq<Schedule> {
    s.filter(|x: Schedule| x.enabled)
}

proof fn lemma_refresh_entries_follow_enabled(s: Seq<Schedule>)
    ensures
        refresh_entries(s).len() == enabled_schedules_of(s).len(),
        forall|k: int| 0 <= k < enabled_schedules_of(s).len() ==> #[trigger] refresh_entries(s)[k]
            == Some(
            (
                refresh_id_text(enabled_schedules_of(s)[k].id@),
                "Refresh "@ + enabled_schedules_of(s)[k].name@ + " now"@,
            ),
        ),
    decreases s.len(),
{
    reveal(Seq::filter);
    if s.len() > 0 {
        lemma_refresh_entries_follow_enabled(s.drop_last());
    }
}

proof fn lemma_enabled_schedules_are_listed(s: Seq<Schedule>)
    ensures
        forall|k: int| 0 <= k < enabled_schedules_of(s).len() ==> (#[trigger] enabled_schedules_of(
            s,
        )[k]).enabled && s.contains(enabled_schedules_of(s)[k]),
    decreases s.len(),
{
    reveal(Seq::filter);
    if s.len() > 0 {
        let t = s.drop_last();
        lemma_enabled_schedules_are_listed(t);
        let e = enabled_schedules_of(s);
        let et = enabled_schedules_of(t);
        assert forall|k: int| 0 <= k < e.len() implies (#[trigger] e[k]).enabled && s.contains(
            e[k],
        ) by {
            if k < et.len() {
                assert(e[k] == et[k]);
                assert(t.contains(et[k]));
                let j = choose|j: int| 0 <= j < t.len() && t[j] == et[k];
                assert(s[j] == t[j]);
            } else {
                assert(e[k] == s.last());
                assert(s[s.len() - 1] == s.last());
            }
        }
    }
}

/// The menu offers "Refresh now" for exactly the enabled schedules, each
/// once and in their order, each entry naming its schedule; after them come
/// a separator (when there is any), "Open app", a separator and "Quit".
pub proof fn law_menu_refreshes_exactly_the_enabled_schedules(s: Seq<Schedule>)
    ensures
        ({
            let e = enabled_schedules_of(s);
            let m = menu_layout(s);
            &&& m.len() == e.len() + (if e.len() > 0 { 4int } else { 3int })
            &&& forall|k: int| 0 <= k < e.len() ==> #[trigger] m[k] == Some(
                (refresh_id_text(e[k].id@), "Refresh "@ + e[k].name@ + " now"@),
            )
            &&& forall|k: int| 0 <= k < e.len() ==> (#[trigger] e[k]).enabled && s.contains(e[k])
            &&& m.subrange(m.len() - 3, m.len() as int) == seq![
                Some(("open-app"@, "Open app"@)),
                None,
                Some(("quit"@, "Quit"@)),
            ]
            &&& e.len() > 0 ==> m[e.len() as int] is None
        }),
{
    lemma_refresh_entries_follow_enabled(s);
    let e = enabled_schedules_of(s);
    let r = refresh_entries(s);
    let m = menu_layout(s);
    assert forall|k: int| 0 <= k < e.len() implies #[trigger] m[k] == Some(
        (refresh_id_text(e[k].id@), "Refresh "@ + e[k].name@ + " now"@),
    ) by {
        assert(m[k] == r[k]);
    }
    lemma_enabled_schedules_are_listed(s);
    assert(m.subrange(m.len() - 3, m.len() as int) =~= seq![
        Some(("open-app"@, "Open app"@)),
        None,
        Some(("quit"@, "Quit"@)),
    ]);
}

/// The tray menu for the current schedules.
pub fn menu_entries(schedules: &Vec<Schedule>) -> (r: Vec<MenuEntry>)
    ensures
        r@.map_values(|e: MenuEntry| entry_view(e)) == menu_layout(schedules@),
{
    let mut out: Vec<MenuEntry> = Vec::new();
    let mut i: usize = 0;
    while i < schedules.len()
        invariant
            i <= schedules.len(),
            out@.map_values(|e: MenuEntry| entry_view(e)) == refresh_entries(
                schedules@.take(i as int),
            ),
        decreases schedules.len() - i,
    {
        let ghost before = out@;
        assert(schedules@.take(i + 1).drop_last() =~= schedules@.take(i as int));
        assert(schedules@.take(i + 1).last() == schedules@[i as int]);
        if schedules[i].enabled {
            let id = refresh_menu_id(schedules[i].id.as_str());
            let label = refresh_menu_label(schedules[i].name.as_str());
            out.push(MenuEntry::Item { id, label });
            assert(out@.map_values(|e: MenuEntry| entry_view(e)) =~= before.map_values(
                |e: MenuEntry| entry_view(e),
            ).push(entry_view(out@.last())));
        }
        i = i + 1;
    }
    assert(schedules@.take(schedules@.len() as int) =~= schedules@);
    let ghost refresh = out@;
    if out.len() > 0 {
        out.push(MenuEntry::Separator);
        assert(out@.map_values(|e: MenuEntry| entry_view(e)) =~= refresh.map_values(
            |e: MenuEntry| entry_view(e),
        ).push(None));
    }
    let ghost head = out@;
    out.push(MenuEntry::Item { id: "open-app".to_owned(), label: "Open app".to_owned() });
    out.push(MenuEntry::Separator);
    out.push(MenuEntry::Item { id: "quit".to_owned(), label: "Quit".to_owned() });
    assert(out@.map_values(|e: MenuEntry| entry_view(e)) =~= head.map_values(
        |e: MenuEntry| entry_view(e),
    ) + seq![Some(("open-app"@, "Open app"@)), None, Some(("quit"@, "Quit"@))]);
    out
}

} // verus!
