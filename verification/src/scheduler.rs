//! Scheduler decisions: overlap prevention, retry-once, the history entry
//! each run records, and which history entries are read back. The cron
//! wiring, the push itself and the file I/O belong to the caller.

use vstd::prelude::*;
use crate::datetime::LocalDateTime;
use crate::text::{chars_of, debug_quoted, debug_str, push_str, str_eq, string_from_chars};
use crate::commands::{orientation_str, orientation_text, PushSettings};
use crate::last_push::LastPush;
use crate::widgets::config::{PanelOrientation, WidgetConfig, WidgetRenderConfig};

verus! {

/// File name of the schedule list in the application data directory.
pub const SCHEDULES_FILE_NAME: &'static str = "schedules.json";
/// File name of the run history in the application data directory.
pub const HISTORY_FILE_NAME: &'static str = "history.jsonl";
/// Delay before the single retry of a failed run, in milliseconds.
pub const DEFAULT_RETRY_DELAY_MS: u64 = 60000;

/// A schedule is enabled unless its file says otherwise.
pub fn default_true() -> (b: bool)
    ensures
        b,
{
    true
}

/// Outcome of one run of one schedule.
#[derive(Debug, Clone, Copy, PartialEq, Eq)]
pub enum RunStatus {
    Success,
    Failed,
    Skipped,
}

/// One history line: one execution of one schedule.
#[derive(Debug, Clone, PartialEq)]
pub struct HistoryEntry {
    pub schedule_id: String,
    pub started_at: LocalDateTime,
    pub finished_at: LocalDateTime,
    pub status: RunStatus,
    pub error: Option<String>,
    pub filename: Option<String>,
}

/// Whether some string of `s` has the text `id`.
pub open spec fn seq_holds(s: Seq<String>, id: Seq<char>) -> bool {
    exists|i: int| 0 <= i < s.len() && #[trigger] s[i]@ == id
}

proof fn lemma_seq_holds_push(s: Seq<String>, x: String)
    ensures
        forall|id: Seq<char>| #[trigger] seq_holds(s.push(x), id) <==> (seq_holds(s, id) || x@ == id),
{
    assert forall|id: Seq<char>| #[trigger] seq_holds(s.push(x), id) <==> (seq_holds(s, id) || x@
        == id) by {
        if seq_holds(s, id) {
            let j = choose|j: int| 0 <= j < s.len() && #[trigger] s[j]@ == id;
            assert(s.push(x)[j] == s[j]);
        }
        if x@ == id {
            assert(s.push(x)[s.len() as int] == x);
        }
        if seq_holds(s.push(x), id) {
            let j = choose|j: int| 0 <= j < s.push(x).len() && #[trigger] s.push(x)[j]@ == id;
            if j < s.len() {
                assert(s[j] == s.push(x)[j]);
            }
        }
    }
}

/// The schedule ids that currently have a run in flight.
#[derive(Debug, Clone, PartialEq)]
pub struct RunningSet {
    pub ids: Vec<String>,
}

impl RunningSet {
    /// Whether `id` has a run in flight.
    pub open spec fn holds(&self, id: Seq<char>) -> bool {
        seq_holds(self.ids@, id)
    }

    /// No run in flight.
    pub fn new() -> (s: Self)
        ensures
            forall|id: Seq<char>| !s.holds(id),
    {
        RunningSet { ids: Vec::new() }
    }

    /// Whether `schedule_id` currently has a run in flight.
    pub fn contains(&self, schedule_id: &str) -> (b: bool)
        ensures
            b == self.holds(schedule_id@),
    {
        let mut i: usize = 0;
        while i < self.ids.len()
            invariant
                i <= self.ids@.len(),
                forall|j: int| 0 <= j < i ==> self.ids@[j]@ != schedule_id@,
            decreases self.ids.len() - i,
        {
            if str_eq(self.ids[i].as_str(), schedule_id) {
                return true;
            }
            i = i + 1;
        }
        false
    }

    /// Marks `schedule_id` as running.
    pub fn insert(&mut self, schedule_id: &str)
        ensures
            forall|id: Seq<char>| final(self).holds(id) <==> (old(self).holds(id) || id == schedule_id@),
    {
        let x = string_from_chars(&chars_of(schedule_id));
        proof {
            lemma_seq_holds_push(self.ids@, x);
        }
        self.ids.push(x);
    }

    /// Marks `schedule_id` as no longer running.
    pub fn remove(&mut self, schedule_id: &str)
        ensures
            forall|id: Seq<char>| final(self).holds(id) <==> (old(self).holds(id) && id != schedule_id@),
    {
        let ghost before = self.ids@;
        let mut kept: Vec<String> = Vec::new();
        let mut i: usize = 0;
        while i < self.ids.len()
            invariant
                i <= self.ids@.len(),
                self.ids@ == before,
                forall|id: Seq<char>| #[trigger] seq_holds(kept@, id) <==> (seq_holds(
                    before.take(i as int),
                    id,
                ) && id != schedule_id@),
            decreases self.ids.len() - i,
        {
            proof {
                assert(before.take(i + 1) == before.take(i as int).push(before[i as int]));
                lemma_seq_holds_push(before.take(i as int), before[i as int]);
            }
            if !str_eq(self.ids[i].as_str(), schedule_id) {
                let x = self.ids[i].clone();
                proof {
                    lemma_seq_holds_push(kept@, x);
                }
                kept.push(x);
            }
            i = i + 1;
        }
        assert(before.take(before.len() as int) == before);
        self.ids = kept;
    }
}

/// A history entry that records no push: the run was skipped.
pub open spec fn skipped_entry_spec(
    id: Seq<char>,
    at: LocalDateTime,
    e: HistoryEntry,
    message: Seq<char>,
) -> bool {
    &&& e.schedule_id@ == id
    &&& e.started_at == at
    &&& e.finished_at == at
    &&& e.status == RunStatus::Skipped
    &&& e.error matches Some(m) && m@ == message
    &&& e.filename is None
}

/// The message of a run skipped because another run of the same schedule
/// is in flight.
pub open spec fn overlap_message() -> Seq<char> {
    "a previous run of this schedule is still in flight"@
}

/// Starts a run of `schedule_id`: when another run of it is in flight the
/// run is skipped (the returned entry, with the running set untouched and no
/// push); otherwise the schedule is marked running and `None` says to push.
pub fn begin_run(running: &mut RunningSet, schedule_id: &str, started_at: LocalDateTime) -> (r:
    Option<HistoryEntry>)
    ensures
        old(running).holds(schedule_id@) ==> (r matches Some(e) && skipped_entry_spec(
            schedule_id@,
            started_at,
            e,
            overlap_message(),
        ) && *final(running) == *old(running)),
        !old(running).holds(schedule_id@) ==> (r is None && forall|id: Seq<char>|
            final(running).holds(id) <==> (old(running).holds(id) || id == schedule_id@)),
{
    if running.contains(schedule_id) {
        let m = chars_of("a previous run of this schedule is still in flight");
        return Some(
            HistoryEntry {
                schedule_id: string_from_chars(&chars_of(schedule_id)),
                started_at,
                finished_at: started_at,
                status: RunStatus::Skipped,
                error: Some(string_from_chars(&m)),
                filename: None,
            },
        );
    }
    running.insert(schedule_id);
    None
}

/// Ends a run of `schedule_id`: it is no longer in flight.
pub fn end_run(running: &mut RunningSet, schedule_id: &str)
    ensures
        forall|id: Seq<char>|
            final(running).holds(id) <==> (old(running).holds(id) && id != schedule_id@),
{
    running.remove(schedule_id);
}

/// The error recorded when both attempts failed.
pub open spec fn both_failed_message(first: Seq<char>, second: Seq<char>) -> Seq<char> {
    "attempt 1 failed: "@ + first + "; retry failed: "@ + second
}

/// What follows one push attempt: a success is recorded as such; a first
/// failure (no earlier error) calls for one more attempt (`None`); a failed
/// retry is recorded as `Failed` with both errors.
pub open spec fn outcome_after_attempt(
    schedule_id: Seq<char>,
    started_at: LocalDateTime,
    finished_at: LocalDateTime,
    first_error: Option<String>,
    result: Result<String, String>,
    r: Option<HistoryEntry>,
) -> bool {
    &&& result matches Ok(f) ==> (r matches Some(e) && e.schedule_id@ == schedule_id
        && e.started_at == started_at && e.finished_at == finished_at && e.status
        == RunStatus::Success && e.error is None && e.filename == Some(f))
    &&& (result is Err && first_error is None) ==> r is None
    &&& (result is Err && first_error is Some) ==> (r matches Some(e) && e.schedule_id@
        == schedule_id && e.started_at == started_at && e.finished_at == finished_at
        && e.status == RunStatus::Failed && e.filename is None && e.error is Some
        && e.error->0@ == both_failed_message(first_error->0@, result->Err_0@))
}

/// The decision after one push attempt. A success is recorded as such. A
/// first failure (`first_error` is `None`) yields `None`: wait the retry
/// delay and push once more. A failure of the retry is recorded as `Failed`
/// with both errors.
pub fn attempt_outcome(
    schedule_id: &str,
    started_at: LocalDateTime,
    finished_at: LocalDateTime,
    first_error: Option<String>,
    result: Result<String, String>,
) -> (r: Option<HistoryEntry>)
    ensures
        outcome_after_attempt(schedule_id@, started_at, finished_at, first_error, result, r),
{
    match result {
        Ok(f) => Some(
            HistoryEntry {
                schedule_id: string_from_chars(&chars_of(schedule_id)),
                started_at,
                finished_at,
                status: RunStatus::Success,
                error: None,
                filename: Some(f),
            },
        ),
        Err(second) => match first_error {
            None => None,
            Some(first) => {
                let mut m = chars_of("attempt 1 failed: ");
                push_str(&mut m, first.as_str());
                push_str(&mut m, "; retry failed: ");
                push_str(&mut m, second.as_str());
                Some(
                    HistoryEntry {
                        schedule_id: string_from_chars(&chars_of(schedule_id)),
                        started_at,
                        finished_at,
                        status: RunStatus::Failed,
                        error: Some(string_from_chars(&m)),
                        filename: None,
                    },
                )
            },
        },
    }
}

/// The entry of a run skipped because its device is no longer configured.
pub fn unresolved_device_entry(schedule_id: &str, now: LocalDateTime, err: &str) -> (e:
    HistoryEntry)
    ensures
        skipped_entry_spec(schedule_id@, now, e, "run skipped: "@ + err@),
{
    let mut m = chars_of("run skipped: ");
    push_str(&mut m, err);
    HistoryEntry {
        schedule_id: string_from_chars(&chars_of(schedule_id)),
        started_at: now,
        finished_at: now,
        status: RunStatus::Skipped,
        error: Some(string_from_chars(&m)),
        filename: None,
    }
}

/// A run of a schedule that was not in flight leaves the running set as it
/// found it once it ends, and a skipped run never touches it.
pub proof fn law_run_restores_running_set(
    before: RunningSet,
    during: RunningSet,
    after: RunningSet,
    id: Seq<char>,
)
    requires
        !before.holds(id),
        forall|x: Seq<char>| during.holds(x) <==> (before.holds(x) || x == id),
        forall|x: Seq<char>| after.holds(x) <==> (during.holds(x) && x != id),
    ensures
        forall|x: Seq<char>| after.holds(x) <==> before.holds(x),
{
}

/// A run that was not skipped pushes once, and a second time only when the
/// first push failed; after the second push it always ends. Its one
/// history entry is filed under the schedule, is never `Skipped`, and
/// names an uploaded file exactly when it records a success.
pub proof fn law_run_is_one_or_two_attempts(
    schedule_id: Seq<char>,
    started_at: LocalDateTime,
    first_finished: LocalDateTime,
    second_finished: LocalDateTime,
    first: Result<String, String>,
    second: Result<String, String>,
    first_outcome: Option<HistoryEntry>,
    second_outcome: Option<HistoryEntry>,
)
    requires
        outcome_after_attempt(schedule_id, started_at, first_finished, None, first, first_outcome),
        first_outcome is None ==> outcome_after_attempt(
            schedule_id,
            started_at,
            second_finished,
            first.err(),
            second,
            second_outcome,
        ),
    ensures
        first_outcome is None <==> first is Err,
        first_outcome is None ==> second_outcome is Some,
        ({
            let e = if first_outcome is Some {
                first_outcome->0
            } else {
                second_outcome->0
            };
            &&& e.schedule_id@ == schedule_id
            &&& e.status != RunStatus::Skipped
            &&& e.filename is Some <==> e.status == RunStatus::Success
        }),
{
}

/// Reads back up to `limit` entries, newest first (the history file is
/// appended oldest first).
pub fn newest_first(entries: Vec<HistoryEntry>, limit: usize) -> (r: Vec<HistoryEntry>)
    ensures
        r@ == entries@.reverse().take(
            if limit < entries@.len() { limit as int } else { entries@.len() as int },
        ),
{
    let ghost orig = entries@;
    let mut entries = entries;
    let mut out: Vec<HistoryEntry> = Vec::new();
    while out.len() < limit && entries.len() > 0
        invariant
            entries@ == orig.take(entries@.len() as int),
            entries@.len() + out@.len() == orig.len(),
            out@ == orig.reverse().take(out@.len() as int),
            out@.len() <= limit,
        decreases entries@.len(),
    {
        let e = entries.pop().unwrap();
        proof {
            assert(e == orig[entries@.len() as int]);
            assert(orig.reverse()[out@.len() as int] == orig[orig.len() - 1 - out@.len()]);
        }
        out.push(e);
        assert(out@ =~= orig.reverse().take(out@.len() as int));
        assert(entries@ =~= orig.take(entries@.len() as int));
    }
    out
}

/// The notification of a failed run: the schedule's name in the title and
/// the recorded error (or a stock sentence) as the body.
pub fn failure_notification_content(schedule_name: &str, entry: &HistoryEntry) -> (r: (
    String,
    String,
))
    ensures
        r.0@ == "Bloomin8: "@ + schedule_name@ + " failed"@,
        r.1@ == (match entry.error {
            Some(e) => e@,
            None => "scheduled run failed (no error detail recorded)"@,
        }),
{
    let mut t = chars_of("Bloomin8: ");
    push_str(&mut t, schedule_name);
    push_str(&mut t, " failed");
    let body = match &entry.error {
        Some(e) => e.clone(),
        None => string_from_chars(&chars_of("scheduled run failed (no error detail recorded)")),
    };
    (string_from_chars(&t), body)
}

/// What the tray and the notifications do with a finished run.
#[derive(Debug, Clone, Copy, PartialEq, Eq)]
pub struct RunResultEffect {
    /// New value of the failure badge, if it changes.
    pub badge: Option<bool>,
    /// Whether an OS notification is shown.
    pub notify: bool,
}

/// A failed run sets the failure badge and notifies; a successful run
/// clears the badge; a skipped run changes nothing.
pub fn run_result_effect(status: RunStatus) -> (r: RunResultEffect)
    ensures
        status == RunStatus::Failed ==> r == (RunResultEffect { badge: Some(true), notify: true }),
        status == RunStatus::Success ==> r == (RunResultEffect { badge: Some(false), notify: false }),
        status == RunStatus::Skipped ==> r == (RunResultEffect { badge: None, notify: false }),
{
    match status {
        RunStatus::Failed => RunResultEffect { badge: Some(true), notify: true },
        RunStatus::Success => RunResultEffect { badge: Some(false), notify: false },
        RunStatus::Skipped => RunResultEffect { badge: None, notify: false },
    }
}

/// One recurring push: a widget configuration and a cron expression. `id` is
/// stable when `name` or `cron` change and keys overlap prevention and the
/// history; a blank `device_id` (a schedule saved before devices were bound)
/// pushes to the active device.
#[derive(Debug, Clone, PartialEq)]
pub struct Schedule {
    pub id: String,
    pub name: String,
    pub device_id: String,
    pub widget: WidgetRenderConfig,
    /// Six-field (with seconds) or five-field cron expression.
    pub cron: String,
    pub enabled: bool,
}

/// Index of the first schedule of `list` at or after `from` whose id is `id`.
pub open spec fn schedule_position(list: Seq<Schedule>, id: Seq<char>, from: int) -> Option<int>
    decreases list.len() - from,
{
    if from < 0 || from >= list.len() {
        None
    } else if list[from].id@ == id {
        Some(from)
    } else {
        schedule_position(list, id, from + 1)
    }
}

proof fn lemma_schedule_position(list: Seq<Schedule>, id: Seq<char>, from: int)
    requires
        0 <= from,
    ensures
        schedule_position(list, id, from) matches Some(i) ==> from <= i < list.len()
            && list[i].id@ == id && forall|j: int| from <= j < i ==> list[j].id@ != id,
        schedule_position(list, id, from) is None ==> forall|j: int|
            from <= j < list.len() ==> list[j].id@ != id,
    decreases list.len() - from,
{
    if from < list.len() && list[from].id@ != id {
        lemma_schedule_position(list, id, from + 1);
    }
}

/// Position of the first schedule with id `id`.
pub fn find_schedule(list: &Vec<Schedule>, id: &str) -> (r: Option<usize>)
    ensures
        r matches Some(i) ==> schedule_position(list@, id@, 0) == Some(i as int) && i < list.len(),
        r is None ==> schedule_position(list@, id@, 0) is None,
{
    proof {
        lemma_schedule_position(list@, id@, 0);
    }
    let mut i: usize = 0;
    while i < list.len()
        invariant
            i <= list.len(),
            schedule_position(list@, id@, 0) == schedule_position(list@, id@, i as int),
        decreases list.len() - i,
    {
        if str_eq(list[i].id.as_str(), id) {
            return Some(i);
        }
        i = i + 1;
    }
    None
}

/// The list after saving `schedule`: it replaces the schedule with its id,
/// or is appended when that id is new.
pub open spec fn saved_list(list: Seq<Schedule>, schedule: Schedule) -> Seq<Schedule> {
    match schedule_position(list, schedule.id@, 0) {
        Some(i) => list.update(i, schedule),
        None => list.push(schedule),
    }
}

/// Saves `schedule` into the list (the Schedules page's save).
pub fn upsert_schedule(list: &mut Vec<Schedule>, schedule: Schedule)
    ensures
        final(list)@ == saved_list(old(list)@, schedule),
{
    match find_schedule(list, schedule.id.as_str()) {
        Some(i) => {
            list[i] = schedule;
        },
        None => {
            list.push(schedule);
        },
    }
}

/// Whether a schedule does not have the id `id`.
pub open spec fn other_than(id: Seq<char>) -> spec_fn(Schedule) -> bool {
    |s: Schedule| s.id@ != id
}

/// Deletes every schedule with the id `id`, keeping the others in order.
pub fn delete_schedule(list: &mut Vec<Schedule>, id: &str)
    ensures
        final(list)@ == old(list)@.filter(other_than(id@)),
{
    let ghost orig = list@;
    let mut rest: Vec<Schedule> = Vec::new();
    std::mem::swap(list, &mut rest);
    let mut kept: Vec<Schedule> = Vec::new();
    let ghost mut k: int = 0;
    while rest.len() > 0
        invariant
            0 <= k <= orig.len(),
            rest@ == orig.skip(k),
            kept@ == orig.take(k).filter(other_than(id@)),
        decreases rest.len(),
    {
        let s = rest.remove(0);
        proof {
            assert(s == orig[k]);
            assert(orig.take(k + 1).drop_last() =~= orig.take(k));
            assert(orig.take(k + 1).last() == orig[k]);
            reveal(Seq::filter);
        }
        if !str_eq(s.id.as_str(), id) {
            kept.push(s);
        }
        proof {
            k = k + 1;
            assert(rest@ =~= orig.skip(k));
        }
    }
    assert(orig.take(k) =~= orig);
    *list = kept;
}

/// The schedules a reload wires a cron job for: the enabled ones, in order.
pub fn enabled_schedules(list: Vec<Schedule>) -> (r: Vec<Schedule>)
    ensures
        r@ == list@.filter(|s: Schedule| s.enabled),
{
    let ghost orig = list@;
    let ghost pred = |s: Schedule| s.enabled;
    let mut rest = list;
    let mut kept: Vec<Schedule> = Vec::new();
    let ghost mut k: int = 0;
    while rest.len() > 0
        invariant
            0 <= k <= orig.len(),
            rest@ == orig.skip(k),
            kept@ == orig.take(k).filter(pred),
            pred == (|s: Schedule| s.enabled),
        decreases rest.len(),
    {
        let s = rest.remove(0);
        proof {
            assert(s == orig[k]);
            assert(orig.take(k + 1).drop_last() =~= orig.take(k));
            assert(orig.take(k + 1).last() == orig[k]);
            reveal(Seq::filter);
        }
        if s.enabled {
            kept.push(s);
        }
        proof {
            k = k + 1;
            assert(rest@ =~= orig.skip(k));
        }
    }
    assert(orig.take(k) =~= orig);
    kept
}

/// The name a notification shows for `schedule_id`: the schedule's name, or
/// the id itself once the schedule is gone.
pub fn schedule_name(list: &Vec<Schedule>, schedule_id: &str) -> (r: String)
    ensures
        r@ == (match schedule_position(list@, schedule_id@, 0) {
            Some(i) => list@[i].name@,
            None => schedule_id@,
        }),
{
    match find_schedule(list, schedule_id) {
        Some(i) => list[i].name.clone(),
        None => schedule_id.to_owned(),
    }
}

/// The message of a run-now request for an unknown schedule.
pub open spec fn unknown_schedule_text(id: Seq<char>) -> Seq<char> {
    "no schedule with id "@ + debug_quoted(id)
}

/// The schedule a run-now request names, or why there is none.
pub fn schedule_for_run_now<'a>(list: &'a Vec<Schedule>, schedule_id: &str) -> (r: Result<
    &'a Schedule,
    String,
>)
    ensures
        r is Ok <==> schedule_position(list@, schedule_id@, 0) is Some,
        r matches Ok(s) ==> *s == list@[schedule_position(list@, schedule_id@, 0)->0],
        r matches Err(m) ==> m@ == unknown_schedule_text(schedule_id@),
{
    match find_schedule(list, schedule_id) {
        Some(i) => Ok(&list[i]),
        None => {
            let mut m = chars_of("no schedule with id ");
            let q = debug_str(schedule_id);
            push_str(&mut m, q.as_str());
            Err(string_from_chars(&m))
        },
    }
}

/// Saving a schedule makes it the one found under its id, and leaves every
/// schedule of another id where it was.
pub proof fn law_saved_schedule_is_found(list: Seq<Schedule>, schedule: Schedule, other: Seq<char>)
    requires
        other != schedule.id@,
    ensures
        schedule_position(saved_list(list, schedule), schedule.id@, 0) matches Some(i)
            && saved_list(list, schedule)[i] == schedule,
        schedule_position(saved_list(list, schedule), other, 0) == schedule_position(list, other, 0),
{
    let out = saved_list(list, schedule);
    lemma_schedule_position(list, schedule.id@, 0);
    lemma_schedule_position(list, other, 0);
    lemma_schedule_position(out, schedule.id@, 0);
    lemma_schedule_position(out, other, 0);
    match schedule_position(list, schedule.id@, 0) {
        Some(i) => {
            assert(out[i] == schedule);
            if schedule_position(out, schedule.id@, 0) != Some(i) {
                assert(out[i].id@ == schedule.id@);
            }
        },
        None => {
            assert(out[list.len() as int] == schedule);
        },
    }
    match schedule_position(list, other, 0) {
        Some(j) => {
            assert(out[j] == list[j]);
        },
        None => {},
    }
    match schedule_position(out, other, 0) {
        Some(j) => {
            assert(out[j].id@ == other);
        },
        None => {},
    }
}

/// Deleting a schedule leaves none with its id.
pub proof fn law_deleted_schedule_is_gone(list: Seq<Schedule>, id: Seq<char>)
    ensures
        schedule_position(list.filter(other_than(id)), id, 0) is None,
{
    broadcast use vstd::seq_lib::group_filter_ensures;
    let out = list.filter(other_than(id));
    lemma_schedule_position(out, id, 0);
    if schedule_position(out, id, 0) is Some {
        let i = schedule_position(out, id, 0)->0;
        assert((other_than(id))(out[i]));
    }
}

/// How an image schedule pushes its library image: the item, the push
/// dialog's settings (always rotated clockwise, as image schedules do not
/// offer a direction) and the fit mode.
#[derive(Debug, Clone, PartialEq)]
pub struct ImagePush {
    pub library_id: String,
    pub mode: String,
    pub settings: PushSettings,
}

/// An image schedule skips the widget renderer and pushes its library image
/// with these settings; any other widget is rendered (`None`).
pub fn image_push(req: &WidgetRenderConfig) -> (r: Option<ImagePush>)
    ensures
        req.widget is Image <==> r is Some,
        r matches Some(p) ==> {
            &&& req.widget matches WidgetConfig::Image { library_id, mode, border }
            &&& p.library_id@ == library_id@
            &&& p.mode@ == mode@
            &&& p.settings.landscape == (req.orientation == PanelOrientation::Landscape)
            &&& p.settings.rotate_cw
            &&& p.settings.border_white == (border@ == "white"@)
        },
{
    match &req.widget {
        WidgetConfig::Image { library_id, mode, border } => {
            let landscape = match req.orientation {
                PanelOrientation::Landscape => true,
                PanelOrientation::Portrait => false,
            };
            Some(
                ImagePush {
                    library_id: library_id.clone(),
                    mode: mode.clone(),
                    settings: PushSettings {
                        landscape,
                        rotate_cw: true,
                        border_white: str_eq(border.as_str(), "white"),
                    },
                },
            )
        },
        _ => None,
    }
}

/// After a scheduled run: a successful push is remembered as the last push
/// of the schedule's resolved device, with the schedule's orientation.
/// Nothing is recorded for a failed or skipped run, a run without a
/// filename, or a device that no longer resolves.
pub fn last_push_record(
    entry: &HistoryEntry,
    resolved_device_id: Option<String>,
    orientation: PanelOrientation,
) -> (r: Option<(String, LastPush)>)
    ensures
        r is Some <==> (entry.status == RunStatus::Success && entry.filename is Some
            && resolved_device_id is Some),
        r matches Some((id, push)) ==> {
            &&& id@ == resolved_device_id->0@
            &&& push.filename@ == entry.filename->0@
            &&& push.orientation@ == orientation_text(orientation)
        },
{
    match entry.status {
        RunStatus::Success => {},
        _ => {
            return None;
        },
    }
    match (&entry.filename, resolved_device_id) {
        (Some(f), Some(id)) => Some(
            (id, LastPush { filename: f.clone(), orientation: orientation_str(orientation).to_owned() }),
        ),
        _ => None,
    }
}

} // verus!
