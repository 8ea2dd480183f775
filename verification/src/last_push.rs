//! The last image pushed to each device, with the orientation it was pushed
//! in, so that a landscape push can be shown upright. A device's newer
//! record replaces the older one.

use vstd::prelude::*;
use crate::config::{active_index, entry_at, AppConfig};
use crate::text::str_eq;

verus! {

/// File name of the store in the application data directory.
pub const LAST_PUSH_FILE_NAME: &'static str = "last_push.json";

/// One device's last push: the filename and `portrait` / `landscape`.
#[derive(Debug, Clone, PartialEq)]
pub struct LastPush {
    pub filename: String,
    pub orientation: String,
}

/// A copy of one record.
fn copy_of(p: &LastPush) -> (c: LastPush)
    ensures
        c == *p,
{
    LastPush { filename: p.filename.clone(), orientation: p.orientation.clone() }
}

/// The records of a store, later records replacing earlier ones of the same
/// device.
pub open spec fn store_map(entries: Seq<(String, LastPush)>) -> Map<Seq<char>, LastPush>
    decreases entries.len(),
{
    if entries.len() == 0 {
        Map::empty()
    } else {
        store_map(entries.drop_last()).insert(entries.last().0@, entries.last().1)
    }
}

/// Device id -> last push, as a list of records.
#[derive(Debug, Clone, PartialEq)]
pub struct LastPushStore {
    pub entries: Vec<(String, LastPush)>,
}

/// The entries that do not belong to `id`.
pub open spec fn without_key(entries: Seq<(String, LastPush)>, id: Seq<char>) -> Seq<
    (String, LastPush),
>
    decreases entries.len(),
{
    if entries.len() == 0 {
        entries
    } else if entries.last().0@ == id {
        without_key(entries.drop_last(), id)
    } else {
        without_key(entries.drop_last(), id).push(entries.last())
    }
}

proof fn lemma_without_key(entries: Seq<(String, LastPush)>, id: Seq<char>)
    ensures
        store_map(without_key(entries, id)) == store_map(entries).remove(id),
    decreases entries.len(),
{
    if entries.len() > 0 {
        let rest = entries.drop_last();
        let last = entries.last();
        lemma_without_key(rest, id);
        if last.0@ != id {
            let w = without_key(rest, id);
            assert(w.push(last).drop_last() =~= w);
            assert(store_map(w.push(last)) == store_map(w).insert(last.0@, last.1));
        }
        assert(store_map(without_key(entries, id)) =~= store_map(entries).remove(id));
    } else {
        assert(store_map(entries).remove(id) =~= Map::empty());
    }
}

impl LastPushStore {
    /// The records of this store.
    pub open spec fn view_map(&self) -> Map<Seq<char>, LastPush> {
        store_map(self.entries@)
    }

    /// An empty store.
    pub fn new() -> (s: Self)
        ensures
            s.view_map() == Map::<Seq<char>, LastPush>::empty(),
    {
        LastPushStore { entries: Vec::new() }
    }

    /// The last push recorded for `device_id`.
    pub fn get(&self, device_id: &str) -> (r: Option<LastPush>)
        ensures
            r == (if self.view_map().dom().contains(device_id@) {
                Some(self.view_map()[device_id@])
            } else {
                None
            }),
    {
        let ghost all = self.entries@;
        let ghost id = device_id@;
        let mut i: usize = self.entries.len();
        assert(all.take(all.len() as int) =~= all);
        while i > 0
            invariant
                i <= all.len(),
                all == self.entries@,
                id == device_id@,
                store_map(all.take(i as int)).dom().contains(id) == store_map(all).dom().contains(id),
                store_map(all.take(i as int)).dom().contains(id) ==> store_map(all.take(i as int))[id]
                    == store_map(all)[id],
            decreases i,
        {
            assert(all.take(i as int).drop_last() =~= all.take(i - 1));
            assert(all.take(i as int).last() == all[i - 1]);
            if str_eq(self.entries[i - 1].0.as_str(), device_id) {
                return Some(copy_of(&self.entries[i - 1].1));
            }
            i = i - 1;
        }
        None
    }

    /// Records (replaces) the last push of `device_id`.
    pub fn record(&mut self, device_id: String, push: LastPush)
        ensures
            final(self).view_map() == old(self).view_map().insert(device_id@, push),
    {
        self.entries.push((device_id, push));
        assert(self.entries@.drop_last() == old(self).entries@);
    }

    /// Forgets the last push of `device_id`; whether there was one.
    pub fn remove(&mut self, device_id: &str) -> (changed: bool)
        ensures
            changed == old(self).view_map().dom().contains(device_id@),
            final(self).view_map() == old(self).view_map().remove(device_id@),
    {
        let ghost before = self.entries@;
        let mut kept: Vec<(String, LastPush)> = Vec::new();
        let mut found = false;
        let mut i: usize = 0;
        while i < self.entries.len()
            invariant
                i <= self.entries@.len(),
                self.entries@ == before,
                kept@ == without_key(before.take(i as int), device_id@),
                found == store_map(before.take(i as int)).dom().contains(device_id@),
            decreases self.entries.len() - i,
        {
            let ghost pre = before.take(i + 1);
            assert(pre.drop_last() == before.take(i as int));
            assert(pre.last() == before[i as int]);
            if str_eq(self.entries[i].0.as_str(), device_id) {
                found = true;
            } else {
                let key = self.entries[i].0.clone();
                let value = copy_of(&self.entries[i].1);
                kept.push((key, value));
            }
            i = i + 1;
        }
        assert(before.take(before.len() as int) == before);
        proof {
            lemma_without_key(before, device_id@);
        }
        self.entries = kept;
        found
    }
}

/// The last push recorded for the configuration's active device, or `None`
/// when no device is configured or nothing was pushed to it yet.
pub fn last_push(cfg: &AppConfig, store: &LastPushStore) -> (r: Option<LastPush>)
    ensures
        r == (match entry_at(*cfg, active_index(*cfg)) {
            Some(d) => if store.view_map().dom().contains(d.id@) {
                Some(store.view_map()[d.id@])
            } else {
                None
            },
            None => None,
        }),
{
    match cfg.active_device() {
        Some(d) => store.get(d.id.as_str()),
        None => None,
    }
}

/// What a read gives back after a write: the push just recorded for that
/// device, and, for every other device, what was there before.
pub proof fn law_last_push_read_after_write(
    before: Map<Seq<char>, LastPush>,
    device_id: Seq<char>,
    push: LastPush,
    other: Seq<char>,
)
    requires
        other != device_id,
    ensures
        before.insert(device_id, push).dom().contains(device_id),
        before.insert(device_id, push)[device_id] == push,
        before.insert(device_id, push).dom().contains(other) == before.dom().contains(other),
        before.dom().contains(other) ==> before.insert(device_id, push)[other] == before[other],
        !before.remove(device_id).dom().contains(device_id),
{
}

} // verus!
