//! The persisted application configuration: the configured devices and which
//! one is active, with the rules that pick the device a command or a
//! schedule acts on.

use vstd::prelude::*;
use crate::text::{blank, is_blank, str_eq};

verus! {

/// File name of the configuration inside the application data directory.
pub const CONFIG_FILE_NAME: &'static str = "device.json";

/// One configured device. `id` is an opaque identifier that stays stable even
/// when `name` or `lan_ip` change.
#[derive(Debug, Clone, PartialEq, Eq, Default)]
pub struct DeviceEntry {
    pub id: String,
    pub name: String,
    pub lan_ip: String,
    pub ble_name: String,
}

/// The top-level configuration.
#[derive(Debug, Clone, PartialEq, Eq, Default)]
pub struct AppConfig {
    pub devices: Vec<DeviceEntry>,
    pub active_device_id: Option<String>,
}

/// Index of the first device in `ds` at or after `from` whose id is `id`.
pub open spec fn index_of_id(ds: Seq<DeviceEntry>, id: Seq<char>, from: int) -> Option<int>
    decreases ds.len() - from,
{
    if from < 0 || from >= ds.len() {
        None
    } else if ds[from].id@ == id {
        Some(from)
    } else {
        index_of_id(ds, id, from + 1)
    }
}

/// Index of the device the UI and commands act on: the one named by
/// `active_device_id` when it names a configured device, else the first.
pub open spec fn active_index(cfg: AppConfig) -> Option<int> {
    match cfg.active_device_id {
        Some(id) => match index_of_id(cfg.devices@, id@, 0) {
            Some(i) => Some(i),
            None => if cfg.devices@.len() > 0 { Some(0int) } else { None },
        },
        None => if cfg.devices@.len() > 0 { Some(0int) } else { None },
    }
}

/// Index of the device a schedule bound to `device_id` pushes to: the active
/// device for a blank id (a schedule saved before devices were bound),
/// otherwise the device with exactly that id, if it is still configured.
pub open spec fn schedule_index(cfg: AppConfig, device_id: Seq<char>) -> Option<int> {
    if is_blank(device_id) {
        active_index(cfg)
    } else {
        index_of_id(cfg.devices@, device_id, 0)
    }
}

/// The device at index `i` of the configuration, when `i` is `Some`.
pub open spec fn entry_at(cfg: AppConfig, i: Option<int>) -> Option<DeviceEntry> {
    match i {
        Some(k) => Some(cfg.devices@[k]),
        None => None,
    }
}

/// Relates a returned reference to the device the spec selects.
pub open spec fn is_entry(r: Option<&DeviceEntry>, e: Option<DeviceEntry>) -> bool {
    match (r, e) {
        (Some(d), Some(x)) => *d == x,
        (None, None) => true,
        _ => false,
    }
}

proof fn lemma_index_of_id(ds: Seq<DeviceEntry>, id: Seq<char>, from: int)
    requires
        0 <= from,
    ensures
        index_of_id(ds, id, from) matches Some(i) ==> from <= i < ds.len() && ds[i].id@ == id
            && forall|j: int| from <= j < i ==> ds[j].id@ != id,
        index_of_id(ds, id, from) is None ==> forall|j: int|
            from <= j < ds.len() ==> ds[j].id@ != id,
    decreases ds.len() - from,
{
    if from < ds.len() && ds[from].id@ != id {
        lemma_index_of_id(ds, id, from + 1);
    }
}

fn find_by_id(devices: &Vec<DeviceEntry>, id: &str) -> (r: Option<usize>)
    ensures
        r matches Some(i) ==> index_of_id(devices@, id@, 0) == Some(i as int),
        r is None ==> index_of_id(devices@, id@, 0) is None,
{
    let mut i: usize = 0;
    while i < devices.len()
        invariant
            i <= devices.len(),
            index_of_id(devices@, id@, 0) == index_of_id(devices@, id@, i as int),
        decreases devices.len() - i,
    {
        if str_eq(devices[i].id.as_str(), id) {
            return Some(i);
        }
        i = i + 1;
    }
    None
}

impl AppConfig {
    /// The device the UI and commands act on: `active_device_id` when it names
    /// a configured device, otherwise the first configured device.
    pub fn active_device(&self) -> (r: Option<&DeviceEntry>)
        ensures
            is_entry(r, entry_at(*self, active_index(*self))),
            r is Some <==> self.devices@.len() > 0,
            (self.active_device_id is Some && index_of_id(
                self.devices@,
                self.active_device_id->0@,
                0,
            ) is Some) ==> (r is Some && r->0.id@ == self.active_device_id->0@),
    {
        proof {
            if self.active_device_id is Some {
                lemma_index_of_id(self.devices@, self.active_device_id->0@, 0);
            }
        }
        if let Some(id) = &self.active_device_id {
            if let Some(i) = find_by_id(&self.devices, id.as_str()) {
                return Some(&self.devices[i]);
            }
        }
        if self.devices.len() > 0 {
            Some(&self.devices[0])
        } else {
            None
        }
    }

    /// The device a schedule bound to `device_id` pushes to. A blank
    /// `device_id` falls back to [`AppConfig::active_device`]; an id that
    /// matches no configured device (it was deleted) yields `None`.
    pub fn device_for_schedule(&self, device_id: &str) -> (r: Option<&DeviceEntry>)
        ensures
            is_entry(r, entry_at(*self, schedule_index(*self, device_id@))),
            !is_blank(device_id@) ==> (r is Some <==> exists|j: int|
                0 <= j < self.devices@.len() && #[trigger] self.devices@[j].id@ == device_id@),
            !is_blank(device_id@) ==> (r matches Some(d) ==> d.id@ == device_id@),
    {
        proof {
            lemma_index_of_id(self.devices@, device_id@, 0);
        }
        if blank(device_id) {
            return self.active_device();
        }
        match find_by_id(&self.devices, device_id) {
            Some(i) => Some(&self.devices[i]),
            None => None,
        }
    }
}

/// A schedule saved before devices were bound to schedules (blank device id)
/// pushes to exactly the device the UI has active.
pub proof fn law_blank_schedule_device_is_active(cfg: AppConfig, device_id: Seq<char>)
    requires
        is_blank(device_id),
    ensures
        schedule_index(cfg, device_id) == active_index(cfg),
{
}

/// A schedule bound to a configured device pushes to that device, whichever
/// device the UI has active; one bound to a removed device resolves to none.
pub proof fn law_bound_schedule_ignores_active(
    cfg: AppConfig,
    other_active: Option<String>,
    device_id: Seq<char>,
)
    requires
        !is_blank(device_id),
    ensures
        schedule_index(cfg, device_id) == schedule_index(
            AppConfig { devices: cfg.devices, active_device_id: other_active },
            device_id,
        ),
        schedule_index(cfg, device_id) matches Some(i) ==> cfg.devices@[i].id@ == device_id,
        (forall|j: int| 0 <= j < cfg.devices@.len() ==> #[trigger] cfg.devices@[j].id@ != device_id)
            ==> schedule_index(cfg, device_id) is None,
{
    lemma_index_of_id(cfg.devices@, device_id, 0);
}

} // verus!
