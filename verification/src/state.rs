//! The set of tracked devices and which one drives the tray icon: initial choice
//! from the persisted selection, menu clicks, and reconciliation with sysfs.

use vstd::prelude::*;
use crate::device::{
    alert_view, observe_alert, observe_changed, observe_next, DeviceReading, DeviceState,
    DiscoveredDevice, LowBatteryAlert,
};
use crate::label::device_label;
use crate::text::opt_chars;

verus! {

/// Whether some device in `devices` has the sysfs id `id`.
pub open spec fn has_sysfs_id(devices: Seq<DeviceState>, id: Seq<char>) -> bool {
    exists|i: int| 0 <= i < devices.len() && (#[trigger] devices[i]).sysfs_id@ == id
}

/// Whether `i` is the first position in `devices` with the sysfs id `id`.
pub open spec fn first_with_sysfs_id(devices: Seq<DeviceState>, id: Seq<char>, i: int) -> bool {
    &&& 0 <= i < devices.len()
    &&& devices[i].sysfs_id@ == id
    &&& forall|j: int| 0 <= j < i ==> (#[trigger] devices[j]).sysfs_id@ != id
}

/// Whether some device in `devices` has the persistent id `pid`.
pub open spec fn has_persistent_id(devices: Seq<DeviceState>, pid: Seq<char>) -> bool {
    exists|i: int| 0 <= i < devices.len() && (#[trigger] devices[i]).persistent_id@ == pid
}

/// Whether `i` is the first position in `devices` with the persistent id `pid`.
pub open spec fn first_with_persistent_id(devices: Seq<DeviceState>, pid: Seq<char>, i: int) -> bool {
    &&& 0 <= i < devices.len()
    &&& devices[i].persistent_id@ == pid
    &&& forall|j: int| 0 <= j < i ==> (#[trigger] devices[j]).persistent_id@ != pid
}

/// The sysfs id chosen at startup: that of the first device with the persisted
/// `vendor:product` id, else that of the first device, else none.
pub open spec fn initial_selection(devices: Seq<DeviceState>, persisted: Option<Seq<char>>) -> Option<Seq<char>> {
    if persisted is Some && has_persistent_id(devices, persisted->0) {
        Some(devices[choose|i: int| first_with_persistent_id(devices, persisted->0, i)].sysfs_id@)
    } else if devices.len() > 0 {
        Some(devices[0].sysfs_id@)
    } else {
        None
    }
}

/// Whether a sysfs entry with id `id` was found in the latest scan.
pub open spec fn is_discovered(discovered: Seq<DiscoveredDevice>, id: Seq<char>) -> bool {
    exists|k: int| 0 <= k < discovered.len() && (#[trigger] discovered[k]).sysfs_id@ == id
}

/// The devices of `devices` whose sysfs entry was found in the latest scan, in order.
pub open spec fn still_present(devices: Seq<DeviceState>, discovered: Seq<DiscoveredDevice>) -> Seq<DeviceState>
    decreases devices.len(),
{
    if devices.len() == 0 {
        devices
    } else {
        let rest = still_present(devices.drop_last(), discovered);
        if is_discovered(discovered, devices.last().sysfs_id@) {
            rest.push(devices.last())
        } else {
            rest
        }
    }
}

/// Reconciling with a scan keeps a device exactly when some scanned entry has its
/// sysfs id: every kept device was tracked and has its sysfs id in the scan, and
/// every tracked device whose sysfs id is in the scan is kept, whatever the
/// persistent ids.
pub proof fn lemma_still_present_by_sysfs_id(devices: Seq<DeviceState>, discovered: Seq<DiscoveredDevice>)
    ensures
        forall|i: int|
            0 <= i < still_present(devices, discovered).len() ==> {
                &&& devices.contains(#[trigger] still_present(devices, discovered)[i])
                &&& exists|k: int|
                    0 <= k < discovered.len() && (#[trigger] discovered[k]).sysfs_id@
                        == still_present(devices, discovered)[i].sysfs_id@
            },
        forall|j: int|
            0 <= j < devices.len() && (exists|k: int|
                0 <= k < discovered.len() && (#[trigger] discovered[k]).sysfs_id@
                    == devices[j].sysfs_id@) ==> still_present(devices, discovered).contains(
                #[trigger] devices[j],
            ),
    decreases devices.len(),
{
    if devices.len() > 0 {
        let prev = devices.drop_last();
        lemma_still_present_by_sysfs_id(prev, discovered);
        let rest = still_present(prev, discovered);
        let kept = still_present(devices, discovered);
        assert forall|i: int| 0 <= i < kept.len() implies {
            &&& devices.contains(#[trigger] kept[i])
            &&& exists|k: int|
                0 <= k < discovered.len() && (#[trigger] discovered[k]).sysfs_id@
                    == kept[i].sysfs_id@
        } by {
            if i < rest.len() {
                assert(kept[i] == rest[i]);
                let w = choose|w: int| 0 <= w < prev.len() && prev[w] == rest[i];
                assert(devices[w] == prev[w]);
            } else {
                assert(kept[i] == devices.last());
                assert(devices[devices.len() - 1] == devices.last());
            }
        }
        assert forall|j: int|
            0 <= j < devices.len() && (exists|k: int|
                0 <= k < discovered.len() && (#[trigger] discovered[k]).sysfs_id@
                    == devices[j].sysfs_id@) implies kept.contains(#[trigger] devices[j]) by {
            if j < devices.len() - 1 {
                assert(devices[j] == prev[j]);
                assert(rest.contains(prev[j]));
                let w = choose|w: int| 0 <= w < rest.len() && rest[w] == prev[j];
                assert(kept[w] == rest[w]);
            } else {
                assert(devices[j] == devices.last());
                assert(kept[kept.len() - 1] == devices.last());
            }
        }
    }
}

/// The sysfs id of the first device, if any.
pub open spec fn first_sysfs_id(devices: Seq<DeviceState>) -> Option<Seq<char>> {
    if devices.len() > 0 {
        Some(devices[0].sysfs_id@)
    } else {
        None
    }
}

/// The position of the first device in `devices` with the sysfs id `id`.
pub fn find_sysfs_id(devices: &Vec<DeviceState>, id: &String) -> (r: Option<usize>)
    ensures
        r matches Some(i) ==> first_with_sysfs_id(devices@, id@, i as int),
        r is None ==> !has_sysfs_id(devices@, id@),
{
    let mut i: usize = 0;
    while i < devices.len()
        invariant
            i <= devices.len(),
            forall|j: int| 0 <= j < i ==> (#[trigger] devices@[j]).sysfs_id@ != id@,
        decreases devices.len() - i,
    {
        if devices[i].sysfs_id == *id {
            return Some(i);
        }
        i += 1;
    }
    None
}

/// The position of the first device in `devices` with the persistent id `pid`.
pub fn find_persistent_id(devices: &Vec<DeviceState>, pid: &String) -> (r: Option<usize>)
    ensures
        r matches Some(i) ==> first_with_persistent_id(devices@, pid@, i as int),
        r is None ==> !has_persistent_id(devices@, pid@),
{
    let mut i: usize = 0;
    while i < devices.len()
        invariant
            i <= devices.len(),
            forall|j: int| 0 <= j < i ==> (#[trigger] devices@[j]).persistent_id@ != pid@,
        decreases devices.len() - i,
    {
        if devices[i].persistent_id == *pid {
            return Some(i);
        }
        i += 1;
    }
    None
}

/// Without a stored id, or with one no device has, the first device is selected
/// at start; with no devices, none is.
pub proof fn lemma_initial_selection_fallback(devices: Seq<DeviceState>, persisted: Option<Seq<char>>)
    ensures
        devices.len() == 0 ==> initial_selection(devices, persisted) is None,
        devices.len() > 0 && (persisted is None || forall|i: int|
            0 <= i < devices.len() ==> (#[trigger] devices[i]).persistent_id@ != persisted->0)
            ==> initial_selection(devices, persisted) == Some(devices[0].sysfs_id@),
{
}

/// A device chosen from the menu is chosen again at the next start: the
/// persistent id stored for the device at position `i` selects, among the devices
/// found then, the first of that model, which is that device itself when no
/// earlier device shares its `vendor:product` id.
pub proof fn lemma_selection_restored(devices: Seq<DeviceState>, i: int)
    requires
        0 <= i < devices.len(),
    ensures
        exists|k: int|
            0 <= k <= i && first_with_persistent_id(devices, devices[i].persistent_id@, k)
                && initial_selection(devices, Some(devices[i].persistent_id@)) == Some(
                (#[trigger] devices[k]).sysfs_id@,
            ),
        (forall|j: int| 0 <= j < i ==> (#[trigger] devices[j]).persistent_id@
            != devices[i].persistent_id@) ==> initial_selection(
            devices,
            Some(devices[i].persistent_id@),
        ) == Some(devices[i].sysfs_id@),
{
    let pid = devices[i].persistent_id@;
    lemma_first_persistent_id_exists(devices, pid, i);
    let k = choose|k: int| first_with_persistent_id(devices, pid, k);
    assert(k <= i);
    assert(0 <= k <= i && first_with_persistent_id(devices, pid, k) && initial_selection(
        devices,
        Some(pid),
    ) == Some(devices[k].sysfs_id@));
    if forall|j: int| 0 <= j < i ==> (#[trigger] devices[j]).persistent_id@ != pid {
        assert(first_with_persistent_id(devices, pid, i));
        lemma_first_persistent_id_unique(devices, pid, i, k);
    }
}

/// A device with a given persistent id at position `i` has a first such position,
/// at or before `i`.
pub proof fn lemma_first_persistent_id_exists(devices: Seq<DeviceState>, pid: Seq<char>, i: int)
    requires
        0 <= i < devices.len(),
        devices[i].persistent_id@ == pid,
    ensures
        exists|k: int| 0 <= k <= i && first_with_persistent_id(devices, pid, k),
    decreases i,
{
    if forall|j: int| 0 <= j < i ==> (#[trigger] devices[j]).persistent_id@ != pid {
        assert(first_with_persistent_id(devices, pid, i));
    } else {
        let j = choose|j: int| 0 <= j < i && (#[trigger] devices[j]).persistent_id@ == pid;
        lemma_first_persistent_id_exists(devices, pid, j);
    }
}

/// The first position with a given sysfs id is unique.
pub proof fn lemma_first_sysfs_id_unique(devices: Seq<DeviceState>, id: Seq<char>, i: int, k: int)
    requires
        first_with_sysfs_id(devices, id, i),
        first_with_sysfs_id(devices, id, k),
    ensures
        i == k,
{
    if i < k {
        assert(devices[i].sysfs_id@ != id);
    } else if k < i {
        assert(devices[k].sysfs_id@ != id);
    }
}

/// The first position with a given persistent id is unique.
pub proof fn lemma_first_persistent_id_unique(devices: Seq<DeviceState>, pid: Seq<char>, i: int, k: int)
    requires
        first_with_persistent_id(devices, pid, i),
        first_with_persistent_id(devices, pid, k),
    ensures
        i == k,
{
    if i < k {
        assert(devices[i].persistent_id@ != pid);
    } else if k < i {
        assert(devices[k].persistent_id@ != pid);
    }
}

/// Whether two optional strings hold the same text.
pub fn same_text(a: &Option<String>, b: &Option<String>) -> (r: bool)
    ensures
        r == (opt_chars(*a) == opt_chars(*b)),
{
    match (a, b) {
        (Some(x), Some(y)) => *x == *y,
        (None, None) => true,
        _ => false,
    }
}

/// A clone of an optional string.
pub fn clone_text(a: &Option<String>) -> (r: Option<String>)
    ensures
        r == *a,
{
    match a {
        Some(x) => Some(x.clone()),
        None => None,
    }
}

/// What one poll's readings brought: whether anything shown changed, and the
/// low-battery alerts to show, in device order.
pub struct PollOutcome {
    pub changed: bool,
    pub alerts: Vec<LowBatteryAlert>,
}

/// The devices after each took its reading.
pub open spec fn devices_after(devices: Seq<DeviceState>, readings: Seq<DeviceReading>) -> Seq<DeviceState> {
    Seq::new(
        devices.len(),
        |i: int|
            observe_next(devices[i], readings[i].raw_level, readings[i].charging, readings[i].name),
    )
}

/// Whether the reading of the device at position `i` changes what is shown.
pub open spec fn reading_changes(devices: Seq<DeviceState>, readings: Seq<DeviceReading>, i: int) -> bool {
    observe_changed(devices[i], readings[i].raw_level, readings[i].charging, readings[i].name)
}

/// The alerts the readings raise, in device order.
pub open spec fn poll_alerts(devices: Seq<DeviceState>, readings: Seq<DeviceReading>) -> Seq<(u8, Seq<char>)>
    decreases devices.len(),
{
    if devices.len() == 0 {
        Seq::empty()
    } else {
        let n = devices.len() - 1;
        let earlier = poll_alerts(devices.drop_last(), readings);
        match observe_alert(devices[n], readings[n].raw_level, readings[n].charging, readings[n].name) {
            Some(a) => earlier.push(a),
            None => earlier,
        }
    }
}

/// The level and device name of each alert.
pub open spec fn alerts_view(alerts: Seq<LowBatteryAlert>) -> Seq<(u8, Seq<char>)> {
    alerts.map_values(|a: LowBatteryAlert| (a.level, a.device_name@))
}

/// The devices being tracked, in discovery order, and the sysfs id of the one
/// that drives the tray icon.
pub struct MultiState {
    pub devices: Vec<DeviceState>,
    pub selected_id: Option<String>,
}

/// One radio item of the device menu.
pub struct MenuEntry {
    pub label: String,
    pub sysfs_id: String,
}

/// The device menu: one entry per device and the position of the selected one.
pub struct MenuModel {
    pub entries: Vec<MenuEntry>,
    pub selected: usize,
}

impl MenuModel {
    /// The sysfs id of the device behind menu position `idx`, if there is one.
    pub fn clicked_device(&self, idx: usize) -> (r: Option<String>)
        ensures
            r is Some <==> idx < self.entries.len(),
            r matches Some(id) ==> id == self.entries@[idx as int].sysfs_id,
    {
        if idx < self.entries.len() {
            Some(self.entries[idx].sysfs_id.clone())
        } else {
            None
        }
    }
}

impl MultiState {
    /// The position of the selected device: the first device with the selected
    /// sysfs id, if any.
    pub open spec fn selected_position(self) -> Option<int> {
        match self.selected_id {
            Some(id) => if has_sysfs_id(self.devices@, id@) {
                Some(choose|i: int| first_with_sysfs_id(self.devices@, id@, i))
            } else {
                None
            },
            None => None,
        }
    }

    /// A selection names a present device, and there is one whenever there are devices.
    pub open spec fn selection_valid(self) -> bool {
        match self.selected_id {
            Some(id) => has_sysfs_id(self.devices@, id@),
            None => self.devices@.len() == 0,
        }
    }

    /// The state at startup: the discovered devices, and the selection restored
    /// from the persisted `vendor:product` id where a device has it.
    pub fn start(devices: Vec<DeviceState>, persisted: &Option<String>) -> (r: MultiState)
        ensures
            r.devices == devices,
            opt_chars(r.selected_id) == initial_selection(devices@, opt_chars(*persisted)),
            r.selection_valid(),
    {
        let mut selected_id: Option<String> = None;
        if let Some(pid) = persisted {
            if let Some(i) = find_persistent_id(&devices, pid) {
                proof {
                    let k = choose|k: int| first_with_persistent_id(devices@, pid@, k);
                    lemma_first_persistent_id_unique(devices@, pid@, i as int, k);
                }
                selected_id = Some(devices[i].sysfs_id.clone());
            }
        }
        if selected_id.is_none() && devices.len() > 0 {
            selected_id = Some(devices[0].sysfs_id.clone());
        }
        MultiState { devices, selected_id }
    }

    /// The position of the selected device in `devices`.
    pub fn selected_index(&self) -> (r: Option<usize>)
        ensures
            match r {
                Some(i) => self.selected_position() == Some(i as int) && i < self.devices.len(),
                None => self.selected_position() is None,
            },
    {
        match &self.selected_id {
            Some(id) => {
                let found = find_sysfs_id(&self.devices, id);
                if let Some(i) = found {
                    proof {
                        let k = choose|k: int| first_with_sysfs_id(self.devices@, id@, k);
                        lemma_first_sysfs_id_unique(self.devices@, id@, i as int, k);
                    }
                }
                found
            },
            None => None,
        }
    }

    /// The selected device.
    pub fn selected(&self) -> (r: Option<&DeviceState>)
        ensures
            r is Some <==> self.selected_position() is Some,
            r matches Some(d) ==> *d == self.devices@[self.selected_position()->0],
    {
        match self.selected_index() {
            Some(i) => Some(&self.devices[i]),
            None => None,
        }
    }

    /// The shown level and charging state of the selected device (no level and
    /// not charging when none is selected).
    pub fn selected_reading(&self) -> (r: (Option<u8>, bool))
        ensures
            match self.selected_position() {
                Some(i) => r == (self.devices@[i].level, self.devices@[i].charging),
                None => r == (None::<u8>, false),
            },
    {
        match self.selected() {
            Some(d) => (d.level, d.charging),
            None => (None, false),
        }
    }

    /// Whether a device with sysfs id `id` is tracked.
    pub fn has_device(&self, id: &String) -> (r: bool)
        ensures
            r == has_sysfs_id(self.devices@, id@),
    {
        find_sysfs_id(&self.devices, id).is_some()
    }

    /// Starts tracking a newly found device, after the others.
    pub fn add_device(&mut self, device: DeviceState)
        ensures
            final(self).devices@ == old(self).devices@.push(device),
            final(self).selected_id == old(self).selected_id,
    {
        self.devices.push(device);
    }

    /// A menu click on the device with sysfs id `sysfs_id`: selects it unless it
    /// is already selected or no longer tracked, and then gives the persistent id
    /// to store.
    pub fn select_device(&mut self, sysfs_id: String) -> (r: Option<String>)
        ensures
            final(self).devices == old(self).devices,
            ({
                let already = old(self).selected_id is Some && old(self).selected_id->0@ == sysfs_id@;
                if already || !has_sysfs_id(old(self).devices@, sysfs_id@) {
                    &&& r is None
                    &&& final(self).selected_id == old(self).selected_id
                } else {
                    &&& final(self).selected_id == Some(sysfs_id)
                    &&& r matches Some(pid) && exists|i: int|
                        first_with_sysfs_id(old(self).devices@, sysfs_id@, i)
                            && pid@ == (#[trigger] old(self).devices@[i]).persistent_id@
                }
            }),
            old(self).selection_valid() ==> final(self).selection_valid(),
    {
        if let Some(current) = &self.selected_id {
            if *current == sysfs_id {
                return None;
            }
        }
        match find_sysfs_id(&self.devices, &sysfs_id) {
            Some(i) => {
                let pid = self.devices[i].persistent_id.clone();
                self.selected_id = Some(sysfs_id);
                Some(pid)
            },
            None => None,
        }
    }

    /// Drops the devices whose sysfs entry is gone from the latest scan; tells
    /// whether any was dropped.
    pub fn retain_discovered(&mut self, discovered: &Vec<DiscoveredDevice>) -> (r: bool)
        ensures
            final(self).devices@ == still_present(old(self).devices@, discovered@),
            forall|i: int|
                0 <= i < final(self).devices@.len() ==> exists|k: int|
                    0 <= k < discovered@.len() && (#[trigger] discovered@[k]).sysfs_id@
                        == (#[trigger] final(self).devices@[i]).sysfs_id@,
            forall|j: int|
                0 <= j < old(self).devices@.len() && (exists|k: int|
                    0 <= k < discovered@.len() && (#[trigger] discovered@[k]).sysfs_id@
                        == old(self).devices@[j].sysfs_id@) ==> final(self).devices@.contains(
                    #[trigger] old(self).devices@[j],
                ),
            final(self).selected_id == old(self).selected_id,
            r == (final(self).devices@.len() != old(self).devices@.len()),
    {
        let ghost start = self.devices@;
        let n = self.devices.len();
        let mut i: usize = 0;
        let mut j: usize = 0;
        assert(start.take(0) =~= Seq::<DeviceState>::empty());
        assert(start.skip(0) =~= start);
        while i < n
            invariant
                i <= n == start.len(),
                j <= i,
                j == still_present(start.take(i as int), discovered@).len(),
                self.devices@ =~= still_present(start.take(i as int), discovered@) + start.skip(i as int),
                self.selected_id == old(self).selected_id,
            decreases n - i,
        {
            let ghost kept = still_present(start.take(i as int), discovered@);
            assert(start.take(i + 1).drop_last() =~= start.take(i as int));
            assert(self.devices@[j as int] == start[i as int]);
            if is_listed(discovered, &self.devices[j].sysfs_id) {
                j += 1;
                assert(start.skip(i as int) =~= seq![start[i as int]] + start.skip(i + 1));
            } else {
                self.devices.remove(j);
                assert(self.devices@ =~= kept + start.skip(i + 1));
            }
            i += 1;
        }
        assert(start.take(n as int) =~= start);
        proof {
            lemma_still_present_by_sysfs_id(start, discovered@);
        }
        self.devices.len() != n
    }

    /// After devices came and went: keeps a selection that is still present, else
    /// falls back to the first device (or none); tells whether the selection changed.
    pub fn ensure_selection(&mut self) -> (r: bool)
        ensures
            final(self).devices == old(self).devices,
            old(self).selected_position() is Some ==> final(self).selected_id == old(self).selected_id
                && !r,
            old(self).selected_position() is None && old(self).devices@.len() > 0 ==> (final(self).selected_id is Some
                && final(self).selected_id->0@ == old(self).devices@[0].sysfs_id@),
            old(self).devices@.len() == 0 ==> final(self).selected_id is None,
            old(self).selected_position() is None ==> {
                &&& opt_chars(final(self).selected_id) == first_sysfs_id(old(self).devices@)
                &&& r == (opt_chars(old(self).selected_id) != first_sysfs_id(old(self).devices@))
            },
            final(self).selection_valid(),
    {
        let present = match self.selected_index() {
            Some(_) => true,
            None => false,
        };
        if present {
            return false;
        }
        let new_sel: Option<String> = if self.devices.len() > 0 {
            Some(self.devices[0].sysfs_id.clone())
        } else {
            None
        };
        if !same_text(&self.selected_id, &new_sel) {
            self.selected_id = new_sel;
            true
        } else {
            assert(self.devices@.len() > 0 ==> self.devices@[0].sysfs_id@ == self.selected_id->0@);
            false
        }
    }

    /// Applies one poll's readings, one per device in order.
    pub fn apply_readings(&mut self, readings: Vec<DeviceReading>) -> (r: PollOutcome)
        requires
            readings@.len() == old(self).devices@.len(),
        ensures
            final(self).devices@ == devices_after(old(self).devices@, readings@),
            final(self).selected_id == old(self).selected_id,
            r.changed == exists|i: int|
                0 <= i < readings@.len() && reading_changes(old(self).devices@, readings@, i),
            alerts_view(r.alerts@) == poll_alerts(old(self).devices@, readings@),
    {
        let ghost start = self.devices@;
        let mut devices: Vec<DeviceState> = Vec::new();
        std::mem::swap(&mut devices, &mut self.devices);
        let mut updated: Vec<DeviceState> = Vec::new();
        let mut alerts: Vec<LowBatteryAlert> = Vec::new();
        let mut changed = false;
        let mut i: usize = 0;
        for d in it: devices.into_iter()
            invariant
                it.seq() == start,
                i == it.index(),
                i <= start.len(),
                start.len() == readings.len(),
                updated@ =~= devices_after(start, readings@).take(i as int),
                changed == exists|k: int| 0 <= k < i && reading_changes(start, readings@, k),
                alerts_view(alerts@) == poll_alerts(start.take(i as int), readings@),
                self.selected_id == old(self).selected_id,
        {
            let mut device = d;
            assert(i < start.len());
            assert(device == start[i as int]);
            let reading = &readings[i];
            let ghost before = device;
            let observation = device.observe(reading.raw_level, reading.charging, clone_text(&reading.name));
            let ghost before_alerts = alerts@;
            if let Some(a) = observation.alert {
                alerts.push(a);
            }
            proof {
                assert(start.take(i + 1).drop_last() =~= start.take(i as int));
                assert(start.take(i + 1)[i as int] == before);
                assert(alerts_view(alerts@) =~= match alert_view(observation.alert) {
                    Some(v) => alerts_view(before_alerts).push(v),
                    None => alerts_view(before_alerts),
                });
            }
            assert(observation.changed == reading_changes(start, readings@, i as int));
            changed = changed || observation.changed;
            updated.push(device);
            i += 1;
        }
        proof {
            assert(start.take(start.len() as int) =~= start);
        }
        self.devices = updated;
        PollOutcome { changed, alerts }
    }

    /// Whether the selection differs from the one last shown.
    pub fn selection_differs(&self, last: &Option<String>) -> (r: bool)
        ensures
            r == (opt_chars(self.selected_id) != opt_chars(*last)),
    {
        !same_text(&self.selected_id, last)
    }

    /// The device menu: each device's label, and the selected position (0 when
    /// the selection is not among the devices).
    pub fn menu_model(&self) -> (r: MenuModel)
        ensures
            r.entries.len() == self.devices.len(),
            forall|i: int|
                0 <= i < r.entries.len() ==> {
                    &&& (#[trigger] r.entries@[i]).label@ == device_label(
                        opt_chars(self.devices@[i].name),
                        self.devices@[i].level,
                        self.devices@[i].charging,
                    )
                    &&& r.entries@[i].sysfs_id == self.devices@[i].sysfs_id
                },
            r.selected as int == match self.selected_position() {
                Some(i) => i,
                None => 0,
            },
    {
        let mut entries: Vec<MenuEntry> = Vec::new();
        let mut i: usize = 0;
        while i < self.devices.len()
            invariant
                i <= self.devices.len(),
                entries.len() == i,
                forall|k: int|
                    0 <= k < i ==> {
                        &&& (#[trigger] entries@[k]).label@ == device_label(
                            opt_chars(self.devices@[k].name),
                            self.devices@[k].level,
                            self.devices@[k].charging,
                        )
                        &&& entries@[k].sysfs_id == self.devices@[k].sysfs_id
                    },
            decreases self.devices.len() - i,
        {
            let d = &self.devices[i];
            entries.push(MenuEntry { label: d.label(), sysfs_id: d.sysfs_id.clone() });
            i += 1;
        }
        let selected = match self.selected_index() {
            Some(i) => i,
            None => 0,
        };
        MenuModel { entries, selected }
    }

    /// The tooltip title: the selected device's label, or `No Razer device`.
    pub fn tool_tip_title(&self) -> (r: String)
        ensures
            r@ == match self.selected_position() {
                Some(i) => device_label(
                    opt_chars(self.devices@[i].name),
                    self.devices@[i].level,
                    self.devices@[i].charging,
                ),
                None => "No Razer device"@,
            },
    {
        match self.selected() {
            Some(d) => d.label(),
            None => String::from_str("No Razer device"),
        }
    }
}

/// Whether the latest scan found a sysfs entry with id `id`.
pub fn is_listed(discovered: &Vec<DiscoveredDevice>, id: &String) -> (r: bool)
    ensures
        r == is_discovered(discovered@, id@),
{
    let mut k: usize = 0;
    while k < discovered.len()
        invariant
            k <= discovered.len(),
            forall|m: int| 0 <= m < k ==> (#[trigger] discovered@[m]).sysfs_id@ != id@,
        decreases discovered.len() - k,
    {
        if discovered[k].sysfs_id == *id {
            return true;
        }
        k += 1;
    }
    false
}

} // verus!
