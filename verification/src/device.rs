//! One battery-powered device as the tray tracks it, and the per-tick update of
//! its readings.

use vstd::prelude::*;
use crate::ids::{extract_persistent_id, persistent_id_of};
use crate::label::{device_label, format_device_label, shown_name, DEFAULT_DEVICE_NAME};
use crate::level::{
    above_threshold_at, alert_fires, alert_fires_at, alert_flag_after, alert_flag_before,
    apply_debounce, apply_zero_reading_detection, debounce, lemma_alert_once_per_discharge_cycle,
    low_battery_step, zero_reading_detection, LOW_BATTERY_THRESHOLD,
};
use crate::text::opt_chars;

verus! {

/// The kernel drivers (from `openrazer-driver-dkms`) whose devices are tracked.
#[derive(Clone, Copy, PartialEq, Eq, Structural, Debug)]
pub enum Driver {
    Mouse,
    Keyboard,
}

/// The sysfs name of a driver.
pub open spec fn driver_name(driver: Driver) -> Seq<char> {
    match driver {
        Driver::Mouse => "razermouse"@,
        Driver::Keyboard => "razerkbd"@,
    }
}

impl Driver {
    /// The sysfs name of the driver, as under `/sys/bus/hid/drivers/`.
    pub fn sysfs_name(&self) -> (r: &'static str)
        ensures
            r@ == driver_name(*self),
    {
        match self {
            Driver::Mouse => "razermouse",
            Driver::Keyboard => "razerkbd",
        }
    }
}

/// The drivers scanned for devices, in scanning order.
pub fn sysfs_drivers() -> (r: Vec<Driver>)
    ensures
        r@ == seq![Driver::Mouse, Driver::Keyboard],
{
    let mut r = Vec::new();
    r.push(Driver::Mouse);
    r.push(Driver::Keyboard);
    r
}

/// A device entry found in sysfs, with a battery and a usable id.
pub struct DiscoveredDevice {
    pub sysfs_id: String,
    pub persistent_id: String,
    pub driver: Driver,
}

/// The discovered device for a sysfs entry of `driver` named `entry_name`, when
/// the name carries a `vendor:product` id.
pub fn discovered_device(driver: Driver, entry_name: &str) -> (r: Option<DiscoveredDevice>)
    ensures
        r is Some <==> persistent_id_of(entry_name@) is Some,
        r matches Some(d) ==> {
            &&& d.sysfs_id@ == entry_name@
            &&& Some(d.persistent_id@) == persistent_id_of(entry_name@)
            &&& d.driver == driver
        },
{
    match extract_persistent_id(entry_name) {
        Some(pid) => Some(DiscoveredDevice {
            sysfs_id: String::from_str(entry_name),
            persistent_id: pid,
            driver,
        }),
        None => None,
    }
}

/// A tracked device: its ids, the shown battery state, and the memory the
/// reading filters need.
pub struct DeviceState {
    pub sysfs_id: String,
    pub persistent_id: String,
    pub driver: Driver,
    /// The level shown, after sleep detection and debouncing.
    pub level: Option<u8>,
    pub charging: bool,
    pub name: Option<String>,
    /// Whether the low-battery alert was raised in the current discharge cycle.
    pub low_notified: bool,
    /// The previous reading after sleep detection.
    pub last_raw_level: Option<u8>,
}

/// One poll's reading of a device: level and charging state from sysfs, and the
/// name when it was read.
pub struct DeviceReading {
    pub raw_level: Option<u8>,
    pub charging: bool,
    pub name: Option<String>,
}

/// A low-battery notice to show.
pub struct LowBatteryAlert {
    pub level: u8,
    pub device_name: String,
}

/// What one update of a device brought.
pub struct Observation {
    /// Whether the shown level, charging state or name changed.
    pub changed: bool,
    pub alert: Option<LowBatteryAlert>,
}

impl DeviceState {
    /// A newly found device with its first reading, shown as read.
    pub fn new(found: DiscoveredDevice, level: Option<u8>, charging: bool, name: Option<String>) -> (r:
        DeviceState)
        ensures
            r.sysfs_id == found.sysfs_id,
            r.persistent_id == found.persistent_id,
            r.driver == found.driver,
            r.level == level,
            r.charging == charging,
            r.name == name,
            !r.low_notified,
            r.last_raw_level == level,
    {
        DeviceState {
            sysfs_id: found.sysfs_id,
            persistent_id: found.persistent_id,
            driver: found.driver,
            level,
            charging,
            name,
            low_notified: false,
            last_raw_level: level,
        }
    }

    /// Whether the device name is still unknown and should be read.
    pub fn needs_name(&self) -> (r: bool)
        ensures
            r == (self.name is None),
    {
        self.name.is_none()
    }

    /// The label of this device: name and shown level.
    pub fn label(&self) -> (r: String)
        ensures
            r@ == device_label(opt_chars(self.name), self.level, self.charging),
    {
        match &self.name {
            Some(n) => format_device_label(Some(n.as_str()), self.level, self.charging),
            None => format_device_label(None, self.level, self.charging),
        }
    }

    /// Takes one fresh reading: a name read only matters while none is known; the
    /// level goes through sleep detection and debouncing; a committed low level
    /// while discharging raises the alert once per discharge cycle.
    pub fn observe(&mut self, raw_level: Option<u8>, charging: bool, name_read: Option<String>) -> (r:
        Observation)
        ensures
            *final(self) == observe_next(*old(self), raw_level, charging, name_read),
            r.changed == observe_changed(*old(self), raw_level, charging, name_read),
            alert_view(r.alert) == observe_alert(*old(self), raw_level, charging, name_read),
            old(self).level is Some && raw_level != old(self).level && raw_level != old(
                self,
            ).last_raw_level && raw_level != Some(0u8) ==> final(self).level == old(self).level,
            raw_level != Some(0u8) ==> final(self).last_raw_level == raw_level,
    {
        let prev_level = self.level;
        let prev_charging = self.charging;
        let name_was_unknown = self.name.is_none();
        if name_was_unknown {
            if let Some(n) = name_read {
                self.name = Some(n);
            }
        }
        let post_sleep = apply_zero_reading_detection(raw_level, prev_level, charging);
        let new_level = apply_debounce(post_sleep, prev_level, self.last_raw_level);
        self.last_raw_level = post_sleep;
        self.level = new_level;
        self.charging = charging;
        let (fires, flag) = low_battery_step(self.low_notified, new_level, charging);
        self.low_notified = flag;
        let mut alert = None;
        if fires {
            let l = match new_level {
                Some(l) => l,
                None => 0,
            };
            let device_name = match &self.name {
                Some(n) => n.clone(),
                None => String::from_str(DEFAULT_DEVICE_NAME),
            };
            alert = Some(LowBatteryAlert { level: l, device_name });
        }
        let name_changed = name_was_unknown && self.name.is_some();
        let changed = new_level != prev_level || charging != prev_charging || name_changed;
        Observation { changed, alert }
    }
}

/// The device after one reading (`raw_level`, `charging`, and a name read when
/// none is known): the level after sleep detection is remembered as the last raw
/// level, the debounced level is shown, and the alert flag follows it.
pub open spec fn observe_next(d: DeviceState, raw_level: Option<u8>, charging: bool, name_read: Option<String>) -> DeviceState {
    let post = zero_reading_detection(raw_level, d.level, charging);
    let level = debounce(post, d.level, d.last_raw_level);
    DeviceState {
        sysfs_id: d.sysfs_id,
        persistent_id: d.persistent_id,
        driver: d.driver,
        level,
        charging,
        name: if d.name is None {
            name_read
        } else {
            d.name
        },
        low_notified: alert_flag_after(d.low_notified, level, charging),
        last_raw_level: post,
    }
}

/// An unconfirmed reading is held back for one poll: while a level is shown, a
/// reading other than 0 (a missing reading included) that differs from both the
/// shown level and the previous reading leaves the shown level as it was, and
/// changes nothing shown when the charging state and name stay; the same reading
/// at the next poll is shown.
pub proof fn lemma_observe_holds_unconfirmed_reading(
    d: DeviceState,
    raw_level: Option<u8>,
    charging: bool,
    name_read: Option<String>,
    next_charging: bool,
    next_name_read: Option<String>,
)
    requires
        d.level is Some,
        raw_level != d.level,
        raw_level != d.last_raw_level,
        raw_level != Some(0u8),
    ensures
        observe_next(d, raw_level, charging, name_read).level == d.level,
        charging == d.charging && (d.name is Some || name_read is None) ==> !observe_changed(
            d,
            raw_level,
            charging,
            name_read,
        ),
        observe_next(
            observe_next(d, raw_level, charging, name_read),
            raw_level,
            next_charging,
            next_name_read,
        ).level == raw_level,
{
}

/// Whether a reading changes what the tray shows of the device: level, charging
/// state or name.
pub open spec fn observe_changed(d: DeviceState, raw_level: Option<u8>, charging: bool, name_read: Option<String>) -> bool {
    let n = observe_next(d, raw_level, charging, name_read);
    n.level != d.level || n.charging != d.charging || n.name != d.name
}

/// The low-battery alert a reading raises: the committed level and the shown name.
pub open spec fn observe_alert(d: DeviceState, raw_level: Option<u8>, charging: bool, name_read: Option<String>) -> Option<(u8, Seq<char>)> {
    let n = observe_next(d, raw_level, charging, name_read);
    if alert_fires(d.low_notified, n.level, charging) {
        Some((n.level->0, shown_name(opt_chars(n.name))))
    } else {
        None
    }
}

/// The device after the first `n` readings of a run.
pub open spec fn device_after(d: DeviceState, readings: Seq<DeviceReading>, n: nat) -> DeviceState
    decreases n,
{
    if n == 0 {
        d
    } else {
        let r = readings[n - 1];
        observe_next(device_after(d, readings, (n - 1) as nat), r.raw_level, r.charging, r.name)
    }
}

/// Whether reading `n` of a run raises the low-battery alert.
pub open spec fn alert_raised_at(d: DeviceState, readings: Seq<DeviceReading>, n: nat) -> bool {
    let r = readings[n as int];
    observe_alert(device_after(d, readings, n), r.raw_level, r.charging, r.name) is Some
}

/// The committed levels and charging states of a run, as the alert sees them.
pub open spec fn alert_steps(d: DeviceState, readings: Seq<DeviceReading>) -> Seq<(Option<u8>, bool)> {
    Seq::new(
        readings.len(),
        |k: int| (device_after(d, readings, (k + 1) as nat).level, readings[k].charging),
    )
}

/// Along a run, the device's alert flag is the flag the alert steps give.
proof fn lemma_alert_flag_along_run(d: DeviceState, readings: Seq<DeviceReading>, n: nat)
    requires
        n <= readings.len(),
    ensures
        device_after(d, readings, n).low_notified == alert_flag_before(
            d.low_notified,
            alert_steps(d, readings),
            n,
        ),
    decreases n,
{
    if n > 0 {
        lemma_alert_flag_along_run(d, readings, (n - 1) as nat);
    }
}

/// A device alerts once per discharge cycle: between two low-battery alerts in
/// any run of readings, some reading committed a level above the threshold.
pub proof fn lemma_device_alerts_once_per_discharge_cycle(
    d: DeviceState,
    readings: Seq<DeviceReading>,
    i: nat,
    j: nat,
)
    requires
        i < j < readings.len(),
        alert_raised_at(d, readings, i),
        alert_raised_at(d, readings, j),
    ensures
        exists|k: int|
            i < k < j && (#[trigger] device_after(d, readings, (k + 1) as nat)).level is Some
                && device_after(d, readings, (k + 1) as nat).level->0 > LOW_BATTERY_THRESHOLD,
{
    let steps = alert_steps(d, readings);
    lemma_alert_flag_along_run(d, readings, i);
    lemma_alert_flag_along_run(d, readings, j);
    assert(alert_fires_at(d.low_notified, steps, i));
    assert(alert_fires_at(d.low_notified, steps, j));
    lemma_alert_once_per_discharge_cycle(d.low_notified, steps, i, j);
    let k = choose|k: int| i < k < j && above_threshold_at(steps, k);
    assert(device_after(d, readings, (k + 1) as nat).level == steps[k].0);
}

/// The level and device name of an alert.
pub open spec fn alert_view(a: Option<LowBatteryAlert>) -> Option<(u8, Seq<char>)> {
    match a {
        Some(x) => Some((x.level, x.device_name@)),
        None => None,
    }
}

} // verus!
