//! Filtering of raw battery readings: sleep detection, debouncing, and the
//! once-per-discharge low-battery alert.

use vstd::prelude::*;

verus! {

/// Smallest previous level (in %) from which a failed or zero reading is taken
/// for the device being asleep rather than empty.
pub const SLEEP_DETECTION_MIN_DROP: u8 = 5;

/// Level (in %) at or below which a discharging device raises a low-battery alert.
pub const LOW_BATTERY_THRESHOLD: u8 = 20;

/// Whether a reading is the kind a sleeping device returns: no value, or 0.
pub open spec fn is_sleep_reading(raw_level: Option<u8>) -> bool {
    raw_level is None || raw_level == Some(0u8)
}

/// The level after sleep detection: a sleep-like reading while not charging, from
/// a previous level of at least `SLEEP_DETECTION_MIN_DROP`, keeps the previous level.
pub open spec fn sleep_detection(raw_level: Option<u8>, prev_level: Option<u8>, charging: bool) -> Option<u8> {
    if is_sleep_reading(raw_level) && !charging && prev_level is Some && prev_level->0
        >= SLEEP_DETECTION_MIN_DROP {
        prev_level
    } else {
        raw_level
    }
}

/// Sleep detection on one reading: a device that sleeps stops answering (or
/// answers 0), which must not show as an empty battery.
pub fn apply_sleep_detection(raw_level: Option<u8>, prev_level: Option<u8>, charging: bool) -> (r:
    Option<u8>)
    ensures
        r == sleep_detection(raw_level, prev_level, charging),
{
    let sleep_like = match raw_level {
        None => true,
        Some(l) => l == 0,
    };
    match prev_level {
        Some(p) => {
            if sleep_like && !charging && p >= SLEEP_DETECTION_MIN_DROP {
                Some(p)
            } else {
                raw_level
            }
        },
        None => raw_level,
    }
}

/// The level shown after debouncing: a reading is committed when it equals the
/// shown level, when nothing was shown yet, or when the previous raw reading was
/// the same; otherwise the shown level is held for one more reading.
pub open spec fn debounce(post_sleep: Option<u8>, prev_level: Option<u8>, last_raw_level: Option<u8>) -> Option<u8> {
    if post_sleep == prev_level || prev_level is None || last_raw_level == post_sleep {
        post_sleep
    } else {
        prev_level
    }
}

/// Debouncing of one reading against the shown level and the previous reading.
pub fn apply_debounce(post_sleep: Option<u8>, prev_level: Option<u8>, last_raw_level: Option<u8>) -> (r:
    Option<u8>)
    ensures
        r == debounce(post_sleep, prev_level, last_raw_level),
{
    if post_sleep == prev_level || prev_level.is_none() || last_raw_level == post_sleep {
        post_sleep
    } else {
        prev_level
    }
}

/// The sleep detection of the polling loop: only a reading of 0 while not charging,
/// from a previous level of at least `SLEEP_DETECTION_MIN_DROP`, keeps the previous
/// level; a missing reading passes through.
pub open spec fn zero_reading_detection(raw_level: Option<u8>, prev_level: Option<u8>, charging: bool) -> Option<u8> {
    if raw_level == Some(0u8) && !charging && prev_level is Some && prev_level->0
        >= SLEEP_DETECTION_MIN_DROP {
        prev_level
    } else {
        raw_level
    }
}

/// Sleep detection as the polling loop applies it to a fresh reading.
pub fn apply_zero_reading_detection(raw_level: Option<u8>, prev_level: Option<u8>, charging: bool) -> (r:
    Option<u8>)
    ensures
        r == zero_reading_detection(raw_level, prev_level, charging),
{
    match (raw_level, prev_level) {
        (Some(0), Some(p)) => {
            if !charging && p >= SLEEP_DETECTION_MIN_DROP {
                Some(p)
            } else {
                raw_level
            }
        },
        _ => raw_level,
    }
}

/// Whether a committed level raises the low-battery alert, given whether it was
/// already raised in this discharge cycle.
pub open spec fn alert_fires(notified: bool, level: Option<u8>, charging: bool) -> bool {
    level is Some && level->0 <= LOW_BATTERY_THRESHOLD && !charging && !notified
}

/// Whether the alert counts as raised after a committed level: it is raised when
/// it fires, cleared when the level is above the threshold, and otherwise kept.
pub open spec fn alert_flag_after(notified: bool, level: Option<u8>, charging: bool) -> bool {
    match level {
        Some(l) => if l > LOW_BATTERY_THRESHOLD {
            false
        } else {
            notified || !charging
        },
        None => notified,
    }
}

/// The alert decision for one committed level: whether it fires, and the flag after.
pub fn low_battery_step(notified: bool, level: Option<u8>, charging: bool) -> (r: (bool, bool))
    ensures
        r.0 == alert_fires(notified, level, charging),
        r.1 == alert_flag_after(notified, level, charging),
{
    let mut flag = notified;
    let mut fires = false;
    if let Some(l) = level {
        if l <= LOW_BATTERY_THRESHOLD && !charging && !flag {
            flag = true;
            fires = true;
        }
        if l > LOW_BATTERY_THRESHOLD {
            flag = false;
        }
    }
    (fires, flag)
}

/// Sleep detection keeps the previous level exactly when the reading is missing or
/// 0, the device is not charging, and the previous level is at least 5%; every
/// other reading passes through unchanged.
pub proof fn lemma_sleep_detection_cases(raw_level: Option<u8>, prev_level: Option<u8>, charging: bool)
    ensures
        (raw_level is None || raw_level == Some(0u8)) && !charging && prev_level is Some
            && prev_level->0 >= 5 ==> sleep_detection(raw_level, prev_level, charging) == prev_level,
        !((raw_level is None || raw_level == Some(0u8)) && !charging && prev_level is Some
            && prev_level->0 >= 5) ==> sleep_detection(raw_level, prev_level, charging) == raw_level,
        raw_level == Some(0u8) && !charging && prev_level is Some && prev_level->0 >= 5
            ==> zero_reading_detection(raw_level, prev_level, charging) == prev_level,
        !(raw_level == Some(0u8) && !charging && prev_level is Some && prev_level->0 >= 5)
            ==> zero_reading_detection(raw_level, prev_level, charging) == raw_level,
{
}

/// Debouncing shows a reading when it matches the shown level, when nothing is
/// shown, or when it repeats the previous reading; otherwise the shown level stays.
pub proof fn lemma_debounce_cases(reading: Option<u8>, shown: Option<u8>, last_raw: Option<u8>)
    ensures
        reading == shown || shown is None || reading == last_raw ==> debounce(reading, shown, last_raw)
            == reading,
        reading != shown && shown is Some && reading != last_raw ==> debounce(
            reading,
            shown,
            last_raw,
        ) == shown,
{
}

/// The low-battery alert fires exactly for a committed level of at most 20%
/// while discharging, when it has not fired since the level was last above 20%;
/// a level above 20% clears it, and a missing level keeps it.
pub proof fn lemma_alert_cases(notified: bool, level: Option<u8>, charging: bool)
    ensures
        alert_fires(notified, level, charging) <==> (level is Some && level->0 <= 20 && !charging
            && !notified),
        level is Some && level->0 > 20 ==> !alert_flag_after(notified, level, charging),
        alert_fires(notified, level, charging) ==> alert_flag_after(notified, level, charging),
        notified && !(level is Some && level->0 > 20) ==> alert_flag_after(notified, level, charging),
        !notified && charging ==> !alert_flag_after(notified, level, charging),
        level is None ==> alert_flag_after(notified, level, charging) == notified,
{
}

/// The shown level after feeding `readings` (already through sleep detection)
/// one by one into the debouncer, starting from `shown` and `last_raw`.
pub open spec fn debounce_run(shown: Option<u8>, last_raw: Option<u8>, readings: Seq<Option<u8>>) -> Option<u8>
    decreases readings.len(),
{
    if readings.len() == 0 {
        shown
    } else {
        debounce_run(debounce(readings[0], shown, last_raw), readings[0], readings.drop_first())
    }
}

/// Whether no reading repeats the one before it (the first is compared with `last_raw`).
pub open spec fn never_repeats(last_raw: Option<u8>, readings: Seq<Option<u8>>) -> bool {
    &&& readings.len() > 0 ==> readings[0] != last_raw
    &&& forall|i: int| 0 < i < readings.len() ==> #[trigger] readings[i] != readings[i - 1]
}

/// Noise never commits: while a level is shown and no reading repeats the one
/// before it, the shown level stays as it was, however long the readings go on.
pub proof fn lemma_debounce_noise_never_commits(
    shown: Option<u8>,
    last_raw: Option<u8>,
    readings: Seq<Option<u8>>,
)
    requires
        shown is Some,
        never_repeats(last_raw, readings),
    ensures
        debounce_run(shown, last_raw, readings) == shown,
    decreases readings.len(),
{
    if readings.len() > 0 {
        let rest = readings.drop_first();
        assert forall|i: int| 0 < i < rest.len() implies #[trigger] rest[i] != rest[i - 1] by {
            assert(rest[i] == readings[i + 1] && rest[i - 1] == readings[i]);
        }
        if rest.len() > 0 {
            assert(rest[0] == readings[1]);
        }
        lemma_debounce_noise_never_commits(shown, readings[0], rest);
    }
}

/// A new level takes two readings: while a level is shown, a differing reading
/// that the previous reading did not announce is held back, and the same reading
/// once more is committed.
pub proof fn lemma_debounce_change_takes_two_readings(
    shown: Option<u8>,
    last_raw: Option<u8>,
    reading: Option<u8>,
)
    requires
        shown is Some,
        reading != shown,
        last_raw != reading,
    ensures
        debounce(reading, shown, last_raw) == shown,
        debounce(reading, debounce(reading, shown, last_raw), reading) == reading,
{
}

/// The low-battery flag before step `n` of a run of committed levels and
/// charging states, starting from `flag`.
pub open spec fn alert_flag_before(flag: bool, steps: Seq<(Option<u8>, bool)>, n: nat) -> bool
    decreases n,
{
    if n == 0 {
        flag
    } else {
        alert_flag_after(
            alert_flag_before(flag, steps, (n - 1) as nat),
            steps[n - 1].0,
            steps[n - 1].1,
        )
    }
}

/// Whether the low-battery alert fires at step `n` of a run.
pub open spec fn alert_fires_at(flag: bool, steps: Seq<(Option<u8>, bool)>, n: nat) -> bool {
    alert_fires(alert_flag_before(flag, steps, n), steps[n as int].0, steps[n as int].1)
}

/// Whether step `k` commits a level above the low-battery threshold.
pub open spec fn above_threshold_at(steps: Seq<(Option<u8>, bool)>, k: int) -> bool {
    steps[k].0 is Some && steps[k].0->0 > LOW_BATTERY_THRESHOLD
}

/// Once the alert has fired, the flag stays raised until a level above the
/// threshold is committed.
proof fn lemma_alert_flag_stays(flag: bool, steps: Seq<(Option<u8>, bool)>, i: nat, m: nat)
    requires
        i < m <= steps.len(),
        alert_fires_at(flag, steps, i),
        forall|k: int| i < k < m ==> !above_threshold_at(steps, k),
    ensures
        alert_flag_before(flag, steps, m),
    decreases m,
{
    if m > i + 1 {
        lemma_alert_flag_stays(flag, steps, i, (m - 1) as nat);
        assert(!above_threshold_at(steps, m - 1));
    }
}

/// One alert per discharge cycle: between two low-battery alerts of a device,
/// some committed level was above the threshold.
pub proof fn lemma_alert_once_per_discharge_cycle(
    flag: bool,
    steps: Seq<(Option<u8>, bool)>,
    i: nat,
    j: nat,
)
    requires
        i < j < steps.len(),
        alert_fires_at(flag, steps, i),
        alert_fires_at(flag, steps, j),
    ensures
        exists|k: int| i < k < j && above_threshold_at(steps, k),
{
    if !(exists|k: int| i < k < j && above_threshold_at(steps, k)) {
        lemma_alert_flag_stays(flag, steps, i, j);
    }
}

} // verus!
