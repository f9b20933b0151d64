//! The texts the tray shows: device labels, tooltips and low-battery notices.

use vstd::prelude::*;
use crate::text::{decimal, lemma_decimal_reads_back, opt_str_chars, parse_u8_spec, push_decimal};

verus! {

/// Name shown for a device whose name could not be read.
pub const DEFAULT_DEVICE_NAME: &'static str = "Razer Device";

/// The name shown for a device: its own, or `DEFAULT_DEVICE_NAME`.
pub open spec fn shown_name(name: Option<Seq<char>>) -> Seq<char> {
    match name {
        Some(n) => n,
        None => DEFAULT_DEVICE_NAME@,
    }
}

/// `name: 67%`, `name: 23% (charging)` or `name: not found`.
pub open spec fn device_label(name: Option<Seq<char>>, level: Option<u8>, charging: bool) -> Seq<char> {
    let n = shown_name(name);
    match level {
        None => n + ": not found"@,
        Some(l) => if charging {
            n + ": "@ + decimal(l as nat) + "% (charging)"@
        } else {
            n + ": "@ + decimal(l as nat) + "%"@
        },
    }
}

/// The text after the number in a label with a known level.
pub open spec fn level_suffix(charging: bool) -> Seq<char> {
    if charging {
        "% (charging)"@
    } else {
        "%"@
    }
}

/// A label with a known level `l` is the name (or `Razer Device`), then `: `, then
/// text that reads back as exactly `l`, then `%` or `% (charging)`.
pub proof fn lemma_label_shows_level(name: Option<Seq<char>>, l: u8, charging: bool)
    ensures
        ({
            let label = device_label(name, Some(l), charging);
            let nm = match name {
                Some(x) => x,
                None => DEFAULT_DEVICE_NAME@,
            };
            let suffix = level_suffix(charging);
            &&& label.len() >= nm.len() + 2int + suffix.len()
            &&& label.subrange(0, nm.len() as int) == nm
            &&& label.subrange(nm.len() as int, nm.len() + 2int) == ": "@
            &&& label.subrange(label.len() - suffix.len(), label.len() as int) == suffix
            &&& parse_u8_spec(label.subrange(nm.len() + 2int, label.len() - suffix.len())) == Some(l)
        }),
{
    let label = device_label(name, Some(l), charging);
    let nm = shown_name(name);
    let suffix = level_suffix(charging);
    let digits = decimal(l as nat);
    lemma_decimal_reads_back(l as nat);
    reveal_strlit(": ");
    assert(label == nm + ": "@ + digits + suffix);
    assert(label.subrange(0, nm.len() as int) =~= nm);
    assert(label.subrange(nm.len() as int, nm.len() + 2int) =~= ": "@);
    assert(label.subrange(label.len() - suffix.len(), label.len() as int) =~= suffix);
    assert(label.subrange(nm.len() + 2int, label.len() - suffix.len()) =~= digits);
}

/// A label without a level is the name (or `Razer Device`) followed by
/// `: not found`, charging or not.
pub proof fn lemma_label_without_level(name: Option<Seq<char>>, charging: bool)
    ensures
        device_label(name, None, charging) == match name {
            Some(x) => x,
            None => DEFAULT_DEVICE_NAME@,
        } + ": not found"@,
{
}

/// The label of a device in the menu and the tooltip.
pub fn format_device_label(name: Option<&str>, level: Option<u8>, charging: bool) -> (r: String)
    ensures
        r@ == device_label(opt_str_chars(name), level, charging),
{
    let mut r = match name {
        Some(n) => String::from_str(n),
        None => String::from_str(DEFAULT_DEVICE_NAME),
    };
    match level {
        None => {
            r.append(": not found");
        },
        Some(l) => {
            r.append(": ");
            push_decimal(&mut r, l);
            if charging {
                r.append("% (charging)");
            } else {
                r.append("%");
            }
        },
    }
    r
}

/// `name: Low Battery`, the summary of a low-battery notification.
pub fn low_battery_summary(device_name: &str) -> (r: String)
    ensures
        r@ == device_name@ + ": Low Battery"@,
{
    let mut r = String::from_str(device_name);
    r.append(": Low Battery");
    r
}

/// `Battery level: 15%`, the body of a low-battery notification.
pub fn low_battery_body(level: u8) -> (r: String)
    ensures
        r@ == "Battery level: "@ + decimal(level as nat) + "%"@,
{
    let mut r = String::from_str("Battery level: ");
    push_decimal(&mut r, level);
    r.append("%");
    r
}

} // verus!
