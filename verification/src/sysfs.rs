//! The sysfs attributes of an openrazer device: where they live and what their
//! contents mean.

use vstd::prelude::*;
use crate::device::{driver_name, Driver};
use crate::text::{
    chars_of, opt_str_chars, parse_u8, parse_u8_spec, string_of, trim, trim_chars,
};

verus! {

/// Directory under which the HID drivers list their devices.
pub const SYSFS_HID_DRIVERS: &'static str = "/sys/bus/hid/drivers/";

/// Attribute holding the battery level in percent.
pub const CHARGE_LEVEL: &'static str = "charge_level";

/// Attribute holding the charging state (`0` when not charging).
pub const CHARGE_STATUS: &'static str = "charge_status";

/// Attribute holding the device's product name.
pub const DEVICE_TYPE: &'static str = "device_type";

/// `/sys/bus/hid/drivers/<driver>/<sysfs_id>/<attribute>`.
pub fn attribute_path(driver: Driver, sysfs_id: &str, attribute: &str) -> (r: String)
    ensures
        r@ == SYSFS_HID_DRIVERS@ + driver_name(driver) + "/"@ + sysfs_id@ + "/"@ + attribute@,
{
    let mut r = String::from_str(SYSFS_HID_DRIVERS);
    r.append(driver.sysfs_name());
    r.append("/");
    r.append(sysfs_id);
    r.append("/");
    r.append(attribute);
    r
}

/// `/sys/bus/hid/drivers/<driver>/*`, the pattern matching a driver's devices.
pub fn driver_glob_pattern(driver: Driver) -> (r: String)
    ensures
        r@ == SYSFS_HID_DRIVERS@ + driver_name(driver) + "/*"@,
{
    let mut r = String::from_str(SYSFS_HID_DRIVERS);
    r.append(driver.sysfs_name());
    r.append("/*");
    r
}

/// The value of an attribute file: its content without surrounding white space.
pub open spec fn attribute_value(content: Seq<char>) -> Seq<char> {
    trim(content)
}

/// The battery level an attribute file gives: its value read as a `u8`.
pub open spec fn level_reading(content: Option<Seq<char>>) -> Option<u8> {
    match content {
        Some(c) => parse_u8_spec(attribute_value(c)),
        None => None,
    }
}

/// The charging state a status file gives: a value that is neither empty nor `0`.
pub open spec fn charging_reading(content: Option<Seq<char>>) -> bool {
    match content {
        Some(c) => attribute_value(c).len() > 0 && attribute_value(c) != "0"@,
        None => false,
    }
}

/// The device name a `device_type` file gives: its value, unless empty.
pub open spec fn name_reading(content: Option<Seq<char>>) -> Option<Seq<char>> {
    match content {
        Some(c) => if attribute_value(c).len() > 0 {
            Some(attribute_value(c))
        } else {
            None
        },
        None => None,
    }
}

/// The battery level and charging state from the contents of the `charge_level`
/// and `charge_status` files (`None` for a file that could not be read).
pub fn battery_from_sysfs(level_content: Option<&str>, status_content: Option<&str>) -> (r: (
    Option<u8>,
    bool,
))
    ensures
        r.0 == level_reading(opt_str_chars(level_content)),
        r.1 == charging_reading(opt_str_chars(status_content)),
{
    let level = match level_content {
        Some(c) => {
            let value = trim_chars(&chars_of(c));
            parse_u8(&value)
        },
        None => None,
    };
    let charging = match status_content {
        Some(c) => {
            let value = trim_chars(&chars_of(c));
            let is_zero = value.len() == 1 && value[0] == '0';
            proof {
                reveal_strlit("0");
                if value@.len() == 1 {
                    assert(is_zero <==> value@ =~= "0"@);
                } else {
                    assert(value@.len() != "0"@.len());
                }
            }
            value.len() > 0 && !is_zero
        },
        None => false,
    };
    (level, charging)
}

/// The device name from the contents of the `device_type` file.
pub fn name_from_sysfs(content: Option<&str>) -> (r: Option<String>)
    ensures
        match r {
            Some(s) => name_reading(opt_str_chars(content)) == Some(s@),
            None => name_reading(opt_str_chars(content)) is None,
        },
{
    match content {
        Some(c) => {
            let value = trim_chars(&chars_of(c));
            if value.len() > 0 {
                let s = string_of(&value, 0, value.len());
                assert(value@.subrange(0, value@.len() as int) =~= value@);
                Some(s)
            } else {
                None
            }
        },
        None => None,
    }
}

} // verus!
