//! Where the selected device is persisted.

use vstd::prelude::*;

verus! {

/// Directory, under the configuration base, of the tray's state.
pub const STATE_DIR_NAME: &'static str = "razer-tray";

/// File, in the state directory, holding the persisted selection.
pub const STATE_FILENAME: &'static str = "selected_device";

/// The directory the state directory lives in.
#[derive(Clone, Copy, PartialEq, Eq, Structural, Debug)]
pub enum ConfigBase {
    /// `$XDG_CONFIG_HOME`.
    XdgConfigHome,
    /// `$HOME/.config`.
    HomeDotConfig,
}

/// The configuration base: `$XDG_CONFIG_HOME` when it is set to an absolute path,
/// else `$HOME/.config` when `HOME` is set, else none (no persistence).
/// `xdg_config_home_absolute` is `None` when the variable is unset.
pub fn config_base(xdg_config_home_absolute: Option<bool>, home_set: bool) -> (r: Option<ConfigBase>)
    ensures
        r == (if xdg_config_home_absolute == Some(true) {
            Some(ConfigBase::XdgConfigHome)
        } else if home_set {
            Some(ConfigBase::HomeDotConfig)
        } else {
            None
        }),
{
    match xdg_config_home_absolute {
        Some(true) => Some(ConfigBase::XdgConfigHome),
        _ => if home_set {
            Some(ConfigBase::HomeDotConfig)
        } else {
            None
        },
    }
}

} // verus!
