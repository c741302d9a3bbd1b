//! The parts of the configuration that the library reasons about. The
//! configuration file itself (JSON) is read and written around the library.
use vstd::prelude::*;

use crate::sysfs::{opt_string_view, opt_view};
use crate::text::{append_chars, chars_of, string_of};

verus! {

/// Where battery information comes from. Changed in the configuration
/// file, without recompiling.
#[derive(Debug, Clone, Copy, PartialEq, Eq, Structural)]
pub enum BatterySource {
    /// Tries UPower, falls back on sysfs when the service is absent.
    Auto,
    /// Direct reading of /sys/class/power_supply.
    Sysfs,
    /// UPower service over D-Bus.
    UPower,
}

impl Default for BatterySource {
    fn default() -> (r: Self)
        ensures
            r == BatterySource::Auto,
    {
        BatterySource::Auto
    }
}

#[derive(Debug, Clone, Copy, PartialEq, Eq, Structural)]
pub enum TemperatureUnit {
    Celsius,
    Fahrenheit,
}

impl Default for TemperatureUnit {
    fn default() -> (r: Self)
        ensures
            r == TemperatureUnit::Celsius,
    {
        TemperatureUnit::Celsius
    }
}

/// Window geometry, kept from one session to the next. Not all window
/// managers restore it, and those that do disagree: the application takes
/// care of it itself.
#[derive(Debug, Clone, Copy, PartialEq, Eq, Structural)]
pub struct WindowConfig {
    pub width: i32,
    pub height: i32,
}

impl Default for WindowConfig {
    fn default() -> (r: Self)
        ensures
            r.width == 1180,
            r.height == 800,
    {
        WindowConfig { width: 1180, height: 800 }
    }
}

#[derive(Debug)]
pub enum WidgetSpecificConfig {
    Cpu { show_per_core: bool },
    Gpu { selected_gpu_index: Option<usize> },
    Network { interface: Option<String>, ping_host: Option<String> },
    Process { sort_by_cpu: bool, max_rows: u32 },
    Fans { hidden_labels: Vec<String> },
    Default,
}

#[derive(Debug)]
pub struct WidgetPlacement {
    /// e.g. "cpu", "gpu_0", "disk_sda"
    pub widget_id: String,
    pub col: u32,
    pub row: u32,
    pub col_span: u32,
    pub row_span: u32,
    pub visible: bool,
    pub widget_config: WidgetSpecificConfig,
}

#[derive(Debug)]
pub struct LayoutConfig {
    pub name: String,
    pub placements: Vec<WidgetPlacement>,
}

/// `PathBuf::join` with a relative component: a separator is added unless
/// the base is empty or already ends with one.
pub open spec fn join(base: Seq<char>, part: Seq<char>) -> Seq<char> {
    if base.len() == 0 {
        part
    } else if base.last() == '/' {
        base + part
    } else {
        base + seq!['/'] + part
    }
}

fn join_exec(base: &[char], part: &str) -> (r: Vec<char>)
    ensures
        r@ == join(base@, part@),
{
    let p = chars_of(part);
    let mut v: Vec<char> = Vec::new();
    append_chars(&mut v, base);
    if base.len() > 0 && base[base.len() - 1] != '/' {
        v.push('/');
    }
    append_chars(&mut v, p.as_slice());
    v
}

/// Where the configuration file lives. The base is `XDG_CONFIG_HOME`, else
/// `$HOME/.config`. Under Flatpak, `XDG_CONFIG_HOME` already points into
/// the application's own directory and the file goes straight there;
/// outside the sandbox, a dedicated subdirectory keeps `~/.config` tidy.
pub open spec fn config_path_of(xdg_config_home: Option<Seq<char>>, home: Option<Seq<char>>, flatpak: bool) -> Option<Seq<char>> {
    let base = match xdg_config_home {
        Some(x) => Some(x),
        None => match home {
            Some(h) => Some(join(h, ".config"@)),
            None => None,
        },
    };
    match base {
        None => None,
        Some(b) => if flatpak {
            Some(join(b, "config.json"@))
        } else {
            Some(join(join(b, "mondashboard"@), "config.json"@))
        },
    }
}

pub fn chemin_config(xdg_config_home: Option<&str>, home: Option<&str>, flatpak: bool) -> (r: Option<String>)
    ensures
        opt_string_view(r) == config_path_of(opt_view(xdg_config_home), opt_view(home), flatpak),
{
    let base = match xdg_config_home {
        Some(x) => chars_of(x),
        None => match home {
            Some(h) => {
                let hc = chars_of(h);
                join_exec(hc.as_slice(), ".config")
            },
            None => {
                return None;
            },
        },
    };
    let path = if flatpak {
        join_exec(base.as_slice(), "config.json")
    } else {
        let dir = join_exec(base.as_slice(), "mondashboard");
        join_exec(dir.as_slice(), "config.json")
    };
    Some(string_of(path.as_slice()))
}

/// The geometry to save when the window closes or the application quits:
/// none when the window has no size yet, or when the configuration already
/// holds it (nothing to write).
pub fn geometrie_retenue(current: WindowConfig, width: i32, height: i32) -> (r: Option<WindowConfig>)
    ensures
        r == (if width <= 0 || height <= 0 || (current.width == width && current.height == height) {
            None
        } else {
            Some(WindowConfig { width, height })
        }),
{
    if width <= 0 || height <= 0 {
        return None;
    }
    if current.width == width && current.height == height {
        return None;
    }
    Some(WindowConfig { width, height })
}

/// Refresh interval of a new configuration, in seconds.
pub const DEFAULT_REFRESH_INTERVAL_SECS: u32 = 2;

/// Schema version of a new configuration.
pub const CONFIG_VERSION: u32 = 1;

/// The host pinged by a new configuration.
pub fn default_ping_host() -> (r: String)
    ensures
        r@ == "1.1.1.1"@,
{
    let c = chars_of("1.1.1.1");
    string_of(c.as_slice())
}

/// The active layout of a new configuration.
pub fn default_active_layout() -> (r: String)
    ensures
        r@ == "Default"@,
{
    let c = chars_of("Default");
    string_of(c.as_slice())
}

} // verus!
