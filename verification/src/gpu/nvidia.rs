//! NVIDIA cards, as NVML describes them. Initialising NVML is the real
//! detection: a driver may be installed without any card, and then nothing
//! is reported. The calls into NVML are made around the library; what they
//! returned is turned here into the reading of the card.
use vstd::prelude::*;

use super::drm::{GpuReading, MB};
use super::GpuVendor;
use crate::display::{decimal, decimal_chars};
use crate::sysfs::opt_string_view;
use crate::text::{append_chars, chars_of, string_of};

verus! {

/// What NVML answered for one device: its index, and each query that
/// succeeded (name, GPU utilisation in percent, memory used and total in
/// bytes, temperature in degrees Celsius, graphics clock in MHz, power in
/// milliwatts).
pub struct NvmlSample {
    pub index: u32,
    pub name: Option<String>,
    pub utilization_gpu: Option<u32>,
    pub memory: Option<(u64, u64)>,
    pub temperature_celsius: Option<u32>,
    pub graphics_clock_mhz: Option<u32>,
    pub power_milliwatts: Option<u32>,
}

/// The name shown for a device whose name could not be read.
pub open spec fn fallback_name(index: u32) -> Seq<char> {
    "GPU NVIDIA "@ + decimal(index as nat)
}

pub open spec fn nvidia_matches(r: GpuReading, s: NvmlSample) -> bool {
    &&& r.vendor == GpuVendor::Nvidia
    &&& r.model@ == match opt_string_view(s.name) {
        Some(n) => n,
        None => fallback_name(s.index),
    }
    &&& r.usage_percent == match s.utilization_gpu {
        Some(u) => Some(u as u64),
        None => None,
    }
    &&& r.vram_used_mb == match s.memory {
        Some((used, _)) => Some(used / MB),
        None => None,
    }
    &&& r.vram_total_mb == match s.memory {
        Some((_, total)) => Some(total / MB),
        None => None,
    }
    &&& r.shared_memory_mb is None
    &&& r.temperature_millicelsius == match s.temperature_celsius {
        Some(c) => Some((c * 1000) as i64),
        None => None,
    }
    &&& r.frequency_mhz == match s.graphics_clock_mhz {
        Some(f) => Some(f as u64),
        None => None,
    }
    &&& r.power_microwatts == match s.power_milliwatts {
        Some(p) => Some((p * 1000) as u64),
        None => None,
    }
}

/// The reading of an NVIDIA card from what NVML answered: memory in
/// mebibytes, temperature in millidegrees, power in microwatts; a device
/// whose name is unknown is named by its index.
pub fn nvidia_reading(sample: NvmlSample) -> (r: GpuReading)
    ensures
        nvidia_matches(r, sample),
{
    let ghost s = sample;
    let model = match sample.name {
        Some(n) => n,
        None => {
            let mut v = chars_of("GPU NVIDIA ");
            let digits = decimal_chars(sample.index as u64);
            append_chars(&mut v, digits.as_slice());
            string_of(v.as_slice())
        },
    };
    let (vram_used_mb, vram_total_mb) = match sample.memory {
        Some((used, total)) => (Some(used / MB), Some(total / MB)),
        None => (None, None),
    };
    GpuReading {
        vendor: GpuVendor::Nvidia,
        model,
        usage_percent: match sample.utilization_gpu {
            Some(u) => Some(u as u64),
            None => None,
        },
        vram_used_mb,
        vram_total_mb,
        shared_memory_mb: None,
        temperature_millicelsius: match sample.temperature_celsius {
            Some(c) => Some((c as i64) * 1000),
            None => None,
        },
        frequency_mhz: match sample.graphics_clock_mhz {
            Some(f) => Some(f as u64),
            None => None,
        },
        power_microwatts: match sample.power_milliwatts {
            Some(p) => Some((p as u64) * 1000),
            None => None,
        },
    }
}

} // verus!
