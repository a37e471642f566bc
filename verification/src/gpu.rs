//! The GPU line of the load cards.

use vstd::prelude::*;
use crate::text::{decimal_spec, u64_to_decimal};

verus! {

/// What the dashboard shows of the primary GPU's clocks and driver.
pub struct GpuInfo {
    /// The GPU's vendor or family, as shown.
    pub kind: String,
    /// The kernel driver bound to it.
    pub driver: String,
    /// Current clock, in MHz.
    pub frequency_mhz: Option<u64>,
    /// Highest clock, in MHz.
    pub max_frequency_mhz: Option<u64>,
}

/// The detail line of the GPU load card. `max_ghz` is the highest clock
/// in GHz with two decimals (`max / 1000` rounded), used where that clock
/// is at least 1000 MHz.
pub open spec fn gpu_load_detail_spec(gpu: GpuInfo, max_ghz: Seq<char>) -> Seq<char> {
    match (gpu.frequency_mhz, gpu.max_frequency_mhz) {
        (Some(cur), Some(max)) => if max >= 1000 {
            gpu.kind@ + " "@ + decimal_spec(cur as nat) + "/"@ + max_ghz + "G"@
        } else {
            gpu.kind@ + " "@ + decimal_spec(cur as nat) + "/"@ + decimal_spec(max as nat) + "M"@
        },
        (Some(cur), None) => gpu.kind@ + " "@ + decimal_spec(cur as nat) + "MHz"@,
        _ => gpu.kind@ + " "@ + gpu.driver@,
    }
}

/// The detail line of the GPU load card: current over highest clock (the
/// highest in GHz from 1000 MHz on), the current clock alone, or else the
/// driver.
pub fn gpu_load_detail(gpu: &GpuInfo, max_ghz: &str) -> (r: String)
    ensures
        r@ == gpu_load_detail_spec(*gpu, max_ghz@),
{
    let mut s = String::from_str(gpu.kind.as_str());
    s.append(" ");
    match (gpu.frequency_mhz, gpu.max_frequency_mhz) {
        (Some(cur), Some(max)) => {
            let c = u64_to_decimal(cur);
            s.append(c.as_str());
            s.append("/");
            if max >= 1000 {
                s.append(max_ghz);
                s.append("G");
            } else {
                let m = u64_to_decimal(max);
                s.append(m.as_str());
                s.append("M");
            }
        },
        (Some(cur), None) => {
            let c = u64_to_decimal(cur);
            s.append(c.as_str());
            s.append("MHz");
        },
        _ => {
            s.append(gpu.driver.as_str());
        },
    }
    s
}

} // verus!
