//! Text lines of the header and of the process tab, assembled from the
//! readings they show.

use vstd::prelude::*;
use crate::text::{decimal_spec, u64_to_decimal};

verus! {

/// The host line of the header; the long form (wide terminal) leads with
/// the dashboard's name.
pub open spec fn header_host_line_spec(
    long: bool,
    hostname: Seq<char>,
    os_name: Seq<char>,
    os_version: Seq<char>,
    selinux_mode: Seq<char>,
) -> Seq<char> {
    (if long {
        "System health dashboard  |  "@
    } else {
        Seq::empty()
    }) + "Host: "@ + hostname + "  |  "@ + os_name + " "@ + os_version + "  |  SELinux: "@
        + selinux_mode
}

/// The host line of the header.
pub fn header_host_line(
    long: bool,
    hostname: &str,
    os_name: &str,
    os_version: &str,
    selinux_mode: &str,
) -> (r: String)
    ensures
        r@ == header_host_line_spec(long, hostname@, os_name@, os_version@, selinux_mode@),
{
    let mut s = if long {
        String::from_str("System health dashboard  |  ")
    } else {
        proof {
            reveal_strlit("");
        }
        String::from_str("")
    };
    s.append("Host: ");
    s.append(hostname);
    s.append("  |  ");
    s.append(os_name);
    s.append(" ");
    s.append(os_version);
    s.append("  |  SELinux: ");
    s.append(selinux_mode);
    s
}

/// The note on uncommitted work: how many files are modified.
pub fn git_modified_text(count: u64) -> (r: String)
    ensures
        r@ == decimal_spec(count as nat) + " modified"@,
{
    let mut s = u64_to_decimal(count);
    s.append(" modified");
    s
}

/// The system line of the header: CPU cores, process count and uptime.
pub fn header_system_line(cpu_count: u64, process_count: u64, uptime: &str) -> (r: String)
    ensures
        r@ == "CPU: "@ + decimal_spec(cpu_count as nat) + " cores  |  Processes: "@ + decimal_spec(
            process_count as nat,
        ) + "  |  Uptime: "@ + uptime@,
{
    let mut s = String::from_str("CPU: ");
    let c = u64_to_decimal(cpu_count);
    s.append(c.as_str());
    s.append(" cores  |  Processes: ");
    let p = u64_to_decimal(process_count);
    s.append(p.as_str());
    s.append("  |  Uptime: ");
    s.append(uptime);
    s
}

/// The short GPU label of the header: its kind, where there is a GPU.
pub fn gpu_compact_label(gpu_kind: Option<&str>) -> (r: String)
    ensures
        r@ == match gpu_kind {
            Some(k) => "GPU "@ + k@,
            None => "GPU N/A"@,
        },
{
    match gpu_kind {
        Some(k) => {
            let mut s = String::from_str("GPU ");
            s.append(k);
            s
        },
        None => String::from_str("GPU N/A"),
    }
}

/// The compact vitals line of the header: CPU temperature and GPU.
pub fn header_compact_vitals(temp_value: &str, gpu_compact: &str) -> (r: String)
    ensures
        r@ == "CPU "@ + temp_value@ + " | "@ + gpu_compact@,
{
    let mut s = String::from_str("CPU ");
    s.append(temp_value);
    s.append(" | ");
    s.append(gpu_compact);
    s
}

/// The summary line of the process tab.
pub fn process_summary(process_count: u64) -> (r: String)
    ensures
        r@ == "\u{2630} "@ + decimal_spec(process_count as nat) + " processes"@,
{
    let mut s = String::from_str("\u{2630} ");
    let c = u64_to_decimal(process_count);
    s.append(c.as_str());
    s.append(" processes");
    s
}

/// The question asked before a process is killed; a process whose name is
/// not known is called `unknown`.
pub fn kill_confirm_prompt(pid: u64, name: Option<&str>) -> (r: String)
    ensures
        r@ == "  Kill PID "@ + decimal_spec(pid as nat) + " ("@ + match name {
            Some(n) => n@,
            None => "unknown"@,
        } + ")? "@,
{
    let mut s = String::from_str("  Kill PID ");
    let p = u64_to_decimal(pid);
    s.append(p.as_str());
    s.append(" (");
    match name {
        Some(n) => s.append(n),
        None => s.append("unknown"),
    }
    s.append(")? ");
    s
}

} // verus!
