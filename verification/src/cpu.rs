//! CPU sensors in sysfs: which `hwmon` and thermal zones hold the CPU temperature,
//! and the files of a core.
use crate::fmt::{decimal, u64_to_decimal};
use crate::gpu::temp_input_name;
use crate::text::{contains, owned, trim, trimmed_chars, trimmed_equals};
use vstd::prelude::*;

verus! {

/// Whether a `hwmon` `name` file names the AMD `k10temp` sensor.
pub fn is_k10temp(name_file: &str) -> (b: bool)
    ensures
        b == (trim(name_file@) == "k10temp"@),
{
    trimmed_equals(name_file, "k10temp")
}

/// A thermal zone measures the CPU when its type is `x86_pkg_temp` or mentions `cpu`.
pub open spec fn is_cpu_thermal_zone_spec(type_file: Seq<char>) -> bool {
    trim(type_file) == "x86_pkg_temp"@ || contains(trim(type_file), "cpu"@)
}

/// Whether the `type` file of a thermal zone names a CPU sensor.
pub fn is_cpu_thermal_zone(type_file: &str) -> (b: bool)
    ensures
        b == is_cpu_thermal_zone_spec(type_file@),
{
    let t = trimmed_chars(type_file);
    crate::text::chars_eq_str(&t, "x86_pkg_temp") || crate::text::contains_exec(
        &t,
        &crate::text::chars_of("cpu"),
    )
}

/// The `coretemp` input of core `core`: inputs 2 and up are the cores in order.
pub fn core_temp_input_name(core: usize) -> (name: String)
    requires
        core + 2 <= usize::MAX,
    ensures
        name@ == "temp"@ + decimal((core + 2) as nat) + "_input"@,
{
    temp_input_name((core + 2) as u64)
}

/// The file with the current frequency (kHz) of core `core`.
pub fn core_frequency_path(core: usize) -> (path: String)
    ensures
        path@ == "/sys/devices/system/cpu/cpu"@ + decimal(core as nat)
            + "/cpufreq/scaling_cur_freq"@,
{
    let mut s = owned("/sys/devices/system/cpu/cpu");
    s.append(u64_to_decimal(core as u64).as_str());
    s.append("/cpufreq/scaling_cur_freq");
    s
}

/// A thermal zone typed `x86_pkg_temp`, or whose type mentions `cpu`, measures the
/// CPU; any other does not.
pub proof fn law_cpu_thermal_zones(type_file: Seq<char>)
    ensures
        trim(type_file) == "x86_pkg_temp"@ ==> is_cpu_thermal_zone_spec(type_file),
        contains(trim(type_file), "cpu"@) ==> is_cpu_thermal_zone_spec(type_file),
        trim(type_file) != "x86_pkg_temp"@ && !contains(trim(type_file), "cpu"@)
            ==> !is_cpu_thermal_zone_spec(type_file),
{
}

} // verus!
