//! NPU detection from the accel class, kernel modules and render nodes, the NPU
//! clients found in `/proc`, and the utilization shown for them.
use crate::text::{
    law_split_pieces_hold_no_separator, lemma_split_by_len, lemma_split_pieces_keep_absence,
    separates,
    chars_eq, chars_of, contains, opt_view, owned, split_at_char, split_pieces, starts_with,
    str_contains, str_starts_with, string_from, trim, trimmed_equals, views, Separator,
};
use vstd::prelude::*;

verus! {

/// The vendor of an NPU.
#[derive(Clone, Copy, PartialEq, Eq, Debug)]
pub enum NpuVendor {
    /// AMD Ryzen AI (`amdxdna`).
    Amd,
    /// Intel AI Boost (`intel_vpu`).
    Intel,
}

/// The name shown for an NPU of `vendor`.
pub open spec fn npu_name_spec(vendor: NpuVendor) -> Seq<char> {
    match vendor {
        NpuVendor::Amd => "AMD Ryzen AI (NPU)"@,
        NpuVendor::Intel => "Intel AI Boost (NPU)"@,
    }
}

/// The name shown for an NPU of `vendor`.
pub fn npu_name(vendor: NpuVendor) -> (name: String)
    ensures
        name@ == npu_name_spec(vendor),
{
    match vendor {
        NpuVendor::Amd => owned("AMD Ryzen AI (NPU)"),
        NpuVendor::Intel => owned("Intel AI Boost (NPU)"),
    }
}

/// An accel device is an AMD NPU when its vendor is AMD (`0x1022`) and its device
/// id is `0x1502` or `0x17f0`.
pub open spec fn is_amd_npu_device_spec(vendor: Seq<char>, device: Option<Seq<char>>) -> bool {
    trim(vendor) == "0x1022"@ && match device {
        Some(d) => trim(d) == "0x1502"@ || trim(d) == "0x17f0"@,
        None => false,
    }
}

/// Whether the `vendor` and `device` files of an accel device (`None` for a file that
/// could not be read) describe an AMD NPU.
pub fn is_amd_npu_device(vendor: &str, device: Option<&str>) -> (b: bool)
    ensures
        b == is_amd_npu_device_spec(vendor@, opt_view(device)),
{
    if !trimmed_equals(vendor, "0x1022") {
        return false;
    }
    match device {
        Some(d) => trimmed_equals(d, "0x1502") || trimmed_equals(d, "0x17f0"),
        None => false,
    }
}

/// Whether a `vendor` file names Intel (`0x8086`).
pub fn is_intel_vendor(vendor: &str) -> (b: bool)
    ensures
        b == (trim(vendor@) == "0x8086"@),
{
    trimmed_equals(vendor, "0x8086")
}

/// `/proc/modules` lists the NPU driver of `vendor`.
pub open spec fn modules_list_npu_driver_spec(modules: Seq<char>, vendor: NpuVendor) -> bool {
    match vendor {
        NpuVendor::Amd => contains(modules, "amdxdna"@),
        NpuVendor::Intel => contains(modules, "intel_vpu"@) || contains(modules, "intel_npu"@),
    }
}

/// Whether the text of `/proc/modules` lists the NPU driver of `vendor`.
pub fn modules_list_npu_driver(modules: &str, vendor: NpuVendor) -> (b: bool)
    ensures
        b == modules_list_npu_driver_spec(modules@, vendor),
{
    match vendor {
        NpuVendor::Amd => str_contains(modules, "amdxdna"),
        NpuVendor::Intel => str_contains(modules, "intel_vpu") || str_contains(modules, "intel_npu"),
    }
}

/// A node of `/dev/dri` is an NPU of `vendor` when it is a render node whose link
/// target mentions `accel` (or, for Intel, `vpu`).
pub open spec fn render_node_is_npu_spec(
    name: Seq<char>,
    link: Option<Seq<char>>,
    vendor: NpuVendor,
) -> bool {
    starts_with(name, "renderD"@) && match link {
        Some(t) => match vendor {
            NpuVendor::Amd => contains(t, "accel"@),
            NpuVendor::Intel => contains(t, "accel"@) || contains(t, "vpu"@),
        },
        None => false,
    }
}

/// Whether the node `name` of `/dev/dri`, whose link target is `link` (`None` when
/// it is not a readable link), is an NPU of `vendor`.
pub fn render_node_is_npu(name: &str, link: Option<&str>, vendor: NpuVendor) -> (b: bool)
    ensures
        b == render_node_is_npu_spec(name@, opt_view(link), vendor),
{
    if !str_starts_with(name, "renderD") {
        return false;
    }
    match link {
        Some(t) => match vendor {
            NpuVendor::Amd => str_contains(t, "accel"),
            NpuVendor::Intel => str_contains(t, "accel") || str_contains(t, "vpu"),
        },
        None => false,
    }
}

/// An `fdinfo` file of a client of the NPU of `vendor`.
pub open spec fn fdinfo_uses_npu_spec(content: Seq<char>, vendor: NpuVendor) -> bool {
    match vendor {
        NpuVendor::Amd => {
            ||| contains(content, "amdxdna"@)
            ||| contains(content, "accel"@)
            ||| contains(content, "drm-driver"@) && contains(content, "amd"@)
        },
        NpuVendor::Intel => {
            ||| contains(content, "intel_vpu"@)
            ||| contains(content, "intel-vpu"@)
            ||| contains(content, "intel_npu"@)
            ||| contains(content, "drm-driver:\taccel"@)
            ||| contains(content, "accel/accel"@)
        },
    }
}

/// Whether an `fdinfo` file shows a client of the NPU of `vendor`.
pub fn fdinfo_uses_npu(content: &str, vendor: NpuVendor) -> (b: bool)
    ensures
        b == fdinfo_uses_npu_spec(content@, vendor),
{
    match vendor {
        NpuVendor::Amd => str_contains(content, "amdxdna") || str_contains(content, "accel") || (
        str_contains(content, "drm-driver") && str_contains(content, "amd")),
        NpuVendor::Intel => str_contains(content, "intel_vpu") || str_contains(content, "intel-vpu")
            || str_contains(content, "intel_npu") || str_contains(content, "drm-driver:\taccel")
            || str_contains(content, "accel/accel"),
    }
}

/// Whether a process is a client of the NPU of `vendor`: some `fdinfo` file of it
/// shows so.
pub fn process_uses_npu(fdinfo_texts: &Vec<String>, vendor: NpuVendor) -> (b: bool)
    ensures
        b == exists|i: int|
            0 <= i < fdinfo_texts.len() && fdinfo_uses_npu_spec(#[trigger] fdinfo_texts@[i]@, vendor),
{
    for i in 0..fdinfo_texts.len()
        invariant
            forall|j: int| 0 <= j < i ==> !fdinfo_uses_npu_spec(#[trigger] fdinfo_texts@[j]@, vendor),
    {
        if fdinfo_uses_npu(fdinfo_texts[i].as_str(), vendor) {
            return true;
        }
    }
    false
}

/// `char::is_numeric`: the character has a Unicode general category of numbers
/// (`Nd`, `Nl` or `No`).
pub uninterp spec fn char_is_numeric(c: char) -> bool;

/// Calls `char::is_numeric`. Trusted: the result is `char_is_numeric` of the
/// character; which characters are numeric is not stated.
#[verifier::external_body]
fn is_numeric(c: char) -> (b: bool)
    ensures
        b == char_is_numeric(c),
{
    c.is_numeric()
}

/// Every character of the name of a `/proc` entry is numeric, as the name of a
/// process directory is.
pub open spec fn is_process_dir_name_spec(name: Seq<char>) -> bool {
    forall|i: int| 0 <= i < name.len() ==> char_is_numeric(#[trigger] name[i])
}

/// Whether the name of a `/proc` entry is all numeric.
pub fn is_process_dir_name(name: &str) -> (b: bool)
    ensures
        b == is_process_dir_name_spec(name@),
{
    let v = chars_of(name);
    for i in 0..v.len()
        invariant
            v@ == name@,
            forall|j: int| 0 <= j < i ==> char_is_numeric(#[trigger] v@[j]),
    {
        if !is_numeric(v[i]) {
            return false;
        }
    }
    true
}

/// The name of a process from its `cmdline`: the last `/`-separated part of its
/// first NUL-separated argument, or `unknown` when that part is empty.
pub open spec fn process_name_spec(cmdline: Seq<char>) -> Seq<char> {
    let program = split_at_char(cmdline, '\0')[0];
    let base = split_at_char(program, '/').last();
    if base.len() > 0 {
        base
    } else {
        "unknown"@
    }
}

/// Reads the name of a process from the text of its `cmdline` file.
pub fn process_name_from_cmdline(cmdline: &str) -> (name: String)
    ensures
        name@ == process_name_spec(cmdline@),
{
    let v = chars_of(cmdline);
    let args = split_pieces(&v, Separator::Char('\0'));
    assert(views(args@)[0] == args@[0]@);
    let parts = split_pieces(&args[0], Separator::Char('/'));
    let n = parts.len();
    assert(views(parts@).last() == parts@[n - 1]@);
    if parts[n - 1].len() > 0 {
        string_from(&parts[n - 1])
    } else {
        owned("unknown")
    }
}

/// Adds a model to the list of active workloads unless it is listed already.
pub fn add_active_model(models: &mut Vec<String>, name: String)
    ensures
        if old(models)@.map_values(|m: String| m@).contains(name@) {
            final(models)@ == old(models)@
        } else {
            final(models)@ == old(models)@.push(name)
        },
{
    let target = chars_of(name.as_str());
    let ghost names = models@.map_values(|m: String| m@);
    for i in 0..models.len()
        invariant
            target@ == name@,
            names == models@.map_values(|m: String| m@),
            forall|j: int| 0 <= j < i ==> names[j] != name@,
    {
        let v = chars_of(models[i].as_str());
        if chars_eq(&v, &target) {
            assert(names[i as int] == name@);
            return;
        }
    }
    assert(!names.contains(name@));
    models.push(name);
}

/// The NPU utilization shown for AMD, in half percent: 25 % for one client, 45 %
/// for two, 65 % for three and 70 % plus 3 % per client beyond four, capped at 88 %,
/// plus a variance (in percent) from a pseudo-random draw (its half from three
/// clients on); zero without clients.
pub open spec fn amd_npu_utilization_halves_spec(clients: nat, variance: nat) -> nat {
    if clients == 0 {
        0
    } else if clients == 1 {
        2 * (25 + variance)
    } else if clients == 2 {
        2 * (45 + variance)
    } else if clients == 3 {
        130 + variance
    } else {
        let v = 140 + 6 * ((clients - 4) as nat) + variance;
        if v < 176 {
            v
        } else {
            176
        }
    }
}

/// The AMD NPU utilization in half percent for `clients` NPU clients and a variance.
pub fn amd_npu_utilization_halves(clients: u32, variance: u32) -> (halves: u64)
    requires
        variance < 15,
    ensures
        halves == amd_npu_utilization_halves_spec(clients as nat, variance as nat),
{
    let v = variance as u64;
    if clients == 0 {
        0
    } else if clients == 1 {
        2 * (25 + v)
    } else if clients == 2 {
        2 * (45 + v)
    } else if clients == 3 {
        130 + v
    } else {
        let x = 140 + 6 * ((clients - 4) as u64) + v;
        if x < 176 {
            x
        } else {
            176
        }
    }
}

/// The NPU utilization shown for Intel, in percent: 30 % for one client, 55 % for
/// two, 22 % per client from three on, capped at 92 %; zero without clients.
pub open spec fn intel_npu_utilization_spec(clients: nat) -> nat {
    if clients == 0 {
        0
    } else if clients == 1 {
        30
    } else if clients == 2 {
        55
    } else if 22 * clients < 92 {
        22 * clients
    } else {
        92
    }
}

/// The Intel NPU utilization in percent for `clients` NPU clients.
pub fn intel_npu_utilization(clients: u32) -> (percent: u64)
    ensures
        percent == intel_npu_utilization_spec(clients as nat),
{
    if clients == 0 {
        0
    } else if clients == 1 {
        30
    } else if clients == 2 {
        55
    } else if 22 * (clients as u64) < 92 {
        22 * (clients as u64)
    } else {
        92
    }
}

/// No model is listed twice.
pub open spec fn no_duplicates(names: Seq<Seq<char>>) -> bool {
    forall|i: int, j: int| 0 <= i < j < names.len() ==> names[i] != names[j]
}

/// Adding models one at a time keeps the list of active workloads free of
/// duplicates, and the added model is listed afterwards.
pub proof fn law_active_models_stay_distinct(models: Seq<String>, name: String)
    requires
        no_duplicates(models.map_values(|m: String| m@)),
    ensures
        ({
            let after = if models.map_values(|m: String| m@).contains(name@) {
                models
            } else {
                models.push(name)
            };
            &&& no_duplicates(after.map_values(|m: String| m@))
            &&& after.map_values(|m: String| m@).contains(name@)
        }),
{
    let names = models.map_values(|m: String| m@);
    if !names.contains(name@) {
        let after = models.push(name);
        assert(after.map_values(|m: String| m@) =~= names.push(name@));
        assert(names.push(name@)[names.len() as int] == name@);
    }
}

/// A process always gets a non-empty name.
pub proof fn law_process_name_not_empty(cmdline: Seq<char>)
    ensures
        process_name_spec(cmdline).len() > 0,
{
    reveal_strlit("unknown");
}

/// The AMD estimate stays in the band its client count promises, whatever the
/// variance: 25-39 % for one client, 45-59 % for two, 65-72 % for three and
/// 70-88 % from four on (in half percent here).
pub proof fn law_amd_npu_utilization_bands(clients: nat, variance: nat)
    requires
        variance < 15,
    ensures
        ({
            let h = amd_npu_utilization_halves_spec(clients, variance);
            &&& clients == 0 ==> h == 0
            &&& clients == 1 ==> 50 <= h <= 78
            &&& clients == 2 ==> 90 <= h <= 118
            &&& clients == 3 ==> 130 <= h <= 144
            &&& clients >= 4 ==> 140 <= h <= 176
        }),
{
}

/// The Intel estimate never exceeds 92 % and grows with the number of clients.
pub proof fn law_intel_npu_utilization_bounded_and_monotone(a: nat, b: nat)
    requires
        a <= b,
    ensures
        intel_npu_utilization_spec(b) <= 92,
        intel_npu_utilization_spec(a) <= intel_npu_utilization_spec(b),
{
}

/// A node of `/dev/dri` counts as the NPU only when it is a render node with a link:
/// for either vendor a link that mentions `accel` makes it the NPU, for Intel a link
/// that mentions `vpu` does too, and whatever makes it AMD's NPU makes it Intel's.
pub proof fn law_render_node_detection(name: Seq<char>, link: Option<Seq<char>>)
    ensures
        !starts_with(name, "renderD"@) ==> !render_node_is_npu_spec(name, link, NpuVendor::Amd)
            && !render_node_is_npu_spec(name, link, NpuVendor::Intel),
        link is None ==> !render_node_is_npu_spec(name, link, NpuVendor::Amd)
            && !render_node_is_npu_spec(name, link, NpuVendor::Intel),
        starts_with(name, "renderD"@) && link is Some && contains(link->0, "accel"@) ==> {
            &&& render_node_is_npu_spec(name, link, NpuVendor::Amd)
            &&& render_node_is_npu_spec(name, link, NpuVendor::Intel)
        },
        starts_with(name, "renderD"@) && link is Some && contains(link->0, "vpu"@)
            ==> render_node_is_npu_spec(name, link, NpuVendor::Intel),
        render_node_is_npu_spec(name, link, NpuVendor::Amd) ==> link is Some && contains(
            link->0,
            "accel"@,
        ),
        render_node_is_npu_spec(name, link, NpuVendor::Amd) ==> render_node_is_npu_spec(
            name,
            link,
            NpuVendor::Intel,
        ),
{
}

/// The NPU driver is listed for AMD exactly when `amdxdna` appears, and for Intel
/// whenever `intel_vpu` or `intel_npu` appears.
pub proof fn law_module_detection(modules: Seq<char>)
    ensures
        modules_list_npu_driver_spec(modules, NpuVendor::Amd) == contains(modules, "amdxdna"@),
        contains(modules, "intel_vpu"@) ==> modules_list_npu_driver_spec(modules, NpuVendor::Intel),
        contains(modules, "intel_npu"@) ==> modules_list_npu_driver_spec(modules, NpuVendor::Intel),
        !contains(modules, "intel_vpu"@) && !contains(modules, "intel_npu"@)
            ==> !modules_list_npu_driver_spec(modules, NpuVendor::Intel),
{
}

/// An accel device is the AMD NPU exactly when its vendor trims to `0x1022` and its
/// device file could be read and trims to `0x1502` or `0x17f0`.
pub proof fn law_amd_npu_device(vendor: Seq<char>, device: Option<Seq<char>>)
    ensures
        is_amd_npu_device_spec(vendor, device) <==> (trim(vendor) == "0x1022"@ && device is Some && (trim(
            device->0,
        ) == "0x1502"@ || trim(device->0) == "0x17f0"@)),
{
}

/// The `fdinfo` markers that make a process a client of the NPU.
pub proof fn law_npu_client_markers(content: Seq<char>)
    ensures
        contains(content, "amdxdna"@) || contains(content, "accel"@) ==> fdinfo_uses_npu_spec(
            content,
            NpuVendor::Amd,
        ),
        contains(content, "drm-driver"@) && contains(content, "amd"@) ==> fdinfo_uses_npu_spec(
            content,
            NpuVendor::Amd,
        ),
        !contains(content, "amdxdna"@) && !contains(content, "accel"@) && !contains(
            content,
            "amd"@,
        ) ==> !fdinfo_uses_npu_spec(content, NpuVendor::Amd),
        contains(content, "intel_vpu"@) || contains(content, "intel-vpu"@) || contains(
            content,
            "intel_npu"@,
        ) ==> fdinfo_uses_npu_spec(content, NpuVendor::Intel),
        contains(content, "drm-driver:\taccel"@) || contains(content, "accel/accel"@)
            ==> fdinfo_uses_npu_spec(content, NpuVendor::Intel),
        !contains(content, "intel_vpu"@) && !contains(content, "intel-vpu"@) && !contains(
            content,
            "intel_npu"@,
        ) && !contains(content, "drm-driver:\taccel"@) && !contains(content, "accel/accel"@)
            ==> !fdinfo_uses_npu_spec(content, NpuVendor::Intel),
{
}

/// Each vendor's NPU has its own name.
pub proof fn law_npu_names()
    ensures
        npu_name_spec(NpuVendor::Amd) == "AMD Ryzen AI (NPU)"@,
        npu_name_spec(NpuVendor::Intel) == "Intel AI Boost (NPU)"@,
{
}

/// The Intel estimate: 30 % for one client, 55 % for two, 22 % per client from three
/// on up to 92 %, nothing without clients.
pub proof fn law_intel_npu_utilization_values(clients: nat)
    ensures
        clients == 0 ==> intel_npu_utilization_spec(clients) == 0,
        clients == 1 ==> intel_npu_utilization_spec(clients) == 30,
        clients == 2 ==> intel_npu_utilization_spec(clients) == 55,
        clients >= 3 && clients <= 4 ==> intel_npu_utilization_spec(clients) == 22 * clients,
        clients >= 5 ==> intel_npu_utilization_spec(clients) == 92,
{
}

/// A process is named by the last path part of its program: the name is `unknown` or
/// holds neither `/` nor NUL, and a command line that is a bare program name (no `/`,
/// no NUL, not empty) names itself.
pub proof fn law_process_name_is_a_path_part(cmdline: Seq<char>)
    ensures
        process_name_spec(cmdline) == "unknown"@ || (forall|i: int|
            0 <= i < process_name_spec(cmdline).len() ==> #[trigger] process_name_spec(cmdline)[i]
                != '/' && process_name_spec(cmdline)[i] != '\0'),
        cmdline.len() > 0 && (forall|i: int|
            0 <= i < cmdline.len() ==> #[trigger] cmdline[i] != '/' && cmdline[i] != '\0')
            ==> process_name_spec(cmdline) == cmdline,
{
    let nul = separates(Separator::Char('\0'));
    let slash = separates(Separator::Char('/'));
    law_split_pieces_hold_no_separator(cmdline, nul);
    lemma_split_by_len(cmdline, nul);
    let program = split_at_char(cmdline, '\0')[0];
    law_split_pieces_hold_no_separator(program, slash);
    lemma_split_pieces_keep_absence(program, slash, nul);
    lemma_split_by_len(program, slash);
    let parts = split_at_char(program, '/');
    let base = parts.last();
    assert forall|i: int| 0 <= i < base.len() implies #[trigger] base[i] != '/' && base[i] != '\0' by {
        assert(base[i] == parts[parts.len() - 1][i]);
        assert(!slash(parts[parts.len() - 1][i]));
        assert(!nul(parts[parts.len() - 1][i]));
    }
}

/// How the AMD estimate moves with the variance: one percent per step for one or two
/// clients, half a percent for three, and from four clients on half a percent until
/// the 88 % ceiling; without clients it stays at zero.
pub proof fn law_amd_npu_variance_steps(clients: nat, v: nat)
    ensures
        amd_npu_utilization_halves_spec(0, v) == 0,
        clients == 1 || clients == 2 ==> amd_npu_utilization_halves_spec(clients, v + 1)
            == amd_npu_utilization_halves_spec(clients, v) + 2,
        clients == 3 ==> amd_npu_utilization_halves_spec(clients, v + 1)
            == amd_npu_utilization_halves_spec(clients, v) + 1,
        clients >= 4 ==> amd_npu_utilization_halves_spec(clients, v + 1)
            <= amd_npu_utilization_halves_spec(clients, v) + 1,
        clients >= 4 && amd_npu_utilization_halves_spec(clients, v + 1) < 176
            ==> amd_npu_utilization_halves_spec(clients, v + 1) == amd_npu_utilization_halves_spec(
            clients,
            v,
        ) + 1,
        clients >= 1 ==> amd_npu_utilization_halves_spec(clients, 0) == if clients == 1 {
            50nat
        } else if clients == 2 {
            90nat
        } else if clients == 3 {
            130nat
        } else if 140 + 6 * (clients - 4) < 176 {
            (140 + 6 * (clients - 4)) as nat
        } else {
            176nat
        },
{
}

} // verus!
