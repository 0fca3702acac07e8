//! Disks: space in use, the kind label, the summary line and icon, and where the
//! temperature of a drive is found in sysfs.
use crate::fmt::{bytes_label, decimal, format_bytes_to_gb, u64_to_decimal};
use crate::theme::{Rgb, Theme};
use crate::text::{
    chars_eq_str, chars_of, contains, copy_range, is_digit, occurs_at_exec, owned, starts_with,
    str_contains, string_from, trim, trimmed_chars,
};
use vstd::prelude::*;

verus! {

/// The kind of a disk as the system reports it.
#[derive(Clone, Copy, PartialEq, Eq, Debug)]
pub enum DiskKind {
    Hdd,
    Ssd,
    Unknown,
}

/// The label of a disk kind.
pub open spec fn disk_kind_label_spec(kind: DiskKind) -> Seq<char> {
    match kind {
        DiskKind::Hdd => "HDD"@,
        DiskKind::Ssd => "SSD"@,
        DiskKind::Unknown => "Unknown"@,
    }
}

/// The label of a disk kind: `HDD`, `SSD` or `Unknown`.
pub fn disk_kind_label(kind: DiskKind) -> (label: String)
    ensures
        label@ == disk_kind_label_spec(kind),
{
    match kind {
        DiskKind::Hdd => owned("HDD"),
        DiskKind::Ssd => owned("SSD"),
        DiskKind::Unknown => owned("Unknown"),
    }
}

/// What the logic reads of a mounted disk.
pub struct DiskInfo {
    pub mount_point: String,
    pub total_space: u64,
    pub available_space: u64,
    pub disk_type: String,
    pub file_system: String,
    pub is_removable: bool,
}

/// The space in use on a disk: total minus available, zero when more is available.
pub open spec fn used_space_of(disk: DiskInfo) -> nat {
    if disk.total_space >= disk.available_space {
        (disk.total_space - disk.available_space) as nat
    } else {
        0
    }
}

impl DiskInfo {
    /// The space in use: total minus available, and zero when more is available
    /// than the total.
    pub fn used_space(&self) -> (used: u64)
        ensures
            used == if self.total_space >= self.available_space {
                (self.total_space - self.available_space) as u64
            } else {
                0
            },
            used <= self.total_space,
    {
        self.total_space.saturating_sub(self.available_space)
    }
}

/// The number of disks in `disks` whose type is `SSD`.
pub open spec fn ssd_count_spec(disks: Seq<DiskInfo>) -> nat
    decreases disks.len(),
{
    if disks.len() == 0 {
        0
    } else {
        ssd_count_spec(disks.drop_last()) + if disks.last().disk_type@ == "SSD"@ {
            1nat
        } else {
            0
        }
    }
}

/// The number of solid-state disks.
pub fn ssd_count(disks: &Vec<DiskInfo>) -> (n: usize)
    ensures
        n == ssd_count_spec(disks@),
{
    let mut n: usize = 0;
    for i in 0..disks.len()
        invariant
            n == ssd_count_spec(disks@.take(i as int)),
            n <= i,
    {
        assert(disks@.take(i + 1).drop_last() =~= disks@.take(i as int));
        let t = chars_of(disks[i].disk_type.as_str());
        if chars_eq_str(&t, "SSD") {
            n = n + 1;
        }
    }
    assert(disks@.take(disks.len() as int) =~= disks@);
    n
}

/// The storage summary: `{drives} drives ({ssd} SSD)`.
pub fn drives_summary(disks: &Vec<DiskInfo>) -> (label: String)
    ensures
        label@ == decimal(disks@.len()) + " drives ("@ + decimal(ssd_count_spec(disks@))
            + " SSD)"@,
{
    let ssd = ssd_count(disks);
    let mut s = u64_to_decimal(disks.len() as u64);
    s.append(" drives (");
    s.append(u64_to_decimal(ssd as u64).as_str());
    s.append(" SSD)");
    s
}

/// The icon of a disk: a house for `/` and home mounts, a disc for removable media,
/// a floppy disk otherwise.
pub open spec fn disk_icon_spec(mount_point: Seq<char>, removable: bool) -> Seq<char> {
    if contains(mount_point, "home"@) || mount_point == "/"@ {
        "\u{1f3e0}"@
    } else if removable {
        "\u{1f4bf}"@
    } else {
        "\u{1f4be}"@
    }
}

/// The icon of a disk.
pub fn disk_icon(mount_point: &str, removable: bool) -> (icon: String)
    ensures
        icon@ == disk_icon_spec(mount_point@, removable),
{
    let v = chars_of(mount_point);
    if str_contains(mount_point, "home") || chars_eq_str(&v, "/") {
        owned("\u{1f3e0}")
    } else if removable {
        owned("\u{1f4bf}")
    } else {
        owned("\u{1f4be}")
    }
}

/// `str::trim_start_matches(pat)`: `s` without the repetitions of `pat` at its start.
pub open spec fn strip_leading(s: Seq<char>, pat: Seq<char>) -> Seq<char>
    decreases s.len(),
{
    if pat.len() > 0 && starts_with(s, pat) {
        strip_leading(s.skip(pat.len() as int), pat)
    } else {
        s
    }
}

/// The device name of a disk: its name without leading `/dev/`.
pub fn device_name(disk_name: &str) -> (device: String)
    ensures
        device@ == strip_leading(disk_name@, "/dev/"@),
{
    let v = chars_of(disk_name);
    let pat = chars_of("/dev/");
    let mut lo: usize = 0;
    proof {
        reveal_strlit("/dev/");
    }
    assert(v@.skip(0) =~= v@);
    while occurs_at_exec(&v, &pat, lo)
        invariant
            pat@ == "/dev/"@,
            pat@.len() == 5,
            lo <= v.len(),
            strip_leading(v@, pat@) == strip_leading(v@.skip(lo as int), pat@),
        decreases v.len() - lo,
    {
        assert(v@.skip(lo as int).take(5) =~= v@.subrange(lo as int, lo + 5));
        assert(v@.skip(lo as int).skip(5) =~= v@.skip(lo + 5));
        lo = lo + 5;
    }
    proof {
        let t = v@.skip(lo as int);
        if t.len() >= 5 {
            assert(t.take(5) =~= v@.subrange(lo as int, lo + 5));
        }
    }
    let r = copy_range(&v, lo, v.len());
    assert(r@ =~= v@.skip(lo as int));
    string_from(&r)
}

/// Whether a device is an NVMe drive.
pub fn is_nvme_device(device: &str) -> (b: bool)
    ensures
        b == starts_with(device@, "nvme"@),
{
    crate::text::str_starts_with(device, "nvme")
}

/// Where the namespace suffix `n<digits>` of an NVMe device name starts, searching
/// from index `i`; the length of the name when there is none.
pub open spec fn namespace_start(s: Seq<char>, i: int) -> int
    decreases s.len() - i,
{
    if i < 0 || i + 1 >= s.len() {
        s.len() as int
    } else if s[i] == 'n' && is_digit(s[i + 1]) {
        i
    } else {
        namespace_start(s, i + 1)
    }
}

/// The controller of an NVMe device: the device name up to, not including, its
/// namespace suffix `n<digits>` searched after the leading `nvme` (`nvme0` for
/// `nvme0n1` and for `nvme0n1p2`); the whole name when it has no such suffix.
pub open spec fn nvme_controller(device: Seq<char>) -> Seq<char> {
    device.take(namespace_start(device, 4))
}

proof fn lemma_namespace_start_bounds(s: Seq<char>, i: int)
    requires
        0 <= i,
    ensures
        0 <= namespace_start(s, i) <= s.len(),
    decreases s.len() - i,
{
    if i + 1 < s.len() && !(s[i] == 'n' && is_digit(s[i + 1])) {
        lemma_namespace_start_bounds(s, i + 1);
    }
}

/// The controller name used to find an NVMe drive's `hwmon`.
pub fn nvme_base_device(device: &str) -> (base: String)
    ensures
        base@ == nvme_controller(device@),
{
    let v = chars_of(device);
    let n = v.len();
    let mut i: usize = 4;
    while i + 1 < n && !(v[i] == 'n' && '0' <= v[i + 1] && v[i + 1] <= '9')
        invariant
            v@ == device@,
            n == v.len(),
            4 <= i,
            i == 4 || i < n,
            namespace_start(v@, 4) == namespace_start(v@, i as int),
        decreases n - i,
    {
        i = i + 1;
    }
    let stop = if i + 1 < n { i } else { n };
    proof {
        lemma_namespace_start_bounds(v@, 4);
    }
    let r = copy_range(&v, 0, stop);
    assert(r@ =~= v@.take(stop as int));
    string_from(&r)
}

/// A `hwmon` device whose `name` file reads `base` or starts with `nvme` belongs to
/// an NVMe drive.
pub fn hwmon_is_nvme(name_file: &str, base: &str) -> (b: bool)
    ensures
        b == (trim(name_file@) == base@ || starts_with(trim(name_file@), "nvme"@)),
{
    let name = trimmed_chars(name_file);
    chars_eq_str(&name, base) || crate::text::starts_with_exec(&name, &chars_of("nvme"))
}

/// The `hwmon` directory of an NVMe controller: `/sys/class/nvme/{base}/device/hwmon`.
pub fn nvme_hwmon_dir(base: &str) -> (path: String)
    ensures
        path@ == "/sys/class/nvme/"@ + base@ + "/device/hwmon"@,
{
    let mut s = owned("/sys/class/nvme/");
    s.append(base);
    s.append("/device/hwmon");
    s
}

/// The `hwmon` directory of a block device (drivetemp):
/// `/sys/block/{device}/device/hwmon`.
pub fn block_hwmon_dir(device: &str) -> (path: String)
    ensures
        path@ == "/sys/block/"@ + device@ + "/device/hwmon"@,
{
    let mut s = owned("/sys/block/");
    s.append(device);
    s.append("/device/hwmon");
    s
}

/// The line under a disk's mount point: `{used} / {total} | {file system}`.
pub fn disk_space_label(disk: &DiskInfo) -> (label: String)
    ensures
        label@ == bytes_label(used_space_of(*disk)) + " / "@ + bytes_label(disk.total_space as nat)
            + " | "@ + disk.file_system@,
{
    let mut s = format_bytes_to_gb(disk.used_space());
    s.append(" / ");
    s.append(format_bytes_to_gb(disk.total_space).as_str());
    s.append(" | ");
    s.append(disk.file_system.as_str());
    s
}

/// The colour of a disk's type badge: the success colour for an SSD, the tertiary
/// text colour otherwise.
pub fn disk_type_color(theme: &Theme, disk_type: &str) -> (c: Rgb)
    ensures
        c == if disk_type@ == "SSD"@ {
            theme.success
        } else {
            theme.text_tertiary
        },
{
    if chars_eq_str(&chars_of(disk_type), "SSD") {
        theme.success
    } else {
        theme.text_tertiary
    }
}

/// Each disk kind has its own label: `HDD`, `SSD` or `Unknown`.
pub proof fn law_kind_labels()
    ensures
        disk_kind_label_spec(DiskKind::Hdd) == "HDD"@,
        disk_kind_label_spec(DiskKind::Ssd) == "SSD"@,
        disk_kind_label_spec(DiskKind::Unknown) == "Unknown"@,
{
}

/// The SSD count counts exactly the disks typed `SSD`: adding one adds one, adding any
/// other leaves the count, and it never exceeds the number of disks.
pub proof fn law_ssd_count(disks: Seq<DiskInfo>, d: DiskInfo)
    ensures
        ssd_count_spec(disks) <= disks.len(),
        d.disk_type@ == "SSD"@ ==> ssd_count_spec(disks.push(d)) == ssd_count_spec(disks) + 1,
        d.disk_type@ != "SSD"@ ==> ssd_count_spec(disks.push(d)) == ssd_count_spec(disks),
    decreases disks.len(),
{
    assert(disks.push(d).drop_last() =~= disks);
    if disks.len() > 0 {
        law_ssd_count(disks.drop_last(), d);
    }
}

/// The root and home mounts get the house, other removable disks the disc, the rest
/// the floppy disk.
pub proof fn law_disk_icons(mount_point: Seq<char>, removable: bool)
    ensures
        mount_point == "/"@ ==> disk_icon_spec(mount_point, removable) == "\u{1f3e0}"@,
        contains(mount_point, "home"@) ==> disk_icon_spec(mount_point, removable) == "\u{1f3e0}"@,
        mount_point != "/"@ && !contains(mount_point, "home"@) && removable ==> disk_icon_spec(
            mount_point,
            removable,
        ) == "\u{1f4bf}"@,
        mount_point != "/"@ && !contains(mount_point, "home"@) && !removable ==> disk_icon_spec(
            mount_point,
            removable,
        ) == "\u{1f4be}"@,
{
}

/// The controller of an NVMe device is a prefix of its name that keeps at least the
/// leading `nvme`, and it never ends inside a namespace suffix: the character after it
/// (if any) is an `n` followed by a digit.
pub proof fn law_nvme_controller(device: Seq<char>)
    requires
        starts_with(device, "nvme"@),
    ensures
        nvme_controller(device).len() >= 4,
        device.take(nvme_controller(device).len() as int) == nvme_controller(device),
        nvme_controller(device).len() < device.len() ==> device[nvme_controller(device).len() as int]
            == 'n' && is_digit(device[nvme_controller(device).len() + 1int]),
        forall|j: int|
            4 <= j < nvme_controller(device).len() && j + 1 < device.len() ==> !(#[trigger] device[j]
                == 'n' && is_digit(device[j + 1])),
{
    reveal_strlit("nvme");
    lemma_namespace_start_facts(device, 4);
}

proof fn lemma_namespace_start_facts(s: Seq<char>, i: int)
    requires
        0 <= i <= s.len(),
    ensures
        i <= namespace_start(s, i) <= s.len(),
        namespace_start(s, i) < s.len() ==> s[namespace_start(s, i)] == 'n' && is_digit(
            s[namespace_start(s, i) + 1],
        ) && namespace_start(s, i) + 1 < s.len(),
        forall|j: int|
            i <= j < namespace_start(s, i) && j + 1 < s.len() ==> !(#[trigger] s[j] == 'n' && is_digit(
                s[j + 1],
            )),
    decreases s.len() - i,
{
    if i + 1 < s.len() && !(s[i] == 'n' && is_digit(s[i + 1])) {
        lemma_namespace_start_facts(s, i + 1);
    }
}

} // verus!
