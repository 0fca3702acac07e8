//! GPU facts read from the DRM sysfs tree and from the `fdinfo` of processes:
//! engine busy time, names by PCI id, memory sizes and the integrated/discrete
//! decision, and the bookkeeping of the GPU list.
use crate::binary64::{
    gigabytes_below, gigabytes_below_exec, lemma_binade_exists, quotient_shift,
    quotient_significand, u64_as_f64,
};
use vstd::arithmetic::div_mod::lemma_multiply_divide_lt;
use vstd::arithmetic::mul::lemma_mul_inequality;
use vstd::arithmetic::mul::lemma_mul_is_commutative;
use vstd::arithmetic::power2::{lemma2_to64, lemma2_to64_rest, lemma_pow2_pos, pow2};
use crate::fmt::{decimal, u64_to_decimal};
use crate::text::{
    chars_eq_str, chars_of, contains, contains_exec, copy_range, lines, lines_of, opt_view,
    owned, parse_u64_range, parse_u64_spec, read_u64_or_zero, split_at_char, split_pieces,
    starts_with, starts_with_exec, str_contains, trim, trim_bounds, trimmed_chars, u64_or_zero,
    views, words, words_of, Separator, prefix_before, prefix_before_exec, strip_trailing,
    strip_trailing_exec, string_from, strip_both, strip_leading_exec,
};
use vstd::prelude::*;

verus! {

/// The kernel DRM driver whose engine time is counted.
#[derive(Clone, Copy, PartialEq, Eq, Debug)]
pub enum GpuDriver {
    /// Intel `i915`.
    I915,
    /// AMD `amdgpu`.
    Amdgpu,
}

/// An `fdinfo` file belongs to a client of `driver`.
pub open spec fn fdinfo_names_driver(content: Seq<char>, driver: GpuDriver) -> bool {
    match driver {
        GpuDriver::I915 => contains(content, "drm-driver:\ti915"@) || contains(content, "i915"@),
        GpuDriver::Amdgpu => contains(content, "amdgpu"@) || contains(content, "drm-driver:\tamdgpu"@),
    }
}

/// A line of an `fdinfo` file that reports the busy time of a counted engine.
pub open spec fn is_engine_line(line: Seq<char>, driver: GpuDriver) -> bool {
    match driver {
        GpuDriver::I915 => {
            ||| starts_with(line, "drm-engine-render:"@)
            ||| starts_with(line, "drm-engine-rcs0:"@)
            ||| starts_with(line, "drm-engine-rcs:"@)
        },
        GpuDriver::Amdgpu => {
            ||| starts_with(line, "drm-engine-gfx:"@)
            ||| starts_with(line, "drm-engine-compute:"@)
            ||| starts_with(line, "drm-engine-render:"@)
        },
    }
}

/// The nanoseconds an engine line reports: the first word after its first colon, when
/// that word is a `u64`; zero otherwise.
pub open spec fn engine_line_ns(line: Seq<char>) -> nat {
    let parts = split_at_char(line, ':');
    if parts.len() >= 2 {
        let w = words(trim(parts[1]));
        if w.len() >= 1 {
            match parse_u64_spec(w[0]) {
                Some(v) => v as nat,
                None => 0,
            }
        } else {
            0
        }
    } else {
        0
    }
}

/// The nanoseconds of the counted engine lines among `ls`.
pub open spec fn engine_time_sum(ls: Seq<Seq<char>>, driver: GpuDriver) -> nat
    decreases ls.len(),
{
    if ls.len() == 0 {
        0
    } else {
        engine_time_sum(ls.drop_last(), driver) + if is_engine_line(ls.last(), driver) {
            engine_line_ns(ls.last())
        } else {
            0
        }
    }
}

/// The engine busy time that one `fdinfo` file contributes for `driver`.
pub open spec fn fdinfo_engine_time(content: Seq<char>, driver: GpuDriver) -> nat {
    if fdinfo_names_driver(content, driver) {
        engine_time_sum(lines(content), driver)
    } else {
        0
    }
}

proof fn lemma_engine_time_sum_prefix(ls: Seq<Seq<char>>, driver: GpuDriver, k: int)
    requires
        0 <= k <= ls.len(),
    ensures
        engine_time_sum(ls.take(k), driver) <= engine_time_sum(ls, driver),
    decreases ls.len(),
{
    if k < ls.len() {
        assert(ls.drop_last().take(k) =~= ls.take(k));
        lemma_engine_time_sum_prefix(ls.drop_last(), driver, k);
    } else {
        assert(ls.take(k) =~= ls);
    }
}

fn driver_names_in(content: &Vec<char>, driver: GpuDriver) -> (b: bool)
    ensures
        b == fdinfo_names_driver(content@, driver),
{
    match driver {
        GpuDriver::I915 => {
            contains_exec(content, &chars_of("drm-driver:\ti915")) || contains_exec(
                content,
                &chars_of("i915"),
            )
        },
        GpuDriver::Amdgpu => {
            contains_exec(content, &chars_of("amdgpu")) || contains_exec(
                content,
                &chars_of("drm-driver:\tamdgpu"),
            )
        },
    }
}

fn engine_line_check(line: &Vec<char>, driver: GpuDriver) -> (b: bool)
    ensures
        b == is_engine_line(line@, driver),
{
    match driver {
        GpuDriver::I915 => {
            starts_with_exec(line, &chars_of("drm-engine-render:")) || starts_with_exec(
                line,
                &chars_of("drm-engine-rcs0:"),
            ) || starts_with_exec(line, &chars_of("drm-engine-rcs:"))
        },
        GpuDriver::Amdgpu => {
            starts_with_exec(line, &chars_of("drm-engine-gfx:")) || starts_with_exec(
                line,
                &chars_of("drm-engine-compute:"),
            ) || starts_with_exec(line, &chars_of("drm-engine-render:"))
        },
    }
}

fn engine_line_value(line: &Vec<char>) -> (ns: u64)
    ensures
        ns == engine_line_ns(line@),
{
    let parts = split_pieces(line, Separator::Char(':'));
    if parts.len() < 2 {
        return 0;
    }
    assert(views(parts@)[1] == parts@[1]@);
    let (lo, hi) = trim_bounds(&parts[1]);
    let t = copy_range(&parts[1], lo, hi);
    let ws = words_of(&t);
    if ws.len() < 1 {
        return 0;
    }
    assert(views(ws@)[0] == ws@[0]@);
    let n = ws[0].len();
    assert(ws@[0]@.subrange(0, n as int) =~= ws@[0]@);
    match parse_u64_range(&ws[0], 0, n) {
        Some(v) => v,
        None => 0,
    }
}

/// The engine busy time in nanoseconds that one `fdinfo` file reports for `driver`:
/// the sum over its engine lines when the file belongs to a client of `driver`,
/// and `None` when that sum does not fit in 64 bits.
pub fn fdinfo_engine_ns(content: &str, driver: GpuDriver) -> (r: Option<u64>)
    ensures
        r == (if fdinfo_engine_time(content@, driver) <= u64::MAX {
            Some(fdinfo_engine_time(content@, driver) as u64)
        } else {
            None::<u64>
        }),
{
    let v = chars_of(content);
    if !driver_names_in(&v, driver) {
        return Some(0);
    }
    let ls = lines_of(&v);
    let ghost all = views(ls@);
    let mut total: u64 = 0;
    assert(all.take(0) =~= Seq::<Seq<char>>::empty());
    for i in 0..ls.len()
        invariant
            all == views(ls@),
            all == lines(content@),
            fdinfo_names_driver(content@, driver),
            total == engine_time_sum(all.take(i as int), driver),
    {
        assert(all.take(i + 1).drop_last() =~= all.take(i as int));
        assert(all[i as int] == ls@[i as int]@);
        if engine_line_check(&ls[i], driver) {
            let ns = engine_line_value(&ls[i]);
            match total.checked_add(ns) {
                Some(t) => {
                    total = t;
                },
                None => {
                    proof {
                        lemma_engine_time_sum_prefix(all, driver, i + 1);
                        assert(engine_time_sum(all.take(i + 1), driver) == total + ns);
                    }
                    return None;
                },
            }
        }
    }
    assert(all.take(all.len() as int) =~= all);
    Some(total)
}

/// The name of an Intel GPU from the text of its PCI `device` file (`None` when the
/// file could not be read): the Meteor Lake Arc ids have their own name.
pub open spec fn intel_gpu_name_spec(device_file: Option<Seq<char>>) -> Seq<char> {
    match device_file {
        Some(raw) => {
            let id = trim(raw);
            if id == "0x7d45"@ || id == "0x7d55"@ || id == "0x7dd5"@ {
                "Intel Arc Graphics (Meteor Lake)"@
            } else {
                "Intel Integrated Graphics"@
            }
        },
        None => "Intel Integrated Graphics"@,
    }
}

/// Names an Intel GPU from the text of its PCI `device` file.
pub fn intel_gpu_name(device_file: Option<&str>) -> (name: String)
    ensures
        name@ == intel_gpu_name_spec(opt_view(device_file)),
{
    match device_file {
        Some(raw) => {
            let id = trimmed_chars(raw);
            if chars_eq_str(&id, "0x7d45") || chars_eq_str(&id, "0x7d55") || chars_eq_str(
                &id,
                "0x7dd5",
            ) {
                owned("Intel Arc Graphics (Meteor Lake)")
            } else {
                owned("Intel Integrated Graphics")
            }
        },
        None => owned("Intel Integrated Graphics"),
    }
}

/// The PCI device id of an AMD GPU: the trimmed text of its `device` file, empty when
/// the file could not be read.
pub open spec fn amd_device_id_spec(device_file: Option<Seq<char>>) -> Seq<char> {
    match device_file {
        Some(raw) => trim(raw),
        None => Seq::<char>::empty(),
    }
}

/// Reads the PCI device id of an AMD GPU from its `device` file.
pub fn amd_device_id(device_file: Option<&str>) -> (id: String)
    ensures
        id@ == amd_device_id_spec(opt_view(device_file)),
{
    match device_file {
        Some(raw) => crate::text::trim_str(raw),
        None => String::new(),
    }
}

/// The model that a PCI device id of an AMD GPU identifies, when it is known.
pub open spec fn amd_name_by_id(id: Seq<char>) -> Option<Seq<char>> {
    if id == "0x15bf"@ || id == "0x1900"@ || id == "0x1638"@ {
        Some("AMD Radeon 780M"@)
    } else if id == "0x15c8"@ {
        Some("AMD Radeon 680M"@)
    } else if id == "0x164e"@ {
        Some("AMD Radeon RX 7600M XT"@)
    } else if id == "0x1636"@ {
        Some("AMD Radeon 660M"@)
    } else {
        None
    }
}

/// The name of an AMD GPU whose model is not recognised.
pub open spec fn amd_fallback_name(id: Seq<char>) -> Seq<char> {
    if id.len() > 0 {
        "AMD Radeon iGPU ("@ + id + ")"@
    } else {
        "AMD Radeon Graphics"@
    }
}

/// The model that the `modalias` of an AMD GPU mentions.
pub open spec fn amd_name_by_modalias(id: Seq<char>, modalias: Seq<char>) -> Seq<char> {
    if contains(modalias, "1900"@) || contains(modalias, "v00001002d00001900"@) {
        "AMD Radeon 780M"@
    } else if contains(modalias, "15bf"@) || contains(modalias, "v00001002d000015BF"@) {
        "AMD Radeon 780M"@
    } else if contains(modalias, "15c8"@) || contains(modalias, "v00001002d000015C8"@) {
        "AMD Radeon 680M"@
    } else if contains(modalias, "1636"@) || contains(modalias, "v00001002d00001636"@) {
        "AMD Radeon 660M"@
    } else {
        amd_fallback_name(id)
    }
}

/// The name of an AMD GPU: by its device id when the id is known; else by its
/// `product_name` file unless that is empty or only `AMD` or `Radeon`; else, when
/// there is no `product_name` file, by its `modalias` file.
pub open spec fn amd_gpu_name_spec(
    id: Seq<char>,
    product_name: Option<Seq<char>>,
    modalias: Option<Seq<char>>,
) -> Seq<char> {
    match amd_name_by_id(id) {
        Some(n) => n,
        None => match product_name {
            Some(p) => {
                let t = trim(p);
                if t.len() > 0 && t != "AMD"@ && t != "Radeon"@ {
                    t
                } else {
                    amd_fallback_name(id)
                }
            },
            None => match modalias {
                Some(m) => amd_name_by_modalias(id, m),
                None => amd_fallback_name(id),
            },
        },
    }
}

fn amd_fallback_name_exec(id: &str) -> (name: String)
    ensures
        name@ == amd_fallback_name(id@),
{
    if id.unicode_len() > 0 {
        let mut s = owned("AMD Radeon iGPU (");
        s.append(id);
        s.append(")");
        s
    } else {
        owned("AMD Radeon Graphics")
    }
}

fn mentions(m: &str, short: &str, long: &str) -> (b: bool)
    ensures
        b == (contains(m@, short@) || contains(m@, long@)),
{
    str_contains(m, short) || str_contains(m, long)
}

/// Names an AMD GPU from its device id and the texts of its `product_name` and
/// `modalias` files (`None` for a file that could not be read).
pub fn amd_gpu_name(id: &str, product_name: Option<&str>, modalias: Option<&str>) -> (name:
    String)
    ensures
        name@ == amd_gpu_name_spec(id@, opt_view(product_name), opt_view(modalias)),
{
    let v = chars_of(id);
    if chars_eq_str(&v, "0x15bf") || chars_eq_str(&v, "0x1900") || chars_eq_str(&v, "0x1638") {
        return owned("AMD Radeon 780M");
    }
    if chars_eq_str(&v, "0x15c8") {
        return owned("AMD Radeon 680M");
    }
    if chars_eq_str(&v, "0x164e") {
        return owned("AMD Radeon RX 7600M XT");
    }
    if chars_eq_str(&v, "0x1636") {
        return owned("AMD Radeon 660M");
    }
    match product_name {
        Some(p) => {
            let t = trimmed_chars(p);
            if t.len() > 0 && !chars_eq_str(&t, "AMD") && !chars_eq_str(&t, "Radeon") {
                crate::text::string_from(&t)
            } else {
                amd_fallback_name_exec(id)
            }
        },
        None => match modalias {
            Some(m) => {
                if mentions(m, "1900", "v00001002d00001900") {
                    owned("AMD Radeon 780M")
                } else if mentions(m, "15bf", "v00001002d000015BF") {
                    owned("AMD Radeon 780M")
                } else if mentions(m, "15c8", "v00001002d000015C8") {
                    owned("AMD Radeon 680M")
                } else if mentions(m, "1636", "v00001002d00001636") {
                    owned("AMD Radeon 660M")
                } else {
                    amd_fallback_name_exec(id)
                }
            },
            None => amd_fallback_name_exec(id),
        },
    }
}

/// A directory of `/sys/class/drm` that is a card itself, not a connector or a
/// render node.
pub open spec fn is_drm_card_name_spec(name: Seq<char>) -> bool {
    starts_with(name, "card"@) && !contains(name, "-"@) && !contains(name, "renderD"@)
}

/// Whether a directory name of `/sys/class/drm` names a card.
pub fn is_drm_card_name(name: &str) -> (b: bool)
    ensures
        b == is_drm_card_name_spec(name@),
{
    crate::text::str_starts_with(name, "card") && !str_contains(name, "-") && !str_contains(
        name,
        "renderD",
    )
}

/// `str::to_lowercase`: the Unicode lowercase mapping of every character.
pub uninterp spec fn lowercase(s: Seq<char>) -> Seq<char>;

/// Calls `str::to_lowercase`. Trusted: the result is `lowercase` of the text; the
/// Unicode case mapping itself is not stated.
#[verifier::external_body]
fn to_lowercase(s: &str) -> (r: String)
    ensures
        r@ == lowercase(s@),
{
    s.to_lowercase()
}

/// An AMD GPU counts as integrated when its memory is below 14 GB (as `f64`
/// gigabytes), when its name says so or names an integrated model, or when its
/// device id is that of an integrated model.
pub open spec fn amd_is_integrated_spec(name: Seq<char>, id: Seq<char>, memory_total: nat) -> bool {
    ||| gigabytes_below(memory_total, 14)
    ||| contains(lowercase(name), "integrated"@)
    ||| contains(name, "780M"@)
    ||| contains(name, "680M"@)
    ||| contains(name, "660M"@)
    ||| contains(name, "Vega"@)
    ||| contains(name, "iGPU"@)
    ||| id == "0x15bf"@
    ||| id == "0x1900"@
    ||| id == "0x15c8"@
    ||| id == "0x1638"@
    ||| id == "0x1636"@
}

/// Decides whether an AMD GPU is integrated.
pub fn amd_is_integrated(name: &str, id: &str, memory_total: u64) -> (b: bool)
    ensures
        b == amd_is_integrated_spec(name@, id@, memory_total as nat),
{
    let lower = to_lowercase(name);
    let v = chars_of(id);
    gigabytes_below_exec(memory_total, 14) || str_contains(lower.as_str(), "integrated")
        || str_contains(name, "780M") || str_contains(name, "680M") || str_contains(name, "660M")
        || str_contains(name, "Vega") || str_contains(name, "iGPU") || chars_eq_str(&v, "0x15bf")
        || chars_eq_str(&v, "0x1900") || chars_eq_str(&v, "0x15c8") || chars_eq_str(&v, "0x1638")
        || chars_eq_str(&v, "0x1636")
}

/// An NVIDIA GPU counts as integrated when its lowercase name mentions an integrated
/// part or when its memory is below 2 GB (as `f64` gigabytes).
pub open spec fn nvidia_is_integrated_spec(name: Seq<char>, memory_total: nat) -> bool {
    let lower = lowercase(name);
    ||| contains(lower, "integrated"@)
    ||| contains(lower, "igpu"@)
    ||| contains(lower, "uhd"@)
    ||| contains(lower, "iris"@)
    ||| gigabytes_below(memory_total, 2)
}

/// Decides whether an NVIDIA GPU is integrated.
pub fn nvidia_is_integrated(name: &str, memory_total: u64) -> (b: bool)
    ensures
        b == nvidia_is_integrated_spec(name@, memory_total as nat),
{
    let lower = to_lowercase(name);
    let l = lower.as_str();
    str_contains(l, "integrated") || str_contains(l, "igpu") || str_contains(l, "uhd")
        || str_contains(l, "iris") || gigabytes_below_exec(memory_total, 2)
}

/// The name given to an NVIDIA GPU whose name cannot be read.
pub fn nvidia_fallback_name(index: u32) -> (name: String)
    ensures
        name@ == "NVIDIA GPU "@ + decimal(index as nat),
{
    let mut s = owned("NVIDIA GPU ");
    s.append(u64_to_decimal(index as u64).as_str());
    s
}

/// The VRAM of an AMD GPU as (used, total) from its `mem_info_vram_used` and
/// `mem_info_vram_total` files.
pub fn read_amd_vram(used_file: Option<&str>, total_file: Option<&str>) -> (r: (u64, u64))
    ensures
        r == (u64_or_zero(opt_view(used_file)), u64_or_zero(opt_view(total_file))),
{
    (read_u64_or_zero(used_file), read_u64_or_zero(total_file))
}

/// The memory of an AMD GPU with no VRAM falls back to its GTT (shared system
/// memory): a readable GTT file replaces the value, an unreadable one keeps it.
pub open spec fn amd_memory_spec(
    vram: (u64, u64),
    gtt_used_file: Option<Seq<char>>,
    gtt_total_file: Option<Seq<char>>,
) -> (u64, u64) {
    if vram.1 == 0 {
        (
            if gtt_used_file is Some { u64_or_zero(gtt_used_file) } else { vram.0 },
            if gtt_total_file is Some { u64_or_zero(gtt_total_file) } else { vram.1 },
        )
    } else {
        vram
    }
}

/// The (used, total) memory of an AMD GPU from its VRAM and GTT files.
pub fn amd_memory(vram: (u64, u64), gtt_used_file: Option<&str>, gtt_total_file: Option<&str>) -> (r:
    (u64, u64))
    ensures
        r == amd_memory_spec(vram, opt_view(gtt_used_file), opt_view(gtt_total_file)),
{
    if vram.1 == 0 {
        let used = if gtt_used_file.is_some() {
            read_u64_or_zero(gtt_used_file)
        } else {
            vram.0
        };
        let total = if gtt_total_file.is_some() {
            read_u64_or_zero(gtt_total_file)
        } else {
            vram.1
        };
        (used, total)
    } else {
        vram
    }
}

/// The (total, used) memory of an Intel GPU: local memory, else the VRAM total, and
/// the VRAM in use.
pub open spec fn intel_memory_spec(
    lmem_total_file: Option<Seq<char>>,
    vram_total_file: Option<Seq<char>>,
    vram_used_file: Option<Seq<char>>,
) -> (u64, u64) {
    let lmem = u64_or_zero(lmem_total_file);
    (if lmem == 0 { u64_or_zero(vram_total_file) } else { lmem }, u64_or_zero(vram_used_file))
}

/// The (total, used) memory of an Intel GPU from its `lmem_total_bytes`,
/// `mem_info_vram_total` and `mem_info_vram_used` files.
pub fn intel_memory(
    lmem_total_file: Option<&str>,
    vram_total_file: Option<&str>,
    vram_used_file: Option<&str>,
) -> (r: (u64, u64))
    ensures
        r == intel_memory_spec(
            opt_view(lmem_total_file),
            opt_view(vram_total_file),
            opt_view(vram_used_file),
        ),
{
    let lmem = read_u64_or_zero(lmem_total_file);
    let total = if lmem == 0 {
        read_u64_or_zero(vram_total_file)
    } else {
        lmem
    };
    (total, read_u64_or_zero(vram_used_file))
}

/// The `MemTotal` of `/proc/meminfo` in kB: the second word of the first line that
/// starts with `MemTotal:` and has a `u64` there.
pub open spec fn meminfo_total_kb_in(ls: Seq<Seq<char>>) -> Option<u64>
    decreases ls.len(),
{
    if ls.len() == 0 {
        None
    } else {
        let w = words(ls[0]);
        if starts_with(ls[0], "MemTotal:"@) && w.len() >= 2 && parse_u64_spec(w[1]) is Some {
            parse_u64_spec(w[1])
        } else {
            meminfo_total_kb_in(ls.drop_first())
        }
    }
}

/// Reads `MemTotal` (in kB) from the text of `/proc/meminfo`.
pub fn meminfo_total_kb(meminfo: &str) -> (kb: Option<u64>)
    ensures
        kb == meminfo_total_kb_in(lines(meminfo@)),
{
    let v = chars_of(meminfo);
    let ls = lines_of(&v);
    let ghost all = views(ls@);
    let prefix = chars_of("MemTotal:");
    assert(all.skip(0) =~= all);
    for i in 0..ls.len()
        invariant
            all == views(ls@),
            all == lines(meminfo@),
            prefix@ == "MemTotal:"@,
            meminfo_total_kb_in(all) == meminfo_total_kb_in(all.skip(i as int)),
    {
        assert(all.skip(i as int)[0] == ls@[i as int]@);
        assert(all.skip(i as int).drop_first() =~= all.skip(i + 1));
        if starts_with_exec(&ls[i], &prefix) {
            let ws = words_of(&ls[i]);
            if ws.len() >= 2 {
                assert(views(ws@)[1] == ws@[1]@);
                let n = ws[1].len();
                assert(ws@[1]@.subrange(0, n as int) =~= ws@[1]@);
                let r = parse_u64_range(&ws[1], 0, n);
                assert(words(all.skip(i as int)[0]) == views(ws@));
                if r.is_some() {
                    return r;
                }
            }
        }
    }
    assert(all.skip(all.len() as int) =~= Seq::<Seq<char>>::empty());
    None
}

/// The memory an Intel GPU without its own is shown to have: half the system RAM.
pub fn intel_shared_memory_total(total_kb: u64) -> (bytes: u64)
    requires
        total_kb <= u64::MAX / 1024,
    ensures
        bytes == total_kb * 1024 / 2,
{
    total_kb * 1024 / 2
}

/// Bytes in 12 GiB, the most shared memory shown for an AMD iGPU.
pub const AMD_SHARED_MEMORY_CAP: u64 = 12 * 1024 * 1024 * 1024;

/// The memory an AMD iGPU is shown to have with `total_kb` of system RAM: half of it,
/// at most 12 GiB.
pub open spec fn amd_shared_memory(total_kb: nat) -> nat {
    if total_kb * 1024 / 2 < AMD_SHARED_MEMORY_CAP {
        total_kb * 1024 / 2
    } else {
        AMD_SHARED_MEMORY_CAP as nat
    }
}

/// The memory an AMD iGPU is shown to have: half the system RAM, at most 12 GiB.
pub fn amd_shared_memory_total(total_kb: u64) -> (bytes: u64)
    requires
        total_kb <= u64::MAX / 1024,
    ensures
        bytes == amd_shared_memory(total_kb as nat),
{
    let half = total_kb * 1024 / 2;
    if half < AMD_SHARED_MEMORY_CAP {
        half
    } else {
        AMD_SHARED_MEMORY_CAP
    }
}

/// Bytes in 512 MiB.
pub const HALF_GIB: u64 = 512 * 1024 * 1024;

/// The memory of an AMD GPU is estimated from the system RAM when its total is
/// unknown or it reports less than 512 MiB in use.
pub fn amd_memory_needs_estimate(used: u64, total: u64) -> (b: bool)
    ensures
        b == (total == 0 || used < HALF_GIB),
{
    total == 0 || used < HALF_GIB
}

/// Some line of `pp_dpm_sclk` marks its active level with `*`.
pub open spec fn has_active_dpm_level_spec(content: Seq<char>) -> bool {
    exists|i: int| 0 <= i < lines(content).len() && contains(#[trigger] lines(content)[i], "*"@)
}

/// Whether the text of `pp_dpm_sclk` marks an active clock level.
pub fn has_active_dpm_level(content: &str) -> (b: bool)
    ensures
        b == has_active_dpm_level_spec(content@),
{
    let v = chars_of(content);
    let ls = lines_of(&v);
    let star = chars_of("*");
    let ghost all = views(ls@);
    for i in 0..ls.len()
        invariant
            all == views(ls@),
            all == lines(content@),
            star@ == "*"@,
            forall|j: int| 0 <= j < i ==> !contains(#[trigger] all[j], "*"@),
    {
        assert(all[i as int] == ls@[i as int]@);
        if contains_exec(&ls[i], &star) {
            return true;
        }
    }
    false
}

/// What a GPU of the list is to the logic: its name and whether it is integrated.
pub struct GpuSummary {
    pub name: String,
    pub is_integrated: bool,
}

/// The number of integrated GPUs in `gpus`.
pub open spec fn integrated_count_spec(gpus: Seq<GpuSummary>) -> nat
    decreases gpus.len(),
{
    if gpus.len() == 0 {
        0
    } else {
        integrated_count_spec(gpus.drop_last()) + if gpus.last().is_integrated {
            1nat
        } else {
            0
        }
    }
}

/// The number of integrated GPUs in `gpus` whose name mentions `AMD`.
pub open spec fn amd_integrated_count_spec(gpus: Seq<GpuSummary>) -> nat
    decreases gpus.len(),
{
    if gpus.len() == 0 {
        0
    } else {
        amd_integrated_count_spec(gpus.drop_last()) + if gpus.last().is_integrated && contains(
            gpus.last().name@,
            "AMD"@,
        ) {
            1nat
        } else {
            0
        }
    }
}

proof fn lemma_count_bounds(gpus: Seq<GpuSummary>)
    ensures
        integrated_count_spec(gpus) <= gpus.len(),
        amd_integrated_count_spec(gpus) <= gpus.len(),
    decreases gpus.len(),
{
    if gpus.len() > 0 {
        lemma_count_bounds(gpus.drop_last());
    }
}

/// The number of integrated GPUs found so far: the slot of the next Intel GPU's
/// engine time.
pub fn integrated_count(gpus: &Vec<GpuSummary>) -> (n: usize)
    ensures
        n == integrated_count_spec(gpus@),
{
    let mut n: usize = 0;
    for i in 0..gpus.len()
        invariant
            n == integrated_count_spec(gpus@.take(i as int)),
            n <= i,
    {
        assert(gpus@.take(i + 1).drop_last() =~= gpus@.take(i as int));
        if gpus[i].is_integrated {
            n = n + 1;
        }
    }
    assert(gpus@.take(gpus.len() as int) =~= gpus@);
    n
}

/// The number of integrated AMD GPUs found so far: the slot of the next AMD GPU's
/// engine time.
pub fn amd_integrated_count(gpus: &Vec<GpuSummary>) -> (n: usize)
    ensures
        n == amd_integrated_count_spec(gpus@),
{
    let mut n: usize = 0;
    for i in 0..gpus.len()
        invariant
            n == amd_integrated_count_spec(gpus@.take(i as int)),
            n <= i,
    {
        assert(gpus@.take(i + 1).drop_last() =~= gpus@.take(i as int));
        if gpus[i].is_integrated && str_contains(gpus[i].name.as_str(), "AMD") {
            n = n + 1;
        }
    }
    assert(gpus@.take(gpus.len() as int) =~= gpus@);
    n
}

/// Whether some GPU of the list is discrete.
pub fn has_discrete_gpu(gpus: &Vec<GpuSummary>) -> (b: bool)
    ensures
        b == exists|i: int| 0 <= i < gpus.len() && !(#[trigger] gpus@[i]).is_integrated,
{
    for i in 0..gpus.len()
        invariant
            forall|j: int| 0 <= j < i ==> (#[trigger] gpus@[j]).is_integrated,
    {
        if !gpus[i].is_integrated {
            return true;
        }
    }
    false
}

/// Whether some GPU of the list is integrated.
pub fn has_integrated_gpu(gpus: &Vec<GpuSummary>) -> (b: bool)
    ensures
        b == exists|i: int| 0 <= i < gpus.len() && (#[trigger] gpus@[i]).is_integrated,
{
    for i in 0..gpus.len()
        invariant
            forall|j: int| 0 <= j < i ==> !(#[trigger] gpus@[j]).is_integrated,
    {
        if gpus[i].is_integrated {
            return true;
        }
    }
    false
}

/// The positions in `gpus` of the GPUs whose `is_integrated` is `integrated`, in order.
pub open spec fn positions_where(gpus: Seq<GpuSummary>, integrated: bool) -> Seq<usize>
    decreases gpus.len(),
{
    if gpus.len() == 0 {
        Seq::<usize>::empty()
    } else {
        let r = positions_where(gpus.drop_last(), integrated);
        if gpus.last().is_integrated == integrated {
            r.push((gpus.len() - 1) as usize)
        } else {
            r
        }
    }
}

/// The positions of the discrete GPUs (`integrated` false) or of the integrated ones.
pub fn gpu_positions(gpus: &Vec<GpuSummary>, integrated: bool) -> (r: Vec<usize>)
    ensures
        r@ == positions_where(gpus@, integrated),
{
    let mut r: Vec<usize> = Vec::new();
    for i in 0..gpus.len()
        invariant
            r@ == positions_where(gpus@.take(i as int), integrated),
    {
        assert(gpus@.take(i + 1).drop_last() =~= gpus@.take(i as int));
        if gpus[i].is_integrated == integrated {
            r.push(i);
        }
    }
    assert(gpus@.take(gpus.len() as int) =~= gpus@);
    r
}

/// Whether a GPU of the list already has the name `name`.
pub fn gpu_named(gpus: &Vec<GpuSummary>, name: &str) -> (b: bool)
    ensures
        b == exists|i: int| 0 <= i < gpus.len() && (#[trigger] gpus@[i]).name@ == name@,
{
    let target = chars_of(name);
    for i in 0..gpus.len()
        invariant
            target@ == name@,
            forall|j: int| 0 <= j < i ==> (#[trigger] gpus@[j]).name@ != name@,
    {
        let v = chars_of(gpus[i].name.as_str());
        if crate::text::chars_eq(&v, &target) {
            return true;
        }
    }
    false
}

/// The first position of a GPU named `name` whose `is_integrated` is `integrated`.
pub fn gpu_position(gpus: &Vec<GpuSummary>, name: &str, integrated: bool) -> (r: Option<usize>)
    ensures
        match r {
            Some(i) => i < gpus.len() && gpus@[i as int].name@ == name@
                && gpus@[i as int].is_integrated == integrated && forall|j: int|
                0 <= j < i ==> !((#[trigger] gpus@[j]).name@ == name@ && gpus@[j].is_integrated
                == integrated),
            None => forall|j: int|
                0 <= j < gpus.len() ==> !((#[trigger] gpus@[j]).name@ == name@
                    && gpus@[j].is_integrated == integrated),
        },
{
    let target = chars_of(name);
    for i in 0..gpus.len()
        invariant
            target@ == name@,
            forall|j: int|
                0 <= j < i ==> !((#[trigger] gpus@[j]).name@ == name@ && gpus@[j].is_integrated
                    == integrated),
    {
        let v = chars_of(gpus[i].name.as_str());
        if gpus[i].is_integrated == integrated && crate::text::chars_eq(&v, &target) {
            return Some(i);
        }
    }
    None
}

/// The busy time of the engines since the last sample, when there is a previous
/// non-zero sample and the counter has grown since.
pub open spec fn engine_busy_delta(last: Option<u64>, total: u64) -> Option<u64> {
    match last {
        Some(l) => if l > 0 && total > l {
            Some((total - l) as u64)
        } else {
            None
        },
        None => None,
    }
}

/// The engine-time counters after recording `total` for `slot`: the slot is
/// overwritten when it exists, else the sample is appended.
pub open spec fn after_record(times: Seq<u64>, slot: nat, total: u64) -> Seq<u64> {
    if slot < times.len() {
        times.update(slot as int, total)
    } else {
        times.push(total)
    }
}

/// Records the engine time `total` of the GPU in `slot` and returns the busy time
/// since its previous sample: the slot is overwritten when it exists, else the
/// sample is appended.
pub fn record_engine_time(times: &mut Vec<u64>, slot: usize, total: u64) -> (delta: Option<u64>)
    ensures
        delta == engine_busy_delta(
            if slot < old(times).len() { Some(old(times)@[slot as int]) } else { None },
            total,
        ),
        final(times)@ == after_record(old(times)@, slot as nat, total),
{
    let mut delta: Option<u64> = None;
    if slot < times.len() {
        let last = times[slot];
        if last > 0 && total > last {
            delta = Some(total - last);
        }
        times.set(slot, total);
    } else {
        times.push(total);
    }
    delta
}

/// The name of a `hwmon` temperature input, `temp{n}_input`.
pub fn temp_input_name(n: u64) -> (name: String)
    ensures
        name@ == "temp"@ + decimal(n as nat) + "_input"@,
{
    let mut s = owned("temp");
    s.append(u64_to_decimal(n).as_str());
    s.append("_input");
    s
}

/// The clock text of a `pp_dpm_sclk` line: what follows the first colon up to `Mhz`,
/// trimmed, without trailing `*`, trimmed again.
pub open spec fn dpm_clock_text(line: Seq<char>) -> Seq<char> {
    trim(strip_trailing(trim(prefix_before(split_at_char(line, ':')[1], "Mhz"@)), '*'))
}

/// The clock texts of the lines of `pp_dpm_sclk` that mark the active level with `*`
/// and have a colon, in order; the frequency is the first of them that reads as a
/// number.
pub open spec fn dpm_clock_texts(ls: Seq<Seq<char>>) -> Seq<Seq<char>>
    decreases ls.len(),
{
    if ls.len() == 0 {
        Seq::<Seq<char>>::empty()
    } else {
        let r = dpm_clock_texts(ls.drop_last());
        let l = ls.last();
        if contains(l, "*"@) && split_at_char(l, ':').len() >= 2 {
            r.push(dpm_clock_text(l))
        } else {
            r
        }
    }
}

fn trimmed_vec(v: &Vec<char>) -> (r: Vec<char>)
    ensures
        r@ == trim(v@),
{
    let (lo, hi) = trim_bounds(v);
    copy_range(v, lo, hi)
}

/// The candidate clock texts of the active levels in the text of `pp_dpm_sclk`.
pub fn dpm_active_clock_texts(content: &str) -> (texts: Vec<String>)
    ensures
        texts@.map_values(|t: String| t@) == dpm_clock_texts(lines(content@)),
{
    let v = chars_of(content);
    let ls = lines_of(&v);
    let ghost all = views(ls@);
    let star = chars_of("*");
    let mhz = chars_of("Mhz");
    let mut texts: Vec<String> = Vec::new();
    assert(all.take(0) =~= Seq::<Seq<char>>::empty());
    assert(texts@.map_values(|t: String| t@) =~= Seq::<Seq<char>>::empty());
    for i in 0..ls.len()
        invariant
            all == views(ls@),
            star@ == "*"@,
            mhz@ == "Mhz"@,
            texts@.map_values(|t: String| t@) == dpm_clock_texts(all.take(i as int)),
    {
        assert(all.take(i + 1).drop_last() =~= all.take(i as int));
        assert(all[i as int] == ls@[i as int]@);
        assert(all.take(i + 1).last() == ls@[i as int]@);
        if contains_exec(&ls[i], &star) {
            let parts = split_pieces(&ls[i], Separator::Char(':'));
            if parts.len() >= 2 {
                assert(views(parts@)[1] == parts@[1]@);
                let a = prefix_before_exec(&parts[1], &mhz);
                let b = trimmed_vec(&a);
                let c = strip_trailing_exec(&b, '*');
                let d = trimmed_vec(&c);
                let t = string_from(&d);
                let ghost old_texts = texts@.map_values(|t: String| t@);
                texts.push(t);
                assert(texts@.map_values(|t: String| t@) =~= old_texts.push(t@));
            }
        }
    }
    assert(all.take(all.len() as int) =~= all);
    texts
}

/// The lines of `typeperf` output after its two header lines.
pub open spec fn after_header(ls: Seq<Seq<char>>) -> Seq<Seq<char>> {
    if ls.len() <= 2 {
        Seq::<Seq<char>>::empty()
    } else {
        ls.skip(2)
    }
}

/// The utilization text of a `typeperf` line: its second comma-separated field,
/// trimmed, without the quotes around it.
pub open spec fn typeperf_field(line: Seq<char>) -> Seq<char> {
    strip_both(trim(split_at_char(line, ',')[1]), '"')
}

/// The utilization texts of the `typeperf` lines that mention Intel (in any case)
/// and have a second field, in order; the utilization is the first of them that
/// reads as a number.
pub open spec fn typeperf_intel_fields_in(ls: Seq<Seq<char>>) -> Seq<Seq<char>>
    decreases ls.len(),
{
    if ls.len() == 0 {
        Seq::<Seq<char>>::empty()
    } else {
        let r = typeperf_intel_fields_in(ls.drop_last());
        let l = ls.last();
        if contains(lowercase(l), "intel"@) && split_at_char(l, ',').len() >= 2 {
            r.push(typeperf_field(l))
        } else {
            r
        }
    }
}

/// The candidate utilization texts of the Intel GPU engines in the output of
/// `typeperf` (3D engine utilization, one sample).
pub fn typeperf_intel_fields(stdout: &str) -> (fields: Vec<String>)
    ensures
        fields@.map_values(|t: String| t@) == typeperf_intel_fields_in(
            after_header(lines(stdout@)),
        ),
{
    let v = chars_of(stdout);
    let ls = lines_of(&v);
    let ghost all = views(ls@);
    let ghost rest = after_header(all);
    let n = ls.len();
    let mut fields: Vec<String> = Vec::new();
    let mut i: usize = 2;
    assert(fields@.map_values(|t: String| t@) =~= Seq::<Seq<char>>::empty());
    if n <= 2 {
        return fields;
    }
    assert(rest.take(0) =~= Seq::<Seq<char>>::empty());
    while i < n
        invariant
            all == views(ls@),
            n == ls.len(),
            n > 2,
            rest == all.skip(2),
            2 <= i <= n,
            fields@.map_values(|t: String| t@) == typeperf_intel_fields_in(rest.take(i - 2)),
        decreases n - i,
    {
        assert(rest.take(i - 1).drop_last() =~= rest.take(i - 2));
        assert(rest[i - 2] == all[i as int]);
        assert(all[i as int] == ls@[i as int]@);
        assert(rest.take(i - 1).last() == ls@[i as int]@);
        let line = string_from(&ls[i]);
        let lower = to_lowercase(line.as_str());
        if str_contains(lower.as_str(), "intel") {
            let parts = split_pieces(&ls[i], Separator::Char(','));
            if parts.len() >= 2 {
                assert(views(parts@)[1] == parts@[1]@);
                let (lo, hi) = trim_bounds(&parts[1]);
                let t = copy_range(&parts[1], lo, hi);
                let a = strip_leading_exec(&t, '"');
                let b = strip_trailing_exec(&a, '"');
                let f = string_from(&b);
                let ghost old_fields = fields@.map_values(|t: String| t@);
                fields.push(f);
                assert(fields@.map_values(|t: String| t@) =~= old_fields.push(f@));
            }
        }
        i = i + 1;
    }
    assert(rest.take(n - 2) =~= rest);
    fields
}

/// The first integrated GPU whose name mentions `pat`.
pub fn first_integrated_mentioning(gpus: &Vec<GpuSummary>, pat: &str) -> (r: Option<usize>)
    ensures
        match r {
            Some(i) => i < gpus.len() && gpus@[i as int].is_integrated && contains(
                gpus@[i as int].name@,
                pat@,
            ) && forall|j: int|
                0 <= j < i ==> !((#[trigger] gpus@[j]).is_integrated && contains(
                    gpus@[j].name@,
                    pat@,
                )),
            None => forall|j: int|
                0 <= j < gpus.len() ==> !((#[trigger] gpus@[j]).is_integrated && contains(
                    gpus@[j].name@,
                    pat@,
                )),
        },
{
    for i in 0..gpus.len()
        invariant
            forall|j: int|
                0 <= j < i ==> !((#[trigger] gpus@[j]).is_integrated && contains(
                    gpus@[j].name@,
                    pat@,
                )),
    {
        if gpus[i].is_integrated && str_contains(gpus[i].name.as_str(), pat) {
            return Some(i);
        }
    }
    None
}

/// An AMD GPU whose memory is estimated from the system RAM counts as integrated,
/// whatever its name and id: the estimate is at most 12 GiB, below the 14 GB from
/// which an AMD GPU counts as discrete.
pub proof fn law_estimated_amd_memory_counts_integrated(name: Seq<char>, id: Seq<char>, total_kb: nat)
    ensures
        amd_is_integrated_spec(name, id, amd_shared_memory(total_kb)),
{
    let x = amd_shared_memory(total_kb);
    let b: nat = 1_000_000_000;
    lemma2_to64();
    lemma2_to64_rest();
    if x > 0 {
        assert(x < pow2(53));
        assert(u64_as_f64(x) == x);
        lemma_mul_inequality(1, b as int, pow2(53) as int);
        lemma_mul_is_commutative(b as int, pow2(53) as int);
        lemma_binade_exists(x, b);
        let p = quotient_shift(x, b);
        let pw = pow2(p);
        lemma_pow2_pos(p);
        let c: nat = 12_884_901_888;
        lemma_mul_inequality(x as int, c as int, pw as int);
        lemma_multiply_divide_lt((x * pw) as int, b as int, (14 * pw - 1) as int);
        assert(quotient_significand(x, b) <= (x * pw) / b + 1);
        assert(quotient_significand(x, b) < 14 * pw);
    }
}

proof fn lemma_positions_members(gpus: Seq<GpuSummary>, integrated: bool)
    requires
        gpus.len() <= usize::MAX,
    ensures
        forall|k: int|
            0 <= k < positions_where(gpus, integrated).len() ==> 0 <= (
            #[trigger] positions_where(gpus, integrated)[k]) < gpus.len()
                && gpus[positions_where(gpus, integrated)[k] as int].is_integrated == integrated,
        forall|k: int, l: int|
            0 <= k < l < positions_where(gpus, integrated).len() ==> (#[trigger] positions_where(
                gpus,
                integrated,
            )[k]) < (#[trigger] positions_where(gpus, integrated)[l]),
        forall|i: int|
            0 <= i < gpus.len() && (#[trigger] gpus[i]).is_integrated == integrated ==> positions_where(
                gpus,
                integrated,
            ).contains(i as usize),
        positions_where(gpus, true).len() + positions_where(gpus, false).len() == gpus.len(),
    decreases gpus.len(),
{
    if gpus.len() > 0 {
        let init = gpus.drop_last();
        lemma_positions_members(init, integrated);
        let r = positions_where(init, integrated);
        let all = positions_where(gpus, integrated);
        let n = gpus.len() - 1;
        assert(forall|k: int| 0 <= k < r.len() ==> #[trigger] init[r[k] as int] == gpus[r[k] as int]);
        if gpus.last().is_integrated == integrated {
            assert(all == r.push(n as usize));
        } else {
            assert(all == r);
        }
        assert forall|i: int|
            0 <= i < gpus.len() && (#[trigger] gpus[i]).is_integrated == integrated implies all.contains(
            i as usize,
        ) by {
            if i < n {
                assert(init[i] == gpus[i]);
                let k = choose|k: int| 0 <= k < r.len() && r[k] == i as usize;
                assert(all[k] == i as usize);
            } else {
                assert(all[all.len() - 1] == i as usize);
            }
        }
    }
}

/// Every GPU gets exactly one card: the discrete positions and the integrated
/// positions together name each GPU of the list once, in order within each group.
pub proof fn law_every_gpu_gets_one_card(gpus: Seq<GpuSummary>)
    requires
        gpus.len() <= usize::MAX,
    ensures
        positions_where(gpus, false).len() + positions_where(gpus, true).len() == gpus.len(),
        forall|i: int|
            0 <= i < gpus.len() ==> positions_where(gpus, (#[trigger] gpus[i]).is_integrated).contains(
                i as usize,
            ),
        forall|k: int|
            0 <= k < positions_where(gpus, false).len() ==> !gpus[(#[trigger] positions_where(
                gpus,
                false,
            )[k]) as int].is_integrated,
        forall|k: int|
            0 <= k < positions_where(gpus, true).len() ==> gpus[(#[trigger] positions_where(
                gpus,
                true,
            )[k]) as int].is_integrated,
{
    lemma_positions_members(gpus, false);
    lemma_positions_members(gpus, true);
}

/// The ids that name a known AMD model by themselves.
pub open spec fn is_known_amd_id(id: Seq<char>) -> bool {
    ||| id == "0x15bf"@
    ||| id == "0x1900"@
    ||| id == "0x1638"@
    ||| id == "0x15c8"@
    ||| id == "0x164e"@
    ||| id == "0x1636"@
}

/// How an AMD GPU is named: a known id names its model whatever the files say; else
/// a product name that trims to a text other than empty, `AMD` or `Radeon` is the name
/// as it stands (even when it mentions AMD); else, when there is a product name, the
/// fallback of the id; with neither product name nor modalias, the fallback too.
pub proof fn law_amd_name_sources(id: Seq<char>, product_name: Option<Seq<char>>, modalias: Option<Seq<char>>)
    ensures
        id == "0x15bf"@ || id == "0x1900"@ || id == "0x1638"@ ==> amd_gpu_name_spec(
            id,
            product_name,
            modalias,
        ) == "AMD Radeon 780M"@,
        id == "0x15c8"@ ==> amd_gpu_name_spec(id, product_name, modalias) == "AMD Radeon 680M"@,
        id == "0x164e"@ ==> amd_gpu_name_spec(id, product_name, modalias)
            == "AMD Radeon RX 7600M XT"@,
        id == "0x1636"@ ==> amd_gpu_name_spec(id, product_name, modalias) == "AMD Radeon 660M"@,
        !is_known_amd_id(id) ==> match product_name {
            Some(p) => {
                let t = trim(p);
                &&& (t.len() > 0 && t != "AMD"@ && t != "Radeon"@) ==> amd_gpu_name_spec(
                    id,
                    product_name,
                    modalias,
                ) == t
                &&& !(t.len() > 0 && t != "AMD"@ && t != "Radeon"@) ==> amd_gpu_name_spec(
                    id,
                    product_name,
                    modalias,
                ) == (if id.len() > 0 {
                    "AMD Radeon iGPU ("@ + id + ")"@
                } else {
                    "AMD Radeon Graphics"@
                })
            },
            None => modalias is None ==> amd_gpu_name_spec(id, product_name, modalias) == (if id.len()
                > 0 {
                "AMD Radeon iGPU ("@ + id + ")"@
            } else {
                "AMD Radeon Graphics"@
            }),
        },
{
    reveal_strlit("0x15bf");
    reveal_strlit("0x1900");
    reveal_strlit("0x1638");
    reveal_strlit("0x15c8");
    reveal_strlit("0x164e");
    reveal_strlit("0x1636");
    assert("0x15c8"@ != "0x15bf"@ && "0x164e"@ != "0x15bf"@) by {
        assert("0x15c8"@[4] != "0x15bf"@[4]);
        assert("0x164e"@[3] != "0x15bf"@[3]);
    }
    assert("0x15c8"@ != "0x1900"@ && "0x164e"@ != "0x1900"@) by {
        assert("0x15c8"@[3] != "0x1900"@[3]);
        assert("0x164e"@[3] != "0x1900"@[3]);
    }
    assert("0x15c8"@ != "0x1638"@ && "0x164e"@ != "0x1638"@ && "0x164e"@ != "0x15c8"@) by {
        assert("0x15c8"@[3] != "0x1638"@[3]);
        assert("0x164e"@[4] != "0x1638"@[4]);
        assert("0x164e"@[3] != "0x15c8"@[3]);
    }
    assert("0x1636"@ != "0x15bf"@ && "0x1636"@ != "0x1900"@ && "0x1636"@ != "0x1638"@) by {
        assert("0x1636"@[3] != "0x15bf"@[3]);
        assert("0x1636"@[3] != "0x1900"@[3]);
        assert("0x1636"@[5] != "0x1638"@[5]);
    }
    assert("0x1636"@ != "0x15c8"@ && "0x1636"@ != "0x164e"@) by {
        assert("0x1636"@[3] != "0x15c8"@[3]);
        assert("0x1636"@[4] != "0x164e"@[4]);
    }
}

/// The engine-time slot of an AMD GPU counts only integrated GPUs: never more than
/// all integrated GPUs, a discrete GPU added to the list changes neither count, and an
/// integrated GPU adds one to the integrated count and, when its name mentions AMD,
/// one to the AMD count.
pub proof fn law_slot_counts(gpus: Seq<GpuSummary>, g: GpuSummary)
    ensures
        amd_integrated_count_spec(gpus) <= integrated_count_spec(gpus),
        integrated_count_spec(gpus) <= gpus.len(),
        (forall|i: int| 0 <= i < gpus.len() ==> !(#[trigger] gpus[i]).is_integrated)
            ==> integrated_count_spec(gpus) == 0 && amd_integrated_count_spec(gpus) == 0,
        !g.is_integrated ==> integrated_count_spec(gpus.push(g)) == integrated_count_spec(gpus)
            && amd_integrated_count_spec(gpus.push(g)) == amd_integrated_count_spec(gpus),
        g.is_integrated ==> integrated_count_spec(gpus.push(g)) == integrated_count_spec(gpus) + 1,
        g.is_integrated ==> amd_integrated_count_spec(gpus.push(g)) == amd_integrated_count_spec(
            gpus,
        ) + if contains(g.name@, "AMD"@) {
            1int
        } else {
            0
        },
    decreases gpus.len(),
{
    assert(gpus.push(g).drop_last() =~= gpus);
    if gpus.len() > 0 {
        law_slot_counts(gpus.drop_last(), g);
        if forall|i: int| 0 <= i < gpus.len() ==> !(#[trigger] gpus[i]).is_integrated {
            assert(!gpus[gpus.len() - 1].is_integrated);
            assert forall|i: int| 0 <= i < gpus.drop_last().len() implies !(
            #[trigger] gpus.drop_last()[i]).is_integrated by {
                assert(gpus.drop_last()[i] == gpus[i]);
            }
        }
    }
}

/// An Intel GPU is named Meteor Lake Arc exactly when its device file trims to one of
/// that family's ids, and plain integrated graphics otherwise (also when the file
/// cannot be read).
pub proof fn law_intel_name(device_file: Option<Seq<char>>)
    ensures
        device_file is None ==> intel_gpu_name_spec(device_file) == "Intel Integrated Graphics"@,
        device_file is Some ==> {
            let id = trim(device_file->0);
            &&& (id == "0x7d45"@ || id == "0x7d55"@ || id == "0x7dd5"@) ==> intel_gpu_name_spec(
                device_file,
            ) == "Intel Arc Graphics (Meteor Lake)"@
            &&& !(id == "0x7d45"@ || id == "0x7d55"@ || id == "0x7dd5"@) ==> intel_gpu_name_spec(
                device_file,
            ) == "Intel Integrated Graphics"@
        },
{
}

/// An AMD GPU counts as integrated whenever its name mentions an integrated model
/// (`780M`, `680M`, `660M`, `Vega`, `iGPU`) or its id is one of the integrated ids,
/// whatever its memory; and with no memory reported it counts as integrated too.
pub proof fn law_amd_integrated_by_name_or_id(name: Seq<char>, id: Seq<char>, memory_total: nat)
    ensures
        contains(name, "780M"@) || contains(name, "680M"@) || contains(name, "660M"@) || contains(
            name,
            "Vega"@,
        ) || contains(name, "iGPU"@) ==> amd_is_integrated_spec(name, id, memory_total),
        id == "0x15bf"@ || id == "0x1900"@ || id == "0x15c8"@ || id == "0x1638"@ || id == "0x1636"@
            ==> amd_is_integrated_spec(name, id, memory_total),
        contains(lowercase(name), "integrated"@) ==> amd_is_integrated_spec(name, id, memory_total),
        amd_is_integrated_spec(name, id, 0),
{
}

/// An NVIDIA GPU counts as integrated whenever its lowercase name mentions
/// `integrated`, `igpu`, `uhd` or `iris`, or it reports no memory.
pub proof fn law_nvidia_integrated_by_name(name: Seq<char>, memory_total: nat)
    ensures
        contains(lowercase(name), "integrated"@) || contains(lowercase(name), "igpu"@) || contains(
            lowercase(name),
            "uhd"@,
        ) || contains(lowercase(name), "iris"@) ==> nvidia_is_integrated_spec(name, memory_total),
        nvidia_is_integrated_spec(name, 0),
{
}

/// A directory of `/sys/class/drm` names a card exactly when it starts with `card`
/// and contains neither `-` nor `renderD`.
pub proof fn law_drm_card_names(name: Seq<char>)
    ensures
        is_drm_card_name_spec(name) ==> starts_with(name, "card"@),
        contains(name, "-"@) ==> !is_drm_card_name_spec(name),
        contains(name, "renderD"@) ==> !is_drm_card_name_spec(name),
        starts_with(name, "card"@) && !contains(name, "-"@) && !contains(name, "renderD"@)
            ==> is_drm_card_name_spec(name),
{
}

/// The AMD memory keeps the VRAM reading when it reports a total; without one, a
/// readable GTT file takes the place of each value and an unreadable one keeps it.
pub proof fn law_amd_memory_sources(
    vram: (u64, u64),
    gtt_used_file: Option<Seq<char>>,
    gtt_total_file: Option<Seq<char>>,
)
    ensures
        vram.1 != 0 ==> amd_memory_spec(vram, gtt_used_file, gtt_total_file) == vram,
        vram.1 == 0 && gtt_used_file is None ==> amd_memory_spec(vram, gtt_used_file, gtt_total_file).0
            == vram.0,
        vram.1 == 0 && gtt_total_file is None ==> amd_memory_spec(
            vram,
            gtt_used_file,
            gtt_total_file,
        ).1 == 0,
        vram.1 == 0 && gtt_used_file is Some ==> amd_memory_spec(vram, gtt_used_file, gtt_total_file).0
            == u64_or_zero(gtt_used_file),
        vram.1 == 0 && gtt_total_file is Some ==> amd_memory_spec(
            vram,
            gtt_used_file,
            gtt_total_file,
        ).1 == u64_or_zero(gtt_total_file),
{
}

/// The Intel total is the local memory when it is reported (non-zero) and the VRAM
/// total otherwise; the memory in use is always the VRAM in use.
pub proof fn law_intel_memory_sources(
    lmem_total_file: Option<Seq<char>>,
    vram_total_file: Option<Seq<char>>,
    vram_used_file: Option<Seq<char>>,
)
    ensures
        u64_or_zero(lmem_total_file) != 0 ==> intel_memory_spec(
            lmem_total_file,
            vram_total_file,
            vram_used_file,
        ).0 == u64_or_zero(lmem_total_file),
        u64_or_zero(lmem_total_file) == 0 ==> intel_memory_spec(
            lmem_total_file,
            vram_total_file,
            vram_used_file,
        ).0 == u64_or_zero(vram_total_file),
        intel_memory_spec(lmem_total_file, vram_total_file, vram_used_file).1 == u64_or_zero(
            vram_used_file,
        ),
{
}

/// The estimated AMD shared memory is half the RAM while that stays below 12 GiB and
/// 12 GiB from there on: never above the cap, never above half the RAM, and growing
/// with the RAM.
pub proof fn law_amd_shared_memory_shape(a: nat, b: nat)
    requires
        a <= b,
    ensures
        amd_shared_memory(a) <= AMD_SHARED_MEMORY_CAP,
        2 * amd_shared_memory(a) <= a * 1024,
        a * 1024 < 2 * AMD_SHARED_MEMORY_CAP ==> a * 1024 <= 2 * amd_shared_memory(a) + 1,
        amd_shared_memory(a) <= amd_shared_memory(b),
{
}

/// The busy time between two samples exists only after a non-zero sample and when
/// the counter grew, and it is then exactly the growth.
pub proof fn law_engine_delta(last: Option<u64>, total: u64)
    ensures
        engine_busy_delta(last, total) is Some <==> (last is Some && last->0 > 0 && total
            > last->0),
        engine_busy_delta(last, total) is Some ==> engine_busy_delta(last, total)->0 + last->0
            == total,
{
}

/// An `fdinfo` file of a client of another driver adds no engine time.
pub proof fn law_other_clients_add_nothing(content: Seq<char>, driver: GpuDriver)
    ensures
        driver == GpuDriver::I915 && !contains(content, "i915"@) && !contains(
            content,
            "drm-driver:\ti915"@,
        ) ==> fdinfo_engine_time(content, driver) == 0,
        driver == GpuDriver::Amdgpu && !contains(content, "amdgpu"@) && !contains(
            content,
            "drm-driver:\tamdgpu"@,
        ) ==> fdinfo_engine_time(content, driver) == 0,
{
}

/// `MemTotal` is read from the first line that starts with `MemTotal:` and carries a
/// number as its second word: lines before it that do not start so are passed over,
/// and a found value is that line's second word.
pub proof fn law_meminfo_total(l: Seq<char>, rest: Seq<Seq<char>>)
    ensures
        !starts_with(l, "MemTotal:"@) ==> meminfo_total_kb_in(seq![l] + rest)
            == meminfo_total_kb_in(rest),
        starts_with(l, "MemTotal:"@) && words(l).len() >= 2 && parse_u64_spec(words(l)[1]) is Some
            ==> meminfo_total_kb_in(seq![l] + rest) == parse_u64_spec(words(l)[1]),
        meminfo_total_kb_in(Seq::<Seq<char>>::empty()) is None,
{
    assert((seq![l] + rest).drop_first() =~= rest);
    assert((seq![l] + rest)[0] == l);
}

/// The engine time of a client is the sum over its counted engine lines: a line that
/// is not a counted engine line adds nothing, and a counted one adds its nanoseconds.
pub proof fn law_engine_lines_add_up(ls: Seq<Seq<char>>, l: Seq<char>, driver: GpuDriver)
    ensures
        !is_engine_line(l, driver) ==> engine_time_sum(ls.push(l), driver) == engine_time_sum(
            ls,
            driver,
        ),
        is_engine_line(l, driver) ==> engine_time_sum(ls.push(l), driver) == engine_time_sum(
            ls,
            driver,
        ) + engine_line_ns(l),
        engine_time_sum(Seq::<Seq<char>>::empty(), driver) == 0,
{
    assert(ls.push(l).drop_last() =~= ls);
}

/// The counted engines: `render`, `rcs0` and `rcs` for i915; `gfx`, `compute` and
/// `render` for amdgpu.
pub proof fn law_counted_engines(line: Seq<char>)
    ensures
        starts_with(line, "drm-engine-render:"@) ==> is_engine_line(line, GpuDriver::I915)
            && is_engine_line(line, GpuDriver::Amdgpu),
        starts_with(line, "drm-engine-rcs0:"@) || starts_with(line, "drm-engine-rcs:"@)
            ==> is_engine_line(line, GpuDriver::I915),
        starts_with(line, "drm-engine-gfx:"@) || starts_with(line, "drm-engine-compute:"@)
            ==> is_engine_line(line, GpuDriver::Amdgpu),
{
}

/// Without a product name, the modalias decides: the 780M ids (`1900`, `15bf`), the
/// 680M id (`15c8`) and the 660M id (`1636`) name their model, and a modalias that
/// mentions none of them gives the fallback of the device id.
pub proof fn law_amd_name_by_modalias(id: Seq<char>, m: Seq<char>)
    ensures
        !is_known_amd_id(id) && contains(m, "1900"@) ==> amd_gpu_name_spec(id, None, Some(m))
            == "AMD Radeon 780M"@,
        !is_known_amd_id(id) && contains(m, "15bf"@) ==> amd_gpu_name_spec(id, None, Some(m))
            == "AMD Radeon 780M"@,
        !is_known_amd_id(id) && !contains(m, "1900"@) && !contains(m, "v00001002d00001900"@)
            && !contains(m, "15bf"@) && !contains(m, "v00001002d000015BF"@) && contains(
            m,
            "15c8"@,
        ) ==> amd_gpu_name_spec(id, None, Some(m)) == "AMD Radeon 680M"@,
        !is_known_amd_id(id) && !contains(m, "1900"@) && !contains(m, "v00001002d00001900"@)
            && !contains(m, "15bf"@) && !contains(m, "v00001002d000015BF"@) && !contains(m, "15c8"@)
            && !contains(m, "v00001002d000015C8"@) && contains(m, "1636"@) ==> amd_gpu_name_spec(
            id,
            None,
            Some(m),
        ) == "AMD Radeon 660M"@,
        !is_known_amd_id(id) && !contains(m, "1900"@) && !contains(m, "v00001002d00001900"@)
            && !contains(m, "15bf"@) && !contains(m, "v00001002d000015BF"@) && !contains(m, "15c8"@)
            && !contains(m, "v00001002d000015C8"@) && !contains(m, "1636"@) && !contains(
            m,
            "v00001002d00001636"@,
        ) ==> amd_gpu_name_spec(id, None, Some(m)) == (if id.len() > 0 {
            "AMD Radeon iGPU ("@ + id + ")"@
        } else {
            "AMD Radeon Graphics"@
        }),
{
}

/// Only lines that mark the active level with `*` and have a colon give a clock text.
pub proof fn law_dpm_lines(ls: Seq<Seq<char>>, l: Seq<char>)
    ensures
        !contains(l, "*"@) ==> dpm_clock_texts(ls.push(l)) == dpm_clock_texts(ls),
        contains(l, "*"@) && split_at_char(l, ':').len() >= 2 ==> dpm_clock_texts(ls.push(l))
            == dpm_clock_texts(ls).push(dpm_clock_text(l)),
{
    assert(ls.push(l).drop_last() =~= ls);
}

/// Only `typeperf` lines that mention Intel (in any case) and have a second field
/// give a utilization text, and the text is that field without the spaces and quotes
/// around it.
pub proof fn law_typeperf_lines(ls: Seq<Seq<char>>, l: Seq<char>)
    ensures
        !contains(lowercase(l), "intel"@) ==> typeperf_intel_fields_in(ls.push(l))
            == typeperf_intel_fields_in(ls),
        split_at_char(l, ',').len() < 2 ==> typeperf_intel_fields_in(ls.push(l))
            == typeperf_intel_fields_in(ls),
        contains(lowercase(l), "intel"@) && split_at_char(l, ',').len() >= 2
            ==> typeperf_intel_fields_in(ls.push(l)) == typeperf_intel_fields_in(ls).push(
            strip_both(trim(split_at_char(l, ',')[1]), '"'),
        ),
{
    assert(ls.push(l).drop_last() =~= ls);
}

/// The engine time recorded for a slot that exists, or for the next free one, is
/// what the next sample of that slot is compared with.
pub proof fn law_recorded_time_is_next_baseline(times: Seq<u64>, slot: nat, t1: u64, t2: u64)
    requires
        slot <= times.len(),
    ensures
        ({
            let after = after_record(times, slot, t1);
            &&& slot < after.len()
            &&& after[slot as int] == t1
            &&& engine_busy_delta(Some(after[slot as int]), t2) == engine_busy_delta(Some(t1), t2)
        }),
{
}

proof fn lemma_positions_where(gpus: Seq<GpuSummary>, integrated: bool)
    ensures
        (positions_where(gpus, integrated).len() > 0) == (exists|i: int|
            0 <= i < gpus.len() && (#[trigger] gpus[i]).is_integrated == integrated),
    decreases gpus.len(),
{
    if gpus.len() > 0 {
        let init = gpus.drop_last();
        lemma_positions_where(init, integrated);
        if exists|i: int| 0 <= i < init.len() && (#[trigger] init[i]).is_integrated == integrated {
            let i = choose|i: int| 0 <= i < init.len() && (#[trigger] init[i]).is_integrated == integrated;
            assert(gpus[i] == init[i]);
        }
        if exists|i: int| 0 <= i < gpus.len() && (#[trigger] gpus[i]).is_integrated == integrated {
            let i = choose|i: int| 0 <= i < gpus.len() && (#[trigger] gpus[i]).is_integrated == integrated;
            if i < gpus.len() - 1 {
                assert(init[i] == gpus[i]);
            }
        }
    }
}

/// The list of discrete GPUs is empty exactly when there is no discrete GPU, and
/// likewise for the integrated ones.
pub proof fn law_positions_match_presence(gpus: Seq<GpuSummary>)
    ensures
        (positions_where(gpus, false).len() > 0) == (exists|i: int|
            0 <= i < gpus.len() && !(#[trigger] gpus[i]).is_integrated),
        (positions_where(gpus, true).len() > 0) == (exists|i: int|
            0 <= i < gpus.len() && (#[trigger] gpus[i]).is_integrated),
{
    lemma_positions_where(gpus, false);
    lemma_positions_where(gpus, true);
}

} // verus!
