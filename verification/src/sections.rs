//! Which parts of the window are shown, and how keyboard shortcuts and clicks change
//! that.
use vstd::prelude::*;

verus! {

/// The visibility of the FPS counter, of each collapsible section and of the help
/// window.
#[derive(Clone, Copy, PartialEq, Eq, Debug)]
pub struct Sections {
    pub show_fps: bool,
    pub show_cpu: bool,
    pub show_cpu_cores: bool,
    pub show_processes: bool,
    pub show_disks: bool,
    pub show_memory: bool,
    pub show_gpu: bool,
    pub show_npu: bool,
    pub show_battery: bool,
    pub show_help: bool,
}

/// The shortcut keys pressed during one frame.
#[derive(Clone, Copy, PartialEq, Eq, Debug)]
pub struct PressedKeys {
    /// `F`: FPS counter.
    pub f: bool,
    /// `1`: CPU section.
    pub num1: bool,
    /// `C`: per-core statistics.
    pub c: bool,
    /// `P`: processes.
    pub p: bool,
    /// `D`: disks.
    pub d: bool,
    /// `M`: memory.
    pub m: bool,
    /// `G`: GPU.
    pub g: bool,
    /// `N`: NPU.
    pub n: bool,
    /// `B`: battery.
    pub b: bool,
    /// `H`: help window.
    pub h: bool,
    /// `E`: expand every section.
    pub e: bool,
    /// `Q`: collapse every section.
    pub q: bool,
}

/// `s` with every section (not the FPS counter nor the help window) set to `shown`.
pub open spec fn with_all_sections(s: Sections, shown: bool) -> Sections {
    Sections {
        show_cpu: shown,
        show_cpu_cores: shown,
        show_processes: shown,
        show_disks: shown,
        show_memory: shown,
        show_gpu: shown,
        show_npu: shown,
        show_battery: shown,
        ..s
    }
}

/// The visibility after the shortcuts of one frame: each toggle key flips its flag,
/// then `E` shows every section, then `Q` hides every section.
pub open spec fn after_shortcuts(s: Sections, k: PressedKeys) -> Sections {
    let toggled = Sections {
        show_fps: s.show_fps != k.f,
        show_cpu: s.show_cpu != k.num1,
        show_cpu_cores: s.show_cpu_cores != k.c,
        show_processes: s.show_processes != k.p,
        show_disks: s.show_disks != k.d,
        show_memory: s.show_memory != k.m,
        show_gpu: s.show_gpu != k.g,
        show_npu: s.show_npu != k.n,
        show_battery: s.show_battery != k.b,
        show_help: s.show_help != k.h,
    };
    let expanded = if k.e {
        with_all_sections(toggled, true)
    } else {
        toggled
    };
    if k.q {
        with_all_sections(expanded, false)
    } else {
        expanded
    }
}

/// Every section shown.
pub open spec fn all_sections_are(s: Sections, shown: bool) -> bool {
    &&& s.show_cpu == shown
    &&& s.show_cpu_cores == shown
    &&& s.show_processes == shown
    &&& s.show_disks == shown
    &&& s.show_memory == shown
    &&& s.show_gpu == shown
    &&& s.show_npu == shown
    &&& s.show_battery == shown
}

impl Sections {
    /// The visibility at start: every section shown, no FPS counter, no help window.
    pub fn new() -> (s: Sections)
        ensures
            all_sections_are(s, true),
            !s.show_fps,
            !s.show_help,
    {
        Sections {
            show_fps: false,
            show_cpu: true,
            show_cpu_cores: true,
            show_processes: true,
            show_disks: true,
            show_memory: true,
            show_gpu: true,
            show_npu: true,
            show_battery: true,
            show_help: false,
        }
    }

    /// Applies the shortcuts pressed during one frame.
    pub fn apply_shortcuts(&mut self, k: &PressedKeys)
        ensures
            *final(self) == after_shortcuts(*old(self), *k),
    {
        let toggled = Sections {
            show_fps: self.show_fps != k.f,
            show_cpu: self.show_cpu != k.num1,
            show_cpu_cores: self.show_cpu_cores != k.c,
            show_processes: self.show_processes != k.p,
            show_disks: self.show_disks != k.d,
            show_memory: self.show_memory != k.m,
            show_gpu: self.show_gpu != k.g,
            show_npu: self.show_npu != k.n,
            show_battery: self.show_battery != k.b,
            show_help: self.show_help != k.h,
        };
        *self = toggled;
        if k.e {
            self.set_all(true);
        }
        if k.q {
            self.set_all(false);
        }
    }

    /// Shows or hides every section.
    pub fn set_all(&mut self, shown: bool)
        ensures
            *final(self) == with_all_sections(*old(self), shown),
    {
        self.show_cpu = shown;
        self.show_cpu_cores = shown;
        self.show_processes = shown;
        self.show_disks = shown;
        self.show_memory = shown;
        self.show_gpu = shown;
        self.show_npu = shown;
        self.show_battery = shown;
    }
}

/// No key pressed.
pub open spec fn no_keys() -> PressedKeys {
    PressedKeys {
        f: false,
        num1: false,
        c: false,
        p: false,
        d: false,
        m: false,
        g: false,
        n: false,
        b: false,
        h: false,
        e: false,
        q: false,
    }
}

/// A frame without shortcuts changes nothing.
pub proof fn law_no_shortcut_no_change(s: Sections)
    ensures
        after_shortcuts(s, no_keys()) == s,
{
}

/// Pressing the same toggle keys (without `E` or `Q`) in two frames restores the
/// visibility.
pub proof fn law_toggle_twice_restores(s: Sections, k: PressedKeys)
    requires
        !k.e,
        !k.q,
    ensures
        after_shortcuts(after_shortcuts(s, k), k) == s,
{
}

/// After `E` without `Q` every section is shown; after `Q` every section is hidden.
pub proof fn law_expand_and_collapse_all(s: Sections, k: PressedKeys)
    ensures
        k.e && !k.q ==> all_sections_are(after_shortcuts(s, k), true),
        k.q ==> all_sections_are(after_shortcuts(s, k), false),
{
}

/// `E` and `Q` leave the FPS counter and the help window to their own keys.
pub proof fn law_bulk_keys_spare_fps_and_help(s: Sections, k: PressedKeys)
    ensures
        after_shortcuts(s, k).show_fps == (s.show_fps != k.f),
        after_shortcuts(s, k).show_help == (s.show_help != k.h),
{
}

/// The process selected after a click on the row of `pid`: a click on the selected
/// row clears the selection, a click on another row selects it.
pub open spec fn selection_after_click(selected: Option<u32>, pid: u32) -> Option<u32> {
    if selected == Some(pid) {
        None
    } else {
        Some(pid)
    }
}

/// Updates the selected process after a click on the row of `pid`.
pub fn click_process(selected: Option<u32>, pid: u32) -> (r: Option<u32>)
    ensures
        r == selection_after_click(selected, pid),
{
    match selected {
        Some(s) => if s == pid {
            None
        } else {
            Some(pid)
        },
        None => Some(pid),
    }
}

/// Clicking the same row twice returns to the selection before the first click,
/// when that was nothing or this row.
pub proof fn law_click_twice_restores(selected: Option<u32>, pid: u32)
    requires
        selected == None::<u32> || selected == Some(pid),
    ensures
        selection_after_click(selection_after_click(selected, pid), pid) == selected,
{
}

/// Without `E` or `Q`, each key flips exactly its own flag: `F` the FPS counter, `1`
/// the CPU section, `C` the per-core list, `P` the processes, `D` the disks, `M` the
/// memory, `G` the GPUs, `N` the NPU, `B` the battery and `H` the help window.
pub proof fn law_each_key_flips_its_own_section(s: Sections, k: PressedKeys)
    requires
        !k.e,
        !k.q,
    ensures
        after_shortcuts(s, k).show_fps == (s.show_fps != k.f),
        after_shortcuts(s, k).show_cpu == (s.show_cpu != k.num1),
        after_shortcuts(s, k).show_cpu_cores == (s.show_cpu_cores != k.c),
        after_shortcuts(s, k).show_processes == (s.show_processes != k.p),
        after_shortcuts(s, k).show_disks == (s.show_disks != k.d),
        after_shortcuts(s, k).show_memory == (s.show_memory != k.m),
        after_shortcuts(s, k).show_gpu == (s.show_gpu != k.g),
        after_shortcuts(s, k).show_npu == (s.show_npu != k.n),
        after_shortcuts(s, k).show_battery == (s.show_battery != k.b),
        after_shortcuts(s, k).show_help == (s.show_help != k.h),
{
}

/// With `E` pressed and `Q` not, every section is shown and the FPS counter and help
/// window follow their own keys; with `Q` pressed every section is hidden.
pub proof fn law_bulk_keys_set_every_section(s: Sections, k: PressedKeys)
    ensures
        k.e && !k.q ==> {
            let t = after_shortcuts(s, k);
            &&& t.show_cpu && t.show_cpu_cores && t.show_processes && t.show_disks
            &&& t.show_memory && t.show_gpu && t.show_npu && t.show_battery
        },
        k.q ==> {
            let t = after_shortcuts(s, k);
            &&& !t.show_cpu && !t.show_cpu_cores && !t.show_processes && !t.show_disks
            &&& !t.show_memory && !t.show_gpu && !t.show_npu && !t.show_battery
        },
{
}

/// A click on a row that is not selected selects it; a click on the selected row
/// leaves nothing selected.
pub proof fn law_click_selects_or_clears(selected: Option<u32>, pid: u32)
    ensures
        selected != Some(pid) ==> selection_after_click(selected, pid) == Some(pid),
        selected == Some(pid) ==> selection_after_click(selected, pid) == None::<u32>,
{
}

} // verus!
