# system_monitor

A desktop system monitor (CPU, memory, GPUs, NPU, disks, processes, battery)
whose decision logic is a library verified with Verus.

- `src/` — the verified library:
  - `text` — trimming, searching, splitting and number parsing of sysfs/procfs text,
    specified to mean what Rust's `str` methods mean;
  - `binary64`, `fmt` — decimal renderings, durations, and byte sizes rounded exactly
    as IEEE binary64 arithmetic and `{:.N}` formatting round them;
  - `gpu`, `npu`, `cpu`, `disk` — what the sysfs and `fdinfo` readings mean: names by
    PCI id, engine busy time, memory sizes, integrated or discrete, NPU clients;
  - `history`, `sections`, `schedule`, `theme`, `labels` — chart histories, visible
    sections and keyboard shortcuts, refresh timing, colours and window texts.
- `app/` — the window (eframe/egui), the hardware queries (sysinfo, NVML, battery)
  and the file reads; it hands plain values to the library.
- `tests/` — tests of the library on concrete values.
