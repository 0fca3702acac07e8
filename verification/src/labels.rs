//! The texts of the window that do not involve measured fractions: section headers,
//! counts, process names, battery texts and the commands that stop a process.
use crate::fmt::{decimal, duration_label, format_duration_secs, u64_to_decimal};
use crate::text::owned;
use vstd::prelude::*;
use vstd::utf8::{encode_scalar, encode_utf8, is_char_boundary};

verus! {

/// A collapsible section's header: `▼` before the title when expanded, `▶` when
/// collapsed.
pub open spec fn section_header_spec(title: Seq<char>, expanded: bool) -> Seq<char> {
    (if expanded {
        "\u{25bc} "@
    } else {
        "\u{25b6} "@
    }) + title
}

/// The header of a collapsible section.
pub fn section_header(title: &str, expanded: bool) -> (header: String)
    ensures
        header@ == section_header_spec(title@, expanded),
{
    let mut s = if expanded {
        owned("\u{25bc} ")
    } else {
        owned("\u{25b6} ")
    };
    s.append(title);
    s
}

/// The title of a GPU card: the first card carries the toggle of the GPU section.
pub open spec fn gpu_card_title_spec(first: bool, discrete: bool, expanded: bool) -> Seq<char> {
    let kind = if discrete {
        "DISCRETE GPU"@
    } else {
        "INTEGRATED GPU"@
    };
    if first {
        section_header_spec(kind, expanded)
    } else {
        kind
    }
}

/// The title of the GPU card at `index`.
pub fn gpu_card_title(index: usize, discrete: bool, expanded: bool) -> (title: String)
    ensures
        title@ == gpu_card_title_spec(index == 0, discrete, expanded),
{
    let kind = if discrete {
        "DISCRETE GPU"
    } else {
        "INTEGRATED GPU"
    };
    if index == 0 {
        section_header(kind, expanded)
    } else {
        owned(kind)
    }
}

/// The badge of a GPU card: `dGPU` or `iGPU`.
pub fn gpu_badge(discrete: bool) -> (badge: String)
    ensures
        badge@ == if discrete {
            "dGPU"@
        } else {
            "iGPU"@
        },
{
    if discrete {
        owned("dGPU")
    } else {
        owned("iGPU")
    }
}

/// What the memory of a GPU is called: `VRAM` for a discrete GPU, `Shared Memory`
/// for an integrated one.
pub fn gpu_memory_label(discrete: bool) -> (label: String)
    ensures
        label@ == if discrete {
            "VRAM"@
        } else {
            "Shared Memory"@
        },
{
    if discrete {
        owned("VRAM")
    } else {
        owned("Shared Memory")
    }
}

/// `Core {i}`.
pub fn core_label(i: usize) -> (label: String)
    ensures
        label@ == "Core "@ + decimal(i as nat),
{
    let mut s = owned("Core ");
    s.append(u64_to_decimal(i as u64).as_str());
    s
}

/// `{physical} cores · {logical} threads`.
pub fn cores_threads_label(physical: usize, logical: usize) -> (label: String)
    ensures
        label@ == decimal(physical as nat) + " cores \u{b7} "@ + decimal(logical as nat)
            + " threads"@,
{
    let mut s = u64_to_decimal(physical as u64);
    s.append(" cores \u{b7} ");
    s.append(u64_to_decimal(logical as u64).as_str());
    s.append(" threads");
    s
}

/// `{n} cores`.
pub fn core_count_label(n: usize) -> (label: String)
    ensures
        label@ == decimal(n as nat) + " cores"@,
{
    let mut s = u64_to_decimal(n as u64);
    s.append(" cores");
    s
}

/// `{n} total`.
pub fn process_total_label(n: usize) -> (label: String)
    ensures
        label@ == decimal(n as nat) + " total"@,
{
    let mut s = u64_to_decimal(n as u64);
    s.append(" total");
    s
}

/// `Processes: {n}`.
pub fn status_process_label(n: usize) -> (label: String)
    ensures
        label@ == "Processes: "@ + decimal(n as nat),
{
    let mut s = owned("Processes: ");
    s.append(u64_to_decimal(n as u64).as_str());
    s
}

/// Workloads listed on the NPU card; the others are counted.
pub const SHOWN_WORKLOADS: usize = 5;

/// `Active Workloads ({n})`.
pub fn workloads_title(n: usize) -> (label: String)
    ensures
        label@ == "Active Workloads ("@ + decimal(n as nat) + ")"@,
{
    let mut s = owned("Active Workloads (");
    s.append(u64_to_decimal(n as u64).as_str());
    s.append(")");
    s
}

/// How many of `n` workloads are listed, and the line that counts the rest when some
/// are not: `... and {rest} more`.
pub fn workload_listing(n: usize) -> (r: (usize, Option<String>))
    ensures
        r.0 == if n < SHOWN_WORKLOADS {
            n
        } else {
            SHOWN_WORKLOADS
        },
        match r.1 {
            Some(more) => n > SHOWN_WORKLOADS && more@ == "... and "@ + decimal(
                (n - SHOWN_WORKLOADS) as nat,
            ) + " more"@,
            None => n <= SHOWN_WORKLOADS,
        },
{
    if n > SHOWN_WORKLOADS {
        let mut s = owned("... and ");
        s.append(u64_to_decimal((n - SHOWN_WORKLOADS) as u64).as_str());
        s.append(" more");
        (SHOWN_WORKLOADS, Some(s))
    } else {
        (n, None)
    }
}

/// Bytes of a process name shown in full; longer names are cut.
pub const NAME_LIMIT: usize = 30;

/// Bytes kept of a name that is cut, before `...`.
pub const NAME_KEPT: usize = 27;

/// The UTF-8 encoding of two texts one after the other is the encoding of the first
/// followed by that of the second.
proof fn lemma_encode_concat(a: Seq<char>, b: Seq<char>)
    ensures
        encode_utf8(a + b) == encode_utf8(a) + encode_utf8(b),
    decreases a.len(),
{
    if a.len() > 0 {
        lemma_encode_concat(a.drop_first(), b);
        assert((a + b).drop_first() =~= a.drop_first() + b);
        assert((a + b)[0] == a[0]);
    } else {
        assert(a + b =~= b);
    }
}

/// `...` takes three bytes.
proof fn lemma_ellipsis_bytes()
    ensures
        encode_utf8("..."@).len() == 3,
{
    reveal_strlit("...");
    let e = "..."@;
    assert(e.len() == 3 && e[0] == '.' && e[1] == '.' && e[2] == '.');
    assert(encode_scalar('.' as u32).len() == 1);
    let e2 = e.drop_first().drop_first();
    assert(e2.drop_first() =~= Seq::<char>::empty());
    assert(encode_utf8(e2) == encode_scalar(e2[0] as u32) + encode_utf8(e2.drop_first()));
    assert(encode_utf8(e.drop_first()).len() == 2);
}

/// The largest character boundary of `bytes` at or before byte `k`.
pub open spec fn boundary_at_most(bytes: Seq<u8>, k: nat) -> nat
    decreases k,
{
    if k == 0 || is_char_boundary(bytes, k as int) {
        k
    } else {
        boundary_at_most(bytes, (k - 1) as nat)
    }
}

/// The name shown for a process: a name of more than 30 bytes is cut at the last
/// character boundary at or before byte 27 and followed by `...`, so no shown name is
/// longer than 30 bytes.
pub fn process_display_name(name: &str) -> (shown: String)
    ensures
        encode_utf8(name@).len() <= NAME_LIMIT ==> shown@ == name@,
        encode_utf8(name@).len() > NAME_LIMIT ==> exists|kept: Seq<char>|
            encode_utf8(kept) == encode_utf8(name@).subrange(
                0,
                boundary_at_most(encode_utf8(name@), NAME_KEPT as nat) as int,
            ) && shown@ == kept + "..."@,
        encode_utf8(shown@).len() <= NAME_LIMIT,
{
    let bytes = name.as_bytes();
    if bytes.len() > NAME_LIMIT {
        let ghost b = encode_utf8(name@);
        proof {
            vstd::utf8::encode_utf8_valid_utf8(name@);
        }
        let mut k: usize = NAME_KEPT;
        while k > 0 && !name.is_char_boundary(k)
            invariant
                k <= NAME_KEPT,
                b == encode_utf8(name@),
                b == bytes@,
                boundary_at_most(b, NAME_KEPT as nat) == boundary_at_most(b, k as nat),
            decreases k,
        {
            k = k - 1;
        }
        assert(boundary_at_most(b, k as nat) == k);
        let (kept, _) = name.split_at(k);
        let mut s = owned(kept);
        s.append("...");
        proof {
            lemma_encode_concat(kept@, "..."@);
            lemma_ellipsis_bytes();
        }
        s
    } else {
        owned(name)
    }
}

/// The state line of the battery card.
pub fn battery_status_label(charging: bool) -> (label: String)
    ensures
        label@ == if charging {
            " \u{26a1} Charging"@
        } else {
            "\u{1f50b} Discharging"@
        },
{
    if charging {
        owned(" \u{26a1} Charging")
    } else {
        owned("\u{1f50b} Discharging")
    }
}

/// The time line of the battery card: time to full while charging, time remaining
/// otherwise.
pub fn battery_time_label(charging: bool, seconds: u64) -> (label: String)
    ensures
        label@ == (if charging {
            "Time to full:"@
        } else {
            "Time remaining:"@
        }) + " "@ + duration_label(seconds as nat),
{
    let mut s = if charging {
        owned("Time to full:")
    } else {
        owned("Time remaining:")
    };
    s.append(" ");
    s.append(format_duration_secs(seconds).as_str());
    s
}

/// The time a battery reports is shown only when it is at least one second.
pub fn battery_time_shown(seconds: u64) -> (shown: Option<u64>)
    ensures
        shown == if seconds > 0 {
            Some(seconds)
        } else {
            None
        },
{
    if seconds > 0 {
        Some(seconds)
    } else {
        None
    }
}

/// The program and arguments that stop process `pid`: `kill -15` (SIGTERM) or, when
/// forced, `kill -9` (SIGKILL) on Linux; `taskkill /PID`, with `/F` when forced, on
/// Windows.
pub fn stop_command(pid: u32, force: bool, windows: bool) -> (cmd: (String, Vec<String>))
    ensures
        cmd.1@.map_values(|a: String| a@) == if windows {
            if force {
                seq!["/F"@, "/PID"@, decimal(pid as nat)]
            } else {
                seq!["/PID"@, decimal(pid as nat)]
            }
        } else {
            seq![
                if force {
                    "-9"@
                } else {
                    "-15"@
                },
                decimal(pid as nat),
            ]
        },
        cmd.0@ == if windows {
            "taskkill"@
        } else {
            "kill"@
        },
{
    let id = u64_to_decimal(pid as u64);
    let mut args: Vec<String> = Vec::new();
    if windows {
        if force {
            args.push(owned("/F"));
        }
        args.push(owned("/PID"));
        args.push(id);
        assert(args@.map_values(|a: String| a@) =~= (if force {
            seq!["/F"@, "/PID"@, decimal(pid as nat)]
        } else {
            seq!["/PID"@, decimal(pid as nat)]
        }));
        (owned("taskkill"), args)
    } else {
        args.push(
            if force {
                owned("-9")
            } else {
                owned("-15")
            },
        );
        args.push(id);
        assert(args@.map_values(|a: String| a@) =~= seq![
            if force {
                "-9"@
            } else {
                "-15"@
            },
            decimal(pid as nat),
        ]);
        (owned("kill"), args)
    }
}

/// The cut of a long name falls on a character boundary at or before byte `k`, and
/// no later boundary up to `k` is passed over.
pub proof fn law_cut_is_last_boundary(bytes: Seq<u8>, k: nat)
    requires
        vstd::utf8::valid_utf8(bytes),
    ensures
        boundary_at_most(bytes, k) <= k,
        is_char_boundary(bytes, boundary_at_most(bytes, k) as int),
        forall|j: int|
            boundary_at_most(bytes, k) < j <= k ==> !is_char_boundary(bytes, j),
    decreases k,
{
    if k > 0 && !is_char_boundary(bytes, k as int) {
        law_cut_is_last_boundary(bytes, (k - 1) as nat);
    }
}

/// A section header is the title after an arrow and a space: `\u{25bc}` when the
/// section is expanded, `\u{25b6}` when it is collapsed.
pub proof fn law_section_header_shape(title: Seq<char>, expanded: bool)
    ensures
        section_header_spec(title, expanded).len() == title.len() + 2,
        section_header_spec(title, expanded).skip(2) == title,
        section_header_spec(title, expanded)[0] == (if expanded {
            '\u{25bc}'
        } else {
            '\u{25b6}'
        }),
        section_header_spec(title, expanded)[1] == ' ',
{
    reveal_strlit("\u{25bc} ");
    reveal_strlit("\u{25b6} ");
    assert(section_header_spec(title, expanded).skip(2) =~= title);
}

/// Only the first GPU card carries the section's arrow; every other card is titled
/// by its kind alone.
pub proof fn law_gpu_card_titles(first: bool, discrete: bool, expanded: bool)
    ensures
        !first ==> gpu_card_title_spec(first, discrete, expanded) == (if discrete {
            "DISCRETE GPU"@
        } else {
            "INTEGRATED GPU"@
        }),
        first ==> gpu_card_title_spec(first, discrete, expanded) == section_header_spec(
            if discrete {
                "DISCRETE GPU"@
            } else {
                "INTEGRATED GPU"@
            },
            expanded,
        ),
{
}

} // verus!
