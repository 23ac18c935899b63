use vstd::prelude::*;

use crate::metrics::ProcessInfo;
use crate::text::{
    byte_len, decimal, decimal_string, format_mem, lemma_ascii_cut, lemma_decimal_ascii, lemma_decimal_len, ten_pow,
    memory_text, pad, pad_cut_ok, pad_left, padded, padded_left,
    trim_name, trimmed_name,
};

verus! {

/// The texts of one line of the process table.
#[derive(Debug, Clone)]
pub struct TableRow {
    pub pid: String,
    pub name: String,
    pub ram: String,
}

/// `a - b`, or zero when `b` exceeds `a`.
pub open spec fn sub_or_zero(a: int, b: int) -> nat {
    if a >= b {
        (a - b) as nat
    } else {
        0
    }
}

/// Width of the PID column in a table `width` cells wide.
pub open spec fn pid_width(width: nat) -> nat {
    let w = if sub_or_zero(width as int, 8) < 6 { sub_or_zero(width as int, 8) } else { 6 };
    if w < 3 { 3 } else { w }
}

/// Width of the memory column in a table `width` cells wide.
pub open spec fn ram_width(width: nat) -> nat {
    let rest = sub_or_zero(width as int, (pid_width(width) + 3) as int);
    let w = if rest < 9 { rest } else { 9 };
    if w < 6 { 6 } else { w }
}

/// Width of the name column: what the other columns and two gaps leave.
pub open spec fn name_width(width: nat) -> nat {
    sub_or_zero(width as int, (pid_width(width) + ram_width(width) + 2) as int)
}

/// The table has room to be drawn.
pub open spec fn table_shown(width: nat, height: nat) -> bool {
    height > 0 && width >= 14
}

/// Number of process lines below the header.
pub open spec fn table_process_rows(count: nat, height: nat) -> nat {
    let room = sub_or_zero(height as int, 1);
    if count < room { count } else { room }
}

/// Every process name shown can be cut where its column ends.
pub open spec fn names_fit(processes: Seq<ProcessInfo>, width: nat, height: nat) -> bool {
    forall|i: int|
        0 <= i < table_process_rows(processes.len(), height) ==> pad_cut_ok(
            trimmed_name(#[trigger] processes[i].name@, name_width(width)),
            name_width(width),
        ) && byte_len(trimmed_name(processes[i].name@, name_width(width))) <= usize::MAX
}

fn sat_sub(a: usize, b: usize) -> (r: usize)
    ensures
        r == sub_or_zero(a as int, b as int),
{
    if a >= b {
        a - b
    } else {
        0
    }
}

/// The widths of the PID, name and memory columns of a table `width`
/// cells wide.
pub fn column_widths(width: u16) -> (r: (usize, usize, usize))
    ensures
        r == (pid_width(width as nat) as usize, name_width(width as nat) as usize, ram_width(width as nat) as usize),
{
    let w = width as usize;
    let pid_cap = sat_sub(w, 8);
    let pid_w = if pid_cap < 6 {
        pid_cap
    } else {
        6
    };
    let pid_w = if pid_w < 3 {
        3
    } else {
        pid_w
    };
    let ram_rest = sat_sub(w, pid_w + 3);
    let ram_w = if ram_rest < 9 {
        ram_rest
    } else {
        9
    };
    let ram_w = if ram_w < 6 {
        6
    } else {
        ram_w
    };
    let name_w = sat_sub(w, pid_w + ram_w + 2);
    (pid_w, name_w, ram_w)
}

/// The process table in `width` by `height` cells: a header line and then
/// one line per process (as many as fit), with the PID right-aligned, the
/// name cut to its column and left-aligned, and the memory size
/// right-aligned. Nothing when the area is empty or narrower than 14 cells.
pub fn process_lines(processes: &Vec<ProcessInfo>, width: u16, height: u16) -> (rows: Vec<TableRow>)
    requires
        table_shown(width as nat, height as nat) ==> names_fit(processes@, width as nat, height as nat),
    ensures
        !table_shown(width as nat, height as nat) ==> rows@.len() == 0,
        table_shown(width as nat, height as nat) ==> {
            &&& rows@.len() == 1 + table_process_rows(processes@.len(), height as nat)
            &&& rows@[0].pid@ == padded("PID"@, pid_width(width as nat))
            &&& rows@[0].name@ == padded("Name"@, name_width(width as nat))
            &&& rows@[0].ram@ == padded_left("RAM"@, ram_width(width as nat))
            &&& forall|i: int|
                0 <= i < table_process_rows(processes@.len(), height as nat) ==> {
                    &&& (#[trigger] rows@[i + 1]).pid@ == padded_left(
                        decimal(processes@[i].pid as nat),
                        pid_width(width as nat),
                    )
                    &&& rows@[i + 1].name@ == padded(
                        trimmed_name(processes@[i].name@, name_width(width as nat)),
                        name_width(width as nat),
                    )
                    &&& rows@[i + 1].ram@ == padded_left(
                        memory_text(processes@[i].memory_bytes as nat),
                        ram_width(width as nat),
                    )
                }
        },
{
    let mut rows: Vec<TableRow> = Vec::new();
    if height == 0 || width < 14 {
        return rows;
    }
    let (pid_w, name_w, ram_w) = column_widths(width);
    proof {
        reveal_strlit("PID");
        reveal_strlit("Name");
        reveal_strlit("RAM");
        assert(vstd::utf8::is_ascii_chars("PID"@));
        assert(vstd::utf8::is_ascii_chars("Name"@));
        assert(vstd::utf8::is_ascii_chars("RAM"@));
        lemma_ascii_cut("PID"@, 0);
        if byte_len("PID"@) >= pid_w {
            lemma_ascii_cut("PID"@, pid_w as int);
        }
        lemma_ascii_cut("Name"@, 0);
        if byte_len("Name"@) >= name_w {
            lemma_ascii_cut("Name"@, name_w as int);
        }
        lemma_ascii_cut("RAM"@, 0);
        if byte_len("RAM"@) >= ram_w {
            lemma_ascii_cut("RAM"@, 3 - ram_w);
        }
    }
    rows.push(TableRow { pid: pad("PID", pid_w), name: pad("Name", name_w), ram: pad_left("RAM", ram_w) });
    let room = (height - 1) as usize;
    let shown = if processes.len() < room {
        processes.len()
    } else {
        room
    };
    let mut i: usize = 0;
    while i < shown
        invariant
            shown == table_process_rows(processes@.len(), height as nat),
            shown <= processes@.len(),
            i <= shown,
            rows@.len() == 1 + i,
            pid_w == pid_width(width as nat),
            ram_w == ram_width(width as nat),
            name_w == name_width(width as nat),
            names_fit(processes@, width as nat, height as nat),
            rows@[0].pid@ == padded("PID"@, pid_width(width as nat)),
            rows@[0].name@ == padded("Name"@, name_width(width as nat)),
            rows@[0].ram@ == padded_left("RAM"@, ram_width(width as nat)),
            forall|k: int|
                0 <= k < i ==> {
                    &&& (#[trigger] rows@[k + 1]).pid@ == padded_left(
                        decimal(processes@[k].pid as nat),
                        pid_width(width as nat),
                    )
                    &&& rows@[k + 1].name@ == padded(
                        trimmed_name(processes@[k].name@, name_width(width as nat)),
                        name_width(width as nat),
                    )
                    &&& rows@[k + 1].ram@ == padded_left(
                        memory_text(processes@[k].memory_bytes as nat),
                        ram_width(width as nat),
                    )
                },
        decreases shown - i,
    {
        let p = &processes[i];
        let pid_text = decimal_string(p.pid as u64);
        let name_text = trim_name(p.name.as_str(), name_w);
        let mem_text = format_mem(p.memory_bytes);
        proof {
            let d = decimal(p.pid as nat);
            lemma_decimal_ascii(p.pid as nat);
            assert(p.pid < ten_pow(10)) by {
                reveal_with_fuel(ten_pow, 11);
            }
            lemma_decimal_len(p.pid as nat, 10);
            lemma_ascii_cut(d, 0);
            if byte_len(d) >= pid_w {
                lemma_ascii_cut(d, byte_len(d) - pid_w);
            }
            let m = memory_text(p.memory_bytes as nat);
            lemma_ascii_cut(m, 0);
            if byte_len(m) >= ram_w {
                lemma_ascii_cut(m, byte_len(m) - ram_w);
            }
            assert(trimmed_name(processes@[i as int].name@, name_width(width as nat)) == name_text@);
        }
        let row = TableRow {
            pid: pad_left(pid_text.as_str(), pid_w),
            name: pad(name_text.as_str(), name_w),
            ram: pad_left(mem_text.as_str(), ram_w),
        };
        rows.push(row);
        i = i + 1;
    }
    rows
}

} // verus!
