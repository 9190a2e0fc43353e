//! What the report says.

use crate::dump::{
    current_lines, current_lines_of, current_text, dump, file_line, file_lines, first_file,
    handle_line, kernel_is_mapped, module_line, modules_text, process_line, processes_text, report,
    report_text, system_lines, system_process, system_text,
};
use crate::guest::{GuestView, Request};
use crate::handles::{file_position, handles_of, WinHandleView};
use crate::kernel::{known_base, running_process};
use crate::laws::memory::{group_memory, unreadable, word64};
use crate::laws::symbols::{group_symbols, symbol_at};
use crate::laws::writing::{
    decimals_read_back, hex_reads_back, is_decimal, is_hex, padded_hex_reads_back,
    padding_is_spaces,
};
use crate::lists::{
    dlls_of, kernel_modules, process_list, threads_of, WinModView, WinProcView, WinThreadView,
};
use crate::process::{params_of, WinProcParamsView};
use crate::profile::VolatilityJson;
use crate::reads::Space;
use crate::text::{
    debug_chars, decimal_chars, hex_chars, hex_padded_chars, number_list_chars, padded_left,
    padded_right,
};
use vstd::prelude::*;

verus! {

// ---- lines ------------------------------------------------------------------------------------

pub open spec fn larger(a: nat, b: nat) -> nat {
    if a > b {
        a
    } else {
        b
    }
}

pub open spec fn smaller(a: nat, b: nat) -> nat {
    if a < b {
        a
    } else {
        b
    }
}

/// The number in hexadecimal, with zeros in front where it is shorter than `width`.
pub open spec fn is_wide_hex(s: Seq<char>, n: int, width: nat) -> bool {
    exists|plain: Seq<char>| #[trigger]
        is_hex(plain, n) && {
            let zeros = s.len() - plain.len();
            &&& s.len() == larger(plain.len(), width)
            &&& s[0] == '0' && s[1] == 'x'
            &&& s.skip(2 + zeros) == plain.skip(2)
            &&& forall|i: int| 2 <= i < 2 + zeros ==> s[i] == '0'
        }
}

/// The text, with spaces behind it where it is shorter than `width`.
pub open spec fn is_wide(s: Seq<char>, text: Seq<char>, width: nat) -> bool {
    &&& s.len() == larger(text.len(), width)
    &&& s.take(text.len() as int) == text
    &&& forall|i: int| text.len() <= i < s.len() ==> s[i] == ' '
}

/// The number in decimal, with spaces in front where it is shorter than `width`.
pub open spec fn is_wide_decimal(s: Seq<char>, n: int, width: nat) -> bool {
    exists|plain: Seq<char>| #[trigger]
        is_decimal(plain, n) && {
            let spaces = s.len() - plain.len();
            &&& s.len() == larger(plain.len(), width)
            &&& s.skip(spaces) == plain
            &&& forall|i: int| 0 <= i < spaces ==> s[i] == ' '
        }
}

/// A line on a handle: its value, its object's type, the granted access, and the name if any.
pub open spec fn tells_handle(line: Seq<char>, h: WinHandleView) -> bool {
    exists|value: Seq<char>, ty: Seq<char>, access: Seq<char>| #[trigger]
        is_wide_hex(value, h.handle as int, 6) && #[trigger] is_wide(ty, h.type_label, 14)
            && #[trigger] is_hex(access, h.granted_access as int) && line == "    handle="@ + value + " type="@ + ty + " access="@ + access + (
        if h.object_name.len() == 0 {
            seq![]
        } else {
            " name="@ + debug_chars(h.object_name)
        })
}

/// A line on a module: its base, its size and its name.
pub open spec fn tells_module(line: Seq<char>, m: WinModView) -> bool {
    exists|base: Seq<char>, size: Seq<char>| #[trigger]
        is_hex(base, m.base as int) && #[trigger] is_hex(size, m.size as int) && line
            == "    base="@ + base + " size="@ + size + " "@ + m.name
}

/// A line on a process: its id, its parent's, its name and its address.
pub open spec fn tells_process(line: Seq<char>, p: WinProcView) -> bool {
    exists|pid: Seq<char>, ppid: Seq<char>, name: Seq<char>, at: Seq<char>| #[trigger]
        is_wide_decimal(pid, p.pid as int, 6) && #[trigger] is_wide_decimal(ppid, p.ppid as int, 6)
            && #[trigger] is_wide(name, p.name, 16) && #[trigger] is_hex(at, p.eprocess as int)
            && line == "    pid="@ + pid + " ppid="@ + ppid + " "@
            + name + " eproc="@ + at
}

proof fn lemma_wide_decimal(n: u64, width: nat)
    ensures
        is_wide_decimal(padded_left(decimal_chars(n), width), n as int, width),
{
    decimals_read_back(n);
    padding_is_spaces(decimal_chars(n), width);
    assert(is_decimal(decimal_chars(n), n as int));
}

proof fn lemma_wide_hex(n: u64, width: nat)
    requires
        width >= 2,
    ensures
        is_wide_hex(hex_padded_chars(n, width), n as int, width),
{
    hex_reads_back(n);
    padded_hex_reads_back(n, width);
    assert(is_hex(hex_chars(n), n as int));
}

/// Handles, modules and processes each get a line that tells all there is to know.
pub proof fn lines_tell_everything(h: WinHandleView, m: WinModView, p: WinProcView)
    ensures
        tells_handle(handle_line(h), h),
        tells_module(module_line(m), m),
        tells_process(process_line(p), p),
{
    lemma_wide_hex(h.handle as u64, 6);
    padding_is_spaces(h.type_label, 14);
    hex_reads_back(h.granted_access as u64);
    assert(is_wide_hex(hex_padded_chars(h.handle as u64, 6), h.handle as int, 6) && is_wide(
        padded_right(h.type_label, 14),
        h.type_label,
        14,
    ) && is_hex(hex_chars(h.granted_access as u64), h.granted_access as int));
    hex_reads_back(m.base);
    hex_reads_back(m.size as u64);
    assert(is_hex(hex_chars(m.base), m.base as int) && is_hex(
        hex_chars(m.size as u64),
        m.size as int,
    ));
    lemma_wide_decimal(p.pid, 6);
    lemma_wide_decimal(p.ppid, 6);
    padding_is_spaces(p.name, 16);
    hex_reads_back(p.eprocess);
    assert(is_wide_decimal(padded_left(decimal_chars(p.pid), 6), p.pid as int, 6)
        && is_wide_decimal(padded_left(decimal_chars(p.ppid), 6), p.ppid as int, 6) && is_wide(
        padded_right(p.name, 16),
        p.name,
        16,
    ) && is_hex(hex_chars(p.eprocess), p.eprocess as int));
}

// ---- sections ---------------------------------------------------------------------------------

/// The line has this number in decimal between the two texts.
pub open spec fn counts(line: Seq<char>, before: Seq<char>, n: nat, after: Seq<char>) -> bool {
    exists|d: Seq<char>| #[trigger] is_decimal(d, n as int) && line == before + d + after
}

/// The line has this number in hexadecimal behind the text.
pub open spec fn gives(line: Seq<char>, before: Seq<char>, n: u64) -> bool {
    exists|x: Seq<char>| #[trigger] is_hex(x, n as int) && line == before + x
}

proof fn lemma_counts(n: nat)
    requires
        n <= u64::MAX,
    ensures
        is_decimal(decimal_chars(n as u64), n as int),
{
    decimals_read_back(n as u64);
}

/// The section on the process that runs: its address; how many threads it has, and the ids of the
/// first 12; how many handles, and the first 24; how many modules, and the first 20; and its
/// parameters.
pub proof fn the_running_process_is_reported(
    eprocess: u64,
    threads: Seq<WinThreadView>,
    handles: Seq<WinHandleView>,
    dlls: Seq<WinModView>,
    params: WinProcParamsView,
    tids: Seq<u64>,
)
    requires
        threads.len() <= u64::MAX,
        handles.len() <= u64::MAX,
        dlls.len() <= u64::MAX,
        tids.len() == smaller(threads.len(), 12),
        forall|i: int| 0 <= i < tids.len() ==> #[trigger] tids[i] == threads[i].tid,
    ensures
        ({
            let lines = current_text(eprocess, threads, handles, dlls, params);
            let nh = smaller(handles.len(), 24);
            let nd = smaller(dlls.len(), 20);
            let has = "[cosi-win] current process has "@;
            &&& lines.len() == nh + nd + 5
            &&& gives(lines[0], "[cosi-win] current _EPROCESS = "@, eprocess)
            &&& counts(
                lines[1],
                has,
                threads.len(),
                " threads; first tids = "@ + number_list_chars(tids),
            )
            &&& counts(lines[2], has, handles.len(), " handles:"@)
            &&& forall|i: int|
                0 <= i < nh ==> tells_handle(lines[3 + i], #[trigger] handles[i])
            &&& counts(lines[3 + nh as int], has, dlls.len(), " loaded DLLs:"@)
            &&& forall|i: int|
                0 <= i < nd ==> tells_module(lines[4 + nh + i], #[trigger] dlls[i])
            &&& lines[4 + nh as int + nd as int] == "[cosi-win] cwd="@ + debug_chars(params.cwd)
                + " image="@ + debug_chars(params.image_path) + " cmdline="@ + debug_chars(
                params.cmdline,
            )
        }),
{
    let lines = current_text(eprocess, threads, handles, dlls, params);
    let nh = smaller(handles.len(), 24);
    let nd = smaller(dlls.len(), 20);
    hex_reads_back(eprocess);
    lemma_counts(threads.len());
    lemma_counts(handles.len());
    lemma_counts(dlls.len());
    assert(is_hex(hex_chars(eprocess), eprocess as int));
    assert(crate::dump::first_tids(threads, 12) =~= tids);
    assert forall|i: int| 0 <= i < nh implies tells_handle(lines[3 + i], #[trigger] handles[i]) by {
        lines_tell_everything(handles[i], arbitrary(), arbitrary());
        assert(lines[3 + i] == handle_line(handles[i]));
    }
    assert forall|i: int| 0 <= i < nd implies tells_module(
        lines[4 + nh + i],
        #[trigger] dlls[i],
    ) by {
        lines_tell_everything(arbitrary(), dlls[i], arbitrary());
        assert(lines[4 + nh + i] == module_line(dlls[i]));
    }
}

/// The section on the processes: how many there are, and the first 80.
pub proof fn the_processes_are_reported(procs: Seq<WinProcView>)
    requires
        procs.len() <= u64::MAX,
    ensures
        ({
            let lines = processes_text(procs);
            &&& lines.len() == 1 + smaller(procs.len(), 80)
            &&& counts(lines[0], "[cosi-win] process list ("@, procs.len(), " procs):"@)
            &&& forall|i: int|
                0 <= i < smaller(procs.len(), 80) ==> tells_process(
                    lines[1 + i],
                    #[trigger] procs[i],
                )
        }),
{
    let lines = processes_text(procs);
    lemma_counts(procs.len());
    assert forall|i: int| 0 <= i < smaller(procs.len(), 80) implies tells_process(
        lines[1 + i],
        #[trigger] procs[i],
    ) by {
        lines_tell_everything(arbitrary(), arbitrary(), procs[i]);
        assert(lines[1 + i] == process_line(procs[i]));
    }
}

/// The section on the handles of the System process: how many there are, and the first 24.
pub proof fn the_handles_of_system_are_reported(handles: Seq<WinHandleView>)
    requires
        handles.len() <= u64::MAX,
    ensures
        ({
            let lines = system_text(handles);
            &&& lines.len() == 1 + smaller(handles.len(), 24)
            &&& counts(lines[0], "[cosi-win] System(pid 4) has "@, handles.len(), " handles:"@)
            &&& forall|i: int|
                0 <= i < smaller(handles.len(), 24) ==> tells_handle(
                    lines[1 + i],
                    #[trigger] handles[i],
                )
        }),
{
    let lines = system_text(handles);
    lemma_counts(handles.len());
    assert forall|i: int| 0 <= i < smaller(handles.len(), 24) implies tells_handle(
        lines[1 + i],
        #[trigger] handles[i],
    ) by {
        lines_tell_everything(handles[i], arbitrary(), arbitrary());
        assert(lines[1 + i] == handle_line(handles[i]));
    }
}

/// The section on the kernel's modules: how many there are, and the first 16.
pub proof fn the_modules_are_reported(mods: Seq<WinModView>)
    requires
        mods.len() <= u64::MAX,
    ensures
        ({
            let lines = modules_text(mods);
            &&& lines.len() == 1 + smaller(mods.len(), 16)
            &&& counts(lines[0], "[cosi-win] kernel modules ("@, mods.len(), "):"@)
            &&& forall|i: int|
                0 <= i < smaller(mods.len(), 16) ==> tells_module(
                    lines[1 + i],
                    #[trigger] mods[i],
                )
        }),
{
    let lines = modules_text(mods);
    lemma_counts(mods.len());
    assert forall|i: int| 0 <= i < smaller(mods.len(), 16) implies tells_module(
        lines[1 + i],
        #[trigger] mods[i],
    ) by {
        lines_tell_everything(arbitrary(), mods[i], arbitrary());
        assert(lines[1 + i] == module_line(mods[i]));
    }
}

// ---- choices ----------------------------------------------------------------------------------

/// The first file is the handle of type File with none before it.
pub proof fn the_first_file_is_chosen(handles: Seq<WinHandleView>, i: int)
    requires
        forall|j: int| 0 <= j < handles.len() && j < i ==> #[trigger] handles[j].type_label != seq![
            'F',
            'i',
            'l',
            'e',
        ],
    ensures
        0 <= i < handles.len() && handles[i].type_label == seq!['F', 'i', 'l', 'e'] ==> first_file(
            handles,
        ) == Some(handles[i]),
        i >= handles.len() ==> first_file(handles) is None,
    decreases handles.len(),
{
    reveal_strlit("File");
    assert("File"@ =~= seq!['F', 'i', 'l', 'e']);
    if handles.len() > 0 && i > 0 {
        let rest = handles.skip(1);
        assert(handles[0].type_label != "File"@);
        assert forall|j: int| 0 <= j < rest.len() && j < i - 1 implies #[trigger]
            rest[j].type_label != seq!['F', 'i', 'l', 'e'] by {
            assert(rest[j] == handles[j + 1]);
        }
        the_first_file_is_chosen(rest, i - 1);
    }
}

/// The System process is the process with id 4 with none before it.
pub proof fn the_system_process_is_chosen(procs: Seq<WinProcView>, i: int)
    requires
        forall|j: int| 0 <= j < procs.len() && j < i ==> #[trigger] procs[j].pid != 4,
    ensures
        0 <= i < procs.len() && procs[i].pid == 4 ==> system_process(procs) == Some(procs[i]),
        i >= procs.len() ==> system_process(procs) is None,
    decreases procs.len(),
{
    if procs.len() > 0 && i > 0 {
        let rest = procs.skip(1);
        assert(procs[0].pid != 4);
        assert forall|j: int| 0 <= j < rest.len() && j < i - 1 implies #[trigger] rest[j].pid
            != 4 by {
            assert(rest[j] == procs[j + 1]);
        }
        the_system_process_is_chosen(rest, i - 1);
    }
}

/// The unsigned number that a signed one is written as.
pub open spec fn unsigned(pos: i64) -> int {
    if pos < 0 {
        pos + 0x1_0000_0000_0000_0000
    } else {
        pos as int
    }
}

/// The line on a file has its handle, its name and its position, as an unsigned number.
pub open spec fn tells_file(line: Seq<char>, h: WinHandleView, pos: i64) -> bool {
    exists|value: Seq<char>, at: Seq<char>| #[trigger]
        is_hex(value, h.handle as int) && #[trigger] is_hex(at, unsigned(pos)) && line
            == "[cosi-win] file handle "@ + value + " "@ + debug_chars(h.object_name)
            + " CurrentByteOffset="@ + at
}

proof fn lemma_unsigned(pos: i64)
    by (bit_vector)
    ensures
        pos < 0 ==> pos as u64 == pos + 0x1_0000_0000_0000_0000,
        pos >= 0 ==> pos as u64 == pos,
{
}

proof fn lemma_file_line(h: WinHandleView, pos: i64)
    ensures
        tells_file(file_line(h, pos), h, pos),
{
    lemma_unsigned(pos);
    hex_reads_back(h.handle as u64);
    hex_reads_back(pos as u64);
    assert(is_hex(hex_chars(h.handle as u64), h.handle as int) && is_hex(
        hex_chars(pos as u64),
        unsigned(pos),
    ));
}

// ---- the whole --------------------------------------------------------------------------------

/// The lines on the process that runs are its section and, if its first file has a position, a line
/// on that.
#[verifier::rlimit(60)]
#[verifier::spinoff_prover]
pub proof fn the_running_process_comes_first(
    g: GuestView,
    p: &VolatilityJson,
    base: u64,
    eprocess: u64,
    threads: Seq<WinThreadView>,
    handles: Seq<WinHandleView>,
    dlls: Seq<WinModView>,
    params: WinProcParamsView,
    pos: Option<i64>,
)
    requires
        running_process(g, p) == Ok::<Option<u64>, Request>(Some(eprocess)),
        threads_of(g, p, eprocess) == Ok::<Seq<WinThreadView>, Request>(threads),
        handles_of(g, p, base, eprocess) == Ok::<Seq<WinHandleView>, Request>(handles),
        dlls_of(g, p, eprocess) == Ok::<Seq<WinModView>, Request>(dlls),
        params_of(g, p, eprocess) == Ok::<WinProcParamsView, Request>(params),
        first_file(handles) matches Some(f) ==> file_position(
            g,
            p,
            base,
            eprocess,
            f.handle as u64,
        ) == Ok::<Option<i64>, Request>(pos),
    ensures
        ({
            let section = current_text(eprocess, threads, handles, dlls, params);
            current_lines(g, p, base) matches Ok(lines) && {
                &&& lines.len() >= section.len() && lines.take(section.len() as int) == section
                &&& match (first_file(handles), pos) {
                    (Some(f), Some(at)) => lines.len() == section.len() + 1 && tells_file(
                        lines.last(),
                        f,
                        at,
                    ),
                    _ => lines.len() == section.len(),
                }
            }
        }),
{
    let section = current_text(eprocess, threads, handles, dlls, params);
    assert(current_lines(g, p, base) == current_lines_of(g, p, base, eprocess));
    let file = file_lines(g, p, base, eprocess, handles)->Ok_0;
    if let Some(f) = first_file(handles) {
        if let Some(at) = pos {
            lemma_file_line(f, at);
        }
    }
    assert((section + file).take(section.len() as int) =~= section);
}

/// While nothing runs there are no such lines.
pub proof fn without_a_running_process(g: GuestView, p: &VolatilityJson, base: u64)
    requires
        running_process(g, p) == Ok::<Option<u64>, Request>(None),
    ensures
        current_lines(g, p, base) matches Ok(lines) && lines.len() == 0,
{
}

/// The lines on the System process are about its handles; there are none where it is not listed.
pub proof fn the_system_process_follows(
    g: GuestView,
    p: &VolatilityJson,
    base: u64,
    procs: Seq<WinProcView>,
    system: WinProcView,
    handles: Seq<WinHandleView>,
)
    requires
        handles_of(g, p, base, system.eprocess) == Ok::<Seq<WinHandleView>, Request>(handles),
    ensures
        system_process(procs) == Some(system) ==> system_lines(g, p, base, procs) == Ok::<
            Seq<Seq<char>>,
            Request,
        >(system_text(handles)),
        system_process(procs) is None ==> (system_lines(g, p, base, procs) matches Ok(lines)
            && lines.len() == 0),
{
}

/// All lines: a title, the sections one after the other, and a closing line.
pub open spec fn is_whole(
    lines: Seq<Seq<char>>,
    base: Seq<char>,
    current: Seq<Seq<char>>,
    procs: Seq<Seq<char>>,
    system: Seq<Seq<char>>,
    mods: Seq<Seq<char>>,
) -> bool {
    lines == seq!["\n========== [cosi-win] OSI dump =========="@, base] + current + procs + system
        + mods + seq!["=========================================\n"@]
}

proof fn lemma_whole(
    base: u64,
    current: Seq<Seq<char>>,
    procs: Seq<WinProcView>,
    system: Seq<Seq<char>>,
    mods: Seq<WinModView>,
)
    ensures
        exists|line: Seq<char>| #[trigger]
            gives(line, "[cosi-win] ntoskrnl base = "@, base) && is_whole(
                report_text(base, current, procs, system, mods),
                line,
                current,
                processes_text(procs),
                system,
                modules_text(mods),
            ),
{
    hex_reads_back(base);
    let line = "[cosi-win] ntoskrnl base = "@ + hex_chars(base);
    assert(is_hex(hex_chars(base), base as int));
    assert(gives(line, "[cosi-win] ntoskrnl base = "@, base));
}

/// The report has a title and the base, the process that runs, the processes, the handles of the
/// System process, the kernel's modules, and a closing line. It counts if a process is listed.
pub proof fn the_report_has_all_sections(
    g: GuestView,
    p: &VolatilityJson,
    base: u64,
    current: Seq<Seq<char>>,
    procs: Seq<WinProcView>,
    system: Seq<Seq<char>>,
    mods: Seq<WinModView>,
)
    requires
        current_lines(g, p, base) == Ok::<Seq<Seq<char>>, Request>(current),
        process_list(g, p, base) == Ok::<Seq<WinProcView>, Request>(procs),
        system_lines(g, p, base, procs) == Ok::<Seq<Seq<char>>, Request>(system),
        kernel_modules(g, p, base) == Ok::<Seq<WinModView>, Request>(mods),
    ensures
        report(g, p, base) matches Ok((counts, lines)) && {
            &&& counts == (procs.len() > 0)
            &&& exists|line: Seq<char>| #[trigger]
                gives(line, "[cosi-win] ntoskrnl base = "@, base) && is_whole(
                    lines,
                    line,
                    current,
                    processes_text(procs),
                    system,
                    modules_text(mods),
                )
        },
{
    lemma_whole(base, current, procs, system, mods);
}

/// Kernel globals are mapped where the first link of the process list points into the kernel half.
pub proof fn kernel_globals_are_mapped(
    g: GuestView,
    p: &VolatilityJson,
    base: u64,
    rva: u64,
    flink: u64,
)
    requires
        base != 0,
        symbol_at(p, "PsActiveProcessHead"@, rva),
        word64(g, Space::Current, base.wrapping_add(rva), flink),
    ensures
        kernel_is_mapped(g, p, base) == Ok::<bool, Request>(flink >= 0xffff_0000_0000_0000),
{
    broadcast use {group_memory, group_symbols};

}

/// They are not without a base, without the symbol, and where the link cannot be read.
pub proof fn kernel_globals_are_not_mapped(
    g: GuestView,
    p: &VolatilityJson,
    base: u64,
    rva: u64,
)
    requires
        base == 0 || !p.symbols@.contains_key("PsActiveProcessHead"@) || (symbol_at(
            p,
            "PsActiveProcessHead"@,
            rva,
        ) && unreadable(g, Space::Current, base.wrapping_add(rva), 8)),
    ensures
        kernel_is_mapped(g, p, base) == Ok::<bool, Request>(false),
{
    broadcast use {group_memory, group_symbols};

}

/// The report is written where kernel globals are mapped, and nothing at all elsewhere.
pub proof fn the_report_is_written_in_the_kernel(
    cached: u64,
    g: GuestView,
    p: &VolatilityJson,
    base: u64,
)
    requires
        known_base(cached, g, p) == Ok::<u64, Request>(base),
    ensures
        kernel_is_mapped(g, p, base) == Ok::<bool, Request>(true) ==> dump(cached, g, p) == report(
            g,
            p,
            base,
        ),
        kernel_is_mapped(g, p, base) == Ok::<bool, Request>(false) ==> (dump(
            cached,
            g,
            p,
        ) matches Ok((counts, lines)) && !counts && lines.len() == 0),
{
}

} // verus!
