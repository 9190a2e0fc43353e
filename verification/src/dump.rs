//! The one-shot diagnostic report.

use crate::guest::{steady, Guest, GuestView, Request};
use crate::handles::{
    file_handle_pos, file_position, file_position_steady, get_handle_list, handles_of,
    handles_of_steady, WinHandle, WinHandleView,
};
use crate::kernel::{
    current_eprocess, kernel_base, known_base, known_base_steady, running_process,
    running_process_steady,
};
use crate::lists::{
    dlls_of, dlls_of_steady, get_module_list, get_process_list, get_thread_list, kernel_modules,
    kernel_modules_steady, proc_dlls, process_list, process_list_steady, threads_of,
    threads_of_steady, views, WinMod, WinModView, WinProc, WinProcView, WinThread, WinThreadView,
};
use crate::process::{
    cache_after, params_of, params_of_steady, proc_params, WinProcParams, WinProcParamsView,
};
use crate::profile::{sym_addr, VolatilityJson};
use crate::reads::{lines_outcome, rd_u64, u64_at, u64_at_steady, Space, KERNEL_MIN};
use crate::text::{
    debug_chars, debug_text, decimal, decimal_chars, hex, hex_chars, hex_padded, hex_padded_chars,
    is_plain, number_list, number_list_chars, pad_left, pad_right, padded_left, padded_right,
    quoted, texts, texts_push,
};
use vstd::prelude::*;
use vstd::string::StringExecFns;

verus! {

// ---- lines ------------------------------------------------------------------------------------

/// A name after its label, or nothing for an empty name.
pub open spec fn named(name: Seq<char>) -> Seq<char> {
    if name.len() == 0 {
        seq![]
    } else {
        " name="@ + debug_chars(name)
    }
}

pub open spec fn handle_line(h: WinHandleView) -> Seq<char> {
    "    handle="@ + hex_padded_chars(h.handle as u64, 6) + " type="@ + padded_right(
        h.type_label,
        14,
    ) + " access="@ + hex_chars(h.granted_access as u64) + named(h.object_name)
}

pub open spec fn module_line(m: WinModView) -> Seq<char> {
    "    base="@ + hex_chars(m.base) + " size="@ + hex_chars(m.size as u64) + " "@ + m.name
}

pub open spec fn process_line(p: WinProcView) -> Seq<char> {
    "    pid="@ + padded_left(decimal_chars(p.pid), 6) + " ppid="@ + padded_left(
        decimal_chars(p.ppid),
        6,
    ) + " "@ + padded_right(p.name, 16) + " eproc="@ + hex_chars(p.eprocess)
}

/// One line for each of the first `n`.
pub open spec fn first_lines<T>(v: Seq<T>, n: nat, line: spec_fn(T) -> Seq<char>) -> Seq<
    Seq<char>,
> {
    Seq::new(
        if v.len() < n {
            v.len()
        } else {
            n
        },
        |i: int| line(v[i]),
    )
}

pub open spec fn handle_writer() -> spec_fn(WinHandleView) -> Seq<char> {
    |h: WinHandleView| handle_line(h)
}

pub open spec fn handle_lines(v: Seq<WinHandleView>, n: nat) -> Seq<Seq<char>> {
    first_lines(v, n, handle_writer())
}

pub open spec fn module_writer() -> spec_fn(WinModView) -> Seq<char> {
    |m: WinModView| module_line(m)
}

pub open spec fn module_lines(v: Seq<WinModView>, n: nat) -> Seq<Seq<char>> {
    first_lines(v, n, module_writer())
}

pub open spec fn process_writer() -> spec_fn(WinProcView) -> Seq<char> {
    |p: WinProcView| process_line(p)
}

pub open spec fn process_lines(v: Seq<WinProcView>, n: nat) -> Seq<Seq<char>> {
    first_lines(v, n, process_writer())
}

/// The ids of the first `n` threads.
pub open spec fn first_tids(v: Seq<WinThreadView>, n: nat) -> Seq<u64> {
    Seq::new(
        if v.len() < n {
            v.len()
        } else {
            n
        },
        |i: int| v[i].tid,
    )
}

fn write_handle(h: &WinHandle) -> (r: String)
    ensures
        r@ == handle_line(h@),
{
    let mut s = "    handle=".to_owned();
    s.append(hex_padded(h.handle as u64, 6).as_str());
    s.append(" type=");
    s.append(pad_right(h.type_label.as_str(), 14).as_str());
    s.append(" access=");
    s.append(hex(h.granted_access as u64).as_str());
    if h.object_name.as_str().is_empty() {
        assert(s@ + Seq::<char>::empty() =~= s@);
    } else {
        let mut name = " name=".to_owned();
        name.append(debug_text(h.object_name.as_str()).as_str());
        s.append(name.as_str());
    }
    s
}

fn write_module(m: &WinMod) -> (r: String)
    ensures
        r@ == module_line(m@),
{
    let mut s = "    base=".to_owned();
    s.append(hex(m.base).as_str());
    s.append(" size=");
    s.append(hex(m.size as u64).as_str());
    s.append(" ");
    s.append(m.name.as_str());
    s
}

fn write_process(p: &WinProc) -> (r: String)
    ensures
        r@ == process_line(p@),
{
    let mut s = "    pid=".to_owned();
    s.append(pad_left(decimal(p.pid).as_str(), 6).as_str());
    s.append(" ppid=");
    s.append(pad_left(decimal(p.ppid).as_str(), 6).as_str());
    s.append(" ");
    s.append(pad_right(p.name.as_str(), 16).as_str());
    s.append(" eproc=");
    s.append(hex(p.eprocess).as_str());
    s
}

proof fn lemma_next_line<T>(
    done: Seq<String>,
    s: String,
    before: Seq<Seq<char>>,
    v: Seq<T>,
    i: nat,
    line: spec_fn(T) -> Seq<char>,
)
    requires
        texts(done) == before + first_lines(v, i, line),
        i < v.len(),
        s@ == line(v[i as int]),
    ensures
        texts(done.push(s)) == before + first_lines(v, i + 1, line),
{
    let next = before + first_lines(v, i + 1, line);
    assert(texts(done).len() == before.len() + i);
    assert forall|j: int| 0 <= j < next.len() implies texts(done.push(s))[j] == next[j] by {
        if j < done.len() {
            assert(texts(done)[j] == (before + first_lines(v, i, line))[j]);
        }
    }
    assert(texts(done.push(s)) =~= next);
}

fn push_handles(out: &mut Vec<String>, v: &Vec<WinHandle>, n: usize)
    ensures
        texts(final(out)@) == texts(old(out)@) + handle_lines(views(v@), n as nat),
{
    let ghost before = texts(out@);
    let count: usize = if v.len() < n {
        v.len()
    } else {
        n
    };
    let mut i: usize = 0;
    assert(before + handle_lines(views(v@), 0) =~= before);
    while i < count
        invariant
            i <= count <= v.len(),
            count <= n,
            texts(out@) == before + handle_lines(views(v@), i as nat),
        decreases count - i,
    {
        let line = write_handle(&v[i]);
        proof {
            lemma_next_line(out@, line, before, views(v@), i as nat, handle_writer());
        }
        out.push(line);
        i += 1;
    }
    assert(handle_lines(views(v@), count as nat) =~= handle_lines(views(v@), n as nat));
}

fn push_modules(out: &mut Vec<String>, v: &Vec<WinMod>, n: usize)
    ensures
        texts(final(out)@) == texts(old(out)@) + module_lines(views(v@), n as nat),
{
    let ghost before = texts(out@);
    let count: usize = if v.len() < n {
        v.len()
    } else {
        n
    };
    let mut i: usize = 0;
    assert(before + module_lines(views(v@), 0) =~= before);
    while i < count
        invariant
            i <= count <= v.len(),
            count <= n,
            texts(out@) == before + module_lines(views(v@), i as nat),
        decreases count - i,
    {
        let line = write_module(&v[i]);
        proof {
            lemma_next_line(out@, line, before, views(v@), i as nat, module_writer());
        }
        out.push(line);
        i += 1;
    }
    assert(module_lines(views(v@), count as nat) =~= module_lines(views(v@), n as nat));
}

fn push_processes(out: &mut Vec<String>, v: &Vec<WinProc>, n: usize)
    ensures
        texts(final(out)@) == texts(old(out)@) + process_lines(views(v@), n as nat),
{
    let ghost before = texts(out@);
    let count: usize = if v.len() < n {
        v.len()
    } else {
        n
    };
    let mut i: usize = 0;
    assert(before + process_lines(views(v@), 0) =~= before);
    while i < count
        invariant
            i <= count <= v.len(),
            count <= n,
            texts(out@) == before + process_lines(views(v@), i as nat),
        decreases count - i,
    {
        let line = write_process(&v[i]);
        proof {
            lemma_next_line(out@, line, before, views(v@), i as nat, process_writer());
        }
        out.push(line);
        i += 1;
    }
    assert(process_lines(views(v@), count as nat) =~= process_lines(views(v@), n as nat));
}

fn tids_of(v: &Vec<WinThread>, n: usize) -> (r: Vec<u64>)
    ensures
        r@ == first_tids(views(v@), n as nat),
{
    let mut out: Vec<u64> = Vec::new();
    let mut i: usize = 0;
    while i < v.len() && i < n
        invariant
            i <= v.len(),
            i <= n,
            out@ == first_tids(views(v@), i as nat),
        decreases v.len() - i,
    {
        out.push(v[i].tid);
        i += 1;
        assert(out@ =~= first_tids(views(v@), i as nat));
    }
    assert(out@ =~= first_tids(views(v@), n as nat));
    out
}

// ---- sections ---------------------------------------------------------------------------------

/// A count between two pieces of text.
pub open spec fn counted(before: Seq<char>, n: nat, after: Seq<char>) -> Seq<char> {
    before + decimal_chars(n as u64) + after
}

/// What is said of the process that runs.
pub open spec fn current_text(
    eprocess: u64,
    threads: Seq<WinThreadView>,
    handles: Seq<WinHandleView>,
    dlls: Seq<WinModView>,
    params: WinProcParamsView,
) -> Seq<Seq<char>> {
    seq![
        "[cosi-win] current _EPROCESS = "@ + hex_chars(eprocess),
        counted(
            "[cosi-win] current process has "@,
            threads.len(),
            " threads; first tids = "@ + number_list_chars(first_tids(threads, 12)),
        ),
        counted("[cosi-win] current process has "@, handles.len(), " handles:"@),
    ] + handle_lines(handles, 24) + seq![
        counted("[cosi-win] current process has "@, dlls.len(), " loaded DLLs:"@),
    ] + module_lines(dlls, 20) + seq![
        "[cosi-win] cwd="@ + debug_chars(params.cwd) + " image="@ + debug_chars(params.image_path)
            + " cmdline="@ + debug_chars(params.cmdline),
    ]
}

/// The first handle of a file.
pub open spec fn first_file(handles: Seq<WinHandleView>) -> Option<WinHandleView>
    decreases handles.len(),
{
    if handles.len() == 0 {
        None
    } else if handles[0].type_label == "File"@ {
        Some(handles[0])
    } else {
        first_file(handles.skip(1))
    }
}

/// What is said of a file's position.
pub open spec fn file_line(h: WinHandleView, pos: i64) -> Seq<char> {
    "[cosi-win] file handle "@ + hex_chars(h.handle as u64) + " "@ + debug_chars(h.object_name)
        + " CurrentByteOffset="@ + hex_chars(pos as u64)
}

/// What is said of the processes.
pub open spec fn processes_text(procs: Seq<WinProcView>) -> Seq<Seq<char>> {
    seq![counted("[cosi-win] process list ("@, procs.len(), " procs):"@)] + process_lines(
        procs,
        80,
    )
}

/// The first process with id 4.
pub open spec fn system_process(procs: Seq<WinProcView>) -> Option<WinProcView>
    decreases procs.len(),
{
    if procs.len() == 0 {
        None
    } else if procs[0].pid == 4 {
        Some(procs[0])
    } else {
        system_process(procs.skip(1))
    }
}

/// What is said of the System process's handles.
pub open spec fn system_text(handles: Seq<WinHandleView>) -> Seq<Seq<char>> {
    seq![counted("[cosi-win] System(pid 4) has "@, handles.len(), " handles:"@)] + handle_lines(
        handles,
        24,
    )
}

/// What is said of the kernel's modules.
pub open spec fn modules_text(mods: Seq<WinModView>) -> Seq<Seq<char>> {
    seq![counted("[cosi-win] kernel modules ("@, mods.len(), "):"@)] + module_lines(mods, 16)
}

fn write_counted(before: &str, n: usize, after: &str) -> (r: String)
    ensures
        r@ == counted(before@, n as nat, after@),
{
    let mut s = before.to_owned();
    s.append(decimal(n as u64).as_str());
    s.append(after);
    s
}

/// The part of the report on the process that runs. Plain parameters are written between quotes.
pub fn current_report(
    eprocess: u64,
    threads: &Vec<WinThread>,
    handles: &Vec<WinHandle>,
    dlls: &Vec<WinMod>,
    params: &WinProcParams,
) -> (r: Vec<String>)
    ensures
        texts(r@) == current_text(
            eprocess,
            views(threads@),
            views(handles@),
            views(dlls@),
            params@,
        ),
        is_plain(params.cwd@) && is_plain(params.image_path@) && is_plain(params.cmdline@)
            ==> texts(r@).last() == "[cosi-win] cwd="@ + quoted(params.cwd@) + " image="@ + quoted(
            params.image_path@,
        ) + " cmdline="@ + quoted(params.cmdline@),
{
    broadcast use texts_push;

    let mut out: Vec<String> = Vec::new();
    assert(texts(out@) =~= seq![]);
    let mut line = "[cosi-win] current _EPROCESS = ".to_owned();
    line.append(hex(eprocess).as_str());
    out.push(line);
    let tids = tids_of(threads, 12);
    let mut rest = " threads; first tids = ".to_owned();
    rest.append(number_list(&tids).as_str());
    out.push(write_counted("[cosi-win] current process has ", threads.len(), rest.as_str()));
    out.push(write_counted("[cosi-win] current process has ", handles.len(), " handles:"));
    push_handles(&mut out, handles, 24);
    out.push(write_counted("[cosi-win] current process has ", dlls.len(), " loaded DLLs:"));
    push_modules(&mut out, dlls, 20);
    let mut line = "[cosi-win] cwd=".to_owned();
    line.append(debug_text(params.cwd.as_str()).as_str());
    line.append(" image=");
    line.append(debug_text(params.image_path.as_str()).as_str());
    line.append(" cmdline=");
    line.append(debug_text(params.cmdline.as_str()).as_str());
    out.push(line);
    assert(texts(out@) =~= current_text(
        eprocess,
        views(threads@),
        views(handles@),
        views(dlls@),
        params@,
    ));
    out
}

fn find_file(handles: &Vec<WinHandle>) -> (r: Option<usize>)
    ensures
        match r {
            Some(i) => i < handles.len() && first_file(views(handles@)) == Some(
                handles@[i as int]@,
            ),
            None => first_file(views(handles@)) is None,
        },
{
    let mut i: usize = 0;
    assert(views(handles@).skip(0) =~= views(handles@));
    while i < handles.len()
        invariant
            i <= handles.len(),
            first_file(views(handles@)) == first_file(views(handles@).skip(i as int)),
        decreases handles.len() - i,
    {
        if handles[i].type_label == "File".to_owned() {
            return Some(i);
        }
        assert(views(handles@).skip(i as int).skip(1) =~= views(handles@).skip(i + 1));
        i += 1;
    }
    None
}

fn find_system(procs: &Vec<WinProc>) -> (r: Option<usize>)
    ensures
        match r {
            Some(i) => i < procs.len() && system_process(views(procs@)) == Some(
                procs@[i as int]@,
            ),
            None => system_process(views(procs@)) is None,
        },
{
    let mut i: usize = 0;
    assert(views(procs@).skip(0) =~= views(procs@));
    while i < procs.len()
        invariant
            i <= procs.len(),
            system_process(views(procs@)) == system_process(views(procs@).skip(i as int)),
        decreases procs.len() - i,
    {
        if procs[i].pid == 4 {
            return Some(i);
        }
        assert(views(procs@).skip(i as int).skip(1) =~= views(procs@).skip(i + 1));
        i += 1;
    }
    None
}

fn write_file(h: &WinHandle, pos: i64) -> (r: String)
    ensures
        r@ == file_line(h@, pos),
{
    let mut line = "[cosi-win] file handle ".to_owned();
    line.append(hex(h.handle as u64).as_str());
    line.append(" ");
    line.append(debug_text(h.object_name.as_str()).as_str());
    line.append(" CurrentByteOffset=");
    line.append(hex(pos as u64).as_str());
    line
}

// ---- the report -------------------------------------------------------------------------------

/// The line on the first file among the handles, where it has a position.
pub open spec fn file_lines(
    g: GuestView,
    p: &VolatilityJson,
    base: u64,
    eprocess: u64,
    handles: Seq<WinHandleView>,
) -> Result<Seq<Seq<char>>, Request> {
    match first_file(handles) {
        None => Ok(seq![]),
        Some(h) => match file_position(g, p, base, eprocess, h.handle as u64) {
            Err(q) => Err(q),
            Ok(None) => Ok(seq![]),
            Ok(Some(pos)) => Ok(seq![file_line(h, pos)]),
        },
    }
}

/// The lines on the process at `eprocess`, which runs.
pub open spec fn current_lines_of(
    g: GuestView,
    p: &VolatilityJson,
    base: u64,
    eprocess: u64,
) -> Result<Seq<Seq<char>>, Request> {
    match threads_of(g, p, eprocess) {
        Err(q) => Err(q),
        Ok(threads) => match handles_of(g, p, base, eprocess) {
            Err(q) => Err(q),
            Ok(handles) => match dlls_of(g, p, eprocess) {
                Err(q) => Err(q),
                Ok(dlls) => match params_of(g, p, eprocess) {
                    Err(q) => Err(q),
                    Ok(params) => match file_lines(g, p, base, eprocess, handles) {
                        Err(q) => Err(q),
                        Ok(file) => Ok(
                            current_text(eprocess, threads, handles, dlls, params) + file,
                        ),
                    },
                },
            },
        },
    }
}

/// The lines on the process that runs; none where there is none.
pub open spec fn current_lines(g: GuestView, p: &VolatilityJson, base: u64) -> Result<
    Seq<Seq<char>>,
    Request,
> {
    match running_process(g, p) {
        Err(q) => Err(q),
        Ok(None) => Ok(seq![]),
        Ok(Some(eprocess)) => current_lines_of(g, p, base, eprocess),
    }
}

/// The lines on the System process, where it is listed.
pub open spec fn system_lines(
    g: GuestView,
    p: &VolatilityJson,
    base: u64,
    procs: Seq<WinProcView>,
) -> Result<Seq<Seq<char>>, Request> {
    match system_process(procs) {
        None => Ok(seq![]),
        Some(system) => match handles_of(g, p, base, system.eprocess) {
            Err(q) => Err(q),
            Ok(handles) => Ok(system_text(handles)),
        },
    }
}

/// The whole report, put together.
pub open spec fn report_text(
    base: u64,
    current: Seq<Seq<char>>,
    procs: Seq<WinProcView>,
    system: Seq<Seq<char>>,
    mods: Seq<WinModView>,
) -> Seq<Seq<char>> {
    seq![
        "\n========== [cosi-win] OSI dump =========="@,
        "[cosi-win] ntoskrnl base = "@ + hex_chars(base),
    ] + current + processes_text(procs) + system + modules_text(mods) + seq![
        "=========================================\n"@,
    ]
}

/// The whole report, and whether any process is listed in it.
pub open spec fn report(g: GuestView, p: &VolatilityJson, base: u64) -> Result<
    (bool, Seq<Seq<char>>),
    Request,
> {
    match current_lines(g, p, base) {
        Err(q) => Err(q),
        Ok(current) => match process_list(g, p, base) {
            Err(q) => Err(q),
            Ok(procs) => match system_lines(g, p, base, procs) {
                Err(q) => Err(q),
                Ok(system) => match kernel_modules(g, p, base) {
                    Err(q) => Err(q),
                    Ok(mods) => Ok(
                        (
                            procs.len() > 0,
                            report_text(base, current, procs, system, mods),
                        ),
                    ),
                },
            },
        },
    }
}

/// The first process link, provided it points into the kernel half: then kernel globals are
/// mapped.
pub open spec fn kernel_is_mapped(g: GuestView, p: &VolatilityJson, base: u64) -> Result<
    bool,
    Request,
> {
    if base == 0 {
        Ok(false)
    } else {
        match p.rva("PsActiveProcessHead"@) {
            None => Ok(false),
            Some(rva) => match u64_at(g, Space::Current, base.wrapping_add(rva)) {
                Err(q) => Err(q),
                Ok(None) => Ok(false),
                Ok(Some(flink)) => Ok(flink >= KERNEL_MIN),
            },
        }
    }
}

/// The report, where kernel globals are mapped; else nothing is written and nothing ran.
pub open spec fn dump(cached: u64, g: GuestView, p: &VolatilityJson) -> Result<
    (bool, Seq<Seq<char>>),
    Request,
> {
    match known_base(cached, g, p) {
        Err(q) => Err(q),
        Ok(base) => match kernel_is_mapped(g, p, base) {
            Err(q) => Err(q),
            Ok(false) => Ok((false, seq![])),
            Ok(true) => report(g, p, base),
        },
    }
}

pub open spec fn dump_outcome(r: Result<(bool, Vec<String>), Request>) -> Result<
    (bool, Seq<Seq<char>>),
    Request,
> {
    match r {
        Err(q) => Err(q),
        Ok((ran, v)) => Ok((ran, texts(v@))),
    }
}

fn push_all(out: &mut Vec<String>, more: Vec<String>)
    ensures
        texts(final(out)@) == texts(old(out)@) + texts(more@),
{
    let mut more = more;
    let ghost before = out@;
    let ghost added = more@;
    out.append(&mut more);
    assert(texts(out@) =~= texts(before) + texts(added));
}

fn write_current_of(g: &Guest, p: &VolatilityJson, base: u64, eprocess: u64) -> (r: Result<
    Vec<String>,
    Request,
>)
    ensures
        lines_outcome(r) == current_lines_of(g@, p, base, eprocess),
{
    broadcast use texts_push;

    let threads = get_thread_list(g, p, eprocess)?;
    let handles = get_handle_list(g, p, base, eprocess)?;
    let dlls = proc_dlls(g, p, eprocess)?;
    let params = proc_params(g, p, eprocess)?;
    let mut out = current_report(eprocess, &threads, &handles, &dlls, &params);
    let ghost head = texts(out@);
    match find_file(&handles) {
        Some(i) => {
            let handle = handles[i].handle as u64;
            match file_handle_pos(g, p, base, eprocess, handle)? {
                Some(pos) => {
                    out.push(write_file(&handles[i], pos));
                    assert(texts(out@) =~= head + seq![file_line(handles@[i as int]@, pos)]);
                },
                None => {
                    assert(texts(out@) =~= head + Seq::<Seq<char>>::empty());
                },
            }
        },
        None => {
            assert(texts(out@) =~= head + Seq::<Seq<char>>::empty());
        },
    }
    Ok(out)
}

fn write_current(g: &Guest, p: &VolatilityJson, base: u64) -> (r: Result<Vec<String>, Request>)
    ensures
        lines_outcome(r) == current_lines(g@, p, base),
{
    match current_eprocess(g, p)? {
        Some(eprocess) => write_current_of(g, p, base, eprocess),
        None => {
            let none: Vec<String> = Vec::new();
            assert(texts(none@) =~= seq![]);
            Ok(none)
        },
    }
}

fn write_system(g: &Guest, p: &VolatilityJson, base: u64, procs: &Vec<WinProc>) -> (r: Result<
    Vec<String>,
    Request,
>)
    ensures
        lines_outcome(r) == system_lines(g@, p, base, views(procs@)),
{
    broadcast use texts_push;

    let mut out: Vec<String> = Vec::new();
    assert(texts(out@) =~= seq![]);
    match find_system(procs) {
        Some(i) => {
            let handles = get_handle_list(g, p, base, procs[i].eprocess)?;
            out.push(write_counted("[cosi-win] System(pid 4) has ", handles.len(), " handles:"));
            push_handles(&mut out, &handles, 24);
            assert(texts(out@) =~= system_text(views(handles@)));
        },
        None => {},
    }
    Ok(out)
}

/// Puts the parts of the report together.
pub fn full_report(
    base: u64,
    current: Vec<String>,
    procs: &Vec<WinProc>,
    system: Vec<String>,
    mods: &Vec<WinMod>,
) -> (r: Vec<String>)
    ensures
        texts(r@) == report_text(
            base,
            texts(current@),
            views(procs@),
            texts(system@),
            views(mods@),
        ),
{
    broadcast use texts_push;

    let mut out: Vec<String> = Vec::new();
    assert(texts(out@) =~= seq![]);
    out.push("\n========== [cosi-win] OSI dump ==========".to_owned());
    let mut line = "[cosi-win] ntoskrnl base = ".to_owned();
    line.append(hex(base).as_str());
    out.push(line);
    let ghost so_far = texts(out@);
    push_all(&mut out, current);
    out.push(write_counted("[cosi-win] process list (", procs.len(), " procs):"));
    push_processes(&mut out, procs, 80);
    assert(texts(out@) =~= so_far + texts(current@) + processes_text(views(procs@)));
    let ghost so_far = texts(out@);
    push_all(&mut out, system);
    out.push(write_counted("[cosi-win] kernel modules (", mods.len(), "):"));
    push_modules(&mut out, mods, 16);
    assert(texts(out@) =~= so_far + texts(system@) + modules_text(views(mods@)));
    out.push("=========================================\n".to_owned());
    assert(texts(out@) =~= report_text(
        base,
        texts(current@),
        views(procs@),
        texts(system@),
        views(mods@),
    ));
    out
}

fn write_report(g: &Guest, p: &VolatilityJson, base: u64) -> (r: Result<
    (bool, Vec<String>),
    Request,
>)
    ensures
        dump_outcome(r) == report(g@, p, base),
{
    let current = write_current(g, p, base)?;
    let procs = get_process_list(g, p, base)?;
    let system = write_system(g, p, base, &procs)?;
    let mods = get_module_list(g, p, base)?;
    let ran = procs.len() > 0;
    Ok((ran, full_report(base, current, &procs, system, &mods)))
}

/// Whether kernel globals are mapped, by the first link of the process list.
pub fn is_kernel_mapped(g: &Guest, p: &VolatilityJson, base: u64) -> (r: Result<bool, Request>)
    ensures
        r == kernel_is_mapped(g@, p, base),
{
    if base == 0 {
        return Ok(false);
    }
    let head = match sym_addr(p, base, "PsActiveProcessHead") {
        Some(head) => head,
        None => return Ok(false),
    };
    match rd_u64(g, Space::Current, head)? {
        Some(flink) => Ok(flink >= KERNEL_MIN),
        None => Ok(false),
    }
}

/// Attempts the full report. The flag says whether it ran where kernel globals are mapped and
/// listed any process; until then the caller keeps trying.
pub fn try_dump(cache: &mut u64, g: &Guest, p: &VolatilityJson) -> (r: Result<
    (bool, Vec<String>),
    Request,
>)
    ensures
        dump_outcome(r) == dump(*old(cache), g@, p),
        *final(cache) == cache_after(*old(cache), g@, p),
{
    let base = kernel_base(cache, g, p)?;
    if !is_kernel_mapped(g, p, base)? {
        let none: Vec<String> = Vec::new();
        assert(texts(none@) =~= seq![]);
        return Ok((false, none));
    }
    write_report(g, p, base)
}

// ---- what holds of the report -----------------------------------------------------------------

/// The report ran only where the base is known, kernel globals are mapped and a process is listed.
pub proof fn ran_in_the_kernel(cached: u64, g: GuestView, p: &VolatilityJson)
    ensures
        dump(cached, g, p) matches Ok((true, _)) ==> {
            let base = known_base(cached, g, p)->Ok_0;
            &&& known_base(cached, g, p) is Ok
            &&& base != 0
            &&& kernel_is_mapped(g, p, base) == Ok::<bool, Request>(true)
            &&& process_list(g, p, base) matches Ok(procs) && procs.len() > 0
        },
{
}

/// Where kernel globals are not mapped, nothing is written.
pub proof fn silent_outside_the_kernel(cached: u64, g: GuestView, p: &VolatilityJson, base: u64)
    requires
        known_base(cached, g, p) == Ok::<u64, Request>(base),
        kernel_is_mapped(g, p, base) == Ok::<bool, Request>(false),
    ensures
        dump(cached, g, p) == Ok::<(bool, Seq<Seq<char>>), Request>((false, seq![])),
{
}

proof fn lemma_current_lines_steady(
    g: GuestView,
    h: GuestView,
    p: &VolatilityJson,
    base: u64,
    eprocess: u64,
)
    requires
        g.extended_by(h),
    ensures
        steady(
            g,
            h,
            current_lines_of(g, p, base, eprocess),
            current_lines_of(h, p, base, eprocess),
        ),
{
    threads_of_steady(g, h, p, eprocess);
    handles_of_steady(g, h, p, base, eprocess);
    dlls_of_steady(g, h, p, eprocess);
    params_of_steady(g, h, p, eprocess);
    if let Ok(handles) = handles_of(g, p, base, eprocess) {
        if let Some(f) = first_file(handles) {
            file_position_steady(g, h, p, base, eprocess, f.handle as u64);
        }
    }
}

proof fn lemma_report_steady(g: GuestView, h: GuestView, p: &VolatilityJson, base: u64)
    requires
        g.extended_by(h),
    ensures
        steady(g, h, report(g, p, base), report(h, p, base)),
{
    running_process_steady(g, h, p);
    if let Ok(Some(eprocess)) = running_process(g, p) {
        lemma_current_lines_steady(g, h, p, base, eprocess);
    }
    process_list_steady(g, h, p, base);
    kernel_modules_steady(g, h, p, base);
    if let Ok(procs) = process_list(g, p, base) {
        if let Some(system) = system_process(procs) {
            handles_of_steady(g, h, p, base, system.eprocess);
        }
    }
}

/// Whether kernel globals are mapped is steady over a growing record.
pub broadcast proof fn kernel_is_mapped_steady(
    g: GuestView,
    h: GuestView,
    p: &VolatilityJson,
    base: u64,
)
    requires
        #[trigger] g.extended_by(h),
    ensures
        steady(g, h, #[trigger] kernel_is_mapped(g, p, base), kernel_is_mapped(h, p, base)),
{
    broadcast use u64_at_steady;

}

/// So is the report.
pub broadcast proof fn dump_steady(cached: u64, g: GuestView, h: GuestView, p: &VolatilityJson)
    requires
        #[trigger] g.extended_by(h),
    ensures
        steady(g, h, #[trigger] dump(cached, g, p), dump(cached, h, p)),
{
    known_base_steady(cached, g, h, p);
    if let Ok(base) = known_base(cached, g, p) {
        kernel_is_mapped_steady(g, h, p, base);
        lemma_report_steady(g, h, p, base);
    }
}

} // verus!
