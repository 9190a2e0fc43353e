//! What the tracer writes.

use crate::guest::{GuestView, Request};
use crate::handles::object_of_handle;
use crate::kernel::{known_base, running_process, running_process_and_tables};
use crate::laws::writing::{
    decimals_read_back, hex_reads_back, is_decimal, is_hex, is_signed, signed_decimals_read_back,
};
use crate::process::pid_and_name;
use crate::profile::VolatilityJson;
use crate::strace::{
    after_call, after_switch, arg_label, arg_register, arg_text, args_from, call_line, name_at,
    one_arg, osi_process_line, osi_report, scheduled, switch_line, traced_line, OsiProc,
    SyscallInfo, Tracer,
};
use crate::text::{
    contains_text, debug_chars, decimal_chars, hex_chars, joined, signed_chars, utf8_lossy_chars,
};
use vstd::prelude::*;

verus! {

// ---- arguments --------------------------------------------------------------------------------

/// The table has a name for argument `i`.
pub open spec fn has_label(info: &SyscallInfo, i: int, label: Seq<char>) -> bool {
    &&& i < info.argn@.len()
    &&& info.argn@[i] matches Some(bytes)
    &&& utf8_lossy_chars(bytes@) == label
    &&& label.len() > 0
}

/// What argument `i` goes by: the name that the table has for it, else `arg` and its number.
pub open spec fn goes_by(info: &SyscallInfo, i: int, label: Seq<char>) -> bool {
    ||| has_label(info, i, label)
    ||| (forall|other: Seq<char>| !#[trigger] has_label(info, i, other)) && exists|d: Seq<char>|
        #[trigger] is_decimal(d, i) && label == seq!['a', 'r', 'g'] + d
}

/// Arguments are passed in R10, RDX, R8 and R9.
pub open spec fn passed(g: GuestView, i: int) -> u64 {
    seq![g.regs.gpr@[10], g.regs.gpr@[2], g.regs.gpr@[8], g.regs.gpr@[9]][i]
}

/// How an argument reads: what it goes by, its value and, where it leads to an object, the type and
/// name of that.
pub open spec fn reads_as_object(
    plain: Seq<char>,
    object: Option<(Seq<char>, Seq<char>)>,
    text: Seq<char>,
) -> bool {
    match object {
        None => text == plain,
        Some((ty, name)) => if name.len() == 0 {
            text == plain + " -> "@ + ty
        } else {
            text == plain + " -> "@ + ty + " "@ + debug_chars(name)
        },
    }
}

/// How argument `i` reads. One that goes by a handle leads to an object if the handle does.
pub open spec fn reads_as_arg(
    g: GuestView,
    p: &VolatilityJson,
    base: u64,
    dtb: u64,
    eprocess: u64,
    info: &SyscallInfo,
    i: int,
    text: Seq<char>,
) -> bool {
    exists|label: Seq<char>, value: Seq<char>| #[trigger]
        goes_by(info, i, label) && #[trigger] is_hex(value, passed(g, i) as int) && {
            if contains_text(label, "Handle"@) {
                object_of_handle(g, p, base, dtb, eprocess, passed(g, i)) matches Ok(object)
                    && reads_as_object(label + seq!['='] + value, object, text)
            } else {
                text == label + seq!['='] + value
            }
        }
}

proof fn lemma_label(info: &SyscallInfo, i: u64)
    ensures
        goes_by(info, i as int, arg_label(info, i)),
{
    let label = arg_label(info, i);
    decimals_read_back(i);
    if !has_label(info, i as int, label) {
        reveal_strlit("arg");
        assert("arg"@ =~= seq!['a', 'r', 'g']);
        assert(is_decimal(decimal_chars(i), i as int));
        assert forall|other: Seq<char>| !#[trigger] has_label(info, i as int, other) by {
        }
    }
}

proof fn lemma_arg_text(label: Seq<char>, v: u64, object: Option<(Seq<char>, Seq<char>)>)
    ensures
        is_hex(hex_chars(v), v as int),
        reads_as_object(label + seq!['='] + hex_chars(v), object, arg_text(label, v, object)),
{
    hex_reads_back(v);
    reveal_strlit("=");
    assert("="@ =~= seq!['=']);
}

proof fn lemma_one_arg(
    g: GuestView,
    p: &VolatilityJson,
    base: u64,
    dtb: u64,
    eprocess: u64,
    info: &SyscallInfo,
    i: u64,
)
    requires
        i < 4,
        contains_text(arg_label(info, i), "Handle"@) ==> object_of_handle(
            g,
            p,
            base,
            dtb,
            eprocess,
            passed(g, i as int),
        ) is Ok,
    ensures
        one_arg(g, p, base, dtb, eprocess, info, i) matches Ok(text) && reads_as_arg(
            g,
            p,
            base,
            dtb,
            eprocess,
            info,
            i as int,
            text,
        ),
{
    lemma_label(info, i);
    let label = arg_label(info, i);
    let v = passed(g, i as int);
    assert(v == g.regs.gpr@[arg_register(i)]);
    let value = hex_chars(v);
    if contains_text(label, "Handle"@) {
        let object = object_of_handle(g, p, base, dtb, eprocess, v)->Ok_0;
        lemma_arg_text(label, v, object);
    } else {
        lemma_arg_text(label, v, None);
    }
    assert(goes_by(info, i as int, label) && is_hex(value, passed(g, i as int) as int));
}

proof fn lemma_args(
    g: GuestView,
    p: &VolatilityJson,
    base: u64,
    dtb: u64,
    eprocess: u64,
    info: &SyscallInfo,
    i: u64,
    count: nat,
)
    requires
        i <= count <= 4,
        count <= info.nargs || count == 0,
        count == 4 || count >= info.nargs,
        forall|j: u64|
            j < count && contains_text(#[trigger] arg_label(info, j), "Handle"@)
                ==> object_of_handle(g, p, base, dtb, eprocess, passed(g, j as int)) is Ok,
    ensures
        args_from(g, p, base, dtb, eprocess, info, i) matches Ok(args) && args.len() == count - i
            && forall|j: int|
            0 <= j < args.len() ==> reads_as_arg(
                g,
                p,
                base,
                dtb,
                eprocess,
                info,
                i + j,
                #[trigger] args[j],
            ),
    decreases count - i,
{
    if i < count {
        lemma_one_arg(g, p, base, dtb, eprocess, info, i);
        lemma_args(g, p, base, dtb, eprocess, info, (i + 1) as u64, count);
        let rest = args_from(g, p, base, dtb, eprocess, info, (i + 1) as u64)->Ok_0;
        let args = args_from(g, p, base, dtb, eprocess, info, i)->Ok_0;
        assert forall|j: int| 0 <= j < args.len() implies reads_as_arg(
            g,
            p,
            base,
            dtb,
            eprocess,
            info,
            i + j,
            #[trigger] args[j],
        ) by {
            if j > 0 {
                assert(args[j] == rest[j - 1]);
            }
        }
    }
}

/// A call's arguments are written out one by one, in order: all of them up to four, and the first
/// four of more.
pub proof fn every_argument_is_written(
    g: GuestView,
    p: &VolatilityJson,
    base: u64,
    dtb: u64,
    eprocess: u64,
    info: &SyscallInfo,
)
    requires
        forall|i: u64, label: Seq<char>|
            i < 4 && i < info.nargs && #[trigger] goes_by(info, i as int, label) && contains_text(
                label,
                "Handle"@,
            ) ==> object_of_handle(g, p, base, dtb, eprocess, passed(g, i as int)) is Ok,
    ensures
        args_from(g, p, base, dtb, eprocess, info, 0) matches Ok(args) && {
            &&& info.nargs <= 0 ==> args.len() == 0
            &&& 0 < info.nargs <= 4 ==> args.len() == info.nargs
            &&& info.nargs > 4 ==> args.len() == 4
            &&& forall|i: int|
                0 <= i < args.len() ==> reads_as_arg(
                    g,
                    p,
                    base,
                    dtb,
                    eprocess,
                    info,
                    i,
                    #[trigger] args[i],
                )
        },
{
    let count: nat = if info.nargs <= 0 {
        0
    } else if info.nargs <= 4 {
        info.nargs as nat
    } else {
        4
    };
    assert forall|j: u64|
        j < count && contains_text(#[trigger] arg_label(info, j), "Handle"@) implies
        object_of_handle(g, p, base, dtb, eprocess, passed(g, j as int)) is Ok by {
        lemma_label(info, j);
    }
    lemma_args(g, p, base, dtb, eprocess, info, 0, count);
    let args = args_from(g, p, base, dtb, eprocess, info, 0)->Ok_0;
    assert forall|i: int| 0 <= i < args.len() implies reads_as_arg(
        g,
        p,
        base,
        dtb,
        eprocess,
        info,
        i,
        #[trigger] args[i],
    ) by {
        assert(reads_as_arg(g, p, base, dtb, eprocess, info, 0 + i, args[i]));
    }
}

// ---- calls ------------------------------------------------------------------------------------

/// A line of the trace tells who calls what with which arguments, and whether there are more.
pub proof fn calls_are_written(
    g: GuestView,
    p: &VolatilityJson,
    base: u64,
    info: &SyscallInfo,
    eprocess: u64,
    dtb: u64,
    pid: u64,
    process: Seq<char>,
    call: Seq<char>,
    args: Seq<Seq<char>>,
)
    requires
        running_process_and_tables(g, p) == Ok::<Option<(u64, u64)>, Request>(
            Some((eprocess, dtb)),
        ),
        pid_and_name(g, p, eprocess) == Ok::<(u64, Seq<char>), Request>((pid, process)),
        args_from(g, p, base, dtb, eprocess, info, 0) == Ok::<Seq<Seq<char>>, Request>(args),
        match info.name {
            Some(bytes) => call == utf8_lossy_chars(bytes@),
            None => call == seq!['?'],
        },
    ensures
        call_line(g, p, base, info) matches Ok(Some(line)) && exists|d: Seq<char>| #[trigger]
            is_decimal(d, pid as int) && line == "[strace pid="@ + d + " "@ + process + "] "@ + call
                + "("@ + joined(args, ", "@) + (if info.nargs > 4 {
                ", ..."@
            } else {
                seq![]
            }) + ")"@,
{
    decimals_read_back(pid);
    reveal_strlit("?");
    assert("?"@ =~= seq!['?']);
    assert(is_decimal(decimal_chars(pid), pid as int));
}

/// No line is written while nothing runs.
pub proof fn calls_of_no_process_are_not_written(
    g: GuestView,
    p: &VolatilityJson,
    base: u64,
    info: &SyscallInfo,
)
    requires
        running_process_and_tables(g, p) == Ok::<Option<(u64, u64)>, Request>(None),
    ensures
        call_line(g, p, base, info) == Ok::<Option<Seq<char>>, Request>(None),
{
}

/// Once tracing has begun, every call that the table knows is traced, up to 400 lines. Other calls
/// are not.
pub proof fn known_calls_are_traced(
    tracer: Tracer,
    ready: bool,
    info: &SyscallInfo,
    cached: u64,
    g: GuestView,
    p: &VolatilityJson,
    base: u64,
)
    requires
        known_base(cached, g, p) == Ok::<u64, Request>(base),
    ensures
        ready && tracer.traced < 400 ==> traced_line(tracer, ready, Some(info), cached, g, p)
            == call_line(g, p, base, info),
        !ready || tracer.traced >= 400 ==> traced_line(tracer, ready, Some(info), cached, g, p)
            == Ok::<Option<Seq<char>>, Request>(None),
        traced_line(tracer, ready, None, cached, g, p) == Ok::<Option<Seq<char>>, Request>(None),
{
}

/// Lines are counted, and nothing else about the tracer changes with a call.
pub proof fn lines_are_counted(tracer: Tracer, line: Seq<char>, q: Request)
    requires
        tracer.traced < u64::MAX,
    ensures
        ({
            let after = after_call(tracer, Ok::<Option<Seq<char>>, Request>(Some(line)));
            &&& after.traced == tracer.traced + 1
            &&& after.switches == tracer.switches
            &&& after.last_pid == tracer.last_pid
        }),
        after_call(tracer, Ok::<Option<Seq<char>>, Request>(None)) == tracer,
        after_call(tracer, Err::<Option<Seq<char>>, Request>(q)) == tracer,
{
}

// ---- switches ---------------------------------------------------------------------------------

/// Once tracing has begun, a process that was not the last one seen is logged, up to 80 times.
pub proof fn switches_are_logged(
    tracer: Tracer,
    g: GuestView,
    p: &VolatilityJson,
    eprocess: u64,
    pid: u64,
    name: Seq<char>,
)
    requires
        running_process(g, p) == Ok::<Option<u64>, Request>(Some(eprocess)),
        pid_and_name(g, p, eprocess) == Ok::<(u64, Seq<char>), Request>((pid, name)),
        tracer.switches < 80,
        pid != 0,
        pid != tracer.last_pid,
    ensures
        switch_line(tracer, scheduled(tracer, true, g, p)) matches Ok(Some(line)) && exists|
            d: Seq<char>,
            x: Seq<char>,
        | #[trigger]
            is_decimal(d, pid as int) && #[trigger] is_hex(x, eprocess as int) && line
                == "[procswitch] -> pid="@ + d + " "@ + name + " (eproc="@ + x + ")"@,
        ({
            let after = after_switch(tracer, scheduled(tracer, true, g, p));
            &&& after.last_pid == pid
            &&& after.switches == tracer.switches + 1
            &&& after.traced == tracer.traced
        }),
{
    decimals_read_back(pid);
    hex_reads_back(eprocess);
    assert(is_decimal(decimal_chars(pid), pid as int) && is_hex(
        hex_chars(eprocess),
        eprocess as int,
    ));
}

/// Nothing is logged, and nothing changes, for the process that was seen last, for id 0, while no
/// process runs, before tracing has begun and after 80 times.
pub proof fn other_switches_are_not_logged(
    tracer: Tracer,
    ready: bool,
    g: GuestView,
    p: &VolatilityJson,
    eprocess: u64,
    pid: u64,
    name: Seq<char>,
)
    requires
        !ready || tracer.switches >= 80 || running_process(g, p) == Ok::<Option<u64>, Request>(None)
            || (running_process(g, p) == Ok::<Option<u64>, Request>(Some(eprocess)) && pid_and_name(
            g,
            p,
            eprocess,
        ) == Ok::<(u64, Seq<char>), Request>((pid, name)) && (pid == 0 || pid == tracer.last_pid)),
    ensures
        switch_line(tracer, scheduled(tracer, ready, g, p)) == Ok::<Option<Seq<char>>, Request>(
            None,
        ),
        after_switch(tracer, scheduled(tracer, ready, g, p)) == tracer,
{
}

// ---- the self-test report ---------------------------------------------------------------------

/// What an optional C string says.
pub open spec fn says(s: Option<Vec<u8>>, text: Seq<char>) -> bool {
    match s {
        Some(bytes) => text == utf8_lossy_chars(bytes@),
        None => text.len() == 0,
    }
}

proof fn lemma_signed(n: i32) -> (s: Seq<char>)
    ensures
        s == signed_chars(n as i64),
        is_signed(s, n as int),
{
    signed_decimals_read_back(n as i64);
    signed_chars(n as i64)
}

proof fn lemma_osi_process(it: OsiProc, name: Seq<char>)
    requires
        says(it.name, name),
    ensures
        is_osi_line(it, osi_process_line(it), name),
{
    lemma_signed(it.pid);
    lemma_signed(it.ppid);
    assert(name =~= crate::strace::optional_text(it.name));
}

/// A line on a process has its id, its parent's id and its name.
pub open spec fn is_osi_line(it: OsiProc, line: Seq<char>, name: Seq<char>) -> bool {
    exists|d: Seq<char>, e: Seq<char>| #[trigger]
        is_signed(d, it.pid as int) && #[trigger] is_signed(e, it.ppid as int) && line
            == "    pid="@ + d + " ppid="@ + e + " "@ + name
}

/// The report has a title, the current process, the number of processes, and a line for each of
/// the first ten.
pub proof fn the_first_processes_are_reported(
    current: Option<&OsiProc>,
    procs: Seq<OsiProc>,
    names: Seq<Seq<char>>,
    current_name: Seq<char>,
)
    requires
        procs.len() <= u64::MAX,
        names.len() == procs.len(),
        forall|i: int| 0 <= i < procs.len() ==> says(procs[i].name, #[trigger] names[i]),
        current matches Some(it) ==> says(it.name, current_name),
    ensures
        ({
            let lines = osi_report(current, procs);
            &&& lines.len() == 3 + if procs.len() < 10 {
                procs.len()
            } else {
                10
            }
            &&& lines[0] == "[osi-selftest] routing through osi -> osi_cosi -> cosi ..."@
            &&& current is None ==> lines[1]
                == "[osi-selftest] osi.get_current_process -> None"@
            &&& current matches Some(it) ==> exists|d: Seq<char>, e: Seq<char>| #[trigger]
                is_signed(d, it.pid as int) && #[trigger] is_signed(e, it.ppid as int) && lines[1]
                    == "[osi-selftest] osi.get_current_process -> pid="@ + d + " ppid="@ + e
                    + " name="@ + debug_chars(current_name)
            &&& exists|d: Seq<char>| #[trigger]
                is_decimal(d, procs.len() as int) && lines[2]
                    == "[osi-selftest] osi.get_processes -> "@ + d + " procs:"@
            &&& forall|i: int|
                0 <= i < procs.len() && i < 10 ==> is_osi_line(
                    #[trigger] procs[i],
                    lines[3 + i],
                    names[i],
                )
        }),
{
    let lines = osi_report(current, procs);
    decimals_read_back(procs.len() as u64);
    assert(is_decimal(decimal_chars(procs.len() as u64), procs.len() as int));
    if let Some(it) = current {
        let d = lemma_signed(it.pid);
        let e = lemma_signed(it.ppid);
        assert(current_name =~= crate::strace::optional_text(it.name));
        assert(is_signed(d, it.pid as int) && is_signed(e, it.ppid as int));
    }
    assert forall|i: int| 0 <= i < procs.len() && i < 10 implies is_osi_line(
        #[trigger] procs[i],
        lines[3 + i],
        names[i],
    ) by {
        lemma_osi_process(procs[i], names[i]);
    }
}

/// The name at an index of a list of names is what stands there; there is none past the end.
pub proof fn names_are_found(names: Seq<Option<Vec<u8>>>, i: int, text: Seq<char>)
    requires
        0 <= i,
        if i < names.len() {
            says(names[i], text)
        } else {
            text.len() == 0
        },
    ensures
        name_at(names, i) == text,
{
    assert(name_at(names, i) =~= text);
}

} // verus!
