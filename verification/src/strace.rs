//! Windows syscall tracer: a line for each syscall entry, with the calling process, the syscall's
//! name and its argument names, and the object behind each argument that is a handle.

use crate::guest::{steady, Guest, GuestView, Request};
use crate::handles::{handle_to_object, object_of_handle, object_of_handle_steady};
use crate::kernel::{
    current_eproc_and_dtb, current_eprocess, kernel_base, known_base, known_base_steady, reg,
    running_process, running_process_and_tables, running_process_and_tables_steady,
    running_process_steady,
};
use crate::lists::prepend;
use crate::objects::optional_text_outcome;
use crate::process::{cache_after, pid_and_name, pid_and_name_steady, proc_pid_name};
use crate::profile::VolatilityJson;
use crate::reads::{lines_outcome, text_outcome};
use crate::text::{
    contains, contains_text, debug_chars, debug_text, decimal, decimal_chars, hex, hex_chars,
    is_plain, join, joined, quoted, signed, signed_chars, texts, texts_push, utf8_lossy,
    utf8_lossy_chars,
};
use vstd::prelude::*;
use vstd::string::StringExecFns;
use vstd::utf8::{decode_utf8, valid_utf8};

verus! {

/// What a syscall table says of one syscall: its name, how many arguments it takes and what they
/// are called. Names are the bytes of C strings; `None` stands for a null pointer.
pub struct SyscallInfo {
    pub name: Option<Vec<u8>>,
    pub nargs: i32,
    pub argn: Vec<Option<Vec<u8>>>,
}

/// At most this many syscalls are traced.
pub const MAX_TRACE: u64 = 400;

/// At most this many process switches are logged.
pub const MAX_SWITCHES: u64 = 80;

/// How much has been written, and the process that was seen last.
pub struct Tracer {
    pub traced: u64,
    pub last_pid: u64,
    pub switches: u64,
}

// ---- one argument -----------------------------------------------------------------------------

/// The text of an optional C string; empty for none.
pub open spec fn optional_text(s: Option<Vec<u8>>) -> Seq<char> {
    match s {
        Some(bytes) => utf8_lossy_chars(bytes@),
        None => seq![],
    }
}

/// Entry `i` of a list of names; empty where there is none.
pub open spec fn name_at(names: Seq<Option<Vec<u8>>>, i: int) -> Seq<char> {
    if 0 <= i < names.len() {
        optional_text(names[i])
    } else {
        seq![]
    }
}

/// What an argument is called: its name in the table, or else its number.
pub open spec fn arg_label(info: &SyscallInfo, i: u64) -> Seq<char> {
    let name = name_at(info.argn@, i as int);
    if name.len() == 0 {
        "arg"@ + decimal_chars(i)
    } else {
        name
    }
}

/// The register that holds argument `i` where SYSCALL is executed: R10, RDX, R8, R9.
pub open spec fn arg_register(i: u64) -> int {
    if i == 0 {
        10
    } else if i == 1 {
        2
    } else if i == 2 {
        8
    } else {
        9
    }
}

/// An argument with its value and, where it leads to an object, that object's type and name.
pub open spec fn arg_text(
    label: Seq<char>,
    value: u64,
    object: Option<(Seq<char>, Seq<char>)>,
) -> Seq<char> {
    let plain = label + "="@ + hex_chars(value);
    match object {
        None => plain,
        Some((type_label, object_name)) => if object_name.len() == 0 {
            plain + " -> "@ + type_label
        } else {
            plain + " -> "@ + type_label + " "@ + debug_chars(object_name)
        },
    }
}

/// The name at an index of a name list; empty for a null list, a null entry, and past the end.
/// Well-formed UTF-8 is taken for the text it encodes.
pub fn cstr_at(names: &Vec<Option<Vec<u8>>>, i: usize) -> (r: String)
    ensures
        r@ == name_at(names@, i as int),
        i < names@.len() ==> (names@[i as int] matches Some(bytes) ==> (valid_utf8(bytes@) ==> r@
            == decode_utf8(bytes@))),
{
    if i < names.len() {
        match &names[i] {
            Some(bytes) => utf8_lossy(bytes.as_slice()),
            None => String::new(),
        }
    } else {
        String::new()
    }
}

fn label_of(info: &SyscallInfo, i: u64) -> (r: String)
    requires
        i < 4,
    ensures
        r@ == arg_label(info, i),
{
    let name = cstr_at(&info.argn, i as usize);
    if name.as_str().is_empty() {
        let mut s = "arg".to_owned();
        s.append(decimal(i).as_str());
        s
    } else {
        name
    }
}

/// Writes one argument. A plain name is written between quotes.
pub fn write_arg(label: &str, value: u64, object: &Option<(String, String)>) -> (r: String)
    ensures
        r@ == arg_text(
            label@,
            value,
            match *object {
                Some((a, b)) => Some((a@, b@)),
                None => None,
            },
        ),
        *object matches Some((a, b)) ==> (b@.len() > 0 && is_plain(b@) ==> r@ == label@ + "="@
            + hex_chars(value) + " -> "@ + a@ + " "@ + quoted(b@)),
{
    let mut s = label.to_owned();
    s.append("=");
    s.append(hex(value).as_str());
    match object {
        Some((type_label, object_name)) => {
            s.append(" -> ");
            s.append(type_label.as_str());
            if !object_name.as_str().is_empty() {
                s.append(" ");
                s.append(debug_text(object_name.as_str()).as_str());
            }
        },
        None => {},
    }
    s
}

// ---- one call ---------------------------------------------------------------------------------

/// Arguments from `i` on that are held in registers. Those called a handle are looked up.
pub open spec fn args_from(
    g: GuestView,
    p: &VolatilityJson,
    base: u64,
    dtb: u64,
    eprocess: u64,
    info: &SyscallInfo,
    i: u64,
) -> Result<Seq<Seq<char>>, Request>
    decreases 4 - i,
{
    if i >= 4 || i >= info.nargs {
        Ok(seq![])
    } else {
        match one_arg(g, p, base, dtb, eprocess, info, i) {
            Err(q) => Err(q),
            Ok(arg) => prepend(
                seq![arg],
                args_from(g, p, base, dtb, eprocess, info, (i + 1) as u64),
            ),
        }
    }
}

/// Argument `i` as it is written.
pub open spec fn one_arg(
    g: GuestView,
    p: &VolatilityJson,
    base: u64,
    dtb: u64,
    eprocess: u64,
    info: &SyscallInfo,
    i: u64,
) -> Result<Seq<char>, Request> {
    let label = arg_label(info, i);
    let value = g.regs.gpr@[arg_register(i)];
    if contains_text(label, "Handle"@) {
        match object_of_handle(g, p, base, dtb, eprocess, value) {
            Err(q) => Err(q),
            Ok(object) => Ok(arg_text(label, value, object)),
        }
    } else {
        Ok(arg_text(label, value, None))
    }
}

/// The name of a syscall, `?` where the table has none.
pub open spec fn call_name(info: &SyscallInfo) -> Seq<char> {
    match info.name {
        Some(bytes) => utf8_lossy_chars(bytes@),
        None => "?"@,
    }
}

/// A line of the trace.
pub open spec fn call_text(
    pid: u64,
    process: Seq<char>,
    call: Seq<char>,
    args: Seq<Seq<char>>,
    more: bool,
) -> Seq<char> {
    "[strace pid="@ + decimal_chars(pid) + " "@ + process + "] "@ + call + "("@ + joined(
        args,
        ", "@,
    ) + (if more {
        ", ..."@
    } else {
        seq![]
    }) + ")"@
}

/// The line for a call; `None` where no process can be made out.
pub open spec fn call_line(
    g: GuestView,
    p: &VolatilityJson,
    base: u64,
    info: &SyscallInfo,
) -> Result<Option<Seq<char>>, Request> {
    match running_process_and_tables(g, p) {
        Err(q) => Err(q),
        Ok(None) => Ok(None),
        Ok(Some((eprocess, dtb))) => match pid_and_name(g, p, eprocess) {
            Err(q) => Err(q),
            Ok((pid, process)) => match args_from(g, p, base, dtb, eprocess, info, 0) {
                Err(q) => Err(q),
                Ok(args) => Ok(
                    Some(call_text(pid, process, call_name(info), args, info.nargs > 4)),
                ),
            },
        },
    }
}

fn write_one_arg(
    g: &Guest,
    p: &VolatilityJson,
    base: u64,
    dtb: u64,
    eprocess: u64,
    info: &SyscallInfo,
    i: u64,
) -> (r: Result<String, Request>)
    requires
        i < 4,
    ensures
        text_outcome(r) == one_arg(g@, p, base, dtb, eprocess, info, i),
{
    let idx: usize = if i == 0 {
        10
    } else if i == 1 {
        2
    } else if i == 2 {
        8
    } else {
        9
    };
    let value = reg(g, idx);
    let label = label_of(info, i);
    let object = if contains(label.as_str(), "Handle") {
        handle_to_object(g, p, base, dtb, eprocess, value)?
    } else {
        None
    };
    Ok(write_arg(label.as_str(), value, &object))
}

fn write_args(
    g: &Guest,
    p: &VolatilityJson,
    base: u64,
    dtb: u64,
    eprocess: u64,
    info: &SyscallInfo,
) -> (r: Result<Vec<String>, Request>)
    ensures
        lines_outcome(r) == args_from(g@, p, base, dtb, eprocess, info, 0),
{
    let mut parts: Vec<String> = Vec::new();
    let ghost whole = args_from(g@, p, base, dtb, eprocess, info, 0);
    let count: u64 = if info.nargs <= 0 {
        0
    } else if info.nargs < 4 {
        info.nargs as u64
    } else {
        4
    };
    let mut i: u64 = 0;
    proof {
        if let Ok(v) = whole {
            assert(texts(parts@) + v =~= v);
        }
    }
    while i < count
        invariant
            i <= count <= 4,
            count <= info.nargs || count == 0,
            count == 4 || count >= info.nargs,
            whole == args_from(g@, p, base, dtb, eprocess, info, 0),
            whole == prepend(
                texts(parts@),
                args_from(g@, p, base, dtb, eprocess, info, i),
            ),
        decreases count - i,
    {
        let arg = write_one_arg(g, p, base, dtb, eprocess, info, i)?;
        let ghost done = texts(parts@);
        let ghost it = arg@;
        proof {
            let rest = args_from(g@, p, base, dtb, eprocess, info, (i + 1) as u64);
            if let Ok(v) = rest {
                assert(done + (seq![it] + v) =~= done.push(it) + v);
            }
        }
        parts.push(arg);
        assert(texts(parts@) =~= done.push(it));
        i += 1;
    }
    assert(texts(parts@) + Seq::<Seq<char>>::empty() =~= texts(parts@));
    Ok(parts)
}

/// Writes a line of the trace.
pub fn write_call(
    pid: u64,
    process: &str,
    call: &str,
    args: &Vec<String>,
    more: bool,
) -> (r: String)
    ensures
        r@ == call_text(pid, process@, call@, texts(args@), more),
{
    let mut s = "[strace pid=".to_owned();
    s.append(decimal(pid).as_str());
    s.append(" ");
    s.append(process);
    s.append("] ");
    s.append(call);
    s.append("(");
    s.append(join(args, ", ").as_str());
    if more {
        s.append(", ...");
    } else {
        assert(s@ + Seq::<char>::empty() =~= s@);
    }
    s.append(")");
    s
}

fn write_call_line(g: &Guest, p: &VolatilityJson, base: u64, info: &SyscallInfo) -> (r: Result<
    Option<String>,
    Request,
>)
    ensures
        optional_text_outcome(r) == call_line(g@, p, base, info),
{
    let (eprocess, dtb) = match current_eproc_and_dtb(g, p)? {
        Some(found) => found,
        None => return Ok(None),
    };
    let (pid, process) = proc_pid_name(g, p, eprocess)?;
    let args = write_args(g, p, base, dtb, eprocess, info)?;
    let call = match &info.name {
        Some(bytes) => utf8_lossy(bytes.as_slice()),
        None => "?".to_owned(),
    };
    Ok(Some(write_call(pid, process.as_str(), call.as_str(), &args, info.nargs > 4)))
}

// ---- the tracer -------------------------------------------------------------------------------

/// Whether a call is looked at: tracing has begun, has not run out, and the table knows the call.
pub open spec fn is_traced(tracer: Tracer, ready: bool, info: Option<&SyscallInfo>) -> bool {
    ready && tracer.traced < MAX_TRACE && info is Some
}

/// The line that is written for a call, if any.
pub open spec fn traced_line(
    tracer: Tracer,
    ready: bool,
    info: Option<&SyscallInfo>,
    cached: u64,
    g: GuestView,
    p: &VolatilityJson,
) -> Result<Option<Seq<char>>, Request> {
    match info {
        Some(call) if is_traced(tracer, ready, info) => match known_base(cached, g, p) {
            Err(q) => Err(q),
            Ok(base) => call_line(g, p, base, call),
        },
        _ => Ok(None),
    }
}

/// The tracer after a call: a line that was written is counted.
pub open spec fn after_call<T>(tracer: Tracer, r: Result<Option<T>, Request>) -> Tracer {
    match r {
        Ok(Some(_)) => Tracer { traced: (tracer.traced + 1) as u64, ..tracer },
        _ => tracer,
    }
}

/// The process that is scheduled now, if switches are still logged: its address, id and name.
pub open spec fn scheduled(tracer: Tracer, ready: bool, g: GuestView, p: &VolatilityJson) -> Result<
    Option<(u64, u64, Seq<char>)>,
    Request,
> {
    if !ready || tracer.switches >= MAX_SWITCHES {
        Ok(None)
    } else {
        match running_process(g, p) {
            Err(q) => Err(q),
            Ok(None) => Ok(None),
            Ok(Some(eprocess)) => match pid_and_name(g, p, eprocess) {
                Err(q) => Err(q),
                Ok((pid, name)) => Ok(Some((eprocess, pid, name))),
            },
        }
    }
}

/// A process with an id other than the last one seen is switched to.
pub open spec fn is_switch(tracer: Tracer, pid: u64) -> bool {
    pid != 0 && pid != tracer.last_pid
}

pub open spec fn switch_text(eprocess: u64, pid: u64, name: Seq<char>) -> Seq<char> {
    "[procswitch] -> pid="@ + decimal_chars(pid) + " "@ + name + " (eproc="@ + hex_chars(eprocess)
        + ")"@
}

/// The line that is written for what is scheduled, if any.
pub open spec fn switch_line(
    tracer: Tracer,
    r: Result<Option<(u64, u64, Seq<char>)>, Request>,
) -> Result<Option<Seq<char>>, Request> {
    match r {
        Err(q) => Err(q),
        Ok(Some((eprocess, pid, name))) if is_switch(tracer, pid) => Ok(
            Some(switch_text(eprocess, pid, name)),
        ),
        Ok(_) => Ok(None),
    }
}

/// The tracer after that: an id is remembered, a switch counted.
pub open spec fn after_switch(
    tracer: Tracer,
    r: Result<Option<(u64, u64, Seq<char>)>, Request>,
) -> Tracer {
    match r {
        Ok(Some((_, pid, _))) if is_switch(tracer, pid) => Tracer {
            last_pid: pid,
            switches: (tracer.switches + 1) as u64,
            ..tracer
        },
        _ => tracer,
    }
}

impl Tracer {
    pub fn new() -> (r: Tracer)
        ensures
            r.traced == 0,
            r.last_pid == u64::MAX,
            r.switches == 0,
    {
        Tracer { traced: 0, last_pid: u64::MAX, switches: 0 }
    }

    /// Traces a syscall at its entry. `ready` says whether the kernel base has been resolved in a
    /// good context, `info` what the table says of the call.
    pub fn on_sys_enter(
        &mut self,
        ready: bool,
        info: Option<&SyscallInfo>,
        cache: &mut u64,
        g: &Guest,
        p: &VolatilityJson,
    ) -> (r: Result<Option<String>, Request>)
        ensures
            optional_text_outcome(r) == traced_line(*old(self), ready, info, *old(cache), g@, p),
            *final(self) == after_call(*old(self), r),
            *final(cache) == if is_traced(*old(self), ready, info) {
                cache_after(*old(cache), g@, p)
            } else {
                *old(cache)
            },
    {
        if !ready || self.traced >= MAX_TRACE {
            return Ok(None);
        }
        let info = match info {
            Some(info) => info,
            None => return Ok(None),
        };
        let base = kernel_base(cache, g, p)?;
        let line = write_call_line(g, p, base, info)?;
        if line.is_some() {
            self.traced = self.traced + 1;
        }
        Ok(line)
    }

    /// Logs the process that is scheduled after a change of address space, if it is another one.
    pub fn on_asid_changed(&mut self, ready: bool, g: &Guest, p: &VolatilityJson) -> (r: Result<
        Option<String>,
        Request,
    >)
        ensures
            optional_text_outcome(r) == switch_line(
                *old(self),
                scheduled(*old(self), ready, g@, p),
            ),
            *final(self) == after_switch(*old(self), scheduled(*old(self), ready, g@, p)),
    {
        if !ready || self.switches >= MAX_SWITCHES {
            return Ok(None);
        }
        let eprocess = match current_eprocess(g, p)? {
            Some(e) => e,
            None => return Ok(None),
        };
        let (pid, name) = proc_pid_name(g, p, eprocess)?;
        if pid == 0 || pid == self.last_pid {
            return Ok(None);
        }
        self.last_pid = pid;
        self.switches = self.switches + 1;
        let mut s = "[procswitch] -> pid=".to_owned();
        s.append(decimal(pid).as_str());
        s.append(" ");
        s.append(name.as_str());
        s.append(" (eproc=");
        s.append(hex(eprocess).as_str());
        s.append(")");
        Ok(Some(s))
    }
}

// ---- the self-test report ---------------------------------------------------------------------

/// A process as the generic interface hands it out.
pub struct OsiProc {
    pub pid: i32,
    pub ppid: i32,
    pub name: Option<Vec<u8>>,
}

pub open spec fn osi_current_line(current: Option<&OsiProc>) -> Seq<char> {
    match current {
        Some(it) => "[osi-selftest] osi.get_current_process -> pid="@ + signed_chars(
            it.pid as i64,
        ) + " ppid="@ + signed_chars(it.ppid as i64) + " name="@ + debug_chars(
            optional_text(it.name),
        ),
        None => "[osi-selftest] osi.get_current_process -> None"@,
    }
}

pub open spec fn osi_process_line(it: OsiProc) -> Seq<char> {
    "    pid="@ + signed_chars(it.pid as i64) + " ppid="@ + signed_chars(it.ppid as i64) + " "@
        + optional_text(it.name)
}

/// The report on what the generic interface gives back: the current process, how many there are,
/// and the first ten.
pub open spec fn osi_report(current: Option<&OsiProc>, procs: Seq<OsiProc>) -> Seq<Seq<char>> {
    seq![
        "[osi-selftest] routing through osi -> osi_cosi -> cosi ..."@,
        osi_current_line(current),
        "[osi-selftest] osi.get_processes -> "@ + decimal_chars(procs.len() as u64) + " procs:"@,
    ] + Seq::new(
        if procs.len() < 10 {
            procs.len()
        } else {
            10
        },
        |i: int| osi_process_line(procs[i]),
    )
}

fn text_of(s: &Option<Vec<u8>>) -> (r: String)
    ensures
        r@ == optional_text(*s),
{
    match s {
        Some(bytes) => utf8_lossy(bytes.as_slice()),
        None => String::new(),
    }
}

fn write_osi_process(it: &OsiProc) -> (r: String)
    ensures
        r@ == osi_process_line(*it),
{
    let mut s = "    pid=".to_owned();
    s.append(signed(it.pid as i64).as_str());
    s.append(" ppid=");
    s.append(signed(it.ppid as i64).as_str());
    s.append(" ");
    s.append(text_of(&it.name).as_str());
    s
}

fn write_osi_current(current: Option<&OsiProc>) -> (r: String)
    ensures
        r@ == osi_current_line(current),
{
    match current {
        Some(it) => {
            let mut s = "[osi-selftest] osi.get_current_process -> pid=".to_owned();
            s.append(signed(it.pid as i64).as_str());
            s.append(" ppid=");
            s.append(signed(it.ppid as i64).as_str());
            s.append(" name=");
            s.append(debug_text(text_of(&it.name).as_str()).as_str());
            s
        },
        None => "[osi-selftest] osi.get_current_process -> None".to_owned(),
    }
}

/// Reports what the generic interface gives back.
pub fn osi_selftest(current: Option<&OsiProc>, procs: &Vec<OsiProc>) -> (r: Vec<String>)
    ensures
        texts(r@) == osi_report(current, procs@),
{
    broadcast use texts_push;

    let mut out: Vec<String> = Vec::new();
    assert(texts(out@) =~= seq![]);
    out.push("[osi-selftest] routing through osi -> osi_cosi -> cosi ...".to_owned());
    out.push(write_osi_current(current));
    let mut line = "[osi-selftest] osi.get_processes -> ".to_owned();
    line.append(decimal(procs.len() as u64).as_str());
    line.append(" procs:");
    out.push(line);
    let ghost head = texts(out@);
    let mut i: usize = 0;
    while i < procs.len() && i < 10
        invariant
            i <= procs.len(),
            i <= 10,
            head.len() == 3,
            texts(out@).len() == 3 + i,
            forall|j: int| 0 <= j < 3 ==> #[trigger] texts(out@)[j] == head[j],
            forall|j: int|
                3 <= j < 3 + i ==> #[trigger] texts(out@)[j] == osi_process_line(procs@[j - 3]),
        decreases procs.len() - i,
    {
        let line = write_osi_process(&procs[i]);
        let ghost before = out@;
        proof {
            texts_push(before, line);
        }
        out.push(line);
        i += 1;
    }
    assert(texts(out@) =~= osi_report(current, procs@));
    out
}

// ---- what holds of the tracer -----------------------------------------------------------------

/// Neither count ever exceeds its limit.
pub proof fn counts_are_bounded(
    tracer: Tracer,
    ready: bool,
    info: Option<&SyscallInfo>,
    cached: u64,
    g: GuestView,
    p: &VolatilityJson,
)
    requires
        tracer.traced <= MAX_TRACE,
        tracer.switches <= MAX_SWITCHES,
    ensures
        after_call(tracer, traced_line(tracer, ready, info, cached, g, p)).traced <= MAX_TRACE,
        after_switch(tracer, scheduled(tracer, ready, g, p)).switches <= MAX_SWITCHES,
{
}

/// What can happen to a tracer: a syscall, or a change of address space.
pub enum TracerEvent {
    Call { ready: bool, info: Option<SyscallInfo>, cached: u64, guest: GuestView },
    Switch { ready: bool, guest: GuestView },
}

/// The tracer after an event.
pub open spec fn after_event(tracer: Tracer, p: &VolatilityJson, e: TracerEvent) -> Tracer {
    match e {
        TracerEvent::Call { ready, info, cached, guest } => after_call(
            tracer,
            traced_line(tracer, ready, as_reference(info), cached, guest, p),
        ),
        TracerEvent::Switch { ready, guest } => after_switch(
            tracer,
            scheduled(tracer, ready, guest, p),
        ),
    }
}

pub open spec fn as_reference(info: Option<SyscallInfo>) -> Option<&'static SyscallInfo> {
    match info {
        Some(info) => Some(&info),
        None => None,
    }
}

/// How many lines of the trace (0 or 1) an event writes.
pub open spec fn trace_lines_of(tracer: Tracer, p: &VolatilityJson, e: TracerEvent) -> nat {
    match e {
        TracerEvent::Call { ready, info, cached, guest } => match traced_line(
            tracer,
            ready,
            as_reference(info),
            cached,
            guest,
            p,
        ) {
            Ok(Some(_)) => 1,
            _ => 0,
        },
        TracerEvent::Switch { .. } => 0,
    }
}

/// How many lines on process switches (0 or 1) an event writes.
pub open spec fn switch_lines_of(tracer: Tracer, p: &VolatilityJson, e: TracerEvent) -> nat {
    match e {
        TracerEvent::Call { .. } => 0,
        TracerEvent::Switch { ready, guest } => match switch_line(
            tracer,
            scheduled(tracer, ready, guest, p),
        ) {
            Ok(Some(_)) => 1,
            _ => 0,
        },
    }
}

/// How many lines of each sort a sequence of events writes.
pub open spec fn lines_written(tracer: Tracer, p: &VolatilityJson, events: Seq<TracerEvent>) -> (
    nat,
    nat,
)
    decreases events.len(),
{
    if events.len() == 0 {
        (0, 0)
    } else {
        let (calls, switches) = lines_written(
            after_event(tracer, p, events[0]),
            p,
            events.skip(1),
        );
        (
            trace_lines_of(tracer, p, events[0]) + calls,
            switch_lines_of(tracer, p, events[0]) + switches,
        )
    }
}

/// Whatever happens, and for however long, no more lines of a sort are written than its limit has
/// left.
pub proof fn output_is_bounded(tracer: Tracer, p: &VolatilityJson, events: Seq<TracerEvent>)
    requires
        tracer.traced <= MAX_TRACE,
        tracer.switches <= MAX_SWITCHES,
    ensures
        tracer.traced + lines_written(tracer, p, events).0 <= MAX_TRACE,
        tracer.switches + lines_written(tracer, p, events).1 <= MAX_SWITCHES,
    decreases events.len(),
{
    if events.len() > 0 {
        let next = after_event(tracer, p, events[0]);
        assert(next.traced == tracer.traced + trace_lines_of(tracer, p, events[0]));
        assert(next.switches == tracer.switches + switch_lines_of(tracer, p, events[0]));
        output_is_bounded(next, p, events.skip(1));
    }
}

/// Before the tracer is ready, and once a limit is reached, nothing is read and nothing is written.
pub proof fn idle_tracer_is_silent(
    tracer: Tracer,
    ready: bool,
    info: Option<&SyscallInfo>,
    cached: u64,
    g: GuestView,
    p: &VolatilityJson,
)
    ensures
        !ready || tracer.traced >= MAX_TRACE ==> traced_line(tracer, ready, info, cached, g, p)
            == Ok::<Option<Seq<char>>, Request>(None),
        !ready || tracer.switches >= MAX_SWITCHES ==> switch_line(
            tracer,
            scheduled(tracer, ready, g, p),
        ) == Ok::<Option<Seq<char>>, Request>(None),
{
}

/// A process that is scheduled again right after itself is not logged again, and a process with
/// id 0 never is.
pub proof fn switches_are_logged_once(
    tracer: Tracer,
    pid: u64,
    first: (u64, Seq<char>),
    again: (u64, Seq<char>),
)
    ensures
        switch_line(
            after_switch(tracer, Ok(Some((first.0, pid, first.1)))),
            Ok(Some((again.0, pid, again.1))),
        ) == Ok::<Option<Seq<char>>, Request>(None),
{
}

proof fn lemma_one_arg_steady(
    g: GuestView,
    h: GuestView,
    p: &VolatilityJson,
    base: u64,
    dtb: u64,
    eprocess: u64,
    info: &SyscallInfo,
    i: u64,
)
    requires
        g.extended_by(h),
    ensures
        steady(
            g,
            h,
            one_arg(g, p, base, dtb, eprocess, info, i),
            one_arg(h, p, base, dtb, eprocess, info, i),
        ),
{
    object_of_handle_steady(g, h, p, base, dtb, eprocess, g.regs.gpr@[arg_register(i)]);
}

proof fn lemma_args_steady(
    g: GuestView,
    h: GuestView,
    p: &VolatilityJson,
    base: u64,
    dtb: u64,
    eprocess: u64,
    info: &SyscallInfo,
    i: u64,
)
    requires
        g.extended_by(h),
    ensures
        steady(
            g,
            h,
            args_from(g, p, base, dtb, eprocess, info, i),
            args_from(h, p, base, dtb, eprocess, info, i),
        ),
    decreases 4 - i,
{
    if i < 4 && i < info.nargs {
        lemma_one_arg_steady(g, h, p, base, dtb, eprocess, info, i);
        lemma_args_steady(g, h, p, base, dtb, eprocess, info, (i + 1) as u64);
    }
}

proof fn lemma_call_line_steady(
    g: GuestView,
    h: GuestView,
    p: &VolatilityJson,
    base: u64,
    info: &SyscallInfo,
)
    requires
        g.extended_by(h),
    ensures
        steady(g, h, call_line(g, p, base, info), call_line(h, p, base, info)),
{
    running_process_and_tables_steady(g, h, p);
    if let Ok(Some((eprocess, dtb))) = running_process_and_tables(g, p) {
        pid_and_name_steady(g, h, p, eprocess);
        lemma_args_steady(g, h, p, base, dtb, eprocess, info, 0);
    }
}

/// A line of the trace is steady over a growing record.
pub proof fn traced_line_steady(
    tracer: Tracer,
    ready: bool,
    info: Option<&SyscallInfo>,
    cached: u64,
    g: GuestView,
    h: GuestView,
    p: &VolatilityJson,
)
    requires
        g.extended_by(h),
    ensures
        steady(
            g,
            h,
            traced_line(tracer, ready, info, cached, g, p),
            traced_line(tracer, ready, info, cached, h, p),
        ),
{
    known_base_steady(cached, g, h, p);
    if let Some(call) = info {
        if let Ok(base) = known_base(cached, g, p) {
            lemma_call_line_steady(g, h, p, base, call);
        }
    }
}

/// So is what is scheduled.
pub proof fn scheduled_steady(
    tracer: Tracer,
    ready: bool,
    g: GuestView,
    h: GuestView,
    p: &VolatilityJson,
)
    requires
        g.extended_by(h),
    ensures
        steady(g, h, scheduled(tracer, ready, g, p), scheduled(tracer, ready, h, p)),
{
    running_process_steady(g, h, p);
    if let Ok(Some(eprocess)) = running_process(g, p) {
        pid_and_name_steady(g, h, p, eprocess);
    }
}

} // verus!
