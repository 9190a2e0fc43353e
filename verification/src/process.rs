//! One process at a time, and the lists for a kernel base that is looked up on the way.

use crate::guest::{steady, Guest, GuestView, Request};
use crate::handles::{get_handle_list, handles_of, handles_of_steady, WinHandle};
use crate::kernel::{
    current_eprocess, kernel_base, known_base, known_base_steady, running_process,
    running_process_steady,
};
use crate::lists::{
    dlls_of, get_module_list, get_process_list, get_thread_list, items_are_of_nodes, items_from,
    kernel_modules, kernel_modules_steady, link, list_outcome, process_item, process_list,
    process_list_steady, threads_of, user_half, user_half_of, user_half_steady, views, WinMod,
    WinModView, WinProc, WinProcView, WinThread, MAX_PROCESSES,
};
use crate::profile::{foff, foff_or, VolatilityJson};
use crate::reads::{
    c_string, group_reads_steady, rd_cstr, rd_u64_or_zero, rd_unicode_string, u64_or_zero,
    unicode_string, Space,
};
use vstd::prelude::*;

verus! {

// ---- process parameters -----------------------------------------------------------------------

#[derive(Clone, Debug)]
pub struct WinProcParams {
    pub cwd: String,
    pub image_path: String,
    pub cmdline: String,
}

pub struct WinProcParamsView {
    pub cwd: Seq<char>,
    pub image_path: Seq<char>,
    pub cmdline: Seq<char>,
}

impl View for WinProcParams {
    type V = WinProcParamsView;

    open spec fn view(&self) -> WinProcParamsView {
        WinProcParamsView {
            cwd: self.cwd@,
            image_path: self.image_path@,
            cmdline: self.cmdline@,
        }
    }
}

pub open spec fn no_params() -> WinProcParamsView {
    WinProcParamsView { cwd: seq![], image_path: seq![], cmdline: seq![] }
}

impl Default for WinProcParams {
    fn default() -> (r: WinProcParams)
        ensures
            r@ == no_params(),
    {
        WinProcParams { cwd: String::new(), image_path: String::new(), cmdline: String::new() }
    }
}

/// The current directory, full image path and command line that PEB.ProcessParameters holds,
/// read through the process's own page tables. All empty where there are none.
pub open spec fn params_of(g: GuestView, p: &VolatilityJson, eprocess: u64) -> Result<
    WinProcParamsView,
    Request,
> {
    let ty = "_RTL_USER_PROCESS_PARAMETERS"@;
    match user_half(g, p, eprocess) {
        Err(q) => Err(q),
        Ok(None) => Ok(no_params()),
        Ok(Some((dtb, peb))) => match u64_or_zero(
            g,
            Space::Tables(dtb),
            peb.wrapping_add(p.offset_or("_PEB"@, "ProcessParameters"@, 0x20)),
        ) {
            Err(q) => Err(q),
            Ok(pp) => if pp == 0 {
                Ok(no_params())
            } else {
                match unicode_string(
                    g,
                    Space::Tables(dtb),
                    pp.wrapping_add(p.offset_or(ty, "CurrentDirectory"@, 0x38)).wrapping_add(
                        p.offset_or("_CURDIR"@, "DosPath"@, 0),
                    ),
                ) {
                    Err(q) => Err(q),
                    Ok(cwd) => match unicode_string(
                        g,
                        Space::Tables(dtb),
                        pp.wrapping_add(p.offset_or(ty, "ImagePathName"@, 0x60)),
                    ) {
                        Err(q) => Err(q),
                        Ok(image_path) => match unicode_string(
                            g,
                            Space::Tables(dtb),
                            pp.wrapping_add(p.offset_or(ty, "CommandLine"@, 0x70)),
                        ) {
                            Err(q) => Err(q),
                            Ok(cmdline) => Ok(WinProcParamsView { cwd, image_path, cmdline }),
                        },
                    },
                }
            },
        },
    }
}

pub open spec fn params_outcome(r: Result<WinProcParams, Request>) -> Result<
    WinProcParamsView,
    Request,
> {
    match r {
        Err(q) => Err(q),
        Ok(v) => Ok(v@),
    }
}

/// Process parameters (current directory, full image path, command line).
pub fn proc_params(g: &Guest, p: &VolatilityJson, eprocess: u64) -> (r: Result<
    WinProcParams,
    Request,
>)
    ensures
        params_outcome(r) == params_of(g@, p, eprocess),
{
    let (dtb, peb) = match user_half_of(g, p, eprocess)? {
        Some(found) => found,
        None => return Ok(WinProcParams::default()),
    };
    let space = Space::Tables(dtb);
    let pp_off = foff_or(p, "_PEB", "ProcessParameters", 0x20);
    let pp = rd_u64_or_zero(g, space, peb.wrapping_add(pp_off))?;
    if pp == 0 {
        return Ok(WinProcParams::default());
    }
    let ty = "_RTL_USER_PROCESS_PARAMETERS";
    let dir_off = foff_or(p, ty, "CurrentDirectory", 0x38);
    let dos_off = foff_or(p, "_CURDIR", "DosPath", 0);
    let img_off = foff_or(p, ty, "ImagePathName", 0x60);
    let cmd_off = foff_or(p, ty, "CommandLine", 0x70);
    let cwd = rd_unicode_string(g, space, pp.wrapping_add(dir_off).wrapping_add(dos_off))?;
    let image_path = rd_unicode_string(g, space, pp.wrapping_add(img_off))?;
    let cmdline = rd_unicode_string(g, space, pp.wrapping_add(cmd_off))?;
    Ok(WinProcParams { cwd, image_path, cmdline })
}

// ---- identity ---------------------------------------------------------------------------------

/// A field of a process as a word: 0 where the profile does not know it or it cannot be read.
pub open spec fn process_word(
    g: GuestView,
    p: &VolatilityJson,
    eprocess: u64,
    field: Seq<char>,
) -> Result<u64, Request> {
    match p.offset("_EPROCESS"@, field) {
        None => Ok(0),
        Some(off) => u64_or_zero(g, Space::Current, eprocess.wrapping_add(off)),
    }
}

/// The process id and image name of a process.
pub open spec fn pid_and_name(g: GuestView, p: &VolatilityJson, eprocess: u64) -> Result<
    (u64, Seq<char>),
    Request,
> {
    match process_word(g, p, eprocess, "UniqueProcessId"@) {
        Err(q) => Err(q),
        Ok(pid) => match p.offset("_EPROCESS"@, "ImageFileName"@) {
            None => Ok((pid, seq![])),
            Some(off) => match c_string(g, eprocess.wrapping_add(off), 15) {
                Err(q) => Err(q),
                Ok(name) => Ok((pid, name)),
            },
        },
    }
}

/// Process id, parent's id and name of the process at `eprocess`.
pub open spec fn process_at(g: GuestView, p: &VolatilityJson, eprocess: u64) -> Result<
    WinProcView,
    Request,
> {
    match pid_and_name(g, p, eprocess) {
        Err(q) => Err(q),
        Ok((pid, name)) => match process_word(g, p, eprocess, "InheritedFromUniqueProcessId"@) {
            Err(q) => Err(q),
            Ok(ppid) => Ok(WinProcView { eprocess, pid, ppid, name }),
        },
    }
}

/// The process that runs.
pub open spec fn process_now(g: GuestView, p: &VolatilityJson) -> Result<
    Option<WinProcView>,
    Request,
> {
    match running_process(g, p) {
        Err(q) => Err(q),
        Ok(None) => Ok(None),
        Ok(Some(eprocess)) => match process_at(g, p, eprocess) {
            Err(q) => Err(q),
            Ok(found) => Ok(Some(found)),
        },
    }
}

pub open spec fn pid_outcome(r: Result<(u64, String), Request>) -> Result<
    (u64, Seq<char>),
    Request,
> {
    match r {
        Err(q) => Err(q),
        Ok((pid, name)) => Ok((pid, name@)),
    }
}

pub open spec fn process_outcome(r: Result<WinProc, Request>) -> Result<WinProcView, Request> {
    match r {
        Err(q) => Err(q),
        Ok(v) => Ok(v@),
    }
}

pub open spec fn optional_process_outcome(r: Result<Option<WinProc>, Request>) -> Result<
    Option<WinProcView>,
    Request,
> {
    match r {
        Err(q) => Err(q),
        Ok(None) => Ok(None),
        Ok(Some(v)) => Ok(Some(v@)),
    }
}

fn read_process_word(g: &Guest, p: &VolatilityJson, eprocess: u64, field: &str) -> (r: Result<
    u64,
    Request,
>)
    ensures
        r == process_word(g@, p, eprocess, field@),
{
    match foff(p, "_EPROCESS", field) {
        Some(off) => rd_u64_or_zero(g, Space::Current, eprocess.wrapping_add(off)),
        None => Ok(0),
    }
}

/// The id and ImageFileName of a process.
pub fn proc_pid_name(g: &Guest, p: &VolatilityJson, eprocess: u64) -> (r: Result<
    (u64, String),
    Request,
>)
    ensures
        pid_outcome(r) == pid_and_name(g@, p, eprocess),
{
    let pid = read_process_word(g, p, eprocess, "UniqueProcessId")?;
    let name = match foff(p, "_EPROCESS", "ImageFileName") {
        Some(off) => rd_cstr(g, eprocess.wrapping_add(off), 15)?,
        None => String::new(),
    };
    Ok((pid, name))
}

/// The process at an `_EPROCESS` address.
pub fn proc_at(g: &Guest, p: &VolatilityJson, eprocess: u64) -> (r: Result<WinProc, Request>)
    ensures
        process_outcome(r) == process_at(g@, p, eprocess),
{
    let (pid, name) = proc_pid_name(g, p, eprocess)?;
    let ppid = read_process_word(g, p, eprocess, "InheritedFromUniqueProcessId")?;
    Ok(WinProc { eprocess, pid, ppid, name })
}

/// The current process, or `None`.
pub fn current_proc(g: &Guest, p: &VolatilityJson) -> (r: Result<Option<WinProc>, Request>)
    ensures
        optional_process_outcome(r) == process_now(g@, p),
{
    match current_eprocess(g, p)? {
        Some(eprocess) => Ok(Some(proc_at(g, p, eprocess)?)),
        None => Ok(None),
    }
}

// ---- lists for a base that is looked up -------------------------------------------------------

/// What `query` says of the known base; an empty list while no base is known.
pub open spec fn with_base<T>(
    cached: u64,
    g: GuestView,
    p: &VolatilityJson,
    query: spec_fn(u64) -> Result<Seq<T>, Request>,
) -> Result<Seq<T>, Request> {
    match known_base(cached, g, p) {
        Err(q) => Err(q),
        Ok(base) => if base == 0 {
            Ok(seq![])
        } else {
            query(base)
        },
    }
}

/// The base that the cache holds after a query.
pub open spec fn cache_after(cached: u64, g: GuestView, p: &VolatilityJson) -> u64 {
    match known_base(cached, g, p) {
        Ok(base) => base,
        Err(_) => cached,
    }
}

/// The full list of active processes; empty while the base is unknown.
pub fn proc_list(cache: &mut u64, g: &Guest, p: &VolatilityJson) -> (r: Result<
    Vec<WinProc>,
    Request,
>)
    ensures
        list_outcome(r) == with_base(
            *old(cache),
            g@,
            p,
            |base: u64| process_list(g@, p, base),
        ),
        *final(cache) == cache_after(*old(cache), g@, p),
{
    let base = kernel_base(cache, g, p)?;
    if base == 0 {
        let none: Vec<WinProc> = Vec::new();
        assert(views(none@) =~= seq![]);
        return Ok(none);
    }
    get_process_list(g, p, base)
}

/// The list of loaded kernel modules; empty while the base is unknown.
pub fn module_list(cache: &mut u64, g: &Guest, p: &VolatilityJson) -> (r: Result<
    Vec<WinMod>,
    Request,
>)
    ensures
        list_outcome(r) == with_base(
            *old(cache),
            g@,
            p,
            |base: u64| kernel_modules(g@, p, base),
        ),
        *final(cache) == cache_after(*old(cache), g@, p),
{
    let base = kernel_base(cache, g, p)?;
    if base == 0 {
        let none: Vec<WinMod> = Vec::new();
        assert(views(none@) =~= seq![]);
        return Ok(none);
    }
    get_module_list(g, p, base)
}

/// The threads of a process.
pub fn thread_list(g: &Guest, p: &VolatilityJson, eprocess: u64) -> (r: Result<
    Vec<WinThread>,
    Request,
>)
    ensures
        list_outcome(r) == threads_of(g@, p, eprocess),
{
    get_thread_list(g, p, eprocess)
}

/// The open handles of a process, resolved to object type and name; empty while the base is
/// unknown.
pub fn handle_list(cache: &mut u64, g: &Guest, p: &VolatilityJson, eprocess: u64) -> (r: Result<
    Vec<WinHandle>,
    Request,
>)
    ensures
        list_outcome(r) == with_base(
            *old(cache),
            g@,
            p,
            |base: u64| handles_of(g@, p, base, eprocess),
        ),
        *final(cache) == cache_after(*old(cache), g@, p),
{
    let base = kernel_base(cache, g, p)?;
    if base == 0 {
        let none: Vec<WinHandle> = Vec::new();
        assert(views(none@) =~= seq![]);
        return Ok(none);
    }
    get_handle_list(g, p, base, eprocess)
}

// ---- what holds of these queries --------------------------------------------------------------

/// Reading one process by its address gives what the list of processes says of it, wherever the
/// profile knows the fields.
pub proof fn listed_processes_are_read_alike(
    g: GuestView,
    p: &VolatilityJson,
    base: u64,
    i: int,
)
    requires
        p.offset("_EPROCESS"@, "UniqueProcessId"@) is Some,
        p.offset("_EPROCESS"@, "InheritedFromUniqueProcessId"@) is Some,
        p.offset("_EPROCESS"@, "ImageFileName"@) is Some,
    ensures
        process_list(g, p, base) matches Ok(all) ==> 0 <= i < all.len() ==> process_at(
            g,
            p,
            all[i].eprocess,
        ) == Ok::<WinProcView, Request>(all[i]),
{
    let rva = p.rva("PsActiveProcessHead"@);
    let links = p.offset("_EPROCESS"@, "ActiveProcessLinks"@);
    if rva is Some && links is Some {
        let head = base.wrapping_add(rva.unwrap());
        let next = link(g, Space::Current);
        let item = process_item(g, p, links.unwrap());
        if let Ok(Some(first)) = next(head) {
            items_are_of_nodes(next, item, head, first, MAX_PROCESSES as nat, i);
            if let Ok(all) = items_from(next, item, head, first, MAX_PROCESSES as nat) {
                if 0 <= i < all.len() {
                    let node = choose|node: u64|
                        #[trigger] item(node) == Ok::<WinProcView, Request>(all[i]);
                    assert(item(node) is Ok);
                }
            }
        }
    }
}

/// A process without a user half (System and other kernel processes) has no modules and no
/// parameters.
pub proof fn no_user_half_nothing_in_it(g: GuestView, p: &VolatilityJson, eprocess: u64)
    requires
        user_half(g, p, eprocess) == Ok::<Option<(u64, u64)>, Request>(None),
    ensures
        dlls_of(g, p, eprocess) == Ok::<Seq<WinModView>, Request>(seq![]),
        params_of(g, p, eprocess) == Ok::<WinProcParamsView, Request>(no_params()),
{
}

/// Before the kernel base is known, every list of the kernel's is empty.
pub proof fn no_base_no_list<T>(
    g: GuestView,
    p: &VolatilityJson,
    query: spec_fn(u64) -> Result<Seq<T>, Request>,
)
    requires
        known_base(0, g, p) == Ok::<u64, Request>(0),
    ensures
        with_base(0, g, p, query) == Ok::<Seq<T>, Request>(seq![]),
        cache_after(0, g, p) == 0,
{
}

/// Once a base has been found it is kept: the cache never changes again.
pub proof fn found_base_is_kept(cached: u64, g: GuestView, h: GuestView, p: &VolatilityJson)
    requires
        cache_after(cached, g, p) != 0,
    ensures
        cache_after(cache_after(cached, g, p), h, p) == cache_after(cached, g, p),
{
}

/// The parameters of a process are steady over a growing record.
pub broadcast proof fn params_of_steady(
    g: GuestView,
    h: GuestView,
    p: &VolatilityJson,
    eprocess: u64,
)
    requires
        #[trigger] g.extended_by(h),
    ensures
        steady(g, h, #[trigger] params_of(g, p, eprocess), params_of(h, p, eprocess)),
{
    broadcast use {group_reads_steady, user_half_steady};

}

/// So are its id and name.
pub broadcast proof fn pid_and_name_steady(
    g: GuestView,
    h: GuestView,
    p: &VolatilityJson,
    eprocess: u64,
)
    requires
        #[trigger] g.extended_by(h),
    ensures
        steady(g, h, #[trigger] pid_and_name(g, p, eprocess), pid_and_name(h, p, eprocess)),
{
    broadcast use group_reads_steady;

}

/// And what is known of the process that runs.
pub broadcast proof fn process_now_steady(g: GuestView, h: GuestView, p: &VolatilityJson)
    requires
        #[trigger] g.extended_by(h),
    ensures
        steady(g, h, #[trigger] process_now(g, p), process_now(h, p)),
{
    broadcast use {group_reads_steady, running_process_steady, pid_and_name_steady};

}

/// And what is known of the process at an address.
pub broadcast proof fn process_at_steady(
    g: GuestView,
    h: GuestView,
    p: &VolatilityJson,
    eprocess: u64,
)
    requires
        #[trigger] g.extended_by(h),
    ensures
        steady(g, h, #[trigger] process_at(g, p, eprocess), process_at(h, p, eprocess)),
{
    broadcast use {group_reads_steady, pid_and_name_steady};

}

/// A list for a base that is looked up is steady over a growing record if it is for every base.
pub proof fn with_base_steady<T>(
    cached: u64,
    g: GuestView,
    h: GuestView,
    p: &VolatilityJson,
    query_g: spec_fn(u64) -> Result<Seq<T>, Request>,
    query_h: spec_fn(u64) -> Result<Seq<T>, Request>,
)
    requires
        g.extended_by(h),
        forall|base: u64| steady(g, h, #[trigger] query_g(base), query_h(base)),
    ensures
        steady(g, h, with_base(cached, g, p, query_g), with_base(cached, h, p, query_h)),
{
    known_base_steady(cached, g, h, p);
    if let Ok(base) = known_base(cached, g, p) {
        assert(steady(g, h, query_g(base), query_h(base)));
    }
}

/// So the lists of processes, kernel modules and handles are.
pub proof fn lists_with_base_steady(
    cached: u64,
    g: GuestView,
    h: GuestView,
    p: &VolatilityJson,
    eprocess: u64,
)
    requires
        g.extended_by(h),
    ensures
        steady(
            g,
            h,
            with_base(cached, g, p, |base: u64| process_list(g, p, base)),
            with_base(cached, h, p, |base: u64| process_list(h, p, base)),
        ),
        steady(
            g,
            h,
            with_base(cached, g, p, |base: u64| kernel_modules(g, p, base)),
            with_base(cached, h, p, |base: u64| kernel_modules(h, p, base)),
        ),
        steady(
            g,
            h,
            with_base(cached, g, p, |base: u64| handles_of(g, p, base, eprocess)),
            with_base(cached, h, p, |base: u64| handles_of(h, p, base, eprocess)),
        ),
{
    broadcast use {process_list_steady, kernel_modules_steady, handles_of_steady};

    with_base_steady(
        cached,
        g,
        h,
        p,
        |base: u64| process_list(g, p, base),
        |base: u64| process_list(h, p, base),
    );
    with_base_steady(
        cached,
        g,
        h,
        p,
        |base: u64| kernel_modules(g, p, base),
        |base: u64| kernel_modules(h, p, base),
    );
    with_base_steady(
        cached,
        g,
        h,
        p,
        |base: u64| handles_of(g, p, base, eprocess),
        |base: u64| handles_of(h, p, base, eprocess),
    );
}

} // verus!
