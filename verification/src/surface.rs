//! The flat interface behind the C entry points: enumerations are lists that callers walk by
//! index, an enumeration that found nothing is `None`, and texts are handed out as far as a C
//! string can hold them.

use crate::guest::{steady, Guest, GuestView, Request};
use crate::handles::{
    file_handle_pos, file_position, file_position_steady, handles_of, WinHandle,
};
use crate::kernel::{
    current_eprocess, current_tid, kernel_base, known_base, known_base_steady, running_process,
    running_tid,
};
use crate::lists::{
    dlls_of, kernel_modules, list_outcome, proc_dlls, process_list, views, WinMod, WinProc,
};
use crate::process::{
    cache_after, current_proc, handle_list, module_list, optional_process_outcome, params_of,
    params_outcome, proc_at, proc_list, proc_params, process_at, process_now, process_outcome,
    with_base, WinProcParams,
};
use crate::profile::VolatilityJson;
use crate::text::chars_of;
use vstd::prelude::*;

verus! {

// ---- what the entry points hand out -----------------------------------------------------------

/// A list that found nothing is `None`.
pub open spec fn unless_empty<T>(r: Result<Seq<T>, Request>) -> Result<Option<Seq<T>>, Request> {
    match r {
        Err(q) => Err(q),
        Ok(v) => if v.len() == 0 {
            Ok(None)
        } else {
            Ok(Some(v))
        },
    }
}

pub open spec fn optional_list_outcome<T: View>(r: Result<Option<Vec<T>>, Request>) -> Result<
    Option<Seq<T::V>>,
    Request,
> {
    match r {
        Err(q) => Err(q),
        Ok(None) => Ok(None),
        Ok(Some(v)) => Ok(Some(views(v@))),
    }
}

/// The value, or a stand-in where there is none.
pub open spec fn value_or<T>(r: Result<Option<T>, Request>, otherwise: T) -> Result<T, Request> {
    match r {
        Err(q) => Err(q),
        Ok(None) => Ok(otherwise),
        Ok(Some(v)) => Ok(v),
    }
}

/// The text as a C string can hold it: `None` where it contains NUL.
pub open spec fn c_text(s: Seq<char>) -> Option<Seq<char>> {
    if s.contains('\0') {
        None
    } else {
        Some(s)
    }
}

pub open spec fn c_text_outcome(r: Option<String>) -> Option<Seq<char>> {
    match r {
        Some(s) => Some(s@),
        None => None,
    }
}

fn none_if_empty<T: View>(r: Result<Vec<T>, Request>) -> (s: Result<Option<Vec<T>>, Request>)
    ensures
        optional_list_outcome(s) == unless_empty(list_outcome(r)),
{
    match r {
        Err(q) => Err(q),
        Ok(v) => if v.len() == 0 {
            Ok(None)
        } else {
            Ok(Some(v))
        },
    }
}

/// A copy of the text for a C caller, unless it contains NUL.
pub fn to_cstr(s: &str) -> (r: Option<String>)
    ensures
        c_text_outcome(r) == c_text(s@),
{
    let chars = chars_of(s);
    let mut i: usize = 0;
    while i < chars.len()
        invariant
            i <= chars.len(),
            chars@ == s@,
            forall|j: int| 0 <= j < i ==> s@[j] != '\0',
        decreases chars.len() - i,
    {
        if chars[i] == '\0' {
            assert(s@[i as int] == '\0');
            return None;
        }
        i += 1;
    }
    Some(s.to_owned())
}

// ---- single values ----------------------------------------------------------------------------

/// The ntoskrnl base, or 0 if undetermined.
pub fn cosi_win_kernel_base(cache: &mut u64, g: &Guest, p: &VolatilityJson) -> (r: Result<
    u64,
    Request,
>)
    ensures
        r == known_base(*old(cache), g@, p),
        *final(cache) == cache_after(*old(cache), g@, p),
{
    kernel_base(cache, g, p)
}

/// The address of the current `_EPROCESS`, or 0.
pub fn cosi_win_current_eprocess(g: &Guest, p: &VolatilityJson) -> (r: Result<u64, Request>)
    ensures
        r == value_or(running_process(g@, p), 0),
{
    match current_eprocess(g, p)? {
        Some(v) => Ok(v),
        None => Ok(0),
    }
}

/// The current process, or `None`.
pub fn cosi_win_current_proc(g: &Guest, p: &VolatilityJson) -> (r: Result<Option<WinProc>, Request>)
    ensures
        optional_process_outcome(r) == process_now(g@, p),
{
    current_proc(g, p)
}

/// The current thread id, or 0.
pub fn cosi_win_current_tid(g: &Guest, p: &VolatilityJson) -> (r: Result<u64, Request>)
    ensures
        r == value_or(running_tid(g@, p), 0),
{
    match current_tid(g, p)? {
        Some(v) => Ok(v),
        None => Ok(0),
    }
}

/// The process at an `_EPROCESS` address.
pub fn cosi_win_proc_at(g: &Guest, p: &VolatilityJson, eprocess: u64) -> (r: Result<
    WinProc,
    Request,
>)
    ensures
        process_outcome(r) == process_at(g@, p, eprocess),
{
    proc_at(g, p, eprocess)
}

/// The position of a file handle, or -1.
pub open spec fn position_or_none(
    cached: u64,
    g: GuestView,
    p: &VolatilityJson,
    eprocess: u64,
    handle: u64,
) -> Result<i64, Request> {
    match known_base(cached, g, p) {
        Err(q) => Err(q),
        Ok(base) => value_or(file_position(g, p, base, eprocess, handle), -1i64),
    }
}

/// The position of a file handle; -1 if it is not a file's or is invalid.
pub fn cosi_win_file_handle_pos(
    cache: &mut u64,
    g: &Guest,
    p: &VolatilityJson,
    eprocess: u64,
    handle: u64,
) -> (r: Result<i64, Request>)
    ensures
        r == position_or_none(*old(cache), g@, p, eprocess, handle),
        *final(cache) == cache_after(*old(cache), g@, p),
{
    let base = kernel_base(cache, g, p)?;
    match file_handle_pos(g, p, base, eprocess, handle)? {
        Some(pos) => Ok(pos),
        None => Ok(-1),
    }
}

// ---- processes --------------------------------------------------------------------------------

/// The list of active processes; `None` if it could not be walked.
pub fn cosi_win_get_proc_list(cache: &mut u64, g: &Guest, p: &VolatilityJson) -> (r: Result<
    Option<Vec<WinProc>>,
    Request,
>)
    ensures
        optional_list_outcome(r) == unless_empty(
            with_base(*old(cache), g@, p, |base: u64| process_list(g@, p, base)),
        ),
        *final(cache) == cache_after(*old(cache), g@, p),
{
    none_if_empty(proc_list(cache, g, p))
}

pub fn cosi_win_proc_list_len(list: &Vec<WinProc>) -> (r: usize)
    ensures
        r == list@.len(),
{
    list.len()
}

pub fn cosi_win_proc_list_get(list: &Vec<WinProc>, index: usize) -> (r: Option<&WinProc>)
    ensures
        r == if index < list@.len() {
            Some(&list@[index as int])
        } else {
            None
        },
{
    if index < list.len() {
        Some(&list[index])
    } else {
        None
    }
}

pub fn cosi_win_proc_pid(proc_: &WinProc) -> (r: u64)
    ensures
        r == proc_.pid,
{
    proc_.pid
}

pub fn cosi_win_proc_ppid(proc_: &WinProc) -> (r: u64)
    ensures
        r == proc_.ppid,
{
    proc_.ppid
}

pub fn cosi_win_proc_eprocess(proc_: &WinProc) -> (r: u64)
    ensures
        r == proc_.eprocess,
{
    proc_.eprocess
}

/// The process image name (ImageFileName).
pub fn cosi_win_proc_name(proc_: &WinProc) -> (r: Option<String>)
    ensures
        c_text_outcome(r) == c_text(proc_.name@),
{
    to_cstr(proc_.name.as_str())
}

// ---- modules ----------------------------------------------------------------------------------

/// The list of loaded kernel modules; `None` if it could not be walked.
pub fn cosi_win_get_module_list(cache: &mut u64, g: &Guest, p: &VolatilityJson) -> (r: Result<
    Option<Vec<WinMod>>,
    Request,
>)
    ensures
        optional_list_outcome(r) == unless_empty(
            with_base(*old(cache), g@, p, |base: u64| kernel_modules(g@, p, base)),
        ),
        *final(cache) == cache_after(*old(cache), g@, p),
{
    none_if_empty(module_list(cache, g, p))
}

/// The loaded user-mode modules of a process; `None` if there are none.
pub fn cosi_win_get_dll_list(g: &Guest, p: &VolatilityJson, eprocess: u64) -> (r: Result<
    Option<Vec<WinMod>>,
    Request,
>)
    ensures
        optional_list_outcome(r) == unless_empty(dlls_of(g@, p, eprocess)),
{
    none_if_empty(proc_dlls(g, p, eprocess))
}

pub fn cosi_win_module_list_len(list: &Vec<WinMod>) -> (r: usize)
    ensures
        r == list@.len(),
{
    list.len()
}

pub fn cosi_win_module_list_get(list: &Vec<WinMod>, index: usize) -> (r: Option<&WinMod>)
    ensures
        r == if index < list@.len() {
            Some(&list@[index as int])
        } else {
            None
        },
{
    if index < list.len() {
        Some(&list[index])
    } else {
        None
    }
}

pub fn cosi_win_module_base(m: &WinMod) -> (r: u64)
    ensures
        r == m.base,
{
    m.base
}

pub fn cosi_win_module_size(m: &WinMod) -> (r: u32)
    ensures
        r == m.size,
{
    m.size
}

/// The module's base name.
pub fn cosi_win_module_name(m: &WinMod) -> (r: Option<String>)
    ensures
        c_text_outcome(r) == c_text(m.name@),
{
    to_cstr(m.name.as_str())
}

// ---- process parameters -----------------------------------------------------------------------

/// A process's current directory, image path and command line.
pub fn cosi_win_get_proc_params(g: &Guest, p: &VolatilityJson, eprocess: u64) -> (r: Result<
    WinProcParams,
    Request,
>)
    ensures
        params_outcome(r) == params_of(g@, p, eprocess),
{
    proc_params(g, p, eprocess)
}

pub fn cosi_win_params_cwd(p: &WinProcParams) -> (r: Option<String>)
    ensures
        c_text_outcome(r) == c_text(p.cwd@),
{
    to_cstr(p.cwd.as_str())
}

pub fn cosi_win_params_image_path(p: &WinProcParams) -> (r: Option<String>)
    ensures
        c_text_outcome(r) == c_text(p.image_path@),
{
    to_cstr(p.image_path.as_str())
}

pub fn cosi_win_params_cmdline(p: &WinProcParams) -> (r: Option<String>)
    ensures
        c_text_outcome(r) == c_text(p.cmdline@),
{
    to_cstr(p.cmdline.as_str())
}

// ---- handles ----------------------------------------------------------------------------------

/// The open handles of a process; `None` if there are none.
pub fn cosi_win_get_handle_list(
    cache: &mut u64,
    g: &Guest,
    p: &VolatilityJson,
    eprocess: u64,
) -> (r: Result<Option<Vec<WinHandle>>, Request>)
    ensures
        optional_list_outcome(r) == unless_empty(
            with_base(*old(cache), g@, p, |base: u64| handles_of(g@, p, base, eprocess)),
        ),
        *final(cache) == cache_after(*old(cache), g@, p),
{
    none_if_empty(handle_list(cache, g, p, eprocess))
}

pub fn cosi_win_handle_list_len(list: &Vec<WinHandle>) -> (r: usize)
    ensures
        r == list@.len(),
{
    list.len()
}

pub fn cosi_win_handle_list_get(list: &Vec<WinHandle>, index: usize) -> (r: Option<&WinHandle>)
    ensures
        r == if index < list@.len() {
            Some(&list@[index as int])
        } else {
            None
        },
{
    if index < list.len() {
        Some(&list[index])
    } else {
        None
    }
}

pub fn cosi_win_handle_value(h: &WinHandle) -> (r: u32)
    ensures
        r == h.handle,
{
    h.handle
}

pub fn cosi_win_handle_object_header(h: &WinHandle) -> (r: u64)
    ensures
        r == h.object_header,
{
    h.object_header
}

pub fn cosi_win_handle_access(h: &WinHandle) -> (r: u32)
    ensures
        r == h.granted_access,
{
    h.granted_access
}

/// The type of the handle's object (e.g. "File", "Key").
pub fn cosi_win_handle_type(h: &WinHandle) -> (r: Option<String>)
    ensures
        c_text_outcome(r) == c_text(h.type_label@),
{
    to_cstr(h.type_label.as_str())
}

/// The name of the handle's object (may be empty).
pub fn cosi_win_handle_name(h: &WinHandle) -> (r: Option<String>)
    ensures
        c_text_outcome(r) == c_text(h.object_name@),
{
    to_cstr(h.object_name.as_str())
}

// ---- over a growing record --------------------------------------------------------------------

/// What the entry points hand out is steady over a growing record if the query behind it is.
pub proof fn handed_out_steady<T>(
    g: GuestView,
    h: GuestView,
    value_g: Result<Option<T>, Request>,
    value_h: Result<Option<T>, Request>,
    list_g: Result<Seq<T>, Request>,
    list_h: Result<Seq<T>, Request>,
    otherwise: T,
)
    requires
        steady(g, h, value_g, value_h),
        steady(g, h, list_g, list_h),
    ensures
        steady(g, h, value_or(value_g, otherwise), value_or(value_h, otherwise)),
        steady(g, h, unless_empty(list_g), unless_empty(list_h)),
{
}

/// So is a file's position.
pub proof fn position_or_none_steady(
    cached: u64,
    g: GuestView,
    h: GuestView,
    p: &VolatilityJson,
    eprocess: u64,
    handle: u64,
)
    requires
        g.extended_by(h),
    ensures
        steady(
            g,
            h,
            position_or_none(cached, g, p, eprocess, handle),
            position_or_none(cached, h, p, eprocess, handle),
        ),
{
    known_base_steady(cached, g, h, p);
    if let Ok(base) = known_base(cached, g, p) {
        file_position_steady(g, h, p, base, eprocess, handle);
    }
}

} // verus!
