//! What is known of one process, and what is handed out.

use crate::guest::{GuestView, Request};
use crate::handles::file_position;
use crate::kernel::{known_base, running_process};
use crate::laws::chains::word64_or_zero;
use crate::laws::memory::{group_memory, word64};
use crate::laws::symbols::{field_at, field_near, group_symbols, lacks_field};
use crate::lists::{user_half, WinProcView};
use crate::process::{
    cache_after, params_of, pid_and_name, process_at, process_now, with_base, WinProcParamsView,
};
use crate::profile::VolatilityJson;
use crate::reads::{c_string, unicode_string, Space};
use crate::surface::{c_text, position_or_none, unless_empty, value_or};
use vstd::prelude::*;

verus! {

// ---- identity ---------------------------------------------------------------------------------

/// The process has this word in a field; 0 stands for a field that the profile does not know or
/// that cannot be read.
pub open spec fn has_word(
    g: GuestView,
    p: &VolatilityJson,
    eprocess: u64,
    field: Seq<char>,
    v: u64,
) -> bool {
    ||| lacks_field(p, "_EPROCESS"@, field) && v == 0
    ||| exists|off: u64| #[trigger]
        field_at(p, "_EPROCESS"@, field, off) && word64_or_zero(
            g,
            Space::Current,
            eprocess.wrapping_add(off),
            v,
        )
}

/// The process has this name, of at most 15 bytes; none where the profile does not know the field.
pub open spec fn has_name(
    g: GuestView,
    p: &VolatilityJson,
    eprocess: u64,
    name: Seq<char>,
) -> bool {
    ||| lacks_field(p, "_EPROCESS"@, "ImageFileName"@) && name.len() == 0
    ||| exists|off: u64| #[trigger]
        field_at(p, "_EPROCESS"@, "ImageFileName"@, off) && c_string(
            g,
            eprocess.wrapping_add(off),
            15,
        ) == Ok::<Seq<char>, Request>(name)
}

/// A process is known by its address, its id, its parent's id and its name.
pub proof fn processes_are_identified(
    g: GuestView,
    p: &VolatilityJson,
    it: WinProcView,
)
    requires
        has_word(g, p, it.eprocess, "UniqueProcessId"@, it.pid),
        has_word(g, p, it.eprocess, "InheritedFromUniqueProcessId"@, it.ppid),
        has_name(g, p, it.eprocess, it.name),
    ensures
        pid_and_name(g, p, it.eprocess) == Ok::<(u64, Seq<char>), Request>((it.pid, it.name)),
        process_at(g, p, it.eprocess) == Ok::<WinProcView, Request>(it),
        running_process(g, p) == Ok::<Option<u64>, Request>(Some(it.eprocess)) ==> process_now(g, p)
            == Ok::<Option<WinProcView>, Request>(Some(it)),
        running_process(g, p) == Ok::<Option<u64>, Request>(None) ==> process_now(g, p) == Ok::<
            Option<WinProcView>,
            Request,
        >(None),
{
    broadcast use {group_memory, group_symbols};

    if lacks_field(p, "_EPROCESS"@, "ImageFileName"@) {
        assert(it.name =~= seq![]);
    }
    assert(pid_and_name(g, p, it.eprocess) == Ok::<(u64, Seq<char>), Request>((it.pid, it.name)));
    assert(process_at(g, p, it.eprocess) == Ok::<WinProcView, Request>(it));
}

// ---- parameters -------------------------------------------------------------------------------

/// The parameters of a process are the three texts in its ProcessParameters, each in its own place.
pub proof fn parameters_are_read(
    g: GuestView,
    p: &VolatilityJson,
    eprocess: u64,
    dtb: u64,
    peb: u64,
    at: u64,
    block: u64,
    dir: u64,
    dos: u64,
    image: u64,
    cmd: u64,
    it: WinProcParamsView,
)
    requires
        user_half(g, p, eprocess) == Ok::<Option<(u64, u64)>, Request>(Some((dtb, peb))),
        field_near(p, "_PEB"@, "ProcessParameters"@, 32, at),
        word64(g, Space::Tables(dtb), peb.wrapping_add(at), block),
        block != 0,
        field_near(p, "_RTL_USER_PROCESS_PARAMETERS"@, "CurrentDirectory"@, 56, dir),
        field_near(p, "_CURDIR"@, "DosPath"@, 0, dos),
        field_near(p, "_RTL_USER_PROCESS_PARAMETERS"@, "ImagePathName"@, 96, image),
        field_near(p, "_RTL_USER_PROCESS_PARAMETERS"@, "CommandLine"@, 112, cmd),
        unicode_string(g, Space::Tables(dtb), block.wrapping_add(dir).wrapping_add(dos)) == Ok::<
            Seq<char>,
            Request,
        >(it.cwd),
        unicode_string(g, Space::Tables(dtb), block.wrapping_add(image)) == Ok::<
            Seq<char>,
            Request,
        >(it.image_path),
        unicode_string(g, Space::Tables(dtb), block.wrapping_add(cmd)) == Ok::<
            Seq<char>,
            Request,
        >(it.cmdline),
    ensures
        params_of(g, p, eprocess) == Ok::<WinProcParamsView, Request>(it),
{
    broadcast use {group_memory, group_symbols};

}

/// A process without a user half, or whose ProcessParameters is null or cannot be read, has three
/// empty ones.
pub proof fn other_parameters_are_empty(
    g: GuestView,
    p: &VolatilityJson,
    eprocess: u64,
    dtb: u64,
    peb: u64,
    at: u64,
)
    requires
        user_half(g, p, eprocess) == Ok::<Option<(u64, u64)>, Request>(None) || (user_half(
            g,
            p,
            eprocess,
        ) == Ok::<Option<(u64, u64)>, Request>(Some((dtb, peb))) && field_near(
            p,
            "_PEB"@,
            "ProcessParameters"@,
            32,
            at,
        ) && word64_or_zero(g, Space::Tables(dtb), peb.wrapping_add(at), 0)),
    ensures
        params_of(g, p, eprocess) matches Ok(it) && it.cwd.len() == 0 && it.image_path.len() == 0
            && it.cmdline.len() == 0,
{
    broadcast use {group_memory, group_symbols};

}

// ---- the base ---------------------------------------------------------------------------------

/// A base that was found before is used again, whatever memory holds now.
pub proof fn a_found_base_is_used_again(cached: u64, g: GuestView, p: &VolatilityJson)
    requires
        cached != 0,
    ensures
        known_base(cached, g, p) == Ok::<u64, Request>(cached),
        cache_after(cached, g, p) == cached,
{
}

/// A base that is found now is kept. Where none can be told yet, the cache stays as it is.
pub proof fn a_base_is_kept(cached: u64, g: GuestView, p: &VolatilityJson, base: u64, q: Request)
    ensures
        known_base(cached, g, p) == Ok::<u64, Request>(base) ==> cache_after(cached, g, p) == base,
        known_base(cached, g, p) == Err::<u64, Request>(q) ==> cache_after(cached, g, p) == cached,
{
}

/// Lists are those for the base that is known; without one they are empty.
pub proof fn lists_are_of_the_known_base<T>(
    cached: u64,
    g: GuestView,
    p: &VolatilityJson,
    base: u64,
    query: spec_fn(u64) -> Result<Seq<T>, Request>,
)
    requires
        known_base(cached, g, p) == Ok::<u64, Request>(base),
    ensures
        base != 0 ==> with_base(cached, g, p, query) == query(base),
        base == 0 ==> (with_base(cached, g, p, query) matches Ok(v) && v.len() == 0),
{
}

// ---- what is handed out -----------------------------------------------------------------------

/// A list is handed out whole, and not at all if it is empty.
pub proof fn lists_are_handed_out_whole<T>(v: Seq<T>, q: Request)
    ensures
        v.len() > 0 ==> unless_empty(Ok::<Seq<T>, Request>(v)) == Ok::<Option<Seq<T>>, Request>(
            Some(v),
        ),
        v.len() == 0 ==> unless_empty(Ok::<Seq<T>, Request>(v)) == Ok::<Option<Seq<T>>, Request>(
            None,
        ),
        unless_empty(Err::<Seq<T>, Request>(q)) == Err::<Option<Seq<T>>, Request>(q),
{
}

/// A value is handed out as it is, and the stand-in only where there is none.
pub proof fn values_are_handed_out<T>(v: T, otherwise: T, q: Request)
    ensures
        value_or(Ok::<Option<T>, Request>(Some(v)), otherwise) == Ok::<T, Request>(v),
        value_or(Ok::<Option<T>, Request>(None), otherwise) == Ok::<T, Request>(otherwise),
        value_or(Err::<Option<T>, Request>(q), otherwise) == Err::<T, Request>(q),
{
}

proof fn lemma_nul(c: char)
    requires
        c as u32 == 0,
    ensures
        c == '\0',
{
}

/// A text is handed out in full if it has no NUL anywhere, else not at all.
pub proof fn texts_are_handed_out_in_full(s: Seq<char>)
    ensures
        (forall|i: int| 0 <= i < s.len() ==> #[trigger] s[i] as u32 != 0) ==> c_text(s) == Some(s),
        (exists|i: int| 0 <= i < s.len() && #[trigger] s[i] as u32 == 0) ==> c_text(s) is None,
{
    if exists|i: int| 0 <= i < s.len() && #[trigger] s[i] as u32 == 0 {
        let i = choose|i: int| 0 <= i < s.len() && #[trigger] s[i] as u32 == 0;
        lemma_nul(s[i]);
    }
}

/// A file's position is handed out as it is, and -1 where there is none.
pub proof fn positions_are_handed_out(
    cached: u64,
    g: GuestView,
    p: &VolatilityJson,
    eprocess: u64,
    handle: u64,
    base: u64,
    pos: i64,
)
    requires
        known_base(cached, g, p) == Ok::<u64, Request>(base),
    ensures
        file_position(g, p, base, eprocess, handle) == Ok::<Option<i64>, Request>(Some(pos))
            ==> position_or_none(cached, g, p, eprocess, handle) == Ok::<i64, Request>(pos),
        file_position(g, p, base, eprocess, handle) == Ok::<Option<i64>, Request>(None)
            ==> position_or_none(cached, g, p, eprocess, handle) == Ok::<i64, Request>(-1i64),
{
}

} // verus!
