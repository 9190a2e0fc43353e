//! What the kernel's lists give: one item for each node, in the order of the links.

use crate::guest::{GuestView, Request};
use crate::kernel::running_process_and_tables;
use crate::laws::memory::{group_memory, unreadable, word32, word64, words_are_little_endian};
use crate::laws::symbols::{field_at, field_near, group_symbols, lacks_field, symbol_at};
use crate::lists::{
    dlls_of, items, items_from, kernel_modules, link, module_item, process_item, process_list,
    thread_item, threads_of, user_half, LoaderEntry, WinModView, WinProcView, WinThreadView,
};
use crate::profile::VolatilityJson;
use crate::reads::{c_string, unicode_string, Space};
use vstd::prelude::*;

verus! {

// ---- chains of nodes --------------------------------------------------------------------------

/// A walk ends here: the word leads back to the head or nowhere, or cannot be read.
pub open spec fn ends_at(g: GuestView, space: Space, head: u64, node: u64) -> bool {
    ||| word64(g, space, node, head)
    ||| word64(g, space, node, 0)
    ||| unreadable(g, space, node, 8)
}

/// The nodes of the list at `head`, each linked from the first word of the one before. Behind the
/// last the list ends, or so many nodes have been seen that what comes next does not matter.
pub open spec fn chained(
    g: GuestView,
    space: Space,
    head: u64,
    nodes: Seq<u64>,
    limit: nat,
) -> bool {
    &&& nodes.len() <= limit
    &&& nodes.len() == 0 ==> ends_at(g, space, head, head)
    &&& nodes.len() > 0 ==> word64(g, space, head, nodes[0])
    &&& forall|i: int| 0 <= i < nodes.len() ==> #[trigger] nodes[i] != head && nodes[i] != 0
    &&& forall|i: int, j: int|
        0 <= i < j < nodes.len() && j == i + 1 ==> word64(
            g,
            space,
            #[trigger] nodes[i],
            #[trigger] nodes[j],
        )
    &&& nodes.len() > 0 ==> {
        ||| ends_at(g, space, head, nodes.last())
        ||| nodes.len() == limit && exists|v: u64| #[trigger] word64(g, space, nodes.last(), v)
    }
}

proof fn lemma_chain<T>(
    next: spec_fn(u64) -> Result<Option<u64>, Request>,
    item: spec_fn(u64) -> Result<T, Request>,
    head: u64,
    nodes: Seq<u64>,
    found: Seq<T>,
    left: nat,
)
    requires
        0 < nodes.len() <= left,
        found.len() == nodes.len(),
        forall|j: int| 0 <= j < nodes.len() ==> #[trigger] nodes[j] != head && nodes[j] != 0,
        forall|j: int|
            0 <= j < nodes.len() ==> item(#[trigger] nodes[j]) == Ok::<T, Request>(found[j]),
        forall|i: int, j: int|
            0 <= i < j < nodes.len() && j == i + 1 ==> next(#[trigger] nodes[i]) == Ok::<
                Option<u64>,
                Request,
            >(Some(#[trigger] nodes[j])),
        next(nodes.last()) is Ok,
        nodes.len() == left || next(nodes.last()).unwrap() is None || next(nodes.last()).unwrap()
            == Some(head) || next(nodes.last()).unwrap() == Some(0u64),
    ensures
        items_from(next, item, head, nodes[0], left) == Ok::<Seq<T>, Request>(found),
    decreases nodes.len(),
{
    let first = nodes[0];
    assert(item(first) == Ok::<T, Request>(found[0]));
    if nodes.len() > 1 {
        let rest = nodes.skip(1);
        assert(next(first) == Ok::<Option<u64>, Request>(Some(nodes[1])));
        assert(rest.last() == nodes.last());
        assert forall|i: int, j: int| 0 <= i < j < rest.len() && j == i + 1 implies next(
            #[trigger] rest[i],
        ) == Ok::<Option<u64>, Request>(Some(#[trigger] rest[j])) by {
            assert(rest[i] == nodes[i + 1] && rest[j] == nodes[j + 1]);
        }
        lemma_chain(next, item, head, rest, found.skip(1), (left - 1) as nat);
        assert(seq![found[0]] + found.skip(1) =~= found);
    } else {
        assert(first == nodes.last());
        assert(found =~= seq![found[0]]);
        assert(seq![found[0]] + Seq::<T>::empty() =~= found);
        if let Ok(Some(node)) = next(first) {
            assert(items_from(next, item, head, node, (left - 1) as nat) == Ok::<Seq<T>, Request>(
                seq![],
            ));
        }
    }
}

proof fn lemma_end(g: GuestView, space: Space, head: u64, node: u64)
    requires
        ends_at(g, space, head, node),
    ensures
        link(g, space)(node) == Ok::<Option<u64>, Request>(None) || link(g, space)(node) == Ok::<
            Option<u64>,
            Request,
        >(Some(head)) || link(g, space)(node) == Ok::<Option<u64>, Request>(Some(0u64)),
{
    broadcast use group_memory;

}

/// A list has one item for each node of its chain, in that order, whatever is noted of a node.
pub proof fn chains_are_walked<T>(
    g: GuestView,
    space: Space,
    item: spec_fn(u64) -> Result<T, Request>,
    head: u64,
    nodes: Seq<u64>,
    found: Seq<T>,
    limit: nat,
)
    requires
        chained(g, space, head, nodes, limit),
        found.len() == nodes.len(),
        forall|j: int|
            0 <= j < nodes.len() ==> item(#[trigger] nodes[j]) == Ok::<T, Request>(found[j]),
    ensures
        items(link(g, space), item, head, limit) == Ok::<Seq<T>, Request>(found),
{
    let next = link(g, space);
    if nodes.len() > 0 {
        let last = nodes.last();
        assert forall|i: int, j: int| 0 <= i < j < nodes.len() && j == i + 1 implies next(
            #[trigger] nodes[i],
        ) == Ok::<Option<u64>, Request>(Some(#[trigger] nodes[j])) by {
            words_are_little_endian(g, space, nodes[i], nodes[j]);
        }
        words_are_little_endian(g, space, head, nodes[0]);
        if ends_at(g, space, head, last) {
            lemma_end(g, space, head, last);
        } else {
            let v = choose|v: u64| #[trigger] word64(g, space, last, v);
            words_are_little_endian(g, space, last, v);
        }
        lemma_chain(next, item, head, nodes, found, limit);
    } else {
        lemma_end(g, space, head, head);
        assert(found =~= seq![]);
    }
}

// ---- fields -----------------------------------------------------------------------------------

/// The word at `addr` is `v`, or cannot be read and counts as 0.
pub open spec fn word64_or_zero(g: GuestView, space: Space, addr: u64, v: u64) -> bool {
    word64(g, space, addr, v) || (unreadable(g, space, addr, 8) && v == 0)
}

pub open spec fn word32_or_zero(g: GuestView, space: Space, addr: u64, v: u32) -> bool {
    word32(g, space, addr, v) || (unreadable(g, space, addr, 4) && v == 0)
}

// ---- processes --------------------------------------------------------------------------------

/// A process is what its fields say: id, parent's id and a name of at most 15 bytes.
pub open spec fn is_process(
    g: GuestView,
    p: &VolatilityJson,
    eprocess: u64,
    it: WinProcView,
) -> bool {
    &&& it.eprocess == eprocess
    &&& exists|off: u64| #[trigger]
        field_near(p, "_EPROCESS"@, "UniqueProcessId"@, 0, off) && word64_or_zero(
            g,
            Space::Current,
            eprocess.wrapping_add(off),
            it.pid,
        )
    &&& exists|off: u64| #[trigger]
        field_near(p, "_EPROCESS"@, "InheritedFromUniqueProcessId"@, 0, off) && word64_or_zero(
            g,
            Space::Current,
            eprocess.wrapping_add(off),
            it.ppid,
        )
    &&& exists|off: u64| #[trigger]
        field_near(p, "_EPROCESS"@, "ImageFileName"@, 0, off) && c_string(
            g,
            eprocess.wrapping_add(off),
            15,
        ) == Ok::<Seq<char>, Request>(it.name)
}

/// The processes are those on PsActiveProcessHead, up to 4096 of them. A node is inside its
/// process, at ActiveProcessLinks.
pub proof fn every_active_process_is_listed(
    g: GuestView,
    p: &VolatilityJson,
    base: u64,
    rva: u64,
    links: u64,
    nodes: Seq<u64>,
    found: Seq<WinProcView>,
)
    requires
        symbol_at(p, "PsActiveProcessHead"@, rva),
        field_at(p, "_EPROCESS"@, "ActiveProcessLinks"@, links),
        chained(g, Space::Current, base.wrapping_add(rva), nodes, 4096),
        found.len() == nodes.len(),
        forall|j: int|
            0 <= j < nodes.len() ==> is_process(
                g,
                p,
                (#[trigger] nodes[j]).wrapping_sub(links),
                found[j],
            ),
    ensures
        process_list(g, p, base) == Ok::<Seq<WinProcView>, Request>(found),
{
    broadcast use {group_memory, group_symbols};

    let item = process_item(g, p, links);
    assert forall|j: int| 0 <= j < nodes.len() implies item(#[trigger] nodes[j]) == Ok::<
        WinProcView,
        Request,
    >(found[j]) by {
        assert(is_process(g, p, nodes[j].wrapping_sub(links), found[j]));
    }
    chains_are_walked(g, Space::Current, item, base.wrapping_add(rva), nodes, found, 4096);
}

/// Without the symbol or the field there is no list.
pub proof fn without_the_head_no_process_is_listed(g: GuestView, p: &VolatilityJson, base: u64)
    requires
        !p.symbols@.contains_key("PsActiveProcessHead"@) || lacks_field(
            p,
            "_EPROCESS"@,
            "ActiveProcessLinks"@,
        ),
    ensures
        process_list(g, p, base) matches Ok(v) && v.len() == 0,
{
    broadcast use group_symbols;

}

// ---- threads ----------------------------------------------------------------------------------

/// The threads of a process are those on its ThreadListHead, up to 8192 of them. A node is inside
/// its thread, at ThreadListEntry, and the id is at Cid.UniqueThread.
pub proof fn every_thread_is_listed(
    g: GuestView,
    p: &VolatilityJson,
    eprocess: u64,
    list: u64,
    entry: u64,
    cid: u64,
    unique: u64,
    nodes: Seq<u64>,
    found: Seq<WinThreadView>,
)
    requires
        field_at(p, "_EPROCESS"@, "ThreadListHead"@, list),
        field_at(p, "_ETHREAD"@, "ThreadListEntry"@, entry),
        field_near(p, "_ETHREAD"@, "Cid"@, 0, cid),
        field_near(p, "_CLIENT_ID"@, "UniqueThread"@, 8, unique),
        chained(g, Space::Current, eprocess.wrapping_add(list), nodes, 8192),
        found.len() == nodes.len(),
        forall|j: int|
            0 <= j < nodes.len() ==> found[j].ethread == (#[trigger] nodes[j]).wrapping_sub(entry)
                && word64_or_zero(
                g,
                Space::Current,
                nodes[j].wrapping_sub(entry).wrapping_add(cid).wrapping_add(unique),
                found[j].tid,
            ),
    ensures
        threads_of(g, p, eprocess) == Ok::<Seq<WinThreadView>, Request>(found),
{
    broadcast use {group_memory, group_symbols};

    let item = thread_item(g, p, entry);
    assert forall|j: int| 0 <= j < nodes.len() implies item(#[trigger] nodes[j]) == Ok::<
        WinThreadView,
        Request,
    >(found[j]) by {
        assert(found[j].ethread == nodes[j].wrapping_sub(entry));
    }
    chains_are_walked(g, Space::Current, item, eprocess.wrapping_add(list), nodes, found, 8192);
}

/// Without one of the two list fields there is no list.
pub proof fn without_the_fields_no_thread_is_listed(g: GuestView, p: &VolatilityJson, eprocess: u64)
    requires
        lacks_field(p, "_EPROCESS"@, "ThreadListHead"@) || lacks_field(
            p,
            "_ETHREAD"@,
            "ThreadListEntry"@,
        ),
    ensures
        threads_of(g, p, eprocess) matches Ok(v) && v.len() == 0,
{
    broadcast use group_symbols;

}

// ---- modules ----------------------------------------------------------------------------------

/// A module is what its loader entry says: image base, image size and name.
pub open spec fn is_module(
    g: GuestView,
    p: &VolatilityJson,
    space: Space,
    ty: Seq<char>,
    entry: u64,
    it: WinModView,
) -> bool {
    &&& exists|off: u64| #[trigger]
        field_near(p, ty, "DllBase"@, 48, off) && word64_or_zero(
            g,
            space,
            entry.wrapping_add(off),
            it.base,
        )
    &&& exists|off: u64| #[trigger]
        field_near(p, ty, "SizeOfImage"@, 64, off) && word32_or_zero(
            g,
            space,
            entry.wrapping_add(off),
            it.size,
        )
    &&& exists|off: u64| #[trigger]
        field_near(p, ty, "BaseDllName"@, 88, off) && unicode_string(
            g,
            space,
            entry.wrapping_add(off),
        ) == Ok::<Seq<char>, Request>(it.name)
}

proof fn lemma_modules(
    g: GuestView,
    p: &VolatilityJson,
    space: Space,
    ty: Seq<char>,
    at: LoaderEntry,
    nodes: Seq<u64>,
    found: Seq<WinModView>,
)
    requires
        at == crate::lists::loader_entry(p, ty),
        found.len() == nodes.len(),
        forall|j: int|
            0 <= j < nodes.len() ==> is_module(g, p, space, ty, #[trigger] nodes[j], found[j]),
    ensures
        forall|j: int|
            0 <= j < nodes.len() ==> (module_item(g, space, at))(#[trigger] nodes[j]) == Ok::<
                WinModView,
                Request,
            >(found[j]),
{
    broadcast use {group_memory, group_symbols};

    assert forall|j: int| 0 <= j < nodes.len() implies (module_item(g, space, at))(
        #[trigger] nodes[j],
    ) == Ok::<WinModView, Request>(found[j]) by {
        assert(is_module(g, p, space, ty, nodes[j], found[j]));
    }
}

/// The kernel modules are those on PsLoadedModuleList, up to 2048 of them. A node is the loader
/// entry itself.
pub proof fn every_kernel_module_is_listed(
    g: GuestView,
    p: &VolatilityJson,
    base: u64,
    rva: u64,
    nodes: Seq<u64>,
    found: Seq<WinModView>,
)
    requires
        symbol_at(p, "PsLoadedModuleList"@, rva),
        chained(g, Space::Current, base.wrapping_add(rva), nodes, 2048),
        found.len() == nodes.len(),
        forall|j: int|
            0 <= j < nodes.len() ==> is_module(
                g,
                p,
                Space::Current,
                "_KLDR_DATA_TABLE_ENTRY"@,
                #[trigger] nodes[j],
                found[j],
            ),
    ensures
        kernel_modules(g, p, base) == Ok::<Seq<WinModView>, Request>(found),
{
    broadcast use group_symbols;

    let at = crate::lists::loader_entry(p, "_KLDR_DATA_TABLE_ENTRY"@);
    lemma_modules(g, p, Space::Current, "_KLDR_DATA_TABLE_ENTRY"@, at, nodes, found);
    chains_are_walked(
        g,
        Space::Current,
        module_item(g, Space::Current, at),
        base.wrapping_add(rva),
        nodes,
        found,
        2048,
    );
}

/// Without the symbol there is no list.
pub proof fn without_the_head_no_kernel_module_is_listed(
    g: GuestView,
    p: &VolatilityJson,
    base: u64,
)
    requires
        !p.symbols@.contains_key("PsLoadedModuleList"@),
    ensures
        kernel_modules(g, p, base) matches Ok(v) && v.len() == 0,
{
}

// ---- the user half ----------------------------------------------------------------------------

/// A process's page tables and PEB are read through the tables of the one that runs: bits 12 to 51
/// of its DirectoryTableBase, and the word at Peb.
pub proof fn the_user_half_is_found(
    g: GuestView,
    p: &VolatilityJson,
    eprocess: u64,
    running: u64,
    tables: u64,
    dtb_off: u64,
    dtb: u64,
    peb_off: u64,
    peb: u64,
)
    requires
        running_process_and_tables(g, p) == Ok::<Option<(u64, u64)>, Request>(
            Some((running, tables)),
        ),
        field_at(p, "_KPROCESS"@, "DirectoryTableBase"@, dtb_off),
        field_at(p, "_EPROCESS"@, "Peb"@, peb_off),
        word64(g, Space::Tables(tables), eprocess.wrapping_add(dtb_off), dtb),
        word64(g, Space::Tables(tables), eprocess.wrapping_add(peb_off), peb),
    ensures
        peb != 0 ==> (user_half(g, p, eprocess) matches Ok(Some((own, at))) && own == dtb / 0x1000
            % 0x100_0000_0000 * 0x1000 && at == peb),
        peb == 0 ==> user_half(g, p, eprocess) == Ok::<Option<(u64, u64)>, Request>(None),
{
    broadcast use {group_memory, group_symbols};

    assert(dtb & 0x000f_ffff_ffff_f000 == dtb / 0x1000 % 0x100_0000_0000 * 0x1000) by (bit_vector);
}

/// There is none where nothing runs, a field is unknown, or one of the words cannot be read.
pub proof fn no_user_half_is_found(
    g: GuestView,
    p: &VolatilityJson,
    eprocess: u64,
    running: u64,
    tables: u64,
    dtb_off: u64,
    dtb: u64,
    peb_off: u64,
)
    requires
        running_process_and_tables(g, p) == Ok::<Option<(u64, u64)>, Request>(None) || (
        running_process_and_tables(g, p) == Ok::<Option<(u64, u64)>, Request>(
            Some((running, tables)),
        ) && (lacks_field(p, "_KPROCESS"@, "DirectoryTableBase"@) || lacks_field(
            p,
            "_EPROCESS"@,
            "Peb"@,
        ) || (field_at(p, "_KPROCESS"@, "DirectoryTableBase"@, dtb_off) && field_at(
            p,
            "_EPROCESS"@,
            "Peb"@,
            peb_off,
        ) && (unreadable(g, Space::Tables(tables), eprocess.wrapping_add(dtb_off), 8) || (word64(
            g,
            Space::Tables(tables),
            eprocess.wrapping_add(dtb_off),
            dtb,
        ) && unreadable(g, Space::Tables(tables), eprocess.wrapping_add(peb_off), 8)))))),
    ensures
        user_half(g, p, eprocess) == Ok::<Option<(u64, u64)>, Request>(None),
{
    broadcast use {group_memory, group_symbols};

}

/// A process's modules are those on PEB.Ldr.InLoadOrderModuleList, up to 1024 of them, all read
/// through its own page tables. A node is the loader entry itself.
pub proof fn every_loaded_dll_is_listed(
    g: GuestView,
    p: &VolatilityJson,
    eprocess: u64,
    dtb: u64,
    peb: u64,
    ldr_off: u64,
    ldr: u64,
    list: u64,
    nodes: Seq<u64>,
    found: Seq<WinModView>,
)
    requires
        user_half(g, p, eprocess) == Ok::<Option<(u64, u64)>, Request>(Some((dtb, peb))),
        field_near(p, "_PEB"@, "Ldr"@, 24, ldr_off),
        word64(g, Space::Tables(dtb), peb.wrapping_add(ldr_off), ldr),
        ldr != 0,
        field_near(p, "_PEB_LDR_DATA"@, "InLoadOrderModuleList"@, 16, list),
        chained(g, Space::Tables(dtb), ldr.wrapping_add(list), nodes, 1024),
        found.len() == nodes.len(),
        forall|j: int|
            0 <= j < nodes.len() ==> is_module(
                g,
                p,
                Space::Tables(dtb),
                "_LDR_DATA_TABLE_ENTRY"@,
                #[trigger] nodes[j],
                found[j],
            ),
    ensures
        dlls_of(g, p, eprocess) == Ok::<Seq<WinModView>, Request>(found),
{
    broadcast use {group_memory, group_symbols};

    let space = Space::Tables(dtb);
    let at = crate::lists::loader_entry(p, "_LDR_DATA_TABLE_ENTRY"@);
    lemma_modules(g, p, space, "_LDR_DATA_TABLE_ENTRY"@, at, nodes, found);
    chains_are_walked(
        g,
        space,
        module_item(g, space, at),
        ldr.wrapping_add(list),
        nodes,
        found,
        1024,
    );
}

/// A process without a user half, and one whose Ldr is null or cannot be read, has none.
pub proof fn without_a_loader_no_dll_is_listed(
    g: GuestView,
    p: &VolatilityJson,
    eprocess: u64,
    dtb: u64,
    peb: u64,
    ldr_off: u64,
)
    requires
        user_half(g, p, eprocess) == Ok::<Option<(u64, u64)>, Request>(None) || (user_half(
            g,
            p,
            eprocess,
        ) == Ok::<Option<(u64, u64)>, Request>(Some((dtb, peb))) && field_near(
            p,
            "_PEB"@,
            "Ldr"@,
            24,
            ldr_off,
        ) && word64_or_zero(g, Space::Tables(dtb), peb.wrapping_add(ldr_off), 0)),
    ensures
        dlls_of(g, p, eprocess) matches Ok(v) && v.len() == 0,
{
    broadcast use {group_memory, group_symbols};

}

} // verus!
