//! What handle tables hold, and where handles lead.

use crate::guest::{GuestView, Request};
use crate::handles::{
    entry_object, entry_of_index, file_position, handle_entry, handle_object, handle_table,
    handles_of, leaf_count, leaf_page, object_of_handle, object_position, page_handles,
    pointer_word, table_handles, HandleWalk, WinHandleView,
};
use crate::kernel::running_process_and_tables;
use crate::laws::bits::{field_of, lemma_field_of_u64};
use crate::laws::chains::word32_or_zero;
use crate::laws::memory::{group_memory, unreadable, word64};
use crate::laws::symbols::{bits_near, field_at, field_near, group_symbols, lacks_field};
use crate::lists::views;
use crate::objects::{object, object_type, object_with_keys};
use crate::profile::VolatilityJson;
use crate::reads::{u32_or_zero, u64_at, Space};
use vstd::arithmetic::power2::pow2;
use vstd::prelude::*;

verus! {

// ---- entries ----------------------------------------------------------------------------------

/// The bits from a position on, taken modulo 64, that many or, from 64 on, all of them.
pub open spec fn bits_of(low: u64, pos: u64, len: u64) -> int {
    if len < 64 {
        field_of(low as int, (pos % 64) as nat, len as nat)
    } else {
        low as int / pow2((pos % 64) as nat) as int
    }
}

/// The number in ObjectPointerBits.
pub open spec fn pointer_bits(p: &VolatilityJson, low: u64, bits: u64) -> bool {
    exists|pos: u64, len: u64| #[trigger]
        bits_near(p, "_HANDLE_TABLE_ENTRY"@, "ObjectPointerBits"@, (20, 44), pos, len) && bits
            == bits_of(low, pos, len)
}

/// An entry's first word points to an object header: the pointer without its lowest four and its
/// highest sixteen bits stands in ObjectPointerBits. Of the bits left out, the lowest are clear
/// and the highest set.
pub open spec fn points_to_object(p: &VolatilityJson, low: u64, oh: u64) -> bool {
    exists|bits: u64| #[trigger]
        pointer_bits(p, low, bits) && bits != 0 && oh as int == 0xffff_0000_0000_0000 + 16 * (
        bits as int % 0x1000_0000_0000)
}

/// An entry's first word points nowhere.
pub open spec fn is_free(p: &VolatilityJson, low: u64) -> bool {
    pointer_bits(p, low, 0)
}

proof fn lemma_widened(bits: u64)
    by (bit_vector)
    ensures
        (0xffff_0000_0000_0000u64 | (bits << 4)) == 0xffff_0000_0000_0000u64 + 16 * (bits
            % 0x1000_0000_0000u64),
{
}

proof fn lemma_pointer_bits(p: &VolatilityJson, low: u64, bits: u64)
    requires
        pointer_bits(p, low, bits),
    ensures
        entry_object(p, low) == if bits == 0 {
            None::<u64>
        } else {
            Some(0xffff_0000_0000_0000u64 | (bits << 4))
        },
{
    broadcast use group_symbols;

    let (pos, len) = choose|pos: u64, len: u64| #[trigger]
        bits_near(p, "_HANDLE_TABLE_ENTRY"@, "ObjectPointerBits"@, (20, 44), pos, len) && bits
            == bits_of(low, pos, len);
    if len < 64 {
        lemma_field_of_u64(low, pos % 64, len);
    } else {
        vstd::bits::lemma_u64_shr_is_div(low, pos % 64);
        let shifted = low >> (pos % 64);
        assert(shifted & u64::MAX == shifted) by (bit_vector);
    }
}

/// The first word of an entry leads to the object header that it points to.
pub broadcast proof fn entries_lead_to_objects(p: &VolatilityJson, low: u64, oh: u64)
    requires
        #[trigger] points_to_object(p, low, oh),
    ensures
        entry_object(p, low) == Some(oh),
{
    let bits = choose|bits: u64| #[trigger]
        pointer_bits(p, low, bits) && bits != 0 && oh as int == 0xffff_0000_0000_0000 + 16 * (
        bits as int % 0x1000_0000_0000);
    lemma_pointer_bits(p, low, bits);
    lemma_widened(bits);
}

pub broadcast proof fn free_entries_lead_nowhere(p: &VolatilityJson, low: u64)
    requires
        #[trigger] is_free(p, low),
    ensures
        entry_object(p, low) is None,
{
    lemma_pointer_bits(p, low, 0);
}

pub broadcast group group_entries {
    entries_lead_to_objects,
    free_entries_lead_nowhere,
}

// ---- pages ------------------------------------------------------------------------------------

/// The word of an entry that points to the object.
pub open spec fn has_low_word(g: GuestView, p: &VolatilityJson, entry: u64, low: u64) -> bool {
    exists|off: u64| #[trigger]
        field_near(p, "_HANDLE_TABLE_ENTRY"@, "ObjectPointerBits"@, 0, off) && word64(
            g,
            Space::Current,
            entry.wrapping_add(off),
            low,
        )
}

/// The word of an entry with the granted access; 0 where it cannot be read.
pub open spec fn has_access_word(
    g: GuestView,
    p: &VolatilityJson,
    entry: u64,
    access: u32,
) -> bool {
    exists|off: u64| #[trigger]
        field_near(p, "_HANDLE_TABLE_ENTRY"@, "GrantedAccessBits"@, 8, off) && word32_or_zero(
            g,
            Space::Current,
            entry.wrapping_add(off),
            access,
        )
}

/// Slot `slot` of a leaf page, 16 bytes each, holds `h`.
pub open spec fn slot_holds(
    g: GuestView,
    p: &VolatilityJson,
    base: u64,
    page: u64,
    slot: u64,
    h: WinHandleView,
) -> bool {
    let entry = page.wrapping_add((slot * 16) as u64);
    &&& exists|low: u64| #[trigger]
        has_low_word(g, p, entry, low) && points_to_object(p, low, h.object_header)
    &&& exists|access: u32| #[trigger]
        has_access_word(g, p, entry, access) && h.granted_access == access % 0x200_0000
    &&& object(g, p, Space::Current, base, h.object_header) == Ok::<
        (Seq<char>, Seq<char>),
        Request,
    >((h.type_label, h.object_name))
}

/// It is free, or cannot be read.
pub open spec fn slot_is_free(g: GuestView, p: &VolatilityJson, page: u64, slot: u64) -> bool {
    exists|off: u64| #[trigger]
        field_near(p, "_HANDLE_TABLE_ENTRY"@, "ObjectPointerBits"@, 0, off) && ({
            let at = page.wrapping_add((slot * 16) as u64).wrapping_add(off);
            ||| unreadable(g, Space::Current, at, 8)
            ||| exists|low: u64| #[trigger]
                word64(g, Space::Current, at, low) && is_free(p, low)
        })
}

proof fn lemma_access(access: u32)
    by (bit_vector)
    ensures
        access & 0x01ff_ffff == access % 0x200_0000,
{
}

#[verifier::rlimit(60)]
#[verifier::spinoff_prover]
proof fn lemma_slot(
    g: GuestView,
    p: &VolatilityJson,
    base: u64,
    page: u64,
    first: u64,
    slot: u64,
    low: u64,
    access: u32,
    h: WinHandleView,
)
    requires
        ({
            let entry = page.wrapping_add((slot * 16) as u64);
            let off = p.offset_or("_HANDLE_TABLE_ENTRY"@, "GrantedAccessBits"@, 8);
            &&& u64_at(g, Space::Current, pointer_word(p, entry)) == Ok::<Option<u64>, Request>(
                Some(low),
            )
            &&& u32_or_zero(g, Space::Current, entry.wrapping_add(off)) == Ok::<u32, Request>(
                access,
            )
        }),
        entry_object(p, low) == Some(h.object_header),
        object(g, p, Space::Current, base, h.object_header) == Ok::<
            (Seq<char>, Seq<char>),
            Request,
        >((h.type_label, h.object_name)),
        h.granted_access == access & 0x01ff_ffff,
        h.handle == 4 * (first + slot),
    ensures
        handle_entry(g, p, base, page, first, slot) == Ok::<Option<WinHandleView>, Request>(
            Some(h),
        ),
{
    reveal(handle_entry);
}

/// A slot is read with all that it holds. Handles count in fours.
pub proof fn slots_are_read(
    g: GuestView,
    p: &VolatilityJson,
    base: u64,
    page: u64,
    first: u64,
    slot: u64,
    h: WinHandleView,
)
    requires
        slot_holds(g, p, base, page, slot, h),
        h.handle == 4 * (first + slot),
    ensures
        handle_entry(g, p, base, page, first, slot) == Ok::<Option<WinHandleView>, Request>(
            Some(h),
        ),
{
    let entry = page.wrapping_add((slot * 16) as u64);
    let low = choose|low: u64| #[trigger]
        has_low_word(g, p, entry, low) && points_to_object(p, low, h.object_header);
    let access = choose|access: u32| #[trigger]
        has_access_word(g, p, entry, access) && h.granted_access == access % 0x200_0000;
    entries_lead_to_objects(p, low, h.object_header);
    lemma_access(access);
    assert(u64_at(g, Space::Current, pointer_word(p, entry)) == Ok::<Option<u64>, Request>(
        Some(low),
    )) by {
        broadcast use {group_memory, group_symbols};

    }
    let off = p.offset_or("_HANDLE_TABLE_ENTRY"@, "GrantedAccessBits"@, 8);
    assert(u32_or_zero(g, Space::Current, entry.wrapping_add(off)) == Ok::<u32, Request>(
        access,
    )) by {
        broadcast use {group_memory, group_symbols};

    }
    lemma_slot(g, p, base, page, first, slot, low, access, h);
}

pub proof fn free_slots_are_skipped(
    g: GuestView,
    p: &VolatilityJson,
    base: u64,
    page: u64,
    first: u64,
    slot: u64,
)
    requires
        slot_is_free(g, p, page, slot),
    ensures
        handle_entry(g, p, base, page, first, slot) == Ok::<Option<WinHandleView>, Request>(None),
{
    broadcast use {group_memory, group_symbols, group_entries};

    reveal(handle_entry);
}

// ---- tables -----------------------------------------------------------------------------------

/// The _HANDLE_TABLE of the process is at `at`.
pub open spec fn has_table_struct(
    g: GuestView,
    p: &VolatilityJson,
    eprocess: u64,
    at: u64,
) -> bool {
    &&& at >= 0xffff_0000_0000_0000
    &&& exists|off: u64| #[trigger]
        field_at(p, "_EPROCESS"@, "ObjectTable"@, off) && word64(
            g,
            Space::Current,
            eprocess.wrapping_add(off),
            at,
        )
}

/// Its TableCode is `code`.
pub open spec fn has_code(g: GuestView, p: &VolatilityJson, at: u64, code: u64) -> bool {
    exists|off: u64| #[trigger]
        field_near(p, "_HANDLE_TABLE"@, "TableCode"@, 8, off) && word64(
            g,
            Space::Current,
            at.wrapping_add(off),
            code,
        )
}

/// The process has a handle table of this level at this address.
pub open spec fn has_table(
    g: GuestView,
    p: &VolatilityJson,
    eprocess: u64,
    level: u64,
    table: u64,
) -> bool {
    exists|at: u64, code: u64| #[trigger]
        has_table_struct(g, p, eprocess, at) && #[trigger] has_code(g, p, at, code) && level == code
            % 8 && table == code - code % 8
}

proof fn lemma_code(code: u64)
    by (bit_vector)
    ensures
        code & 0x7 == code % 8,
        code & !0x7u64 == code - code % 8,
{
}

/// The table is where the process says. Its address is a multiple of eight; what is left over is
/// the level.
pub proof fn tables_are_found(
    g: GuestView,
    p: &VolatilityJson,
    eprocess: u64,
    level: u64,
    table: u64,
)
    requires
        has_table(g, p, eprocess, level, table),
    ensures
        handle_table(g, p, eprocess) == Ok::<Option<(u64, u64)>, Request>(Some((level, table))),
{
    broadcast use {group_memory, group_symbols};

    let (at, code) = choose|at: u64, code: u64| #[trigger]
        has_table_struct(g, p, eprocess, at) && #[trigger] has_code(g, p, at, code) && level == code
            % 8 && table == code - code % 8;
    lemma_code(code);
}

/// A process without a table, or whose table is not in the kernel half or cannot be read, has no
/// handles.
pub proof fn without_a_table_no_handle_is_listed(
    g: GuestView,
    p: &VolatilityJson,
    base: u64,
    eprocess: u64,
    off: u64,
    at: u64,
    code_off: u64,
)
    requires
        lacks_field(p, "_EPROCESS"@, "ObjectTable"@) || (field_at(
            p,
            "_EPROCESS"@,
            "ObjectTable"@,
            off,
        ) && (unreadable(g, Space::Current, eprocess.wrapping_add(off), 8) || (word64(
            g,
            Space::Current,
            eprocess.wrapping_add(off),
            at,
        ) && (at < 0xffff_0000_0000_0000 || (field_near(
            p,
            "_HANDLE_TABLE"@,
            "TableCode"@,
            8,
            code_off,
        ) && unreadable(g, Space::Current, at.wrapping_add(code_off), 8)))))),
    ensures
        handle_table(g, p, eprocess) == Ok::<Option<(u64, u64)>, Request>(None),
        handles_of(g, p, base, eprocess) matches Ok(v) && v.len() == 0,
{
    broadcast use {group_memory, group_symbols};

}

/// Slot `i` of an upper-level table, 8 bytes each, points to the page at `sub`.
pub open spec fn leads_to(g: GuestView, table: u64, i: int, sub: u64) -> bool {
    exists|v: u64| #[trigger]
        word64(g, Space::Current, table.wrapping_add((i * 8) as u64), v) && v
            >= 0xffff_0000_0000_0000 && sub == v - v % 8
}

/// It points nowhere, or cannot be read.
pub open spec fn leads_nowhere(g: GuestView, table: u64, i: int) -> bool {
    ||| unreadable(g, Space::Current, table.wrapping_add((i * 8) as u64), 8)
    ||| exists|v: u64| #[trigger]
        word64(g, Space::Current, table.wrapping_add((i * 8) as u64), v) && v
            < 0xffff_0000_0000_0000
}

/// The leaf page with number `leaf` is at `page`. A table of level 0 is its only leaf page; one of
/// level 1 points to 512; a higher one points to 512 that point to 512 each.
pub open spec fn is_leaf(g: GuestView, level: u64, table: u64, leaf: int, page: u64) -> bool {
    if level == 0 {
        page == table
    } else if level == 1 {
        leads_to(g, table, leaf, page)
    } else {
        exists|middle: u64| #[trigger]
            leads_to(g, table, leaf / 512, middle) && leads_to(g, middle, leaf % 512, page)
    }
}

/// There is no such page.
pub open spec fn is_no_leaf(g: GuestView, level: u64, table: u64, leaf: int) -> bool {
    if level == 0 {
        false
    } else if level == 1 {
        leads_nowhere(g, table, leaf)
    } else {
        leads_nowhere(g, table, leaf / 512) || exists|middle: u64| #[trigger]
            leads_to(g, table, leaf / 512, middle) && leads_nowhere(g, middle, leaf % 512)
    }
}

/// How many slots of 256 a page a table of this level has.
pub open spec fn slots(level: u64) -> int {
    if level == 0 {
        256
    } else if level == 1 {
        512int * 256
    } else {
        512int * 512 * 256
    }
}

proof fn lemma_subtable(g: GuestView, table: u64, i: u64)
    ensures
        forall|sub: u64| #[trigger]
            leads_to(g, table, i as int, sub) ==> crate::handles::subtable(g, table, i) == Ok::<
                Option<u64>,
                Request,
            >(Some(sub)),
        leads_nowhere(g, table, i as int) ==> crate::handles::subtable(g, table, i) == Ok::<
            Option<u64>,
            Request,
        >(None),
{
    broadcast use group_memory;

    assert forall|sub: u64| #[trigger] leads_to(g, table, i as int, sub) implies
        crate::handles::subtable(g, table, i) == Ok::<Option<u64>, Request>(Some(sub)) by {
        let v = choose|v: u64| #[trigger]
            word64(g, Space::Current, table.wrapping_add((i as int * 8) as u64), v) && v
                >= 0xffff_0000_0000_0000 && sub == v - v % 8;
        lemma_code(v);
    }
}

/// Leaf pages are found where the table leads.
pub proof fn leaves_are_found(g: GuestView, level: u64, table: u64, leaf: u64, page: u64)
    ensures
        is_leaf(g, level, table, leaf as int, page) ==> leaf_page(g, level, table, leaf) == Ok::<
            Option<u64>,
            Request,
        >(Some(page)),
        is_no_leaf(g, level, table, leaf as int) ==> leaf_page(g, level, table, leaf) == Ok::<
            Option<u64>,
            Request,
        >(None),
{
    reveal(leaf_page);
    if level == 1 {
        lemma_subtable(g, table, leaf);
    } else if level > 1 {
        lemma_subtable(g, table, leaf / 512);
        if let Ok(Some(middle)) = crate::handles::subtable(g, table, leaf / 512) {
            lemma_subtable(g, middle, leaf % 512);
        }
    }
}

// ---- the list ---------------------------------------------------------------------------------

/// What the table holds at `index`, counted over all leaf pages: a handle, or nothing.
pub open spec fn holds(
    g: GuestView,
    p: &VolatilityJson,
    base: u64,
    level: u64,
    table: u64,
    index: int,
    what: Option<WinHandleView>,
) -> bool {
    match what {
        Some(h) => h.handle == 4 * index && exists|page: u64| #[trigger]
            is_leaf(g, level, table, index / 256, page) && slot_holds(
                g,
                p,
                base,
                page,
                (index % 256) as u64,
                h,
            ),
        None => is_no_leaf(g, level, table, index / 256) || exists|page: u64| #[trigger]
            is_leaf(g, level, table, index / 256, page) && slot_is_free(
                g,
                p,
                page,
                (index % 256) as u64,
            ),
    }
}

/// The handles among the entries from `i` up to `j`, in order.
pub open spec fn live(
    entries: spec_fn(int) -> Option<WinHandleView>,
    i: int,
    j: int,
) -> Seq<WinHandleView>
    decreases j - i,
{
    if i >= j {
        seq![]
    } else {
        match entries(i) {
            Some(h) => seq![h] + live(entries, i + 1, j),
            None => live(entries, i + 1, j),
        }
    }
}

/// The first `n` items, or all if there are fewer.
pub open spec fn at_most<T>(v: Seq<T>, n: int) -> Seq<T> {
    if v.len() <= n {
        v
    } else {
        v.take(n)
    }
}

proof fn lemma_live_joined(
    entries: spec_fn(int) -> Option<WinHandleView>,
    i: int,
    j: int,
    k: int,
)
    requires
        i <= j <= k,
    ensures
        live(entries, i, j) + live(entries, j, k) == live(entries, i, k),
    decreases j - i,
{
    if i < j {
        lemma_live_joined(entries, i + 1, j, k);
        if let Some(h) = entries(i) {
            assert((seq![h] + live(entries, i + 1, j)) + live(entries, j, k) =~= seq![h] + (live(
                entries,
                i + 1,
                j,
            ) + live(entries, j, k)));
        }
    } else {
        assert(live(entries, i, j) + live(entries, j, k) =~= live(entries, j, k));
    }
}

proof fn lemma_nothing_live(entries: spec_fn(int) -> Option<WinHandleView>, i: int, j: int)
    requires
        forall|k: int| i <= k < j ==> #[trigger] entries(k) is None,
    ensures
        live(entries, i, j).len() == 0,
    decreases j - i,
{
    if i < j {
        lemma_nothing_live(entries, i + 1, j);
    }
}

/// What the definitions of the list are about, as far as an entry is concerned.
spec fn is_entry(
    g: GuestView,
    p: &VolatilityJson,
    base: u64,
    level: u64,
    table: u64,
    entries: spec_fn(int) -> Option<WinHandleView>,
    index: int,
) -> bool {
    let leaf = (index / 256) as u64;
    match leaf_page(g, level, table, leaf) {
        Ok(Some(page)) => handle_entry(
            g,
            p,
            base,
            page,
            (leaf * 256) as u64,
            (index % 256) as u64,
        ) == Ok::<Option<WinHandleView>, Request>(entries(index)),
        Ok(None) => entries(index) is None,
        Err(_) => false,
    }
}

proof fn lemma_is_entry(
    g: GuestView,
    p: &VolatilityJson,
    base: u64,
    level: u64,
    table: u64,
    entries: spec_fn(int) -> Option<WinHandleView>,
    index: int,
)
    requires
        0 <= index < slots(level),
        holds(g, p, base, level, table, index, entries(index)),
    ensures
        is_entry(g, p, base, level, table, entries, index),
{
    let leaf = (index / 256) as u64;
    let slot = (index % 256) as u64;
    match entries(index) {
        Some(h) => {
            let page = choose|page: u64| #[trigger]
                is_leaf(g, level, table, index / 256, page) && slot_holds(
                    g,
                    p,
                    base,
                    page,
                    slot,
                    h,
                );
            leaves_are_found(g, level, table, leaf, page);
            slots_are_read(g, p, base, page, (leaf * 256) as u64, slot, h);
        },
        None => {
            if is_no_leaf(g, level, table, index / 256) {
                leaves_are_found(g, level, table, leaf, 0);
            } else {
                let page = choose|page: u64| #[trigger]
                    is_leaf(g, level, table, index / 256, page) && slot_is_free(g, p, page, slot);
                leaves_are_found(g, level, table, leaf, page);
                free_slots_are_skipped(g, p, base, page, (leaf * 256) as u64, slot);
            }
        },
    }
}

proof fn lemma_page(
    g: GuestView,
    p: &VolatilityJson,
    base: u64,
    page: u64,
    first: u64,
    slot: u64,
    have: nat,
    entries: spec_fn(int) -> Option<WinHandleView>,
)
    requires
        slot <= 256,
        have <= 65536,
        forall|k: u64|
            k < 256 ==> #[trigger] handle_entry(g, p, base, page, first, k) == Ok::<
                Option<WinHandleView>,
                Request,
            >(entries(first + k)),
    ensures
        page_handles(g, p, base, page, first, slot, have) == Ok::<Seq<WinHandleView>, Request>(
            at_most(live(entries, first + slot, first + 256), 65536 - have),
        ),
    decreases 256 - slot,
{
    let whole = live(entries, first + slot, first + 256);
    if slot < 256 && have < 65536 {
        let next = (slot + 1) as u64;
        assert(handle_entry(g, p, base, page, first, slot) == Ok::<Option<WinHandleView>, Request>(
            entries(first + slot),
        ));
        match entries(first + slot) {
            None => {
                lemma_page(g, p, base, page, first, next, have, entries);
            },
            Some(h) => {
                lemma_page(g, p, base, page, first, next, have + 1, entries);
                let rest = live(entries, first + next, first + 256);
                assert(whole == seq![h] + rest);
                assert(seq![h] + at_most(rest, 65536 - (have + 1)) =~= at_most(
                    whole,
                    65536 - have,
                ));
            },
        }
    } else {
        assert(at_most(whole, 65536 - have) =~= seq![]);
    }
}

proof fn lemma_table(
    g: GuestView,
    p: &VolatilityJson,
    base: u64,
    level: u64,
    table: u64,
    leaf: u64,
    have: nat,
    entries: spec_fn(int) -> Option<WinHandleView>,
)
    requires
        leaf * 256 <= slots(level),
        have <= 65536,
        forall|k: int|
            0 <= k < slots(level) ==> #[trigger] is_entry(
                g,
                p,
                base,
                level,
                table,
                entries,
                k,
            ),
    ensures
        table_handles(g, p, base, level, table, leaf, 0, have) == Ok::<
            Seq<WinHandleView>,
            Request,
        >(at_most(live(entries, leaf * 256, slots(level)), 65536 - have)),
    decreases slots(level) - leaf * 256,
{
    let all = live(entries, leaf * 256, slots(level));
    assert(leaf_count(level) * 256 == slots(level));
    if leaf < leaf_count(level) {
        let next = (leaf + 1) as u64;
        let first = (leaf * 256) as u64;
        let here = live(entries, leaf * 256, next * 256);
        let rest = live(entries, next * 256, slots(level));
        lemma_live_joined(entries, leaf * 256, next * 256, slots(level));
        assert(is_entry(g, p, base, level, table, entries, leaf * 256));
        match leaf_page(g, level, table, leaf) {
            Ok(Some(page)) => {
                assert forall|k: u64| k < 256 implies #[trigger] handle_entry(
                    g,
                    p,
                    base,
                    page,
                    first,
                    k,
                ) == Ok::<Option<WinHandleView>, Request>(entries(first + k)) by {
                    assert(is_entry(g, p, base, level, table, entries, first + k));
                }
                lemma_page(g, p, base, page, first, 0, have, entries);
                let kept = at_most(here, 65536 - have);
                lemma_table(g, p, base, level, table, next, have + kept.len(), entries);
                assert(kept + at_most(rest, 65536 - (have + kept.len())) =~= at_most(
                    all,
                    65536 - have,
                ));
            },
            _ => {
                assert forall|k: int| leaf * 256 <= k < next * 256 implies #[trigger] entries(
                    k,
                ) is None by {
                    assert(is_entry(g, p, base, level, table, entries, k));
                }
                lemma_nothing_live(entries, leaf * 256, next * 256);
                assert(all =~= rest);
                lemma_table(g, p, base, level, table, next, have, entries);
            },
        }
    } else {
        assert(at_most(all, 65536 - have) =~= seq![]);
    }
}

/// Every handle in a process's table is listed, in the order of the table, whatever level the
/// table has; of more than 65536, the first 65536 are.
pub proof fn every_handle_is_listed(
    g: GuestView,
    p: &VolatilityJson,
    base: u64,
    eprocess: u64,
    level: u64,
    table: u64,
    entries: spec_fn(int) -> Option<WinHandleView>,
)
    requires
        has_table(g, p, eprocess, level, table),
        forall|i: int|
            0 <= i < slots(level) ==> holds(
                g,
                p,
                base,
                level,
                table,
                i,
                #[trigger] entries(i),
            ),
    ensures
        handles_of(g, p, base, eprocess) == Ok::<Seq<WinHandleView>, Request>(
            at_most(live(entries, 0, slots(level)), 65536),
        ),
{
    tables_are_found(g, p, eprocess, level, table);
    assert forall|k: int| 0 <= k < slots(level) implies #[trigger] is_entry(
        g,
        p,
        base,
        level,
        table,
        entries,
        k,
    ) by {
        lemma_is_entry(g, p, base, level, table, entries, k);
    }
    lemma_table(g, p, base, level, table, 0, 0, entries);
}

proof fn lemma_walk(
    g: GuestView,
    p: &VolatilityJson,
    base: u64,
    level: u64,
    table: u64,
    leaf: u64,
    slot: u64,
    have: nat,
    entries: spec_fn(int) -> Option<WinHandleView>,
)
    requires
        leaf < leaf_count(level),
        slot <= 256,
        have <= 65536,
        forall|k: int|
            0 <= k < slots(level) ==> #[trigger] is_entry(
                g,
                p,
                base,
                level,
                table,
                entries,
                k,
            ),
    ensures
        table_handles(g, p, base, level, table, leaf, slot, have) == Ok::<
            Seq<WinHandleView>,
            Request,
        >(at_most(live(entries, leaf * 256 + slot, slots(level)), 65536 - have)),
{
    let next = (leaf + 1) as u64;
    let first = (leaf * 256) as u64;
    let all = live(entries, leaf * 256 + slot, slots(level));
    let here = live(entries, leaf * 256 + slot, next * 256);
    let rest = live(entries, next * 256, slots(level));
    lemma_live_joined(entries, leaf * 256 + slot, next * 256, slots(level));
    assert(is_entry(g, p, base, level, table, entries, leaf * 256));
    match leaf_page(g, level, table, leaf) {
        Ok(Some(page)) => {
            assert forall|k: u64| k < 256 implies #[trigger] handle_entry(
                g,
                p,
                base,
                page,
                first,
                k,
            ) == Ok::<Option<WinHandleView>, Request>(entries(first + k)) by {
                assert(is_entry(g, p, base, level, table, entries, first + k));
            }
            lemma_page(g, p, base, page, first, slot, have, entries);
            let kept = at_most(here, 65536 - have);
            lemma_table(g, p, base, level, table, next, have + kept.len(), entries);
            assert(kept + at_most(rest, 65536 - (have + kept.len())) =~= at_most(
                all,
                65536 - have,
            ));
        },
        _ => {
            assert forall|k: int| leaf * 256 <= k < next * 256 implies #[trigger] entries(
                k,
            ) is None by {
                assert(is_entry(g, p, base, level, table, entries, k));
            }
            lemma_nothing_live(entries, leaf * 256 + slot, next * 256);
            assert(all =~= rest);
            lemma_table(g, p, base, level, table, next, have, entries);
        },
    }
}

/// A walk that is under way comes to what it has found, and behind that every handle from where it
/// is, as far as 65536 in all.
pub proof fn walks_lose_nothing(
    walk: &HandleWalk,
    g: GuestView,
    p: &VolatilityJson,
    entries: spec_fn(int) -> Option<WinHandleView>,
)
    requires
        walk.found@.len() <= 65536,
        walk.slot <= 256,
        256 * walk.leaf + walk.slot <= slots(walk.level),
        forall|i: int|
            0 <= i < slots(walk.level) ==> holds(
                g,
                p,
                walk.base,
                walk.level,
                walk.table,
                i,
                #[trigger] entries(i),
            ),
    ensures
        ({
            let ahead = live(entries, 256 * walk.leaf + walk.slot, slots(walk.level));
            walk.outcome(g, p) matches Ok(v) && {
                &&& v.take(walk.found@.len() as int) == views(walk.found@)
                &&& v.skip(walk.found@.len() as int) == at_most(ahead, 65536 - walk.found@.len())
            }
        }),
{
    reveal(HandleWalk::outcome);
    assert forall|k: int| 0 <= k < slots(walk.level) implies #[trigger] is_entry(
        g,
        p,
        walk.base,
        walk.level,
        walk.table,
        entries,
        k,
    ) by {
        lemma_is_entry(g, p, walk.base, walk.level, walk.table, entries, k);
    }
    let ahead = live(entries, 256 * walk.leaf + walk.slot, slots(walk.level));
    let more = at_most(ahead, 65536 - walk.found@.len());
    assert(leaf_count(walk.level) * 256 == slots(walk.level));
    if walk.leaf < leaf_count(walk.level) {
        lemma_walk(
            g,
            p,
            walk.base,
            walk.level,
            walk.table,
            walk.leaf,
            walk.slot,
            walk.found@.len(),
            entries,
        );
    } else {
        assert(more =~= seq![]);
    }
    let v = views(walk.found@) + more;
    assert(v.take(walk.found@.len() as int) =~= views(walk.found@));
    assert(v.skip(walk.found@.len() as int) =~= more);
}

/// Each of them is among those listed, where there are no more than 65536.
pub proof fn live_entries_are_kept(
    entries: spec_fn(int) -> Option<WinHandleView>,
    i: int,
    j: int,
    k: int,
)
    requires
        i <= k < j,
    ensures
        entries(k) matches Some(h) ==> live(entries, i, j).contains(h),
{
    if let Some(h) = entries(k) {
        lemma_live_joined(entries, i, k, j);
        let before = live(entries, i, k);
        let whole = live(entries, i, j);
        assert(live(entries, k, j)[0] == h);
        assert(whole[before.len() as int] == h);
    }
}

// ---- one handle -------------------------------------------------------------------------------

/// Slot `i` of an upper-level table holds the address of `sub`, a multiple of eight.
pub open spec fn slot_at(g: GuestView, space: Space, table: u64, i: int, sub: u64) -> bool {
    exists|v: u64| #[trigger]
        word64(g, space, table.wrapping_add((i * 8) as u64), v) && sub == v - v % 8
}

proof fn lemma_slot_at(g: GuestView, space: Space, table: u64, i: u64, sub: u64)
    requires
        slot_at(g, space, table, i as int, sub),
    ensures
        u64_at(g, space, table.wrapping_add((i * 8) as u64)) matches Ok(Some(v)) && v & !0x7u64
            == sub,
{
    broadcast use group_memory;

    let v = choose|v: u64| #[trigger]
        word64(g, space, table.wrapping_add((i as int * 8) as u64), v) && sub == v - v % 8;
    lemma_code(v);
}

/// Where the entry with this index is, through the page tables at `dtb`.
pub open spec fn entry_at(
    g: GuestView,
    dtb: u64,
    level: u64,
    table: u64,
    index: int,
    entry: u64,
) -> bool {
    let space = Space::Tables(dtb);
    let within = (index % 256 * 16) as u64;
    let leaf = index / 256;
    &&& 0 <= index < slots(level)
    &&& if level == 0 {
        entry == table.wrapping_add(within)
    } else if level == 1 {
        exists|page: u64| #[trigger]
            slot_at(g, space, table, leaf, page) && entry == page.wrapping_add(within)
    } else {
        exists|middle: u64, page: u64| #[trigger]
            slot_at(g, space, table, leaf / 512, middle) && #[trigger] slot_at(
                g,
                space,
                middle,
                leaf % 512,
                page,
            ) && entry == page.wrapping_add(within)
    }
}

proof fn lemma_entry_at(
    g: GuestView,
    dtb: u64,
    level: u64,
    table: u64,
    index: u64,
    entry: u64,
)
    requires
        entry_at(g, dtb, level, table, index as int, entry),
    ensures
        entry_of_index(g, dtb, level, table, index) == Ok::<Option<u64>, Request>(Some(entry)),
{
    let space = Space::Tables(dtb);
    let leaf = index as int / 256;
    let within = (index as int % 256 * 16) as u64;
    if level == 1 {
        let page = choose|page: u64| #[trigger]
            slot_at(g, space, table, leaf, page) && entry == page.wrapping_add(within);
        lemma_slot_at(g, space, table, index / 256, page);
    } else if level > 1 {
        let (middle, page) = choose|middle: u64, page: u64| #[trigger]
            slot_at(g, space, table, leaf / 512, middle) && #[trigger] slot_at(
                g,
                space,
                middle,
                leaf % 512,
                page,
            ) && entry == page.wrapping_add(within);
        lemma_slot_at(g, space, table, index / 256 / 512, middle);
        lemma_slot_at(g, space, middle, index / 256 % 512, page);
    }
}

/// The process has this handle table, through the page tables at `dtb`.
pub open spec fn has_table_code(
    g: GuestView,
    p: &VolatilityJson,
    dtb: u64,
    eprocess: u64,
    code: u64,
) -> bool {
    let space = Space::Tables(dtb);
    exists|off: u64, at: u64, code_off: u64| #[trigger]
        field_at(p, "_EPROCESS"@, "ObjectTable"@, off) && #[trigger] word64(
            g,
            space,
            eprocess.wrapping_add(off),
            at,
        ) && at >= 0xffff_0000_0000_0000 && #[trigger] field_at(
            p,
            "_HANDLE_TABLE"@,
            "TableCode"@,
            code_off,
        ) && word64(g, space, at.wrapping_add(code_off), code)
}

/// A handle leads to the object whose entry it counts to, in fours, whatever level the table has;
/// to none where the entry is free.
pub proof fn handles_lead_to_their_entries(
    g: GuestView,
    p: &VolatilityJson,
    dtb: u64,
    eprocess: u64,
    handle: u64,
    code: u64,
    entry: u64,
    off: u64,
    low: u64,
    oh: u64,
)
    requires
        handle > 0,
        handle % 4 == 0,
        has_table_code(g, p, dtb, eprocess, code),
        entry_at(g, dtb, code % 8, (code - code % 8) as u64, handle as int / 4, entry),
        field_near(p, "_HANDLE_TABLE_ENTRY"@, "ObjectPointerBits"@, 0, off),
        word64(g, Space::Tables(dtb), entry.wrapping_add(off), low),
    ensures
        points_to_object(p, low, oh) ==> handle_object(g, p, dtb, eprocess, handle) == Ok::<
            Option<u64>,
            Request,
        >(Some(oh)),
        is_free(p, low) ==> handle_object(g, p, dtb, eprocess, handle) == Ok::<
            Option<u64>,
            Request,
        >(None),
{
    broadcast use {group_memory, group_symbols, group_entries};

    lemma_code(code);
    lemma_entry_at(g, dtb, code % 8, (code - code % 8) as u64, handle / 4, entry);
}

/// Zero, what is no multiple of four and what lies beyond the table lead nowhere.
pub proof fn other_values_lead_nowhere(
    g: GuestView,
    p: &VolatilityJson,
    dtb: u64,
    eprocess: u64,
    handle: u64,
    code: u64,
)
    requires
        handle == 0 || handle % 4 != 0 || (has_table_code(g, p, dtb, eprocess, code) && handle
            >= 4 * slots(code % 8)),
    ensures
        handle_object(g, p, dtb, eprocess, handle) == Ok::<Option<u64>, Request>(None),
{
    broadcast use {group_memory, group_symbols};

    lemma_code(code);
}

/// So does every handle of a process without a table, or whose table is not in the kernel half or
/// cannot be read.
pub proof fn without_a_table_handles_lead_nowhere(
    g: GuestView,
    p: &VolatilityJson,
    dtb: u64,
    eprocess: u64,
    handle: u64,
    off: u64,
    at: u64,
    code_off: u64,
)
    requires
        lacks_field(p, "_EPROCESS"@, "ObjectTable"@) || (field_at(
            p,
            "_EPROCESS"@,
            "ObjectTable"@,
            off,
        ) && (unreadable(g, Space::Tables(dtb), eprocess.wrapping_add(off), 8) || (word64(
            g,
            Space::Tables(dtb),
            eprocess.wrapping_add(off),
            at,
        ) && (at < 0xffff_0000_0000_0000 || lacks_field(p, "_HANDLE_TABLE"@, "TableCode"@) || (
        field_at(p, "_HANDLE_TABLE"@, "TableCode"@, code_off) && unreadable(
            g,
            Space::Tables(dtb),
            at.wrapping_add(code_off),
            8,
        )))))),
    ensures
        handle_object(g, p, dtb, eprocess, handle) == Ok::<Option<u64>, Request>(None),
{
    broadcast use {group_memory, group_symbols};

}

/// And every handle whose entry cannot be read, or not be reached for an upper-level slot that
/// cannot.
pub proof fn unreadable_entries_lead_nowhere(
    g: GuestView,
    p: &VolatilityJson,
    dtb: u64,
    eprocess: u64,
    handle: u64,
    code: u64,
    entry: u64,
    off: u64,
    middle: u64,
)
    requires
        has_table_code(g, p, dtb, eprocess, code),
        ({
            let space = Space::Tables(dtb);
            let level = code % 8;
            let table = (code - code % 8) as u64;
            let leaf = handle as int / 4 / 256;
            ||| entry_at(g, dtb, level, table, handle as int / 4, entry) && field_near(
                p,
                "_HANDLE_TABLE_ENTRY"@,
                "ObjectPointerBits"@,
                0,
                off,
            ) && unreadable(g, space, entry.wrapping_add(off), 8)
            ||| level == 1 && unreadable(g, space, table.wrapping_add((leaf * 8) as u64), 8)
            ||| level > 1 && unreadable(g, space, table.wrapping_add((leaf / 512 * 8) as u64), 8)
            ||| level > 1 && word64(
                g,
                space,
                table.wrapping_add((leaf / 512 * 8) as u64),
                middle,
            ) && unreadable(
                g,
                space,
                ((middle - middle % 8) as u64).wrapping_add((leaf % 512 * 8) as u64),
                8,
            )
        }),
    ensures
        handle_object(g, p, dtb, eprocess, handle) == Ok::<Option<u64>, Request>(None),
{
    broadcast use {group_memory, group_symbols};

    let level = code % 8;
    let table = (code - code % 8) as u64;
    lemma_code(code);
    lemma_code(middle);
    if entry_at(g, dtb, level, table, handle as int / 4, entry) {
        lemma_entry_at(g, dtb, level, table, handle / 4, entry);
    }
}

/// What a handle leads to has the type and name of its object, if the type is known.
pub proof fn handles_have_the_type_of_their_object(
    g: GuestView,
    p: &VolatilityJson,
    base: u64,
    dtb: u64,
    eprocess: u64,
    handle: u64,
    oh: u64,
    ty: Seq<char>,
    name: Seq<char>,
)
    requires
        object_with_keys(g, p, dtb, base, oh) == Ok::<(Seq<char>, Seq<char>), Request>((ty, name)),
    ensures
        handle_object(g, p, dtb, eprocess, handle) == Ok::<Option<u64>, Request>(Some(oh)) ==> (
        object_of_handle(g, p, base, dtb, eprocess, handle) == Ok::<
            Option<(Seq<char>, Seq<char>)>,
            Request,
        >(
            if ty.len() > 0 {
                Some((ty, name))
            } else {
                None
            },
        )),
        handle_object(g, p, dtb, eprocess, handle) == Ok::<Option<u64>, Request>(None) ==> (
        object_of_handle(g, p, base, dtb, eprocess, handle) == Ok::<
            Option<(Seq<char>, Seq<char>)>,
            Request,
        >(None)),
{
}

/// The number that a 64-bit word stands for as a signed one.
pub open spec fn is_signed_word(v: u64, n: i64) -> bool {
    n == if v < 0x8000_0000_0000_0000 {
        v as int
    } else {
        v - 0x1_0000_0000_0000_0000
    }
}

proof fn lemma_signed_word(v: u64)
    by (bit_vector)
    ensures
        v < 0x8000_0000_0000_0000 ==> v as i64 == v,
        v >= 0x8000_0000_0000_0000 ==> v as i64 == v - 0x1_0000_0000_0000_0000,
{
}

/// A file's position is its CurrentByteOffset, read through the page tables of whatever runs. It is
/// also read of an object whose type is not known, and never of one that is known to be no file.
#[verifier::rlimit(60)]
#[verifier::spinoff_prover]
pub proof fn positions_are_read(
    g: GuestView,
    p: &VolatilityJson,
    base: u64,
    eprocess: u64,
    handle: u64,
    running: u64,
    dtb: u64,
    oh: u64,
    ty: Option<Seq<char>>,
    body: u64,
    at: u64,
    word: u64,
    pos: i64,
)
    requires
        running_process_and_tables(g, p) == Ok::<Option<(u64, u64)>, Request>(Some((running, dtb))),
        handle_object(g, p, dtb, eprocess, handle) == Ok::<Option<u64>, Request>(Some(oh)),
        base == 0 || object_type(g, p, Space::Tables(dtb), base, oh) == Ok::<
            Option<Seq<char>>,
            Request,
        >(ty),
        field_at(p, "_OBJECT_HEADER"@, "Body"@, body),
        field_at(p, "_FILE_OBJECT"@, "CurrentByteOffset"@, at),
        word64(g, Space::Tables(dtb), oh.wrapping_add(body).wrapping_add(at), word),
        is_signed_word(word, pos),
    ensures
        base == 0 || ty is None || ty == Some("File"@) || (ty matches Some(t) && t.len() == 0)
            ==> file_position(g, p, base, eprocess, handle) == Ok::<Option<i64>, Request>(
            Some(pos),
        ),
        base != 0 && (ty matches Some(t) && t.len() > 0 && t != "File"@) ==> file_position(
            g,
            p,
            base,
            eprocess,
            handle,
        ) == Ok::<Option<i64>, Request>(None),
{
    broadcast use {group_memory, group_symbols};

    reveal(object_position);
    lemma_signed_word(word);
}

/// There is no position without an object, a profile that knows the fields, or memory that can be
/// read.
pub proof fn without_a_word_no_position(
    g: GuestView,
    p: &VolatilityJson,
    base: u64,
    eprocess: u64,
    handle: u64,
    running: u64,
    dtb: u64,
    oh: u64,
    body: u64,
    at: u64,
)
    requires
        base == 0 || object_type(g, p, Space::Tables(dtb), base, oh) is Ok,
        running_process_and_tables(g, p) == Ok::<Option<(u64, u64)>, Request>(None) || (
        running_process_and_tables(g, p) == Ok::<Option<(u64, u64)>, Request>(Some((running, dtb)))
            && (handle_object(g, p, dtb, eprocess, handle) == Ok::<Option<u64>, Request>(None) || (
        handle_object(g, p, dtb, eprocess, handle) == Ok::<Option<u64>, Request>(Some(oh)) && (
        lacks_field(p, "_OBJECT_HEADER"@, "Body"@) || lacks_field(
            p,
            "_FILE_OBJECT"@,
            "CurrentByteOffset"@,
        ) || (field_at(p, "_OBJECT_HEADER"@, "Body"@, body) && field_at(
            p,
            "_FILE_OBJECT"@,
            "CurrentByteOffset"@,
            at,
        ) && unreadable(
            g,
            Space::Tables(dtb),
            oh.wrapping_add(body).wrapping_add(at),
            8,
        )))))),
    ensures
        file_position(g, p, base, eprocess, handle) == Ok::<Option<i64>, Request>(None),
{
    broadcast use {group_memory, group_symbols};

    reveal(object_position);
}

} // verus!
