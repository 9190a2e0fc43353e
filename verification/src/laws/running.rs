//! Where the kernel is, and what it is running.

use crate::guest::{GuestView, Request};
use crate::kernel::{
    control_region, image_base, known_base, pe_image, running_process, running_process_and_tables,
    running_thread, running_tid,
};
use crate::laws::memory::{
    group_memory, readable, unreadable, word32, word64,
};
use crate::laws::symbols::{field_at, field_near, group_symbols, lacks_field, symbol_at};
use crate::profile::VolatilityJson;
use crate::reads::Space;
use vstd::prelude::*;

verus! {

// ---- the image --------------------------------------------------------------------------------

/// There is an image: `MZ`, and `PE` with two zero bytes at the offset that the 4 bytes at 0x3c
/// give.
pub open spec fn has_image(g: GuestView, base: u64) -> bool {
    &&& readable(g, Space::Current, base, seq![77u8, 90])
    &&& exists|header: u32| #[trigger]
        word32(g, Space::Current, base.wrapping_add(60), header) && readable(
            g,
            Space::Current,
            base.wrapping_add(header as u64),
            seq![80u8, 69, 0, 0],
        )
}

/// There is none: one of the three places cannot be read, or one of the signatures is another.
pub open spec fn has_no_image(
    g: GuestView,
    base: u64,
    mz: Seq<u8>,
    header: u32,
    pe: Seq<u8>,
) -> bool {
    ||| unreadable(g, Space::Current, base, 2)
    ||| readable(g, Space::Current, base, mz) && mz.len() == 2 && (mz[0] != 77 || mz[1] != 90)
    ||| readable(g, Space::Current, base, seq![77u8, 90]) && {
        ||| unreadable(g, Space::Current, base.wrapping_add(60), 4)
        ||| word32(g, Space::Current, base.wrapping_add(60), header) && {
            ||| unreadable(g, Space::Current, base.wrapping_add(header as u64), 4)
            ||| readable(g, Space::Current, base.wrapping_add(header as u64), pe) && pe.len() == 4
                && (pe[0] != 80 || pe[1] != 69 || pe[2] != 0 || pe[3] != 0)
        }
    }
}

/// An image is told by its two signatures.
pub proof fn images_are_recognised(g: GuestView, base: u64)
    requires
        has_image(g, base),
    ensures
        pe_image(g, base) == Ok::<bool, Request>(true),
{
    broadcast use group_memory;

    let header = choose|header: u32| #[trigger]
        word32(g, Space::Current, base.wrapping_add(60), header) && readable(
            g,
            Space::Current,
            base.wrapping_add(header as u64),
            seq![80u8, 69, 0, 0],
        );
    assert(seq![77u8, 90].len() == 2);
    assert(seq![80u8, 69, 0, 0].len() == 4);
}

/// Nothing else is one.
pub proof fn other_memory_is_no_image(
    g: GuestView,
    base: u64,
    mz: Seq<u8>,
    header: u32,
    pe: Seq<u8>,
)
    requires
        has_no_image(g, base, mz, header, pe),
    ensures
        pe_image(g, base) == Ok::<bool, Request>(false),
{
    broadcast use group_memory;

    assert(seq![77u8, 90].len() == 2);
    assert(seq![77u8, 90][0] == 77 && seq![77u8, 90][1] == 90);
    assert(seq![80u8, 69, 0, 0][0] == 80 && seq![80u8, 69, 0, 0][1] == 69 && seq![
        80u8,
        69,
        0,
        0,
    ][2] == 0 && seq![80u8, 69, 0, 0][3] == 0);
}

/// The kernel is where its shadow syscall entry comes to lie on LSTAR, if there is an image.
pub proof fn the_shadow_entry_gives_the_base(g: GuestView, p: &VolatilityJson, base: u64, rva: u64)
    requires
        symbol_at(p, "KiSystemCall64Shadow"@, rva),
        base > 0,
        base + rva == g.regs.lstar,
        has_image(g, base),
    ensures
        image_base(g, p) == Ok::<u64, Request>(base),
        known_base(0, g, p) == Ok::<u64, Request>(base),
{
    broadcast use group_symbols;

    images_are_recognised(g, base);
}

/// A syscall entry does not give a base: the profile lacks it, LSTAR is not behind it, or there is
/// no image where it would put one.
pub open spec fn gives_no_base(
    g: GuestView,
    p: &VolatilityJson,
    entry: Seq<char>,
    rva: u64,
    mz: Seq<u8>,
    header: u32,
    pe: Seq<u8>,
) -> bool {
    ||| !p.symbols@.contains_key(entry)
    ||| symbol_at(p, entry, rva) && (g.regs.lstar <= rva || has_no_image(
        g,
        (g.regs.lstar - rva) as u64,
        mz,
        header,
        pe,
    ))
}

/// Where it gives none, the plain entry is tried the same way.
pub proof fn the_plain_entry_gives_the_base(
    g: GuestView,
    p: &VolatilityJson,
    base: u64,
    rva: u64,
    shadow: u64,
    mz: Seq<u8>,
    header: u32,
    pe: Seq<u8>,
)
    requires
        gives_no_base(g, p, "KiSystemCall64Shadow"@, shadow, mz, header, pe),
        symbol_at(p, "KiSystemCall64"@, rva),
        base > 0,
        base + rva == g.regs.lstar,
        has_image(g, base),
    ensures
        image_base(g, p) == Ok::<u64, Request>(base),
        known_base(0, g, p) == Ok::<u64, Request>(base),
{
    broadcast use group_symbols;

    images_are_recognised(g, base);
    if symbol_at(p, "KiSystemCall64Shadow"@, shadow) && g.regs.lstar > shadow {
        other_memory_is_no_image(g, (g.regs.lstar - shadow) as u64, mz, header, pe);
    }
}

/// Where neither does, and where LSTAR is 0, there is no base.
pub proof fn no_entry_no_base(
    g: GuestView,
    p: &VolatilityJson,
    shadow: u64,
    mz: Seq<u8>,
    header: u32,
    pe: Seq<u8>,
    plain: u64,
    mz2: Seq<u8>,
    header2: u32,
    pe2: Seq<u8>,
)
    requires
        g.regs.lstar == 0 || (gives_no_base(
            g,
            p,
            "KiSystemCall64Shadow"@,
            shadow,
            mz,
            header,
            pe,
        ) && gives_no_base(g, p, "KiSystemCall64"@, plain, mz2, header2, pe2)),
    ensures
        image_base(g, p) == Ok::<u64, Request>(0),
        known_base(0, g, p) == Ok::<u64, Request>(0),
{
    broadcast use group_symbols;

    if g.regs.lstar != 0 {
        if symbol_at(p, "KiSystemCall64Shadow"@, shadow) && g.regs.lstar > shadow {
            other_memory_is_no_image(g, (g.regs.lstar - shadow) as u64, mz, header, pe);
        }
        if symbol_at(p, "KiSystemCall64"@, plain) && g.regs.lstar > plain {
            other_memory_is_no_image(g, (g.regs.lstar - plain) as u64, mz2, header2, pe2);
        }
    }
}

// ---- the processor ----------------------------------------------------------------------------

/// What is not a pointer to itself.
pub open spec fn points_elsewhere(g: GuestView, at: u64, this: u64, other: u64) -> bool {
    unreadable(g, Space::Current, at, 8) || (word64(g, Space::Current, at, other) && other != this)
}

/// The KPCR is the GS base whose Self field points back at it, the swapped-out one first.
pub proof fn the_kpcr_points_at_itself(g: GuestView, p: &VolatilityJson, off: u64, other: u64)
    requires
        field_near(p, "_KPCR"@, "Self"@, 24, off),
    ensures
        word64(
            g,
            Space::Current,
            g.regs.kernel_gs_base.wrapping_add(off),
            g.regs.kernel_gs_base,
        ) ==> control_region(g, p) == Ok::<u64, Request>(g.regs.kernel_gs_base),
        points_elsewhere(
            g,
            g.regs.kernel_gs_base.wrapping_add(off),
            g.regs.kernel_gs_base,
            other,
        ) && word64(g, Space::Current, g.regs.gs_base.wrapping_add(off), g.regs.gs_base)
            ==> control_region(g, p) == Ok::<u64, Request>(g.regs.gs_base),
{
    broadcast use {group_memory, group_symbols};

}

/// Where neither does, it is the swapped-out base if that is in the kernel half, else the active
/// one.
pub proof fn the_kpcr_is_in_the_kernel(
    g: GuestView,
    p: &VolatilityJson,
    off: u64,
    other: u64,
    another: u64,
)
    requires
        field_near(p, "_KPCR"@, "Self"@, 24, off),
        points_elsewhere(
            g,
            g.regs.kernel_gs_base.wrapping_add(off),
            g.regs.kernel_gs_base,
            other,
        ),
        points_elsewhere(g, g.regs.gs_base.wrapping_add(off), g.regs.gs_base, another),
    ensures
        g.regs.kernel_gs_base >= 0xffff_0000_0000_0000 ==> control_region(g, p) == Ok::<
            u64,
            Request,
        >(g.regs.kernel_gs_base),
        g.regs.kernel_gs_base < 0xffff_0000_0000_0000 ==> control_region(g, p) == Ok::<
            u64,
            Request,
        >(g.regs.gs_base),
{
    broadcast use {group_memory, group_symbols};

}

/// The word at KPCR.Prcb.CurrentThread is `thread`.
pub open spec fn runs_thread(g: GuestView, p: &VolatilityJson, thread: u64) -> bool {
    exists|kpcr: u64, prcb: u64, current: u64|
        control_region(g, p) == Ok::<u64, Request>(kpcr) && #[trigger] field_at(
            p,
            "_KPCR"@,
            "Prcb"@,
            prcb,
        ) && #[trigger] field_at(p, "_KPRCB"@, "CurrentThread"@, current) && #[trigger] word64(
            g,
            Space::Current,
            kpcr.wrapping_add(prcb).wrapping_add(current),
            thread,
        )
}

proof fn lemma_thread(g: GuestView, p: &VolatilityJson, thread: u64)
    requires
        runs_thread(g, p, thread),
    ensures
        running_thread(g, p) == Ok::<Option<u64>, Request>(Some(thread)),
{
    broadcast use {group_memory, group_symbols};

}

/// The word at CurrentThread.ApcState.Process is `eprocess`.
pub open spec fn runs_process(g: GuestView, p: &VolatilityJson, eprocess: u64) -> bool {
    exists|thread: u64, apc: u64, process: u64| #[trigger]
        runs_thread(g, p, thread) && #[trigger] field_at(p, "_KTHREAD"@, "ApcState"@, apc)
            && #[trigger] field_at(p, "_KAPC_STATE"@, "Process"@, process) && word64(
            g,
            Space::Current,
            thread.wrapping_add(apc).wrapping_add(process),
            eprocess,
        )
}

/// The running process is the one that the running thread is attached to.
pub proof fn the_process_of_the_thread_runs(g: GuestView, p: &VolatilityJson, eprocess: u64)
    requires
        runs_process(g, p, eprocess),
    ensures
        running_process(g, p) == Ok::<Option<u64>, Request>(Some(eprocess)),
{
    broadcast use {group_memory, group_symbols};

    let (thread, apc, process) = choose|thread: u64, apc: u64, process: u64| #[trigger]
        runs_thread(g, p, thread) && #[trigger] field_at(p, "_KTHREAD"@, "ApcState"@, apc)
            && #[trigger] field_at(p, "_KAPC_STATE"@, "Process"@, process) && word64(
            g,
            Space::Current,
            thread.wrapping_add(apc).wrapping_add(process),
            eprocess,
        );
    lemma_thread(g, p, thread);
}

/// The running thread's id is the word at CurrentThread.Cid.UniqueThread.
pub proof fn the_id_of_the_thread_is_read(
    g: GuestView,
    p: &VolatilityJson,
    thread: u64,
    cid: u64,
    unique: u64,
    tid: u64,
)
    requires
        runs_thread(g, p, thread),
        field_at(p, "_ETHREAD"@, "Cid"@, cid),
        field_at(p, "_CLIENT_ID"@, "UniqueThread"@, unique),
        word64(g, Space::Current, thread.wrapping_add(cid).wrapping_add(unique), tid),
    ensures
        running_tid(g, p) == Ok::<Option<u64>, Request>(Some(tid)),
{
    broadcast use {group_memory, group_symbols};

    lemma_thread(g, p, thread);
}

/// The running process comes with the address of its page tables: bits 12 to 51 of its
/// DirectoryTableBase.
pub proof fn the_tables_of_the_process_are_read(
    g: GuestView,
    p: &VolatilityJson,
    eprocess: u64,
    off: u64,
    dtb: u64,
)
    requires
        runs_process(g, p, eprocess),
        field_at(p, "_KPROCESS"@, "DirectoryTableBase"@, off),
        word64(g, Space::Current, eprocess.wrapping_add(off), dtb),
    ensures
        running_process_and_tables(g, p) matches Ok(Some((e, tables))) && e == eprocess && tables
            == dtb / 0x1000 % 0x100_0000_0000 * 0x1000,
{
    broadcast use {group_memory, group_symbols};

    the_process_of_the_thread_runs(g, p, eprocess);
    assert(dtb & 0x000f_ffff_ffff_f000 == dtb / 0x1000 % 0x100_0000_0000 * 0x1000) by (bit_vector);
}

/// Without one of the fields on the way nothing is known of what runs.
pub proof fn without_the_fields_nothing_runs(g: GuestView, p: &VolatilityJson, kpcr: u64)
    requires
        control_region(g, p) == Ok::<u64, Request>(kpcr),
        lacks_field(p, "_KPCR"@, "Prcb"@) || lacks_field(p, "_KPRCB"@, "CurrentThread"@),
    ensures
        running_process(g, p) == Ok::<Option<u64>, Request>(None),
        running_tid(g, p) == Ok::<Option<u64>, Request>(None),
        running_process_and_tables(g, p) == Ok::<Option<(u64, u64)>, Request>(None),
{
    broadcast use group_symbols;

}

/// So where the thread cannot be read.
pub proof fn while_no_thread_is_read_nothing_runs(
    g: GuestView,
    p: &VolatilityJson,
    kpcr: u64,
    prcb: u64,
    current: u64,
)
    requires
        control_region(g, p) == Ok::<u64, Request>(kpcr),
        field_at(p, "_KPCR"@, "Prcb"@, prcb),
        field_at(p, "_KPRCB"@, "CurrentThread"@, current),
        unreadable(g, Space::Current, kpcr.wrapping_add(prcb).wrapping_add(current), 8),
    ensures
        running_process(g, p) == Ok::<Option<u64>, Request>(None),
        running_tid(g, p) == Ok::<Option<u64>, Request>(None),
        running_process_and_tables(g, p) == Ok::<Option<(u64, u64)>, Request>(None),
{
    broadcast use {group_memory, group_symbols};

}

/// A thread whose process is unknown or cannot be read runs for none.
pub proof fn threads_without_a_process(
    g: GuestView,
    p: &VolatilityJson,
    thread: u64,
    apc: u64,
    process: u64,
)
    requires
        runs_thread(g, p, thread),
        lacks_field(p, "_KTHREAD"@, "ApcState"@) || lacks_field(p, "_KAPC_STATE"@, "Process"@) || (
        field_at(p, "_KTHREAD"@, "ApcState"@, apc) && field_at(
            p,
            "_KAPC_STATE"@,
            "Process"@,
            process,
        ) && unreadable(g, Space::Current, thread.wrapping_add(apc).wrapping_add(process), 8)),
    ensures
        running_process(g, p) == Ok::<Option<u64>, Request>(None),
        running_process_and_tables(g, p) == Ok::<Option<(u64, u64)>, Request>(None),
{
    broadcast use {group_memory, group_symbols};

    lemma_thread(g, p, thread);
}

/// A thread whose id is unknown or cannot be read has none.
pub proof fn threads_without_an_id(
    g: GuestView,
    p: &VolatilityJson,
    thread: u64,
    cid: u64,
    unique: u64,
)
    requires
        runs_thread(g, p, thread),
        lacks_field(p, "_ETHREAD"@, "Cid"@) || lacks_field(p, "_CLIENT_ID"@, "UniqueThread"@) || (
        field_at(p, "_ETHREAD"@, "Cid"@, cid) && field_at(
            p,
            "_CLIENT_ID"@,
            "UniqueThread"@,
            unique,
        ) && unreadable(g, Space::Current, thread.wrapping_add(cid).wrapping_add(unique), 8)),
    ensures
        running_tid(g, p) == Ok::<Option<u64>, Request>(None),
{
    broadcast use {group_memory, group_symbols};

    lemma_thread(g, p, thread);
}

/// A process whose page tables are unknown or cannot be read comes without.
pub proof fn processes_without_tables(g: GuestView, p: &VolatilityJson, eprocess: u64, off: u64)
    requires
        runs_process(g, p, eprocess),
        lacks_field(p, "_KPROCESS"@, "DirectoryTableBase"@) || (field_at(
            p,
            "_KPROCESS"@,
            "DirectoryTableBase"@,
            off,
        ) && unreadable(g, Space::Current, eprocess.wrapping_add(off), 8)),
    ensures
        running_process_and_tables(g, p) == Ok::<Option<(u64, u64)>, Request>(None),
{
    broadcast use {group_memory, group_symbols};

    the_process_of_the_thread_runs(g, p, eprocess);
}

} // verus!
