//! Finding the kernel and what it is running: image base, processor control region, current
//! thread and process.

use crate::guest::{steady, Guest, GuestView, Request};
use crate::profile::{foff, foff_or, sym_rva, VolatilityJson};
use crate::reads::{
    bytes_at, group_reads_steady, rd_bytes, rd_u32, rd_u64, u32_at, u64_at, Space, KERNEL_MIN,
    PA_MASK,
};
use vstd::prelude::*;

verus! {

/// A general-purpose register by its number in instruction encodings (RAX=0, RCX=1, RDX=2, RBX=3,
/// RSP=4, RBP=5, RSI=6, RDI=7, R8=8 to R15=15).
pub fn reg(g: &Guest, idx: usize) -> (r: u64)
    requires
        idx < 16,
    ensures
        r == g@.regs.gpr[idx as int],
{
    g.regs().gpr[idx]
}

// ---- kernel base ------------------------------------------------------------------------------

/// A PE image is mapped at `base`: it starts with MZ, and the header offset at 0x3c leads to
/// PE\0\0.
pub open spec fn pe_image(g: GuestView, base: u64) -> Result<bool, Request> {
    match bytes_at(g, Space::Current, base, 2) {
        Err(q) => Err(q),
        Ok(Some(mz)) if mz == seq![0x4du8, 0x5a] => match u32_at(
            g,
            Space::Current,
            base.wrapping_add(0x3c),
        ) {
            Err(q) => Err(q),
            Ok(None) => Ok(false),
            Ok(Some(e_lfanew)) => match bytes_at(
                g,
                Space::Current,
                base.wrapping_add(e_lfanew as u64),
                4,
            ) {
                Err(q) => Err(q),
                Ok(None) => Ok(false),
                Ok(Some(sig)) => Ok(sig == seq![0x50u8, 0x45, 0, 0]),
            },
        },
        Ok(_) => Ok(false),
    }
}

/// The image base if `entry` is where syscalls enter: LSTAR less the symbol's relative address,
/// provided that leaves something and a PE image is there.
pub open spec fn base_by_entry(g: GuestView, p: &VolatilityJson, entry: Seq<char>) -> Result<
    Option<u64>,
    Request,
> {
    match p.rva(entry) {
        Some(rva) if g.regs.lstar > rva => match pe_image(g, (g.regs.lstar - rva) as u64) {
            Err(q) => Err(q),
            Ok(true) => Ok(Some((g.regs.lstar - rva) as u64)),
            Ok(false) => Ok(None),
        },
        _ => Ok(None),
    }
}

/// The ntoskrnl base by either syscall entry, the shadow entry first; 0 where neither fits.
pub open spec fn image_base(g: GuestView, p: &VolatilityJson) -> Result<u64, Request> {
    if g.regs.lstar == 0 {
        Ok(0)
    } else {
        match base_by_entry(g, p, "KiSystemCall64Shadow"@) {
            Err(q) => Err(q),
            Ok(Some(base)) => Ok(base),
            Ok(None) => match base_by_entry(g, p, "KiSystemCall64"@) {
                Err(q) => Err(q),
                Ok(Some(base)) => Ok(base),
                Ok(None) => Ok(0),
            },
        }
    }
}

/// The base that was found before, or else the one found now.
pub open spec fn known_base(cached: u64, g: GuestView, p: &VolatilityJson) -> Result<u64, Request> {
    if cached != 0 {
        Ok(cached)
    } else {
        image_base(g, p)
    }
}

pub fn is_pe_image(g: &Guest, base: u64) -> (r: Result<bool, Request>)
    ensures
        r == pe_image(g@, base),
{
    match rd_bytes(g, Space::Current, base, 2)? {
        Some(mz) => if mz[0] == 0x4d && mz[1] == 0x5a {
            assert(mz@ =~= seq![0x4du8, 0x5a]);
        } else {
            return Ok(false);
        },
        None => return Ok(false),
    }
    match rd_u32(g, Space::Current, base.wrapping_add(0x3c))? {
        Some(e_lfanew) => match rd_bytes(
            g,
            Space::Current,
            base.wrapping_add(e_lfanew as u64),
            4,
        )? {
            Some(sig) => {
                let is_pe = sig[0] == 0x50 && sig[1] == 0x45 && sig[2] == 0 && sig[3] == 0;
                assert(is_pe == (sig@ =~= seq![0x50u8, 0x45, 0, 0]));
                Ok(is_pe)
            },
            None => Ok(false),
        },
        None => Ok(false),
    }
}

fn base_from_entry(g: &Guest, p: &VolatilityJson, entry: &str) -> (r: Result<Option<u64>, Request>)
    ensures
        r == base_by_entry(g@, p, entry@),
{
    let lstar = g.regs().lstar;
    match sym_rva(p, entry) {
        Some(rva) => if lstar > rva {
            let base = lstar - rva;
            if is_pe_image(g, base)? {
                Ok(Some(base))
            } else {
                Ok(None)
            }
        } else {
            Ok(None)
        },
        None => Ok(None),
    }
}

/// Determines the ntoskrnl base: IA32_LSTAR holds the syscall entry (the shadow one where kernel
/// page tables are isolated), and its relative address is in the profile. 0 on failure.
pub fn determine_kaslr_offset(g: &Guest, p: &VolatilityJson) -> (r: Result<u64, Request>)
    ensures
        r == image_base(g@, p),
{
    if g.regs().lstar == 0 {
        return Ok(0);
    }
    match base_from_entry(g, p, "KiSystemCall64Shadow")? {
        Some(base) => return Ok(base),
        None => {},
    }
    match base_from_entry(g, p, "KiSystemCall64")? {
        Some(base) => Ok(base),
        None => Ok(0),
    }
}

/// The ntoskrnl base, kept in `cache` once it has been found; 0 while it cannot be determined.
pub fn kernel_base(cache: &mut u64, g: &Guest, p: &VolatilityJson) -> (r: Result<u64, Request>)
    ensures
        r == known_base(*old(cache), g@, p),
        *final(cache) == match r {
            Ok(base) => base,
            Err(_) => *old(cache),
        },
{
    if *cache != 0 {
        return Ok(*cache);
    }
    let base = determine_kaslr_offset(g, p)?;
    *cache = base;
    Ok(base)
}

// ---- current thread and process ---------------------------------------------------------------

/// The KPCR is the one of the two GS bases whose Self pointer points back at it; failing that,
/// the swapped-out base where it lies in the kernel half, else the active one.
pub open spec fn control_region(g: GuestView, p: &VolatilityJson) -> Result<u64, Request> {
    let kgs = g.regs.kernel_gs_base;
    let gsb = g.regs.gs_base;
    let self_off = p.offset_or("_KPCR"@, "Self"@, 0x18);
    match u64_at(g, Space::Current, kgs.wrapping_add(self_off)) {
        Err(q) => Err(q),
        Ok(at_kgs) => if at_kgs == Some(kgs) {
            Ok(kgs)
        } else {
            match u64_at(g, Space::Current, gsb.wrapping_add(self_off)) {
                Err(q) => Err(q),
                Ok(at_gsb) => if at_gsb == Some(gsb) {
                    Ok(gsb)
                } else if kgs >= KERNEL_MIN {
                    Ok(kgs)
                } else {
                    Ok(gsb)
                },
            }
        },
    }
}

/// KPCR.Prcb.CurrentThread
pub open spec fn running_thread(g: GuestView, p: &VolatilityJson) -> Result<Option<u64>, Request> {
    match control_region(g, p) {
        Err(q) => Err(q),
        Ok(kpcr) => match (
            p.offset("_KPCR"@, "Prcb"@),
            p.offset("_KPRCB"@, "CurrentThread"@),
        ) {
            (Some(prcb), Some(thread)) => u64_at(
                g,
                Space::Current,
                kpcr.wrapping_add(prcb).wrapping_add(thread),
            ),
            _ => Ok(None),
        },
    }
}

/// KTHREAD.ApcState.Process of the current thread.
pub open spec fn running_process(g: GuestView, p: &VolatilityJson) -> Result<
    Option<u64>,
    Request,
> {
    match running_thread(g, p) {
        Err(q) => Err(q),
        Ok(None) => Ok(None),
        Ok(Some(thread)) => match (
            p.offset("_KTHREAD"@, "ApcState"@),
            p.offset("_KAPC_STATE"@, "Process"@),
        ) {
            (Some(apc), Some(process)) => u64_at(
                g,
                Space::Current,
                thread.wrapping_add(apc).wrapping_add(process),
            ),
            _ => Ok(None),
        },
    }
}

/// ETHREAD.Cid.UniqueThread of the current thread.
pub open spec fn running_tid(g: GuestView, p: &VolatilityJson) -> Result<Option<u64>, Request> {
    match running_thread(g, p) {
        Err(q) => Err(q),
        Ok(None) => Ok(None),
        Ok(Some(thread)) => match (
            p.offset("_ETHREAD"@, "Cid"@),
            p.offset("_CLIENT_ID"@, "UniqueThread"@),
        ) {
            (Some(cid), Some(tid)) => u64_at(
                g,
                Space::Current,
                thread.wrapping_add(cid).wrapping_add(tid),
            ),
            _ => Ok(None),
        },
    }
}

/// The current process and the address bits of its kernel directory base.
pub open spec fn running_process_and_tables(g: GuestView, p: &VolatilityJson) -> Result<
    Option<(u64, u64)>,
    Request,
> {
    match running_process(g, p) {
        Err(q) => Err(q),
        Ok(None) => Ok(None),
        Ok(Some(eprocess)) => match p.offset("_KPROCESS"@, "DirectoryTableBase"@) {
            None => Ok(None),
            Some(off) => match u64_at(g, Space::Current, eprocess.wrapping_add(off)) {
                Err(q) => Err(q),
                Ok(None) => Ok(None),
                Ok(Some(dtb)) => Ok(Some((eprocess, dtb & PA_MASK))),
            },
        },
    }
}

/// The KPCR of the current processor.
pub fn get_kpcr(g: &Guest, p: &VolatilityJson) -> (r: Result<u64, Request>)
    ensures
        r == control_region(g@, p),
{
    let kgs = g.regs().kernel_gs_base;
    let gsb = g.regs().gs_base;
    let self_off = foff_or(p, "_KPCR", "Self", 0x18);
    if let Some(s) = rd_u64(g, Space::Current, kgs.wrapping_add(self_off))? {
        if s == kgs {
            return Ok(kgs);
        }
    }
    if let Some(s) = rd_u64(g, Space::Current, gsb.wrapping_add(self_off))? {
        if s == gsb {
            return Ok(gsb);
        }
    }
    if kgs >= KERNEL_MIN {
        Ok(kgs)
    } else {
        Ok(gsb)
    }
}

fn current_thread(g: &Guest, p: &VolatilityJson) -> (r: Result<Option<u64>, Request>)
    ensures
        r == running_thread(g@, p),
{
    let kpcr = get_kpcr(g, p)?;
    match (foff(p, "_KPCR", "Prcb"), foff(p, "_KPRCB", "CurrentThread")) {
        (Some(prcb), Some(thread)) => rd_u64(
            g,
            Space::Current,
            kpcr.wrapping_add(prcb).wrapping_add(thread),
        ),
        _ => Ok(None),
    }
}

/// The current _EPROCESS.
pub fn current_eprocess(g: &Guest, p: &VolatilityJson) -> (r: Result<Option<u64>, Request>)
    ensures
        r == running_process(g@, p),
{
    let thread = match current_thread(g, p)? {
        Some(t) => t,
        None => return Ok(None),
    };
    match (foff(p, "_KTHREAD", "ApcState"), foff(p, "_KAPC_STATE", "Process")) {
        (Some(apc), Some(process)) => rd_u64(
            g,
            Space::Current,
            thread.wrapping_add(apc).wrapping_add(process),
        ),
        _ => Ok(None),
    }
}

/// The current thread id.
pub fn current_tid(g: &Guest, p: &VolatilityJson) -> (r: Result<Option<u64>, Request>)
    ensures
        r == running_tid(g@, p),
{
    let thread = match current_thread(g, p)? {
        Some(t) => t,
        None => return Ok(None),
    };
    match (foff(p, "_ETHREAD", "Cid"), foff(p, "_CLIENT_ID", "UniqueThread")) {
        (Some(cid), Some(tid)) => rd_u64(
            g,
            Space::Current,
            thread.wrapping_add(cid).wrapping_add(tid),
        ),
        _ => Ok(None),
    }
}

/// The current _EPROCESS and its kernel directory base. Both are mapped under the shadow tables.
pub fn current_eproc_and_dtb(g: &Guest, p: &VolatilityJson) -> (r: Result<
    Option<(u64, u64)>,
    Request,
>)
    ensures
        r == running_process_and_tables(g@, p),
{
    let eprocess = match current_eprocess(g, p)? {
        Some(e) => e,
        None => return Ok(None),
    };
    match foff(p, "_KPROCESS", "DirectoryTableBase") {
        None => Ok(None),
        Some(off) => match rd_u64(g, Space::Current, eprocess.wrapping_add(off))? {
            Some(dtb) => Ok(Some((eprocess, dtb & PA_MASK))),
            None => Ok(None),
        },
    }
}

// ---- laws -------------------------------------------------------------------------------------

/// A base that was found is that of a PE image, and one of the two syscall entries of the profile
/// lies in it exactly where LSTAR points.
pub proof fn found_base_is_an_image(g: GuestView, p: &VolatilityJson, base: u64)
    requires
        image_base(g, p) == Ok::<u64, Request>(base),
        base != 0,
    ensures
        pe_image(g, base) == Ok::<bool, Request>(true),
        exists|entry: Seq<char>|
            (entry == "KiSystemCall64Shadow"@ || entry == "KiSystemCall64"@) && (
            #[trigger] p.rva(entry) matches Some(rva) && base + rva == g.regs.lstar),
{
    if base_by_entry(g, p, "KiSystemCall64Shadow"@) == Ok::<Option<u64>, Request>(Some(base)) {
        assert(p.rva("KiSystemCall64Shadow"@) matches Some(rva) && base + rva == g.regs.lstar);
    } else {
        assert(p.rva("KiSystemCall64"@) matches Some(rva) && base + rva == g.regs.lstar);
    }
}

/// Once a base is cached it is the answer whatever the guest looks like, without a read.
pub proof fn cached_base_stays(cached: u64, g: GuestView, p: &VolatilityJson)
    requires
        cached != 0,
    ensures
        known_base(cached, g, p) == Ok::<u64, Request>(cached),
{
}

/// The directory base handed to page table walks has address bits only.
pub proof fn tables_are_page_aligned(g: GuestView, p: &VolatilityJson)
    ensures
        running_process_and_tables(g, p) matches Ok(Some((_, dtb))) ==> dtb & PA_MASK == dtb,
{
    if let Ok(Some(eprocess)) = running_process(g, p) {
        if let Some(off) = p.offset("_KPROCESS"@, "DirectoryTableBase"@) {
            if let Ok(Some(dtb)) = u64_at(g, Space::Current, eprocess.wrapping_add(off)) {
                assert((dtb & 0x000f_ffff_ffff_f000u64) & 0x000f_ffff_ffff_f000u64 == dtb
                    & 0x000f_ffff_ffff_f000u64) by (bit_vector);
            }
        }
    }
}

/// Whether there is an image is steady over a growing record.
pub broadcast proof fn pe_image_steady(g: GuestView, h: GuestView, base: u64)
    requires
        #[trigger] g.extended_by(h),
    ensures
        steady(g, h, #[trigger] pe_image(g, base), pe_image(h, base)),
{
    broadcast use group_reads_steady;

}

/// So is the kernel base.
pub broadcast proof fn image_base_steady(g: GuestView, h: GuestView, p: &VolatilityJson)
    requires
        #[trigger] g.extended_by(h),
    ensures
        steady(g, h, #[trigger] image_base(g, p), image_base(h, p)),
{
    broadcast use group_reads_steady;

}

/// So is the base taken with what was cached before.
pub broadcast proof fn known_base_steady(
    cached: u64,
    g: GuestView,
    h: GuestView,
    p: &VolatilityJson,
)
    requires
        #[trigger] g.extended_by(h),
    ensures
        steady(g, h, #[trigger] known_base(cached, g, p), known_base(cached, h, p)),
{
    broadcast use image_base_steady;

}

/// The processor control region is steady over a growing record.
pub broadcast proof fn control_region_steady(g: GuestView, h: GuestView, p: &VolatilityJson)
    requires
        #[trigger] g.extended_by(h),
    ensures
        steady(g, h, #[trigger] control_region(g, p), control_region(h, p)),
{
    broadcast use group_reads_steady;

}

broadcast proof fn running_thread_steady(g: GuestView, h: GuestView, p: &VolatilityJson)
    requires
        #[trigger] g.extended_by(h),
    ensures
        steady(g, h, #[trigger] running_thread(g, p), running_thread(h, p)),
{
    broadcast use {group_reads_steady, control_region_steady};

}

/// The current process is steady over a growing record.
pub broadcast proof fn running_process_steady(g: GuestView, h: GuestView, p: &VolatilityJson)
    requires
        #[trigger] g.extended_by(h),
    ensures
        steady(g, h, #[trigger] running_process(g, p), running_process(h, p)),
{
    broadcast use {group_reads_steady, running_thread_steady};

}

/// The current thread id is steady over a growing record.
pub broadcast proof fn running_tid_steady(g: GuestView, h: GuestView, p: &VolatilityJson)
    requires
        #[trigger] g.extended_by(h),
    ensures
        steady(g, h, #[trigger] running_tid(g, p), running_tid(h, p)),
{
    broadcast use {group_reads_steady, running_thread_steady};

}

/// The current process with its tables is steady over a growing record.
pub broadcast proof fn running_process_and_tables_steady(
    g: GuestView,
    h: GuestView,
    p: &VolatilityJson,
)
    requires
        #[trigger] g.extended_by(h),
    ensures
        steady(
            g,
            h,
            #[trigger] running_process_and_tables(g, p),
            running_process_and_tables(h, p),
        ),
{
    broadcast use {group_reads_steady, running_process_steady};

}

} // verus!
