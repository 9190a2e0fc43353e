//! Reads of guest memory: bytes, little-endian scalars and strings, either under the page tables
//! that are current or through page tables named by their directory base.
//!
//! At a syscall entry the live page tables are the user shadow tables, which do not map the
//! kernel's pool. There the walkers go through the process's own kernel tables.

use crate::guest::{ask_steady, steady, Guest, GuestView, Request};
use crate::text::{texts, utf16_lossy, utf16_lossy_chars, utf8_lossy, utf8_lossy_chars};
use vstd::prelude::*;
use vstd::slice::{slice_subrange, slice_to_vec};
use vstd::utf8::{decode_utf8, valid_utf8};

verus! {

/// Lower bound of the canonical kernel half of the address space.
pub const KERNEL_MIN: u64 = 0xffff_0000_0000_0000;

/// Physical address bits of a page table entry.
pub const PA_MASK: u64 = 0x000f_ffff_ffff_f000;

/// Which page tables an address is read under.
#[derive(Clone, Copy, Debug, PartialEq, Eq, Structural)]
pub enum Space {
    /// Those that are current.
    Current,
    /// Those with this directory base.
    Tables(u64),
}

// ---- page tables ------------------------------------------------------------------------------

/// The 8 bytes at a physical address.
pub open spec fn physical_u64(g: GuestView, pa: u64) -> Result<Option<u64>, Request> {
    le_u64_outcome(g.ask(Request::Physical { addr: pa, len: 8 }))
}

/// Where a table's entry for `va` lies. `shift` is the lowest address bit that indexes the table.
pub open spec fn entry_address(table: u64, va: u64, shift: u64) -> u64 {
    ((table & PA_MASK) + 8 * ((va >> shift) & 0x1ff)) as u64
}

/// A table's entry for `va`; `None` where it cannot be read or is not present.
pub open spec fn table_entry(g: GuestView, table: u64, va: u64, shift: u64) -> Result<
    Option<u64>,
    Request,
> {
    match physical_u64(g, entry_address(table, va, shift)) {
        Err(q) => Err(q),
        Ok(Some(e)) if e & 1 != 0 => Ok(Some(e)),
        Ok(_) => Ok(None),
    }
}

/// The physical address of `va` under 4-level page tables, 1 GiB and 2 MiB pages included.
pub open spec fn translation(g: GuestView, dtb: u64, va: u64) -> Result<Option<u64>, Request> {
    match table_entry(g, dtb, va, 39) {
        Err(q) => Err(q),
        Ok(None) => Ok(None),
        Ok(Some(pml4e)) => match table_entry(g, pml4e, va, 30) {
            Err(q) => Err(q),
            Ok(None) => Ok(None),
            Ok(Some(pdpte)) => if pdpte & 0x80 != 0 {
                Ok(Some((pdpte & 0x000f_ffff_c000_0000) | (va & 0x3fff_ffff)))
            } else {
                match table_entry(g, pdpte, va, 21) {
                    Err(q) => Err(q),
                    Ok(None) => Ok(None),
                    Ok(Some(pde)) => if pde & 0x80 != 0 {
                        Ok(Some((pde & 0x000f_ffff_ffe0_0000) | (va & 0x1f_ffff)))
                    } else {
                        match table_entry(g, pde, va, 12) {
                            Err(q) => Err(q),
                            Ok(None) => Ok(None),
                            Ok(Some(pte)) => Ok(Some((pte & PA_MASK) | (va & 0xfff))),
                        }
                    },
                }
            },
        },
    }
}

pub fn phys_u64(g: &Guest, pa: u64) -> (r: Result<Option<u64>, Request>)
    ensures
        r == physical_u64(g@, pa),
{
    match g.read(Request::Physical { addr: pa, len: 8 })? {
        Some(b) => Ok(Some(le_u64(b))),
        None => Ok(None),
    }
}

fn read_entry(g: &Guest, table: u64, va: u64, shift: u64) -> (r: Result<Option<u64>, Request>)
    requires
        shift < 64,
    ensures
        r == table_entry(g@, table, va, shift),
{
    assert((table & 0x000f_ffff_ffff_f000u64) + 8 * ((va >> shift) & 0x1ff)
        <= 0xffff_ffff_ffff_ffffu64) by (bit_vector);
    let slot: u64 = (va >> shift) & 0x1ff;
    assert((va >> shift) & 0x1ff <= 0x1ff) by (bit_vector);
    match phys_u64(g, (table & PA_MASK) + 8 * slot)? {
        Some(e) => if e & 1 != 0 {
            Ok(Some(e))
        } else {
            Ok(None)
        },
        None => Ok(None),
    }
}

/// Translates a virtual address by a walk of the page tables at `dtb`.
pub fn translate(g: &Guest, dtb: u64, va: u64) -> (r: Result<Option<u64>, Request>)
    ensures
        r == translation(g@, dtb, va),
{
    let pml4e = match read_entry(g, dtb, va, 39)? {
        Some(e) => e,
        None => return Ok(None),
    };
    let pdpte = match read_entry(g, pml4e, va, 30)? {
        Some(e) => e,
        None => return Ok(None),
    };
    if pdpte & 0x80 != 0 {
        return Ok(Some((pdpte & 0x000f_ffff_c000_0000) | (va & 0x3fff_ffff)));
    }
    let pde = match read_entry(g, pdpte, va, 21)? {
        Some(e) => e,
        None => return Ok(None),
    };
    if pde & 0x80 != 0 {
        return Ok(Some((pde & 0x000f_ffff_ffe0_0000) | (va & 0x1f_ffff)));
    }
    match read_entry(g, pde, va, 12)? {
        Some(pte) => Ok(Some((pte & PA_MASK) | (va & 0xfff))),
        None => Ok(None),
    }
}

/// A translation keeps the offset within the page and stays below 2^52.
pub proof fn translation_keeps_the_offset(g: GuestView, dtb: u64, va: u64)
    ensures
        translation(g, dtb, va) matches Ok(Some(pa)) ==> pa % 0x1000 == va % 0x1000 && pa
            < 0x10_0000_0000_0000,
{
    assert(forall|e: u64|
        (#[trigger] (e & 0x000f_ffff_c000_0000) | (va & 0x3fff_ffff)) % 0x1000 == va % 0x1000 && ((e
            & 0x000f_ffff_c000_0000) | (va & 0x3fff_ffff)) < 0x10_0000_0000_0000u64) by (bit_vector);
    assert(forall|e: u64|
        (#[trigger] (e & 0x000f_ffff_ffe0_0000) | (va & 0x1f_ffff)) % 0x1000 == va % 0x1000 && ((e
            & 0x000f_ffff_ffe0_0000) | (va & 0x1f_ffff)) < 0x10_0000_0000_0000u64) by (bit_vector);
    assert(forall|e: u64|
        (#[trigger] (e & 0x000f_ffff_ffff_f000) | (va & 0xfff)) % 0x1000 == va % 0x1000 && ((e
            & 0x000f_ffff_ffff_f000) | (va & 0xfff)) < 0x10_0000_0000_0000u64) by (bit_vector);
}

/// Addresses on one page are translated alike: to one frame, or not at all.
pub proof fn one_page_one_frame(g: GuestView, dtb: u64, va: u64, vb: u64)
    requires
        va / 0x1000 == vb / 0x1000,
    ensures
        match translation(g, dtb, va) {
            Ok(Some(pa)) => translation(g, dtb, vb) matches Ok(Some(pb)) && pa / 0x1000 == pb
                / 0x1000,
            other => translation(g, dtb, vb) == other,
        },
{
    assert((va >> 39) == (vb >> 39) && (va >> 30) == (vb >> 30) && (va >> 21) == (vb >> 21) && (va
        >> 12) == (vb >> 12)) by (bit_vector)
        requires
            va / 0x1000 == vb / 0x1000,
    ;
    assert(forall|e: u64|
        (#[trigger] (e & 0x000f_ffff_c000_0000) | (va & 0x3fff_ffff)) / 0x1000 == ((e
            & 0x000f_ffff_c000_0000) | (vb & 0x3fff_ffff)) / 0x1000) by (bit_vector)
        requires
            va / 0x1000 == vb / 0x1000,
    ;
    assert(forall|e: u64|
        (#[trigger] (e & 0x000f_ffff_ffe0_0000) | (va & 0x1f_ffff)) / 0x1000 == ((e
            & 0x000f_ffff_ffe0_0000) | (vb & 0x1f_ffff)) / 0x1000) by (bit_vector)
        requires
            va / 0x1000 == vb / 0x1000,
    ;
    assert(forall|e: u64|
        (#[trigger] (e & 0x000f_ffff_ffff_f000) | (va & 0xfff)) / 0x1000 == ((e
            & 0x000f_ffff_ffff_f000) | (vb & 0xfff)) / 0x1000) by (bit_vector)
        requires
            va / 0x1000 == vb / 0x1000,
    ;
}

/// Only the address bits of the directory base count, and of an address the lower 48.
pub proof fn translation_by_address_bits(g: GuestView, dtb: u64, other: u64, va: u64, vb: u64)
    requires
        dtb & PA_MASK == other & PA_MASK,
        va % 0x1_0000_0000_0000 == vb % 0x1_0000_0000_0000,
    ensures
        translation(g, dtb, va) == translation(g, other, vb),
{
    assert({
        &&& (va >> 39) & 0x1ff == (vb >> 39) & 0x1ff
        &&& (va >> 30) & 0x1ff == (vb >> 30) & 0x1ff
        &&& (va >> 21) & 0x1ff == (vb >> 21) & 0x1ff
        &&& (va >> 12) & 0x1ff == (vb >> 12) & 0x1ff
        &&& va & 0x3fff_ffff == vb & 0x3fff_ffff
        &&& va & 0x1f_ffff == vb & 0x1f_ffff
        &&& va & 0xfff == vb & 0xfff
    }) by (bit_vector)
        requires
            va % 0x1_0000_0000_0000 == vb % 0x1_0000_0000_0000,
    ;
}

// ---- bytes ------------------------------------------------------------------------------------

/// How many of `len` bytes at `va` lie on its page.
pub open spec fn on_page(va: u64, len: nat) -> nat {
    if len <= 0x1000 - va % 0x1000 {
        len
    } else {
        (0x1000 - va % 0x1000) as nat
    }
}

/// `len` bytes at `va` through the tables at `dtb`, page by page; `None` unless every page is
/// mapped and readable. Addresses wrap at the end of the address space.
pub open spec fn mapped_bytes(g: GuestView, dtb: u64, va: u64, len: nat) -> Result<
    Option<Seq<u8>>,
    Request,
>
    decreases len,
{
    if len == 0 {
        Ok(Some(seq![]))
    } else {
        let here = on_page(va, len);
        match translation(g, dtb, va) {
            Err(q) => Err(q),
            Ok(None) => Ok(None),
            Ok(Some(pa)) => match g.ask(Request::Physical { addr: pa, len: here as usize }) {
                Err(q) => Err(q),
                Ok(None) => Ok(None),
                Ok(Some(bytes)) => match mapped_bytes(
                    g,
                    dtb,
                    va.wrapping_add(here as u64),
                    (len - here) as nat,
                ) {
                    Err(q) => Err(q),
                    Ok(None) => Ok(None),
                    Ok(Some(rest)) => Ok(Some(bytes + rest)),
                },
            },
        }
    }
}

/// `len` bytes at `addr`.
pub open spec fn bytes_at(g: GuestView, space: Space, addr: u64, len: usize) -> Result<
    Option<Seq<u8>>,
    Request,
> {
    match space {
        Space::Current => g.ask(Request::Virtual { addr, len }),
        Space::Tables(dtb) => mapped_bytes(g, dtb, addr, len as nat),
    }
}

pub open spec fn bytes_outcome(r: Result<Option<Vec<u8>>, Request>) -> Result<
    Option<Seq<u8>>,
    Request,
> {
    match r {
        Err(q) => Err(q),
        Ok(None) => Ok(None),
        Ok(Some(b)) => Ok(Some(b@)),
    }
}

proof fn lemma_mapped_len(g: GuestView, dtb: u64, va: u64, len: nat)
    requires
        len <= usize::MAX,
    ensures
        mapped_bytes(g, dtb, va, len) matches Ok(Some(b)) ==> b.len() == len,
    decreases len,
{
    if len > 0 {
        let here = on_page(va, len);
        lemma_mapped_len(g, dtb, va.wrapping_add(here as u64), (len - here) as nat);
    }
}

/// The record says that the byte at a physical address is `b`.
pub open spec fn physical_byte(g: GuestView, pa: u64, b: u8) -> bool {
    exists|addr: u64, len: usize|
        addr <= pa < addr + len && (#[trigger] g.ask(Request::Physical { addr, len }) matches Ok(
            Some(bytes),
        ) && bytes[pa - addr] == b)
}

proof fn lemma_byte_on_page(g: GuestView, dtb: u64, va: u64, here: usize, k: nat)
    requires
        k < here,
        here <= 0x1000 - va % 0x1000,
        translation(g, dtb, va) matches Ok(Some(pa)) && g.ask(
            Request::Physical { addr: pa, len: here },
        ) matches Ok(Some(_)),
    ensures
        translation(g, dtb, va.wrapping_add(k as u64)) matches Ok(Some(pk)) && physical_byte(
            g,
            pk,
            g.ask(
                Request::Physical { addr: translation(g, dtb, va).unwrap().unwrap(), len: here },
            ).unwrap().unwrap()[k as int],
        ),
{
    let pa = translation(g, dtb, va).unwrap().unwrap();
    let vk = va.wrapping_add(k as u64);
    assert(vk == va + k);
    assert(va / 0x1000 == vk / 0x1000);
    one_page_one_frame(g, dtb, va, vk);
    translation_keeps_the_offset(g, dtb, va);
    translation_keeps_the_offset(g, dtb, vk);
    let pk = translation(g, dtb, vk).unwrap().unwrap();
    assert(pk == pa + k);
}

/// Each byte that is read through page tables is the one at its own address's translation.
pub proof fn bytes_are_translated_one_by_one(g: GuestView, dtb: u64, va: u64, len: nat, k: nat)
    requires
        k < len,
        len <= usize::MAX,
    ensures
        mapped_bytes(g, dtb, va, len) matches Ok(Some(b)) ==> (translation(
            g,
            dtb,
            va.wrapping_add(k as u64),
        ) matches Ok(Some(pa)) && physical_byte(g, pa, b[k as int])),
    decreases len,
{
    let here = on_page(va, len);
    if let Ok(Some(b)) = mapped_bytes(g, dtb, va, len) {
        let next = va.wrapping_add(here as u64);
        let left = (len - here) as nat;
        let rest = mapped_bytes(g, dtb, next, left).unwrap().unwrap();
        lemma_mapped_len(g, dtb, next, left);
        if k < here {
            lemma_byte_on_page(g, dtb, va, here as usize, k);
        } else {
            bytes_are_translated_one_by_one(g, dtb, next, left, (k - here) as nat);
            assert(va.wrapping_add(k as u64) == next.wrapping_add((k - here) as u64));
            assert(b[k as int] == rest[k - here]);
        }
    }
}

/// Reads that succeed deliver exactly the bytes asked for.
pub proof fn bytes_at_len(g: GuestView, space: Space, addr: u64, len: usize)
    ensures
        bytes_at(g, space, addr, len) matches Ok(Some(b)) ==> b.len() == len,
{
    if let Space::Tables(dtb) = space {
        lemma_mapped_len(g, dtb, addr, len as nat);
    }
}

spec fn prefixed(done: Seq<u8>, r: Result<Option<Seq<u8>>, Request>) -> Result<
    Option<Seq<u8>>,
    Request,
> {
    match r {
        Ok(Some(rest)) => Ok(Some(done + rest)),
        _ => r,
    }
}

/// `len` bytes at `va` through the page tables at `dtb`.
pub fn rd_bytes_dtb(g: &Guest, dtb: u64, va: u64, len: usize) -> (r: Result<
    Option<Vec<u8>>,
    Request,
>)
    ensures
        bytes_outcome(r) == mapped_bytes(g@, dtb, va, len as nat),
{
    let mut out: Vec<u8> = Vec::new();
    let mut cur: u64 = va;
    let mut rem: usize = len;
    proof {
        let whole = mapped_bytes(g@, dtb, va, len as nat);
        if let Ok(Some(b)) = whole {
            assert(out@ + b =~= b);
        }
    }
    while rem > 0
        invariant
            mapped_bytes(g@, dtb, va, len as nat) == prefixed(
                out@,
                mapped_bytes(g@, dtb, cur, rem as nat),
            ),
        decreases rem,
    {
        let pa = match translate(g, dtb, cur)? {
            Some(pa) => pa,
            None => return Ok(None),
        };
        let left_on_page: usize = 0x1000 - (cur % 0x1000) as usize;
        let here: usize = if rem <= left_on_page {
            rem
        } else {
            left_on_page
        };
        let bytes = match g.read(Request::Physical { addr: pa, len: here })? {
            Some(b) => b,
            None => return Ok(None),
        };
        let ghost done = out@;
        let mut copy = slice_to_vec(bytes.as_slice());
        out.append(&mut copy);
        let ghost after = mapped_bytes(
            g@,
            dtb,
            cur.wrapping_add(here as u64),
            (rem - here) as nat,
        );
        proof {
            if let Ok(Some(rest)) = after {
                assert(done + (bytes@ + rest) =~= out@ + rest);
            }
        }
        cur = cur.wrapping_add(here as u64);
        rem = rem - here;
    }
    assert(out@ + Seq::<u8>::empty() =~= out@);
    Ok(Some(out))
}

/// `len` bytes at `addr`.
pub fn rd_bytes(g: &Guest, space: Space, addr: u64, len: usize) -> (r: Result<
    Option<Vec<u8>>,
    Request,
>)
    ensures
        bytes_outcome(r) == bytes_at(g@, space, addr, len),
        r matches Ok(Some(b)) ==> b.len() == len,
{
    proof {
        bytes_at_len(g@, space, addr, len);
    }
    match space {
        Space::Current => match g.read(Request::Virtual { addr, len })? {
            Some(b) => Ok(Some(slice_to_vec(b.as_slice()))),
            None => Ok(None),
        },
        Space::Tables(dtb) => rd_bytes_dtb(g, dtb, addr, len),
    }
}

// ---- scalars ----------------------------------------------------------------------------------

pub open spec fn le_u16_value(b: Seq<u8>) -> u16 {
    (b[0] + 0x100 * b[1]) as u16
}

pub open spec fn le_u32_value(b: Seq<u8>) -> u32 {
    (b[0] + 0x100 * b[1] + 0x1_0000 * b[2] + 0x100_0000 * b[3]) as u32
}

pub open spec fn le_u64_value(b: Seq<u8>) -> u64 {
    (le_u32_value(b) + 0x1_0000_0000 * le_u32_value(b.skip(4))) as u64
}

fn le_u16(b: &Vec<u8>) -> (r: u16)
    requires
        b.len() == 2,
    ensures
        r == le_u16_value(b@),
{
    b[0] as u16 + 0x100 * b[1] as u16
}

fn le_u32_from(b: &Vec<u8>, i: usize) -> (r: u32)
    requires
        i + 4 <= b.len(),
    ensures
        r == le_u32_value(b@.skip(i as int)),
{
    b[i] as u32 + 0x100 * b[i + 1] as u32 + 0x1_0000 * b[i + 2] as u32 + 0x100_0000 * b[i
        + 3] as u32
}

fn le_u64(b: &Vec<u8>) -> (r: u64)
    requires
        b.len() == 8,
    ensures
        r == le_u64_value(b@),
{
    assert(b@.skip(0) =~= b@);
    le_u32_from(b, 0) as u64 + 0x1_0000_0000 * le_u32_from(b, 4) as u64
}

pub open spec fn le_u64_outcome(r: Result<Option<Seq<u8>>, Request>) -> Result<
    Option<u64>,
    Request,
> {
    match r {
        Err(q) => Err(q),
        Ok(None) => Ok(None),
        Ok(Some(b)) => Ok(Some(le_u64_value(b))),
    }
}

pub open spec fn u64_at(g: GuestView, space: Space, addr: u64) -> Result<Option<u64>, Request> {
    le_u64_outcome(bytes_at(g, space, addr, 8))
}

pub open spec fn u32_at(g: GuestView, space: Space, addr: u64) -> Result<Option<u32>, Request> {
    match bytes_at(g, space, addr, 4) {
        Err(q) => Err(q),
        Ok(None) => Ok(None),
        Ok(Some(b)) => Ok(Some(le_u32_value(b))),
    }
}

pub open spec fn u16_at(g: GuestView, space: Space, addr: u64) -> Result<Option<u16>, Request> {
    match bytes_at(g, space, addr, 2) {
        Err(q) => Err(q),
        Ok(None) => Ok(None),
        Ok(Some(b)) => Ok(Some(le_u16_value(b))),
    }
}

pub open spec fn u8_at(g: GuestView, space: Space, addr: u64) -> Result<Option<u8>, Request> {
    match bytes_at(g, space, addr, 1) {
        Err(q) => Err(q),
        Ok(None) => Ok(None),
        Ok(Some(b)) => Ok(Some(b[0])),
    }
}

/// A read whose failure counts as zero.
pub open spec fn u64_or_zero(g: GuestView, space: Space, addr: u64) -> Result<u64, Request> {
    match u64_at(g, space, addr) {
        Err(q) => Err(q),
        Ok(None) => Ok(0),
        Ok(Some(v)) => Ok(v),
    }
}

pub open spec fn u32_or_zero(g: GuestView, space: Space, addr: u64) -> Result<u32, Request> {
    match u32_at(g, space, addr) {
        Err(q) => Err(q),
        Ok(None) => Ok(0),
        Ok(Some(v)) => Ok(v),
    }
}

pub open spec fn u16_or_zero(g: GuestView, space: Space, addr: u64) -> Result<u16, Request> {
    match u16_at(g, space, addr) {
        Err(q) => Err(q),
        Ok(None) => Ok(0),
        Ok(Some(v)) => Ok(v),
    }
}

pub open spec fn u8_or_zero(g: GuestView, space: Space, addr: u64) -> Result<u8, Request> {
    match u8_at(g, space, addr) {
        Err(q) => Err(q),
        Ok(None) => Ok(0),
        Ok(Some(v)) => Ok(v),
    }
}

pub fn rd_u64(g: &Guest, space: Space, addr: u64) -> (r: Result<Option<u64>, Request>)
    ensures
        r == u64_at(g@, space, addr),
{
    match rd_bytes(g, space, addr, 8)? {
        Some(b) => Ok(Some(le_u64(&b))),
        None => Ok(None),
    }
}

pub fn rd_u32(g: &Guest, space: Space, addr: u64) -> (r: Result<Option<u32>, Request>)
    ensures
        r == u32_at(g@, space, addr),
{
    match rd_bytes(g, space, addr, 4)? {
        Some(b) => {
            assert(b@.skip(0) =~= b@);
            Ok(Some(le_u32_from(&b, 0)))
        },
        None => Ok(None),
    }
}

pub fn rd_u16(g: &Guest, space: Space, addr: u64) -> (r: Result<Option<u16>, Request>)
    ensures
        r == u16_at(g@, space, addr),
{
    match rd_bytes(g, space, addr, 2)? {
        Some(b) => Ok(Some(le_u16(&b))),
        None => Ok(None),
    }
}

pub fn rd_u8(g: &Guest, space: Space, addr: u64) -> (r: Result<Option<u8>, Request>)
    ensures
        r == u8_at(g@, space, addr),
{
    match rd_bytes(g, space, addr, 1)? {
        Some(b) => Ok(Some(b[0])),
        None => Ok(None),
    }
}

pub(crate) fn rd_u64_or_zero(g: &Guest, space: Space, addr: u64) -> (r: Result<u64, Request>)
    ensures
        r == u64_or_zero(g@, space, addr),
{
    match rd_u64(g, space, addr)? {
        Some(v) => Ok(v),
        None => Ok(0),
    }
}

pub(crate) fn rd_u32_or_zero(g: &Guest, space: Space, addr: u64) -> (r: Result<u32, Request>)
    ensures
        r == u32_or_zero(g@, space, addr),
{
    match rd_u32(g, space, addr)? {
        Some(v) => Ok(v),
        None => Ok(0),
    }
}

pub(crate) fn rd_u16_or_zero(g: &Guest, space: Space, addr: u64) -> (r: Result<u16, Request>)
    ensures
        r == u16_or_zero(g@, space, addr),
{
    match rd_u16(g, space, addr)? {
        Some(v) => Ok(v),
        None => Ok(0),
    }
}

pub(crate) fn rd_u8_or_zero(g: &Guest, space: Space, addr: u64) -> (r: Result<u8, Request>)
    ensures
        r == u8_or_zero(g@, space, addr),
{
    match rd_u8(g, space, addr)? {
        Some(v) => Ok(v),
        None => Ok(0),
    }
}

// ---- strings ----------------------------------------------------------------------------------

/// The outcome of a query for text.
pub open spec fn text_outcome(r: Result<String, Request>) -> Result<Seq<char>, Request> {
    match r {
        Err(q) => Err(q),
        Ok(s) => Ok(s@),
    }
}

/// The lines of an answer.
pub open spec fn lines_outcome(r: Result<Vec<String>, Request>) -> Result<Seq<Seq<char>>, Request> {
    match r {
        Err(q) => Err(q),
        Ok(v) => Ok(texts(v@)),
    }
}

/// How many bytes stand before the first zero byte.
pub open spec fn nul_position(b: Seq<u8>) -> nat
    decreases b.len(),
{
    if b.len() == 0 || b[0] == 0 {
        0
    } else {
        1 + nul_position(b.skip(1))
    }
}

/// The bytes before the first zero byte among `max`, as text; empty where they cannot be read.
pub open spec fn c_string(g: GuestView, addr: u64, max: usize) -> Result<Seq<char>, Request> {
    match bytes_at(g, Space::Current, addr, max) {
        Err(q) => Err(q),
        Ok(None) => Ok(seq![]),
        Ok(Some(b)) => Ok(utf8_lossy_chars(b.take(nul_position(b) as int))),
    }
}

proof fn lemma_nul_position(b: Seq<u8>, n: int)
    requires
        0 <= n <= b.len(),
        forall|i: int| 0 <= i < n ==> b[i] != 0,
        n == b.len() || b[n] == 0,
    ensures
        nul_position(b) == n,
    decreases b.len(),
{
    if n > 0 {
        lemma_nul_position(b.skip(1), n - 1);
    }
}

/// Reads a C string of at most `max` bytes. Well-formed UTF-8 is read as the text it encodes.
pub fn rd_cstr(g: &Guest, addr: u64, max: usize) -> (r: Result<String, Request>)
    ensures
        text_outcome(r) == c_string(g@, addr, max),
        bytes_at(g@, Space::Current, addr, max) matches Ok(Some(b)) ==> {
            let text = b.take(nul_position(b) as int);
            valid_utf8(text) ==> text_outcome(r) == Ok::<Seq<char>, Request>(decode_utf8(text))
        },
{
    match rd_bytes(g, Space::Current, addr, max)? {
        Some(b) => {
            let mut n: usize = 0;
            while n < b.len() && b[n] != 0
                invariant
                    n <= b.len(),
                    forall|i: int| 0 <= i < n ==> b@[i] != 0,
                decreases b.len() - n,
            {
                n += 1;
            }
            proof {
                lemma_nul_position(b@, n as int);
            }
            Ok(utf8_lossy(slice_subrange(b.as_slice(), 0, n)))
        },
        None => Ok(String::new()),
    }
}

/// The little-endian 16-bit units of a byte string; an odd last byte is dropped.
pub open spec fn le_units(b: Seq<u8>) -> Seq<u16> {
    Seq::new(b.len() / 2, |i: int| (b[2 * i] + 0x100 * b[2 * i + 1]) as u16)
}

fn units_of(b: &Vec<u8>) -> (r: Vec<u16>)
    ensures
        r@ == le_units(b@),
{
    let n: usize = b.len() / 2;
    let mut r: Vec<u16> = Vec::new();
    let mut i: usize = 0;
    while i < n
        invariant
            n == b.len() / 2,
            i <= n,
            r@ == le_units(b@).take(i as int),
        decreases n - i,
    {
        r.push(b[2 * i] as u16 + 0x100 * b[2 * i + 1] as u16);
        i += 1;
        assert(r@ =~= le_units(b@).take(i as int));
    }
    assert(r@ =~= le_units(b@));
    r
}

/// UTF-16 text in little-endian bytes.
pub open spec fn utf16_bytes_chars(b: Seq<u8>) -> Seq<char> {
    utf16_lossy_chars(le_units(b))
}

pub(crate) fn utf16_bytes(b: &Vec<u8>) -> (r: String)
    ensures
        r@ == utf16_bytes_chars(b@),
{
    utf16_lossy(&units_of(b))
}

/// A _UNICODE_STRING: byte length (u16) at 0, buffer address at 8. Empty where its length is zero
/// or over 0x400, where the buffer is null, and where anything cannot be read.
pub open spec fn unicode_string(g: GuestView, space: Space, addr: u64) -> Result<
    Seq<char>,
    Request,
> {
    match u16_or_zero(g, space, addr) {
        Err(q) => Err(q),
        Ok(len) => if len == 0 || len > 0x400 {
            Ok(seq![])
        } else {
            match u64_or_zero(g, space, addr.wrapping_add(8)) {
                Err(q) => Err(q),
                Ok(buf) => if buf == 0 {
                    Ok(seq![])
                } else {
                    match bytes_at(g, space, buf, len as usize) {
                        Err(q) => Err(q),
                        Ok(None) => Ok(seq![]),
                        Ok(Some(b)) => Ok(utf16_bytes_chars(b)),
                    }
                },
            }
        },
    }
}

/// Reads a _UNICODE_STRING.
pub fn rd_unicode_string(g: &Guest, space: Space, addr: u64) -> (r: Result<String, Request>)
    ensures
        text_outcome(r) == unicode_string(g@, space, addr),
{
    let len: usize = rd_u16_or_zero(g, space, addr)? as usize;
    if len == 0 || len > 0x400 {
        return Ok(String::new());
    }
    let buf = rd_u64_or_zero(g, space, addr.wrapping_add(8))?;
    if buf == 0 {
        return Ok(String::new());
    }
    match rd_bytes(g, space, buf, len)? {
        Some(b) => Ok(utf16_bytes(&b)),
        None => Ok(String::new()),
    }
}

// ---- both routes ------------------------------------------------------------------------------

/// Two queries do not contradict each other: where both have finished, they say the same.
pub open spec fn agree<T>(a: Result<T, Request>, b: Result<T, Request>) -> bool {
    a is Ok && b is Ok ==> a == b
}

/// As far as both have been read, the tables at `dtb` show the same bytes as the current ones.
pub open spec fn same_memory(g: GuestView, dtb: u64) -> bool {
    forall|addr: u64, len: usize|
        agree(
            #[trigger] bytes_at(g, Space::Current, addr, len),
            bytes_at(g, Space::Tables(dtb), addr, len),
        )
}

/// `len` bytes at `addr` all lie in the kernel half.
pub open spec fn in_kernel(addr: u64, len: nat) -> bool {
    KERNEL_MIN <= addr && addr + len <= 0x1_0000_0000_0000_0000
}

/// As far as both have been read, the tables at `dtb` show the same bytes of the kernel half as the
/// current ones.
pub open spec fn same_kernel_memory(g: GuestView, dtb: u64) -> bool {
    forall|addr: u64, len: usize|
        in_kernel(addr, len as nat) ==> agree(
            #[trigger] bytes_at(g, Space::Current, addr, len),
            bytes_at(g, Space::Tables(dtb), addr, len),
        )
}

/// Then words there do not differ either.
pub proof fn same_kernel_words(g: GuestView, dtb: u64)
    requires
        same_kernel_memory(g, dtb),
    ensures
        forall|a: u64|
            in_kernel(a, 8) ==> agree(
                #[trigger] u64_at(g, Space::Current, a),
                u64_at(g, Space::Tables(dtb), a),
            ),
{
    assert forall|a: u64| in_kernel(a, 8) implies agree(
        #[trigger] u64_at(g, Space::Current, a),
        u64_at(g, Space::Tables(dtb), a),
    ) by {
        assert(agree(
            bytes_at(g, Space::Current, a, 8),
            bytes_at(g, Space::Tables(dtb), a, 8),
        ));
    }
}

/// Where the whole memory is the same, scalars and strings do not differ.
pub proof fn same_scalars(g: GuestView, dtb: u64)
    requires
        same_memory(g, dtb),
    ensures
        forall|a: u64|
            agree(#[trigger] u64_at(g, Space::Current, a), u64_at(g, Space::Tables(dtb), a)),
        forall|a: u64|
            agree(#[trigger] u32_at(g, Space::Current, a), u32_at(g, Space::Tables(dtb), a)),
        forall|a: u64|
            agree(#[trigger] u16_at(g, Space::Current, a), u16_at(g, Space::Tables(dtb), a)),
        forall|a: u64|
            agree(#[trigger] u8_at(g, Space::Current, a), u8_at(g, Space::Tables(dtb), a)),
        forall|a: u64|
            agree(
                #[trigger] u64_or_zero(g, Space::Current, a),
                u64_or_zero(g, Space::Tables(dtb), a),
            ),
        forall|a: u64|
            agree(
                #[trigger] u32_or_zero(g, Space::Current, a),
                u32_or_zero(g, Space::Tables(dtb), a),
            ),
        forall|a: u64|
            agree(
                #[trigger] u16_or_zero(g, Space::Current, a),
                u16_or_zero(g, Space::Tables(dtb), a),
            ),
        forall|a: u64|
            agree(
                #[trigger] u8_or_zero(g, Space::Current, a),
                u8_or_zero(g, Space::Tables(dtb), a),
            ),
        forall|a: u64|
            agree(
                #[trigger] unicode_string(g, Space::Current, a),
                unicode_string(g, Space::Tables(dtb), a),
            ),
{
    assert forall|a: u64|
        agree(#[trigger] u64_at(g, Space::Current, a), u64_at(g, Space::Tables(dtb), a)) by {
        assert(agree(
            bytes_at(g, Space::Current, a, 8),
            bytes_at(g, Space::Tables(dtb), a, 8),
        ));
    }
    assert forall|a: u64|
        agree(#[trigger] u32_at(g, Space::Current, a), u32_at(g, Space::Tables(dtb), a)) by {
        assert(agree(
            bytes_at(g, Space::Current, a, 4),
            bytes_at(g, Space::Tables(dtb), a, 4),
        ));
    }
    assert forall|a: u64|
        agree(#[trigger] u16_at(g, Space::Current, a), u16_at(g, Space::Tables(dtb), a)) by {
        assert(agree(
            bytes_at(g, Space::Current, a, 2),
            bytes_at(g, Space::Tables(dtb), a, 2),
        ));
    }
    assert forall|a: u64|
        agree(#[trigger] u8_at(g, Space::Current, a), u8_at(g, Space::Tables(dtb), a)) by {
        assert(agree(
            bytes_at(g, Space::Current, a, 1),
            bytes_at(g, Space::Tables(dtb), a, 1),
        ));
    }
    assert forall|a: u64|
        agree(
            #[trigger] unicode_string(g, Space::Current, a),
            unicode_string(g, Space::Tables(dtb), a),
        ) by {
        if let (Ok(len), Ok(buf)) = (
            u16_or_zero(g, Space::Current, a),
            u64_or_zero(g, Space::Current, a.wrapping_add(8)),
        ) {
            assert(agree(
                bytes_at(g, Space::Current, buf, len as usize),
                bytes_at(g, Space::Tables(dtb), buf, len as usize),
            ));
        }
    }
}

// ---- reads over a growing record --------------------------------------------------------------

/// A physical word is steady over a growing record.
pub broadcast proof fn physical_u64_steady(g: GuestView, h: GuestView, pa: u64)
    requires
        #[trigger] g.extended_by(h),
    ensures
        steady(g, h, #[trigger] physical_u64(g, pa), physical_u64(h, pa)),
{
}

/// So is a translation.
pub broadcast proof fn translation_steady(g: GuestView, h: GuestView, dtb: u64, va: u64)
    requires
        #[trigger] g.extended_by(h),
    ensures
        steady(g, h, #[trigger] translation(g, dtb, va), translation(h, dtb, va)),
{
    broadcast use ask_steady;

}

pub broadcast proof fn mapped_bytes_steady(
    g: GuestView,
    h: GuestView,
    dtb: u64,
    va: u64,
    len: nat,
)
    requires
        #[trigger] g.extended_by(h),
    ensures
        steady(g, h, #[trigger] mapped_bytes(g, dtb, va, len), mapped_bytes(h, dtb, va, len)),
    decreases len,
{
    broadcast use {ask_steady, translation_steady};

    if len > 0 {
        let here = on_page(va, len);
        mapped_bytes_steady(g, h, dtb, va.wrapping_add(here as u64), (len - here) as nat);
    }
}

pub broadcast proof fn bytes_at_steady(
    g: GuestView,
    h: GuestView,
    space: Space,
    addr: u64,
    len: usize,
)
    requires
        #[trigger] g.extended_by(h),
    ensures
        steady(g, h, #[trigger] bytes_at(g, space, addr, len), bytes_at(h, space, addr, len)),
{
    broadcast use {ask_steady, mapped_bytes_steady};

}

pub broadcast proof fn u64_at_steady(g: GuestView, h: GuestView, space: Space, addr: u64)
    requires
        #[trigger] g.extended_by(h),
    ensures
        steady(g, h, #[trigger] u64_at(g, space, addr), u64_at(h, space, addr)),
{
    broadcast use bytes_at_steady;

}

pub broadcast proof fn u64_or_zero_steady(g: GuestView, h: GuestView, space: Space, addr: u64)
    requires
        #[trigger] g.extended_by(h),
    ensures
        steady(g, h, #[trigger] u64_or_zero(g, space, addr), u64_or_zero(h, space, addr)),
{
    broadcast use u64_at_steady;

}

pub broadcast proof fn u32_at_steady(g: GuestView, h: GuestView, space: Space, addr: u64)
    requires
        #[trigger] g.extended_by(h),
    ensures
        steady(g, h, #[trigger] u32_at(g, space, addr), u32_at(h, space, addr)),
{
    broadcast use bytes_at_steady;

}

pub broadcast proof fn u32_or_zero_steady(g: GuestView, h: GuestView, space: Space, addr: u64)
    requires
        #[trigger] g.extended_by(h),
    ensures
        steady(g, h, #[trigger] u32_or_zero(g, space, addr), u32_or_zero(h, space, addr)),
{
    broadcast use u32_at_steady;

}

pub broadcast proof fn u16_at_steady(g: GuestView, h: GuestView, space: Space, addr: u64)
    requires
        #[trigger] g.extended_by(h),
    ensures
        steady(g, h, #[trigger] u16_at(g, space, addr), u16_at(h, space, addr)),
{
    broadcast use bytes_at_steady;

}

pub broadcast proof fn u16_or_zero_steady(g: GuestView, h: GuestView, space: Space, addr: u64)
    requires
        #[trigger] g.extended_by(h),
    ensures
        steady(g, h, #[trigger] u16_or_zero(g, space, addr), u16_or_zero(h, space, addr)),
{
    broadcast use u16_at_steady;

}

pub broadcast proof fn u8_at_steady(g: GuestView, h: GuestView, space: Space, addr: u64)
    requires
        #[trigger] g.extended_by(h),
    ensures
        steady(g, h, #[trigger] u8_at(g, space, addr), u8_at(h, space, addr)),
{
    broadcast use bytes_at_steady;

}

pub broadcast proof fn u8_or_zero_steady(g: GuestView, h: GuestView, space: Space, addr: u64)
    requires
        #[trigger] g.extended_by(h),
    ensures
        steady(g, h, #[trigger] u8_or_zero(g, space, addr), u8_or_zero(h, space, addr)),
{
    broadcast use u8_at_steady;

}

pub broadcast proof fn c_string_steady(g: GuestView, h: GuestView, addr: u64, max: usize)
    requires
        #[trigger] g.extended_by(h),
    ensures
        steady(g, h, #[trigger] c_string(g, addr, max), c_string(h, addr, max)),
{
    broadcast use bytes_at_steady;

}

pub broadcast proof fn unicode_string_steady(
    g: GuestView,
    h: GuestView,
    space: Space,
    addr: u64,
)
    requires
        #[trigger] g.extended_by(h),
    ensures
        steady(g, h, #[trigger] unicode_string(g, space, addr), unicode_string(h, space, addr)),
{
    broadcast use {bytes_at_steady, u16_or_zero_steady, u64_or_zero_steady};

}

pub broadcast group group_reads_steady {
    ask_steady,
    bytes_at_steady,
    u64_at_steady,
    u32_at_steady,
    u16_at_steady,
    u8_at_steady,
    u64_or_zero_steady,
    u32_or_zero_steady,
    u16_or_zero_steady,
    u8_or_zero_steady,
    c_string_steady,
    unicode_string_steady,
}

} // verus!
