//! What reads of guest memory give, down to the recorded answers.

use crate::guest::{GuestView, Request};
use crate::laws::writing::units_of_text;
use crate::reads::{
    bytes_at, c_string, le_u32_value, le_units, mapped_bytes, nul_position, physical_u64,
    table_entry, translation, u16_at, u16_or_zero, u32_at, u32_or_zero, u64_at, u64_or_zero, u8_at,
    u8_or_zero, unicode_string, Space,
};
use crate::text::utf8_lossy_chars;
use vstd::prelude::*;

verus! {

// ---- the record -------------------------------------------------------------------------------

/// The guest answered this read with these bytes, as many as were asked for.
pub open spec fn answered(g: GuestView, q: Request, bytes: Seq<u8>) -> bool {
    &&& g.answers.contains_key(q)
    &&& g.answers[q] == Some(bytes)
    &&& match q {
        Request::Virtual { addr, len } => bytes.len() == len,
        Request::Physical { addr, len } => bytes.len() == len,
    }
}

/// The guest refused this read, or answered it with another number of bytes.
pub open spec fn refused(g: GuestView, q: Request) -> bool {
    &&& g.answers.contains_key(q)
    &&& match g.answers[q] {
        None => true,
        Some(bytes) => match q {
            Request::Virtual { addr, len } => bytes.len() != len,
            Request::Physical { addr, len } => bytes.len() != len,
        },
    }
}

/// A read gives what the guest answered, and is open until it did.
pub proof fn reads_give_the_answers(g: GuestView, q: Request)
    ensures
        forall|bytes: Seq<u8>| #[trigger] answered(g, q, bytes) ==> g.ask(q) == Ok::<
            Option<Seq<u8>>,
            Request,
        >(Some(bytes)),
        refused(g, q) ==> g.ask(q) == Ok::<Option<Seq<u8>>, Request>(None),
        !g.answers.contains_key(q) ==> g.ask(q) == Err::<Option<Seq<u8>>, Request>(q),
{
}

// ---- numbers in memory ------------------------------------------------------------------------

/// The number that bytes stand for, the lowest byte first.
pub open spec fn number_in(b: Seq<u8>) -> int
    decreases b.len(),
{
    if b.len() == 0 {
        0
    } else {
        b[0] + 0x100 * number_in(b.skip(1))
    }
}

/// These bytes can be read at `addr`.
pub open spec fn readable(g: GuestView, space: Space, addr: u64, b: Seq<u8>) -> bool {
    &&& b.len() <= usize::MAX
    &&& match space {
        Space::Current => answered(g, Request::Virtual { addr, len: b.len() as usize }, b),
        Space::Tables(dtb) => mapped_bytes(g, dtb, addr, b.len()) == Ok::<
            Option<Seq<u8>>,
            Request,
        >(Some(b)),
    }
}

/// That many bytes cannot be read at `addr`.
pub open spec fn unreadable(g: GuestView, space: Space, addr: u64, len: usize) -> bool {
    match space {
        Space::Current => refused(g, Request::Virtual { addr, len }),
        Space::Tables(dtb) => mapped_bytes(g, dtb, addr, len as nat) == Ok::<
            Option<Seq<u8>>,
            Request,
        >(None),
    }
}

/// The 8 bytes at `addr` stand for `v`.
pub open spec fn word64(g: GuestView, space: Space, addr: u64, v: u64) -> bool {
    exists|b: Seq<u8>| #[trigger]
        readable(g, space, addr, b) && b.len() == 8 && number_in(b) == v
}

/// The 4 bytes at `addr` stand for `v`.
pub open spec fn word32(g: GuestView, space: Space, addr: u64, v: u32) -> bool {
    exists|b: Seq<u8>| #[trigger]
        readable(g, space, addr, b) && b.len() == 4 && number_in(b) == v
}

/// The 2 bytes at `addr` stand for `v`.
pub open spec fn word16(g: GuestView, space: Space, addr: u64, v: u16) -> bool {
    exists|b: Seq<u8>| #[trigger]
        readable(g, space, addr, b) && b.len() == 2 && number_in(b) == v
}

/// The byte at `addr` is `v`.
pub open spec fn word8(g: GuestView, space: Space, addr: u64, v: u8) -> bool {
    readable(g, space, addr, seq![v])
}

/// What can be read is read, and what cannot is not.
pub broadcast proof fn readable_bytes_are_read(
    g: GuestView,
    space: Space,
    addr: u64,
    b: Seq<u8>,
)
    requires
        #[trigger] readable(g, space, addr, b),
    ensures
        bytes_at(g, space, addr, b.len() as usize) == Ok::<Option<Seq<u8>>, Request>(Some(b)),
{
}

pub broadcast proof fn unreadable_bytes_are_not_read(
    g: GuestView,
    space: Space,
    addr: u64,
    len: usize,
)
    requires
        #[trigger] unreadable(g, space, addr, len),
    ensures
        bytes_at(g, space, addr, len) == Ok::<Option<Seq<u8>>, Request>(None),
        len == 8 ==> u64_at(g, space, addr) == Ok::<Option<u64>, Request>(None),
        len == 8 ==> u64_or_zero(g, space, addr) == Ok::<u64, Request>(0),
        len == 4 ==> u32_at(g, space, addr) == Ok::<Option<u32>, Request>(None),
        len == 4 ==> u32_or_zero(g, space, addr) == Ok::<u32, Request>(0),
        len == 2 ==> u16_at(g, space, addr) == Ok::<Option<u16>, Request>(None),
        len == 2 ==> u16_or_zero(g, space, addr) == Ok::<u16, Request>(0),
        len == 1 ==> u8_at(g, space, addr) == Ok::<Option<u8>, Request>(None),
        len == 1 ==> u8_or_zero(g, space, addr) == Ok::<u8, Request>(0),
{
}

proof fn lemma_number4(b: Seq<u8>)
    requires
        b.len() >= 4,
    ensures
        number_in(b) == le_u32_value(b) + 0x1_0000_0000 * number_in(b.skip(4)),
{
    reveal_with_fuel(number_in, 6);
    assert(b.skip(1).skip(1) =~= b.skip(2));
    assert(b.skip(2).skip(1) =~= b.skip(3));
    assert(b.skip(3).skip(1) =~= b.skip(4));
}

/// A word is the number that its bytes stand for, the lowest byte first.
pub broadcast proof fn words_are_little_endian(g: GuestView, space: Space, addr: u64, v: u64)
    requires
        #[trigger] word64(g, space, addr, v),
    ensures
        u64_at(g, space, addr) == Ok::<Option<u64>, Request>(Some(v)),
        u64_or_zero(g, space, addr) == Ok::<u64, Request>(v),
{
    let b = choose|b: Seq<u8>| #[trigger]
        readable(g, space, addr, b) && b.len() == 8 && number_in(b) == v;
    lemma_number4(b);
    lemma_number4(b.skip(4));
    assert(b.skip(4).skip(4) =~= seq![]);
    readable_bytes_are_read(g, space, addr, b);
}

pub broadcast proof fn half_words_are_little_endian(g: GuestView, space: Space, addr: u64, v: u32)
    requires
        #[trigger] word32(g, space, addr, v),
    ensures
        u32_at(g, space, addr) == Ok::<Option<u32>, Request>(Some(v)),
        u32_or_zero(g, space, addr) == Ok::<u32, Request>(v),
{
    let b = choose|b: Seq<u8>| #[trigger]
        readable(g, space, addr, b) && b.len() == 4 && number_in(b) == v;
    lemma_number4(b);
    assert(b.skip(4) =~= seq![]);
    readable_bytes_are_read(g, space, addr, b);
}

pub broadcast proof fn short_words_are_little_endian(g: GuestView, space: Space, addr: u64, v: u16)
    requires
        #[trigger] word16(g, space, addr, v),
    ensures
        u16_at(g, space, addr) == Ok::<Option<u16>, Request>(Some(v)),
        u16_or_zero(g, space, addr) == Ok::<u16, Request>(v),
{
    let b = choose|b: Seq<u8>| #[trigger]
        readable(g, space, addr, b) && b.len() == 2 && number_in(b) == v;
    reveal_with_fuel(number_in, 4);
    assert(b.skip(1).skip(1) =~= seq![]);
    readable_bytes_are_read(g, space, addr, b);
}

pub broadcast proof fn bytes_are_themselves(g: GuestView, space: Space, addr: u64, v: u8)
    requires
        #[trigger] word8(g, space, addr, v),
    ensures
        u8_at(g, space, addr) == Ok::<Option<u8>, Request>(Some(v)),
        u8_or_zero(g, space, addr) == Ok::<u8, Request>(v),
{
    readable_bytes_are_read(g, space, addr, seq![v]);
}

pub broadcast group group_memory {
    readable_bytes_are_read,
    unreadable_bytes_are_not_read,
    words_are_little_endian,
    half_words_are_little_endian,
    short_words_are_little_endian,
    bytes_are_themselves,
}

// ---- page tables ------------------------------------------------------------------------------

/// The 8 bytes at a physical address stand for `v`.
pub open spec fn physical_word(g: GuestView, pa: int, v: u64) -> bool {
    &&& 0 <= pa <= u64::MAX
    &&& exists|b: Seq<u8>| #[trigger]
        answered(g, Request::Physical { addr: pa as u64, len: 8 }, b) && number_in(b) == v
}

/// They cannot be read.
pub open spec fn physical_gap(g: GuestView, pa: int) -> bool {
    0 <= pa <= u64::MAX && refused(g, Request::Physical { addr: pa as u64, len: 8 })
}

/// Where the entry for `va` is in the table that an entry (or the directory base) points to: bits
/// 12 to 51 are the table's address, and nine bits of `va` number the entry.
pub open spec fn entry_in(table: u64, va: u64, unit: int) -> int {
    table as int / 0x1000 % 0x100_0000_0000 * 0x1000 + va as int / unit % 512 * 8
}

pub open spec fn present(e: u64) -> bool {
    e % 2 == 1
}

/// Bit 7.
pub open spec fn large(e: u64) -> bool {
    e / 0x80 % 2 == 1
}

pub open spec fn page_512g() -> int {
    0x80_0000_0000
}

pub open spec fn page_1g() -> int {
    0x4000_0000
}

pub open spec fn page_2m() -> int {
    0x20_0000
}

pub open spec fn page_4k() -> int {
    0x1000
}

/// The word at a physical address.
pub proof fn physical_words_are_little_endian(g: GuestView, pa: int, v: u64)
    ensures
        physical_word(g, pa, v) ==> physical_u64(g, pa as u64) == Ok::<Option<u64>, Request>(
            Some(v),
        ),
        physical_gap(g, pa) ==> physical_u64(g, pa as u64) == Ok::<Option<u64>, Request>(None),
{
    if physical_word(g, pa, v) {
        let b = choose|b: Seq<u8>| #[trigger]
            answered(g, Request::Physical { addr: pa as u64, len: 8 }, b) && number_in(b) == v;
        lemma_number4(b);
        lemma_number4(b.skip(4));
        assert(b.skip(4).skip(4) =~= seq![]);
    }
}

proof fn lemma_entries(table: u64, va: u64)
    by (bit_vector)
    ensures
        (table & 0x000f_ffff_ffff_f000) + 8 * ((va >> 39) & 0x1ff) == table / 0x1000
            % 0x100_0000_0000 * 0x1000 + va / 0x80_0000_0000 % 512 * 8,
        (table & 0x000f_ffff_ffff_f000) + 8 * ((va >> 30) & 0x1ff) == table / 0x1000
            % 0x100_0000_0000 * 0x1000 + va / 0x4000_0000 % 512 * 8,
        (table & 0x000f_ffff_ffff_f000) + 8 * ((va >> 21) & 0x1ff) == table / 0x1000
            % 0x100_0000_0000 * 0x1000 + va / 0x20_0000 % 512 * 8,
        (table & 0x000f_ffff_ffff_f000) + 8 * ((va >> 12) & 0x1ff) == table / 0x1000
            % 0x100_0000_0000 * 0x1000 + va / 0x1000 % 512 * 8,
        (table & 0x000f_ffff_ffff_f000) + 8 * ((va >> 39) & 0x1ff) <= 0xf_ffff_ffff_ffff,
        (table & 0x000f_ffff_ffff_f000) + 8 * ((va >> 30) & 0x1ff) <= 0xf_ffff_ffff_ffff,
        (table & 0x000f_ffff_ffff_f000) + 8 * ((va >> 21) & 0x1ff) <= 0xf_ffff_ffff_ffff,
        (table & 0x000f_ffff_ffff_f000) + 8 * ((va >> 12) & 0x1ff) <= 0xf_ffff_ffff_ffff,
{
}

proof fn lemma_bits(e: u64, va: u64)
    by (bit_vector)
    ensures
        (e & 1 != 0) == (e % 2 == 1),
        (e & 0x80 != 0) == (e / 0x80 % 2 == 1),
        ((e & 0x000f_ffff_c000_0000) | (va & 0x3fff_ffff)) == e / 0x4000_0000 % 0x40_0000
            * 0x4000_0000 + va % 0x4000_0000,
        ((e & 0x000f_ffff_ffe0_0000) | (va & 0x1f_ffff)) == e / 0x20_0000 % 0x8000_0000 * 0x20_0000
            + va % 0x20_0000,
        ((e & 0x000f_ffff_ffff_f000) | (va & 0xfff)) == e / 0x1000 % 0x100_0000_0000 * 0x1000 + va
            % 0x1000,
{
}

proof fn lemma_table_entry(g: GuestView, table: u64, va: u64, shift: u64, unit: int, e: u64)
    requires
        (shift == 39 && unit == page_512g()) || (shift == 30 && unit == page_1g()) || (shift == 21
            && unit == page_2m()) || (shift == 12 && unit == page_4k()),
    ensures
        physical_word(g, entry_in(table, va, unit), e) && present(e) ==> table_entry(
            g,
            table,
            va,
            shift,
        ) == Ok::<Option<u64>, Request>(Some(e)),
        no_entry(g, entry_in(table, va, unit), e) ==> table_entry(g, table, va, shift) == Ok::<
            Option<u64>,
            Request,
        >(None),
{
    lemma_entries(table, va);
    lemma_bits(e, va);
    physical_words_are_little_endian(g, entry_in(table, va, unit), e);
}

/// A virtual address is translated by four table entries, each numbered by nine of its bits from
/// bit 39 down. The last one gives the frame, bits 12 to 51, and the address its offset in it.
pub proof fn small_pages_are_translated(
    g: GuestView,
    dtb: u64,
    va: u64,
    pml4e: u64,
    pdpte: u64,
    pde: u64,
    pte: u64,
)
    requires
        physical_word(g, entry_in(dtb, va, page_512g()), pml4e) && present(pml4e),
        physical_word(g, entry_in(pml4e, va, page_1g()), pdpte) && present(pdpte) && !large(pdpte),
        physical_word(g, entry_in(pdpte, va, page_2m()), pde) && present(pde) && !large(pde),
        physical_word(g, entry_in(pde, va, page_4k()), pte) && present(pte),
    ensures
        translation(g, dtb, va) matches Ok(Some(pa)) && pa / 0x1000 == pte / 0x1000
            % 0x100_0000_0000 && pa % 0x1000 == va % 0x1000,
{
    lemma_table_entry(g, dtb, va, 39, page_512g(), pml4e);
    lemma_table_entry(g, pml4e, va, 30, page_1g(), pdpte);
    lemma_table_entry(g, pdpte, va, 21, page_2m(), pde);
    lemma_table_entry(g, pde, va, 12, page_4k(), pte);
    lemma_bits(pdpte, va);
    lemma_bits(pde, va);
    lemma_bits(pte, va);
}

/// A third entry with the large-page bit gives a 2 MiB frame, bits 21 to 51.
pub proof fn two_mib_pages_are_translated(
    g: GuestView,
    dtb: u64,
    va: u64,
    pml4e: u64,
    pdpte: u64,
    pde: u64,
)
    requires
        physical_word(g, entry_in(dtb, va, page_512g()), pml4e) && present(pml4e),
        physical_word(g, entry_in(pml4e, va, page_1g()), pdpte) && present(pdpte) && !large(pdpte),
        physical_word(g, entry_in(pdpte, va, page_2m()), pde) && present(pde) && large(pde),
    ensures
        translation(g, dtb, va) matches Ok(Some(pa)) && pa / 0x20_0000 == pde / 0x20_0000
            % 0x8000_0000 && pa % 0x20_0000 == va % 0x20_0000,
{
    lemma_table_entry(g, dtb, va, 39, page_512g(), pml4e);
    lemma_table_entry(g, pml4e, va, 30, page_1g(), pdpte);
    lemma_table_entry(g, pdpte, va, 21, page_2m(), pde);
    lemma_bits(pdpte, va);
    lemma_bits(pde, va);
}

/// A second entry with the large-page bit gives a 1 GiB frame, bits 30 to 51.
pub proof fn one_gib_pages_are_translated(g: GuestView, dtb: u64, va: u64, pml4e: u64, pdpte: u64)
    requires
        physical_word(g, entry_in(dtb, va, page_512g()), pml4e) && present(pml4e),
        physical_word(g, entry_in(pml4e, va, page_1g()), pdpte) && present(pdpte) && large(pdpte),
    ensures
        translation(g, dtb, va) matches Ok(Some(pa)) && pa / 0x4000_0000 == pdpte / 0x4000_0000
            % 0x40_0000 && pa % 0x4000_0000 == va % 0x4000_0000,
{
    lemma_table_entry(g, dtb, va, 39, page_512g(), pml4e);
    lemma_table_entry(g, pml4e, va, 30, page_1g(), pdpte);
    lemma_bits(pdpte, va);
}

/// There is no entry here: it cannot be read, or it is not present.
pub open spec fn no_entry(g: GuestView, pa: int, e: u64) -> bool {
    physical_gap(g, pa) || (physical_word(g, pa, e) && !present(e))
}

/// An address is not mapped where the entry at any level is missing.
pub proof fn missing_entries_map_nothing(
    g: GuestView,
    dtb: u64,
    va: u64,
    pml4e: u64,
    pdpte: u64,
    pde: u64,
    pte: u64,
)
    requires
        no_entry(g, entry_in(dtb, va, page_512g()), pml4e) || (physical_word(
            g,
            entry_in(dtb, va, page_512g()),
            pml4e,
        ) && present(pml4e) && (no_entry(g, entry_in(pml4e, va, page_1g()), pdpte) || (
        physical_word(g, entry_in(pml4e, va, page_1g()), pdpte) && present(pdpte) && !large(pdpte)
            && (no_entry(g, entry_in(pdpte, va, page_2m()), pde) || (physical_word(
            g,
            entry_in(pdpte, va, page_2m()),
            pde,
        ) && present(pde) && !large(pde) && no_entry(g, entry_in(pde, va, page_4k()), pte)))))),
    ensures
        translation(g, dtb, va) == Ok::<Option<u64>, Request>(None),
{
    lemma_table_entry(g, dtb, va, 39, page_512g(), pml4e);
    lemma_table_entry(g, pml4e, va, 30, page_1g(), pdpte);
    lemma_table_entry(g, pdpte, va, 21, page_2m(), pde);
    lemma_table_entry(g, pde, va, 12, page_4k(), pte);
    lemma_bits(pdpte, va);
    lemma_bits(pde, va);
}

// ---- bytes through page tables ----------------------------------------------------------------

/// Bytes on one page are those at its translation, as far as they can be read.
pub proof fn bytes_on_a_page(g: GuestView, dtb: u64, va: u64, len: usize, pa: u64)
    requires
        0 < len,
        va % 0x1000 + len <= 0x1000,
        translation(g, dtb, va) == Ok::<Option<u64>, Request>(Some(pa)),
    ensures
        forall|b: Seq<u8>| #[trigger]
            answered(g, Request::Physical { addr: pa, len }, b) ==> mapped_bytes(
                g,
                dtb,
                va,
                len as nat,
            ) == Ok::<Option<Seq<u8>>, Request>(Some(b)),
        refused(g, Request::Physical { addr: pa, len }) ==> mapped_bytes(g, dtb, va, len as nat)
            == Ok::<Option<Seq<u8>>, Request>(None),
{
    let next = va.wrapping_add(len as u64);
    assert(mapped_bytes(g, dtb, next, 0) == Ok::<Option<Seq<u8>>, Request>(Some(seq![])));
    assert forall|b: Seq<u8>| #[trigger]
        answered(g, Request::Physical { addr: pa, len }, b) implies mapped_bytes(
        g,
        dtb,
        va,
        len as nat,
    ) == Ok::<Option<Seq<u8>>, Request>(Some(b)) by {
        assert(b + Seq::<u8>::empty() =~= b);
    }
}

/// Bytes on a page that is not mapped cannot be read.
pub proof fn bytes_on_no_page(g: GuestView, dtb: u64, va: u64, len: nat)
    requires
        0 < len,
        translation(g, dtb, va) == Ok::<Option<u64>, Request>(None),
    ensures
        mapped_bytes(g, dtb, va, len) == Ok::<Option<Seq<u8>>, Request>(None),
{
}

/// Bytes that reach beyond a page are those up to its end and those from there on; both have to be
/// readable. Behind the last address comes the first.
pub proof fn bytes_across_pages(g: GuestView, dtb: u64, va: u64, len: nat, here: nat)
    requires
        here == 0x1000 - va % 0x1000,
        here < len,
        len <= usize::MAX,
    ensures
        ({
            let front = mapped_bytes(g, dtb, va, here);
            let back = mapped_bytes(g, dtb, va.wrapping_add(here as u64), (len - here) as nat);
            let whole = mapped_bytes(g, dtb, va, len);
            &&& front matches Ok(Some(x)) ==> (back matches Ok(Some(y)) ==> whole == Ok::<
                Option<Seq<u8>>,
                Request,
            >(Some(x + y)))
            &&& front matches Ok(Some(_)) ==> (back matches Ok(None) ==> whole == Ok::<
                Option<Seq<u8>>,
                Request,
            >(None))
            &&& front matches Ok(None) ==> whole == Ok::<Option<Seq<u8>>, Request>(None)
        }),
{
    let next = va.wrapping_add(here as u64);
    assert(mapped_bytes(g, dtb, next, 0) == Ok::<Option<Seq<u8>>, Request>(Some(seq![])));
    if let Ok(Some(pa)) = translation(g, dtb, va) {
        if let Ok(Some(x)) = g.ask(Request::Physical { addr: pa, len: here as usize }) {
            assert(x + Seq::<u8>::empty() =~= x);
        }
    }
}

// ---- strings ----------------------------------------------------------------------------------

proof fn lemma_first_zero(b: Seq<u8>, n: int)
    requires
        0 <= n <= b.len(),
        forall|i: int| 0 <= i < n ==> b[i] != 0,
        n == b.len() || b[n] == 0,
    ensures
        nul_position(b) == n,
    decreases b.len(),
{
    if n > 0 {
        lemma_first_zero(b.skip(1), n - 1);
    }
}

/// A C string is what stands before the first zero byte, or all of its field if there is none.
pub proof fn c_strings_end_at_zero(g: GuestView, addr: u64, b: Seq<u8>, n: int)
    requires
        readable(g, Space::Current, addr, b),
        0 <= n <= b.len(),
        forall|i: int| 0 <= i < n ==> b[i] != 0,
        n == b.len() || b[n] == 0,
    ensures
        c_string(g, addr, b.len() as usize) == Ok::<Seq<char>, Request>(
            utf8_lossy_chars(b.subrange(0, n)),
        ),
{
    lemma_first_zero(b, n);
    readable_bytes_are_read(g, Space::Current, addr, b);
    assert(b.subrange(0, n) =~= b.take(n));
}

/// A C string in memory that cannot be read is empty.
pub proof fn unreadable_c_strings_are_empty(g: GuestView, addr: u64, max: usize)
    requires
        unreadable(g, Space::Current, addr, max),
    ensures
        c_string(g, addr, max) matches Ok(s) && s.len() == 0,
{
    unreadable_bytes_are_not_read(g, Space::Current, addr, max);
}

/// These bytes are the units, the lower byte of each first.
pub open spec fn bytes_are_units(b: Seq<u8>, units: Seq<u16>) -> bool {
    &&& b.len() == 2 * units.len()
    &&& forall|i: int|
        0 <= i < units.len() ==> b[2 * i] == #[trigger] units[i] % 0x100 && b[2 * i + 1] == units[i]
            / 0x100
}

pub proof fn units_are_little_endian(b: Seq<u8>, units: Seq<u16>)
    requires
        bytes_are_units(b, units),
    ensures
        le_units(b) == units,
{
    assert forall|i: int| 0 <= i < units.len() implies le_units(b)[i] == units[i] by {
        assert(units[i] % 0x100 + 0x100 * (units[i] / 0x100) == units[i]);
    }
    assert(le_units(b) =~= units);
}

/// A _UNICODE_STRING at `addr`: this many bytes long, with these bytes in its buffer.
pub open spec fn unicode_at(g: GuestView, space: Space, addr: u64, b: Seq<u8>) -> bool {
    &&& 0 < b.len() <= 0x400
    &&& word16(g, space, addr, b.len() as u16)
    &&& exists|buf: u64|
        buf != 0 && #[trigger] word64(g, space, addr.wrapping_add(8), buf) && readable(
            g,
            space,
            buf,
            b,
        )
}

/// A _UNICODE_STRING that was filled with a text, however long up to 0x400 bytes, reads as that
/// text.
pub proof fn unicode_strings_read_back(
    g: GuestView,
    space: Space,
    addr: u64,
    b: Seq<u8>,
    text: Seq<char>,
)
    requires
        unicode_at(g, space, addr, b),
        bytes_are_units(b, units_of_text(text)),
    ensures
        unicode_string(g, space, addr) == Ok::<Seq<char>, Request>(text),
{
    broadcast use group_memory;

    let buf = choose|buf: u64|
        buf != 0 && #[trigger] word64(g, space, addr.wrapping_add(8), buf) && readable(
            g,
            space,
            buf,
            b,
        );
    units_are_little_endian(b, units_of_text(text));
    crate::laws::writing::utf16_reads_back(text);
}

/// Any other content is decoded as UTF-16 as well.
pub proof fn unicode_strings_are_utf16(
    g: GuestView,
    space: Space,
    addr: u64,
    b: Seq<u8>,
    units: Seq<u16>,
)
    requires
        unicode_at(g, space, addr, b),
        b.len() / 2 == units.len(),
        bytes_are_units(b.take(2 * units.len() as int), units),
    ensures
        unicode_string(g, space, addr) == Ok::<Seq<char>, Request>(
            crate::text::utf16_lossy_chars(units),
        ),
{
    broadcast use group_memory;

    let buf = choose|buf: u64|
        buf != 0 && #[trigger] word64(g, space, addr.wrapping_add(8), buf) && readable(
            g,
            space,
            buf,
            b,
        );
    units_are_little_endian(b.take(2 * units.len() as int), units);
    assert(le_units(b) =~= le_units(b.take(2 * units.len() as int)));
}

/// There is no text where the length is zero or over 0x400, the buffer is null, or any of the
/// three reads fails.
pub open spec fn no_unicode_at(g: GuestView, space: Space, addr: u64, len: u16, buf: u64) -> bool {
    ||| unreadable(g, space, addr, 2)
    ||| word16(g, space, addr, len) && (len == 0 || len > 0x400)
    ||| word16(g, space, addr, len) && unreadable(g, space, addr.wrapping_add(8), 8)
    ||| word16(g, space, addr, len) && word64(g, space, addr.wrapping_add(8), buf) && (buf == 0
        || unreadable(g, space, buf, len as usize))
}

pub proof fn other_unicode_strings_are_empty(
    g: GuestView,
    space: Space,
    addr: u64,
    len: u16,
    buf: u64,
)
    requires
        no_unicode_at(g, space, addr, len, buf),
    ensures
        unicode_string(g, space, addr) matches Ok(s) && s.len() == 0,
{
    broadcast use group_memory;

}

} // verus!
