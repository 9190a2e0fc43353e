//! What objects are called.

use crate::guest::{GuestView, Request};
use crate::laws::bits::{field_of, lemma_field_of_u32};
use crate::laws::chains::{word32_or_zero, word64_or_zero};
use crate::laws::memory::{
    bytes_are_units, group_memory, readable, units_are_little_endian, unreadable, word16, word64,
    word8,
};
use crate::laws::symbols::{
    bits_near, field_near, fields_are_near, group_symbols, symbol_at,
    symbols_are_where_the_profile_says,
};
use crate::objects::{
    field_set, header_name, key_component, key_layout, key_parts, key_path, object, object_type,
    object_with_keys, path_names, KeyPartView,
};
use crate::profile::VolatilityJson;
use crate::reads::{le_units, u8_or_zero, unicode_string, Space};
use crate::text::{joined, utf16_lossy_chars, utf8_lossy_chars};
use vstd::arithmetic::power2::pow2;
use vstd::prelude::*;

verus! {

// ---- types ------------------------------------------------------------------------------------

/// The byte at `addr` is `v`, or cannot be read and counts as 0.
pub open spec fn word8_or_zero(g: GuestView, space: Space, addr: u64, v: u8) -> bool {
    word8(g, space, addr, v) || (unreadable(g, space, addr, 1) && v == 0)
}

/// ObHeaderCookie is `cookie`, or unknown and counts as 0.
pub open spec fn has_cookie(
    g: GuestView,
    p: &VolatilityJson,
    space: Space,
    base: u64,
    cookie: u8,
) -> bool {
    ||| !p.symbols@.contains_key("ObHeaderCookie"@) && cookie == 0
    ||| exists|rva: u64| #[trigger]
        symbol_at(p, "ObHeaderCookie"@, rva) && word8_or_zero(
            g,
            space,
            base.wrapping_add(rva),
            cookie,
        )
}

pub open spec fn hides_type_number(
    g: GuestView,
    p: &VolatilityJson,
    space: Space,
    base: u64,
    oh: u64,
    index: u8,
    off: u64,
    cookie: u8,
    second: u8,
) -> bool {
    &&& field_near(p, "_OBJECT_HEADER"@, "TypeIndex"@, 24, off)
    &&& has_cookie(g, p, space, base, cookie)
    &&& second == oh / 0x100 % 0x100
    &&& word8(g, space, oh.wrapping_add(off), index ^ second ^ cookie)
}

/// The object at `oh` has type number `index`: that is what its header stores, hidden under the
/// cookie and the second byte of the header's own address.
pub open spec fn has_type_number(
    g: GuestView,
    p: &VolatilityJson,
    space: Space,
    base: u64,
    oh: u64,
    index: u8,
) -> bool {
    exists|off: u64, cookie: u8, second: u8| #[trigger]
        hides_type_number(g, p, space, base, oh, index, off, cookie, second)
}

proof fn lemma_type_number(stored: u8, index: u8, second: u8, cookie: u8, oh: u64)
    by (bit_vector)
    requires
        stored == index ^ second ^ cookie,
        second == oh / 0x100 % 0x100,
    ensures
        stored ^ (((oh >> 8) & 0xff) as u8) ^ cookie == index,
{
}

/// The type of an object is the one that its number selects from ObTypeIndexTable, by the name
/// there.
pub proof fn objects_have_the_type_of_their_number(
    g: GuestView,
    p: &VolatilityJson,
    space: Space,
    base: u64,
    oh: u64,
    index: u8,
    rva: u64,
    ty: u64,
    name_off: u64,
    name: Seq<char>,
)
    requires
        has_type_number(g, p, space, base, oh, index),
        symbol_at(p, "ObTypeIndexTable"@, rva),
        word64(g, space, base.wrapping_add(rva).wrapping_add((index * 8) as u64), ty),
        ty >= 0xffff_0000_0000_0000,
        field_near(p, "_OBJECT_TYPE"@, "Name"@, 16, name_off),
        unicode_string(g, space, ty.wrapping_add(name_off)) == Ok::<Seq<char>, Request>(name),
    ensures
        object_type(g, p, space, base, oh) == Ok::<Option<Seq<char>>, Request>(Some(name)),
{
    broadcast use {group_memory, group_symbols};

    let (off, cookie, second) = choose|off: u64, cookie: u8, second: u8| #[trigger]
        hides_type_number(g, p, space, base, oh, index, off, cookie, second);
    lemma_type_number(index ^ second ^ cookie, index, second, cookie, oh);
}

/// A number that selects nothing in the kernel half, and a profile without the table, leave the
/// type without a name.
pub proof fn objects_of_no_type(
    g: GuestView,
    p: &VolatilityJson,
    space: Space,
    base: u64,
    oh: u64,
    index: u8,
    rva: u64,
    ty: u64,
)
    requires
        has_type_number(g, p, space, base, oh, index),
        !p.symbols@.contains_key("ObTypeIndexTable"@) || (symbol_at(p, "ObTypeIndexTable"@, rva)
            && word64_or_zero(
            g,
            space,
            base.wrapping_add(rva).wrapping_add((index * 8) as u64),
            ty,
        ) && ty < 0xffff_0000_0000_0000),
    ensures
        object_type(g, p, space, base, oh) matches Ok(Some(name)) && name.len() == 0,
{
    broadcast use {group_memory, group_symbols};

    let (off, cookie, second) = choose|off: u64, cookie: u8, second: u8| #[trigger]
        hides_type_number(g, p, space, base, oh, index, off, cookie, second);
    lemma_type_number(index ^ second ^ cookie, index, second, cookie, oh);
}

/// A header that cannot be read tells nothing.
pub proof fn unreadable_headers_tell_nothing(
    g: GuestView,
    p: &VolatilityJson,
    space: Space,
    base: u64,
    oh: u64,
    off: u64,
)
    requires
        field_near(p, "_OBJECT_HEADER"@, "TypeIndex"@, 24, off),
        unreadable(g, space, oh.wrapping_add(off), 1),
    ensures
        object_type(g, p, space, base, oh) == Ok::<Option<Seq<char>>, Request>(None),
        object(g, p, space, base, oh) matches Ok((ty, name)) && ty.len() == 0 && name.len() == 0,
{
    broadcast use {group_memory, group_symbols};

}

// ---- names ------------------------------------------------------------------------------------

/// The second lowest bit of the InfoMask alone says whether an object has a name header. It is as
/// far in front of the object header as ObpInfoMaskToOffset says for the two lowest bits.
pub proof fn name_headers_are_read(
    g: GuestView,
    p: &VolatilityJson,
    space: Space,
    base: u64,
    oh: u64,
    mask_off: u64,
    mask: u8,
    rva: u64,
    back: u8,
    name_off: u64,
    name: Seq<char>,
)
    requires
        field_near(p, "_OBJECT_HEADER"@, "InfoMask"@, 26, mask_off),
        word8(g, space, oh.wrapping_add(mask_off), mask),
        mask / 2 % 2 == 1,
        symbol_at(p, "ObpInfoMaskToOffset"@, rva),
        word8(g, space, base.wrapping_add(rva).wrapping_add((mask % 4) as u64), back),
        0 < back <= oh,
        field_near(p, "_OBJECT_HEADER_NAME_INFO"@, "Name"@, 8, name_off),
        unicode_string(g, space, ((oh - back) as u64).wrapping_add(name_off)) == Ok::<
            Seq<char>,
            Request,
        >(name),
    ensures
        header_name(g, p, space, base, oh) == Ok::<Seq<char>, Request>(name),
{
    broadcast use {group_memory, group_symbols};

    lemma_mask(mask);
}

proof fn lemma_mask(mask: u8)
    by (bit_vector)
    ensures
        (mask & 0x2 != 0) == (mask / 2 % 2 == 1),
        mask & 0x3 == mask % 4,
{
}

/// An object has no name header where that bit is not set or cannot be read, the table is unknown,
/// or the distance is 0, unreadable or beyond the start of memory.
pub proof fn other_objects_have_no_name_header(
    g: GuestView,
    p: &VolatilityJson,
    space: Space,
    base: u64,
    oh: u64,
    mask_off: u64,
    mask: u8,
    rva: u64,
    back: u8,
)
    requires
        field_near(p, "_OBJECT_HEADER"@, "InfoMask"@, 26, mask_off),
        word8_or_zero(g, space, oh.wrapping_add(mask_off), mask),
        mask / 2 % 2 == 0 || !p.symbols@.contains_key("ObpInfoMaskToOffset"@) || (symbol_at(
            p,
            "ObpInfoMaskToOffset"@,
            rva,
        ) && word8_or_zero(
            g,
            space,
            base.wrapping_add(rva).wrapping_add((mask % 4) as u64),
            back,
        ) && (back == 0 || back > oh)),
    ensures
        header_name(g, p, space, base, oh) matches Ok(name) && name.len() == 0,
{
    broadcast use {group_memory, group_symbols};

    lemma_mask(mask);
}

proof fn lemma_header_name(
    g: GuestView,
    p: &VolatilityJson,
    space: Space,
    base: u64,
    oh: u64,
    mask_off: u64,
    mask: u8,
    rva: u64,
    back: u8,
    name_off: u64,
    name: Result<Seq<char>, Request>,
)
    requires
        field_near(p, "_OBJECT_HEADER"@, "InfoMask"@, 26, mask_off),
        word8(g, space, oh.wrapping_add(mask_off), mask),
        symbol_at(p, "ObpInfoMaskToOffset"@, rva),
        word8_or_zero(g, space, base.wrapping_add(rva).wrapping_add((mask % 4) as u64), back),
        field_near(p, "_OBJECT_HEADER_NAME_INFO"@, "Name"@, 8, name_off),
        back <= oh ==> unicode_string(g, space, ((oh - back) as u64).wrapping_add(name_off))
            == name,
    ensures
        mask / 2 % 2 == 1 && 0 < back <= oh ==> header_name(g, p, space, base, oh) == name,
        mask / 2 % 2 == 0 || back == 0 || back > oh ==> header_name(g, p, space, base, oh) == Ok::<
            Seq<char>,
            Request,
        >(seq![]),
{
    lemma_mask(mask);
    fields_are_near(p, "_OBJECT_HEADER"@, "InfoMask"@, 26, mask_off);
    fields_are_near(p, "_OBJECT_HEADER_NAME_INFO"@, "Name"@, 8, name_off);
    symbols_are_where_the_profile_says(p, "ObpInfoMaskToOffset"@, rva);
    assert(u8_or_zero(g, space, oh.wrapping_add(mask_off)) == Ok::<u8, Request>(mask)) by {
        broadcast use group_memory;

    }
    let at = base.wrapping_add(rva).wrapping_add((mask % 4) as u64);
    assert(u8_or_zero(g, space, at) == Ok::<u8, Request>(back)) by {
        broadcast use group_memory;

    }
}

/// Objects with the same two lowest bits in their masks have the same name, whatever the other bits
/// are, where the rest of memory is the same.
pub proof fn other_mask_bits_do_not_matter(
    g: GuestView,
    h: GuestView,
    p: &VolatilityJson,
    space: Space,
    base: u64,
    oh: u64,
    mask_off: u64,
    m: u8,
    n: u8,
    rva: u64,
    back: u8,
    name_off: u64,
)
    requires
        field_near(p, "_OBJECT_HEADER"@, "InfoMask"@, 26, mask_off),
        word8(g, space, oh.wrapping_add(mask_off), m),
        word8(h, space, oh.wrapping_add(mask_off), n),
        m % 4 == n % 4,
        symbol_at(p, "ObpInfoMaskToOffset"@, rva),
        word8_or_zero(g, space, base.wrapping_add(rva).wrapping_add((m % 4) as u64), back),
        word8_or_zero(h, space, base.wrapping_add(rva).wrapping_add((m % 4) as u64), back),
        field_near(p, "_OBJECT_HEADER_NAME_INFO"@, "Name"@, 8, name_off),
        back <= oh ==> unicode_string(g, space, ((oh - back) as u64).wrapping_add(name_off))
            == unicode_string(h, space, ((oh - back) as u64).wrapping_add(name_off)),
    ensures
        header_name(g, p, space, base, oh) == header_name(h, p, space, base, oh),
{
    let name = unicode_string(g, space, ((oh - back) as u64).wrapping_add(name_off));
    assert(m / 2 % 2 == n / 2 % 2) by (bit_vector)
        requires
            m % 4 == n % 4,
    ;
    lemma_header_name(g, p, space, base, oh, mask_off, m, rva, back, name_off, name);
    lemma_header_name(h, p, space, base, oh, mask_off, n, rva, back, name_off, name);
}

/// An object is called by its name header. A file without one is called by the path in its file
/// object, and any other object without one has no name.
pub proof fn objects_are_called_by_their_headers(
    g: GuestView,
    p: &VolatilityJson,
    space: Space,
    base: u64,
    oh: u64,
    ty: Seq<char>,
    name: Seq<char>,
    body: u64,
    file: u64,
    path: Seq<char>,
)
    requires
        object_type(g, p, space, base, oh) == Ok::<Option<Seq<char>>, Request>(Some(ty)),
        header_name(g, p, space, base, oh) == Ok::<Seq<char>, Request>(name),
        field_near(p, "_OBJECT_HEADER"@, "Body"@, 48, body),
        field_near(p, "_FILE_OBJECT"@, "FileName"@, 88, file),
        unicode_string(g, space, oh.wrapping_add(body).wrapping_add(file)) == Ok::<
            Seq<char>,
            Request,
        >(path),
    ensures
        name.len() > 0 || ty != "File"@ ==> object(g, p, space, base, oh) == Ok::<
            (Seq<char>, Seq<char>),
            Request,
        >((ty, name)),
        name.len() == 0 && ty == "File"@ ==> object(g, p, space, base, oh) == Ok::<
            (Seq<char>, Seq<char>),
            Request,
        >((ty, path)),
{
    broadcast use group_symbols;

}

/// Through page tables a key without a name of its own is called by its path, and everything else
/// as ever.
pub proof fn keys_are_called_by_their_path(
    g: GuestView,
    p: &VolatilityJson,
    dtb: u64,
    base: u64,
    oh: u64,
    ty: Seq<char>,
    name: Seq<char>,
    path: Seq<char>,
)
    requires
        object(g, p, Space::Tables(dtb), base, oh) == Ok::<(Seq<char>, Seq<char>), Request>(
            (ty, name),
        ),
        key_path(g, p, dtb, oh) == Ok::<Seq<char>, Request>(path),
    ensures
        name.len() == 0 && ty == "Key"@ ==> object_with_keys(g, p, dtb, base, oh) == Ok::<
            (Seq<char>, Seq<char>),
            Request,
        >((ty, path)),
        name.len() > 0 || ty != "Key"@ ==> object_with_keys(g, p, dtb, base, oh) == Ok::<
            (Seq<char>, Seq<char>),
            Request,
        >((ty, name)),
{
}

// ---- key paths --------------------------------------------------------------------------------

/// A name block at `block` holds the bytes `b` of a component, 1 to 512 of them.
pub open spec fn has_name_bytes(
    g: GuestView,
    p: &VolatilityJson,
    space: Space,
    block: u64,
    b: Seq<u8>,
) -> bool {
    &&& block >= 0xffff_0000_0000_0000
    &&& 1 <= b.len() <= 512
    &&& exists|off: u64| #[trigger]
        field_near(p, "_CM_NAME_CONTROL_BLOCK"@, "NameLength"@, 24, off) && word16(
            g,
            space,
            block.wrapping_add(off),
            b.len() as u16,
        )
    &&& exists|off: u64| #[trigger]
        field_near(p, "_CM_NAME_CONTROL_BLOCK"@, "Name"@, 26, off) && readable(
            g,
            space,
            block.wrapping_add(off),
            b,
        )
}

/// The bits from a position on, taken modulo 32, that many or, from 32 on, all of them.
pub open spec fn bits_of(flags: u32, pos: u64, len: u64) -> int {
    if len < 32 {
        field_of(flags as int, (pos % 32) as nat, len as nat)
    } else {
        flags as int / pow2((pos % 32) as nat) as int
    }
}

/// The word with the Compressed bits, and where they are in it.
pub open spec fn has_flags(
    g: GuestView,
    p: &VolatilityJson,
    space: Space,
    block: u64,
    off: u64,
    flags: u32,
    pos: u64,
    len: u64,
) -> bool {
    &&& field_near(p, "_CM_NAME_CONTROL_BLOCK"@, "Compressed"@, 0, off)
    &&& word32_or_zero(g, space, block.wrapping_add(off), flags)
    &&& bits_near(p, "_CM_NAME_CONTROL_BLOCK"@, "Compressed"@, (0u64, 1u64), pos, len)
}

/// Whether its bytes are text as they are, by the Compressed bits: any of them is set.
pub open spec fn is_compressed(
    g: GuestView,
    p: &VolatilityJson,
    space: Space,
    block: u64,
    compressed: bool,
) -> bool {
    exists|off: u64, flags: u32, pos: u64, len: u64| #[trigger]
        has_flags(g, p, space, block, off, flags, pos, len) && compressed == (bits_of(
            flags,
            pos,
            len,
        ) != 0)
}

proof fn lemma_bits_of(flags: u32, pos: u64, len: u64)
    ensures
        field_set(flags, (pos, len)) == (bits_of(flags, pos, len) != 0),
{
    if len < 32 {
        lemma_field_of_u32(flags, pos % 32, len);
    } else {
        vstd::bits::lemma_u32_shr_is_div(flags, (pos % 32) as u32);
        let shifted = flags >> (pos % 32);
        assert(shifted & u32::MAX == shifted) by (bit_vector);
    }
}

/// A component of a key's path is the text in its name block: byte by byte where it is compressed,
/// else UTF-16. However long it is, up to 512 bytes, all of it.
pub proof fn components_are_read_in_full(
    g: GuestView,
    p: &VolatilityJson,
    space: Space,
    block: u64,
    b: Seq<u8>,
    compressed: bool,
)
    requires
        has_name_bytes(g, p, space, block, b),
        is_compressed(g, p, space, block, compressed),
    ensures
        compressed ==> key_component(g, space, key_layout(p), block) == Ok::<Seq<char>, Request>(
            utf8_lossy_chars(b),
        ),
        !compressed ==> forall|units: Seq<u16>| #[trigger]
            bytes_are_units(b.take(b.len() as int / 2 * 2), units) ==> key_component(
                g,
                space,
                key_layout(p),
                block,
            ) == Ok::<Seq<char>, Request>(utf16_lossy_chars(units)),
{
    broadcast use {group_memory, group_symbols};

    let (off, flags, pos, len) = choose|off: u64, flags: u32, pos: u64, len: u64| #[trigger]
        has_flags(g, p, space, block, off, flags, pos, len) && compressed == (bits_of(
            flags,
            pos,
            len,
        ) != 0);
    lemma_bits_of(flags, pos, len);
    if !compressed {
        assert forall|units: Seq<u16>| #[trigger]
            bytes_are_units(b.take(b.len() as int / 2 * 2), units) implies key_component(
            g,
            space,
            key_layout(p),
            block,
        ) == Ok::<Seq<char>, Request>(utf16_lossy_chars(units)) by {
            units_are_little_endian(b.take(b.len() as int / 2 * 2), units);
            assert(le_units(b) =~= le_units(b.take(b.len() as int / 2 * 2)));
        }
    }
}

/// There is no component where the block is not in the kernel half, its length is unreadable, 0 or
/// over 512, or its bytes cannot be read.
pub open spec fn has_no_name(g: GuestView, p: &VolatilityJson, space: Space, block: u64) -> bool {
    ||| block < 0xffff_0000_0000_0000
    ||| exists|off: u64| #[trigger]
        field_near(p, "_CM_NAME_CONTROL_BLOCK"@, "NameLength"@, 24, off) && {
            ||| unreadable(g, space, block.wrapping_add(off), 2)
            ||| exists|len: u16| #[trigger]
                word16(g, space, block.wrapping_add(off), len) && (len == 0 || len > 512
                    || has_unreadable_bytes(g, p, space, block, len as usize))
        }
}

/// The flags of a name block are there or count as 0, but its bytes cannot be read.
pub open spec fn has_unreadable_bytes(
    g: GuestView,
    p: &VolatilityJson,
    space: Space,
    block: u64,
    len: usize,
) -> bool {
    exists|compressed: bool, off: u64| #[trigger]
        is_compressed(g, p, space, block, compressed) && #[trigger] field_near(
            p,
            "_CM_NAME_CONTROL_BLOCK"@,
            "Name"@,
            26,
            off,
        ) && unreadable(g, space, block.wrapping_add(off), len)
}

pub proof fn other_blocks_have_no_component(
    g: GuestView,
    p: &VolatilityJson,
    space: Space,
    block: u64,
)
    requires
        has_no_name(g, p, space, block),
    ensures
        key_component(g, space, key_layout(p), block) matches Ok(name) && name.len() == 0,
{
    broadcast use {group_memory, group_symbols};

}

/// The name block at `block` spells `name`: in bytes or in UTF-16, as its flags say; nothing where
/// there is no component.
pub open spec fn spells(
    g: GuestView,
    p: &VolatilityJson,
    space: Space,
    block: u64,
    name: Seq<char>,
) -> bool {
    ||| has_no_name(g, p, space, block) && name.len() == 0
    ||| exists|b: Seq<u8>| #[trigger]
        has_name_bytes(g, p, space, block, b) && is_compressed(g, p, space, block, true) && name
            == utf8_lossy_chars(b)
    ||| exists|b: Seq<u8>, units: Seq<u16>| #[trigger]
        has_name_bytes(g, p, space, block, b) && is_compressed(g, p, space, block, false)
            && #[trigger] bytes_are_units(b.take(b.len() as int / 2 * 2), units) && name
            == utf16_lossy_chars(units)
}

proof fn lemma_spells(g: GuestView, p: &VolatilityJson, space: Space, block: u64, name: Seq<char>)
    requires
        spells(g, p, space, block, name),
    ensures
        key_component(g, space, key_layout(p), block) == Ok::<Seq<char>, Request>(name),
{
    if has_no_name(g, p, space, block) && name.len() == 0 {
        other_blocks_have_no_component(g, p, space, block);
        assert(key_component(g, space, key_layout(p), block)->Ok_0 =~= name);
    } else if exists|b: Seq<u8>| #[trigger]
        has_name_bytes(g, p, space, block, b) && is_compressed(g, p, space, block, true) && name
            == utf8_lossy_chars(b) {
        let b = choose|b: Seq<u8>| #[trigger]
            has_name_bytes(g, p, space, block, b) && is_compressed(g, p, space, block, true) && name
                == utf8_lossy_chars(b);
        components_are_read_in_full(g, p, space, block, b, true);
    } else {
        let (b, units) = choose|b: Seq<u8>, units: Seq<u16>| #[trigger]
            has_name_bytes(g, p, space, block, b) && is_compressed(g, p, space, block, false)
                && #[trigger] bytes_are_units(b.take(b.len() as int / 2 * 2), units) && name
                == utf16_lossy_chars(units);
        components_are_read_in_full(g, p, space, block, b, false);
    }
}

/// The name block of the control block at `kcb` is at `block`.
pub open spec fn has_name_block(
    g: GuestView,
    p: &VolatilityJson,
    space: Space,
    kcb: u64,
    block: u64,
) -> bool {
    exists|off: u64| #[trigger]
        field_near(p, "_CM_KEY_CONTROL_BLOCK"@, "NameBlock"@, 80, off) && word64_or_zero(
            g,
            space,
            kcb.wrapping_add(off),
            block,
        )
}

/// A key control block at `kcb`: its hive, its component and its parent.
#[verifier::opaque]
pub open spec fn is_key(
    g: GuestView,
    p: &VolatilityJson,
    space: Space,
    kcb: u64,
    it: KeyPartView,
    parent: u64,
) -> bool {
    &&& kcb >= 0xffff_0000_0000_0000
    &&& exists|off: u64| #[trigger]
        field_near(p, "_CM_KEY_CONTROL_BLOCK"@, "KeyHive"@, 32, off) && word64_or_zero(
            g,
            space,
            kcb.wrapping_add(off),
            it.hive,
        )
    &&& exists|block: u64| #[trigger]
        has_name_block(g, p, space, kcb, block) && spells(g, p, space, block, it.name)
    &&& exists|off: u64| #[trigger]
        field_near(p, "_CM_KEY_CONTROL_BLOCK"@, "ParentKcb"@, 72, off) && word64_or_zero(
            g,
            space,
            kcb.wrapping_add(off),
            parent,
        )
}

/// Going up from a key adds its component, if it has one, and goes on with its parent.
#[verifier::rlimit(60)]
#[verifier::spinoff_prover]
pub proof fn keys_come_before_their_parents(
    g: GuestView,
    p: &VolatilityJson,
    space: Space,
    kcb: u64,
    it: KeyPartView,
    parent: u64,
    left: nat,
    above: Seq<KeyPartView>,
)
    requires
        is_key(g, p, space, kcb, it, parent),
        left > 0,
        key_parts(g, space, key_layout(p), parent, (left - 1) as nat) == Ok::<
            Seq<KeyPartView>,
            Request,
        >(above),
    ensures
        it.name.len() > 0 ==> key_parts(g, space, key_layout(p), kcb, left) == Ok::<
            Seq<KeyPartView>,
            Request,
        >(seq![it] + above),
        it.name.len() == 0 ==> key_parts(g, space, key_layout(p), kcb, left) == Ok::<
            Seq<KeyPartView>,
            Request,
        >(above),
{
    broadcast use {group_memory, group_symbols};

    reveal(is_key);
    let at = key_layout(p);
    let block = choose|block: u64| #[trigger]
        has_name_block(g, p, space, kcb, block) && spells(g, p, space, block, it.name);
    lemma_spells(g, p, space, block, it.name);
    assert(crate::reads::u64_or_zero(g, space, kcb.wrapping_add(at.hive)) == Ok::<u64, Request>(
        it.hive,
    ));
    assert(crate::reads::u64_or_zero(g, space, kcb.wrapping_add(at.parent)) == Ok::<u64, Request>(
        parent,
    ));
}

/// A chain of keys from one up to the root: each is the parent of the one before, and the last one
/// has no parent in the kernel half, or is the 32nd.
pub open spec fn is_key_chain(
    g: GuestView,
    p: &VolatilityJson,
    space: Space,
    kcbs: Seq<u64>,
    parts: Seq<KeyPartView>,
    left: nat,
) -> bool
    decreases kcbs.len(),
{
    &&& 0 < kcbs.len() <= left
    &&& parts.len() == kcbs.len()
    &&& parts[0].name.len() > 0
    &&& if kcbs.len() == 1 {
        exists|parent: u64| #[trigger]
            is_key(g, p, space, kcbs[0], parts[0], parent) && (parent < 0xffff_0000_0000_0000
                || left == 1)
    } else {
        is_key(g, p, space, kcbs[0], parts[0], kcbs[1]) && is_key_chain(
            g,
            p,
            space,
            kcbs.skip(1),
            parts.skip(1),
            (left - 1) as nat,
        )
    }
}

/// The parts from a key up, without looking inside.
#[verifier::opaque]
spec fn parts_above(
    g: GuestView,
    p: &VolatilityJson,
    space: Space,
    kcb: u64,
    left: nat,
) -> Result<Seq<KeyPartView>, Request> {
    key_parts(g, space, key_layout(p), kcb, left)
}

proof fn lemma_no_parts(g: GuestView, p: &VolatilityJson, space: Space, kcb: u64, left: nat)
    requires
        kcb < 0xffff_0000_0000_0000 || left == 0,
    ensures
        parts_above(g, p, space, kcb, left) == Ok::<Seq<KeyPartView>, Request>(seq![]),
{
    reveal(parts_above);
}

proof fn lemma_part(
    g: GuestView,
    p: &VolatilityJson,
    space: Space,
    kcb: u64,
    it: KeyPartView,
    parent: u64,
    left: nat,
    above: Seq<KeyPartView>,
)
    requires
        is_key(g, p, space, kcb, it, parent),
        it.name.len() > 0,
        left > 0,
        parts_above(g, p, space, parent, (left - 1) as nat) == Ok::<Seq<KeyPartView>, Request>(
            above,
        ),
    ensures
        parts_above(g, p, space, kcb, left) == Ok::<Seq<KeyPartView>, Request>(seq![it] + above),
{
    reveal(parts_above);
    keys_come_before_their_parents(g, p, space, kcb, it, parent, left, above);
}

proof fn lemma_key_chain(
    g: GuestView,
    p: &VolatilityJson,
    space: Space,
    kcbs: Seq<u64>,
    parts: Seq<KeyPartView>,
    left: nat,
)
    requires
        is_key_chain(g, p, space, kcbs, parts, left),
    ensures
        parts_above(g, p, space, kcbs[0], left) == Ok::<Seq<KeyPartView>, Request>(parts),
    decreases kcbs.len(),
{
    if kcbs.len() == 1 {
        let parent = choose|parent: u64| #[trigger]
            is_key(g, p, space, kcbs[0], parts[0], parent) && (parent < 0xffff_0000_0000_0000
                || left == 1);
        lemma_no_parts(g, p, space, parent, (left - 1) as nat);
        lemma_part(g, p, space, kcbs[0], parts[0], parent, left, seq![]);
        assert(seq![parts[0]] + Seq::<KeyPartView>::empty() =~= parts);
    } else {
        let rest = kcbs.skip(1);
        lemma_key_chain(g, p, space, rest, parts.skip(1), (left - 1) as nat);
        assert(rest[0] == kcbs[1]);
        lemma_part(g, p, space, kcbs[0], parts[0], kcbs[1], left, parts.skip(1));
        assert(seq![parts[0]] + parts.skip(1) =~= parts);
    }
}

proof fn lemma_key_path(
    g: GuestView,
    p: &VolatilityJson,
    dtb: u64,
    oh: u64,
    body: u64,
    block: u64,
    kcb: u64,
    parts: Seq<KeyPartView>,
)
    requires
        field_near(p, "_OBJECT_HEADER"@, "Body"@, 48, body),
        field_near(p, "_CM_KEY_BODY"@, "KeyControlBlock"@, 8, block),
        word64(g, Space::Tables(dtb), oh.wrapping_add(body.wrapping_add(block)), kcb),
        parts_above(g, p, Space::Tables(dtb), kcb, 32) == Ok::<Seq<KeyPartView>, Request>(parts),
    ensures
        key_path(g, p, dtb, oh) == Ok::<Seq<char>, Request>(
            joined(path_names(parts.reverse()), seq!['\\']),
        ),
{
    broadcast use {group_memory, group_symbols};

    reveal(parts_above);
    reveal_strlit("\\");
    assert("\\"@ =~= seq!['\\']);
}

/// The path of a key within one hive is every component of its chain, the root's first, with
/// backslashes between.
pub proof fn paths_have_every_component(
    g: GuestView,
    p: &VolatilityJson,
    dtb: u64,
    oh: u64,
    body: u64,
    block: u64,
    kcbs: Seq<u64>,
    parts: Seq<KeyPartView>,
    names: Seq<Seq<char>>,
)
    requires
        field_near(p, "_OBJECT_HEADER"@, "Body"@, 48, body),
        field_near(p, "_CM_KEY_BODY"@, "KeyControlBlock"@, 8, block),
        is_key_chain(g, p, Space::Tables(dtb), kcbs, parts, 32),
        word64(
            g,
            Space::Tables(dtb),
            oh.wrapping_add(body.wrapping_add(block)),
            kcbs[0],
        ),
        forall|i: int, j: int|
            0 <= i < parts.len() && 0 <= j < parts.len() ==> parts[i].hive == parts[j].hive,
        names.len() == parts.len(),
        forall|i: int|
            0 <= i < names.len() ==> #[trigger] names[i] == parts[names.len() - 1 - i].name,
    ensures
        key_path(g, p, dtb, oh) == Ok::<Seq<char>, Request>(joined(names, seq!['\\'])),
{
    lemma_key_chain(g, p, Space::Tables(dtb), kcbs, parts, 32);
    lemma_key_path(g, p, dtb, oh, body, block, kcbs[0], parts);
    let down = parts.reverse();
    crate::objects::names_in_one_hive_are_kept(down);
    assert(path_names(down) =~= names);
}

/// In any chain the path is what is left after repetitions at hive boundaries.
pub proof fn paths_are_joined_from_the_chain(
    g: GuestView,
    p: &VolatilityJson,
    dtb: u64,
    oh: u64,
    body: u64,
    block: u64,
    kcbs: Seq<u64>,
    parts: Seq<KeyPartView>,
)
    requires
        field_near(p, "_OBJECT_HEADER"@, "Body"@, 48, body),
        field_near(p, "_CM_KEY_BODY"@, "KeyControlBlock"@, 8, block),
        is_key_chain(g, p, Space::Tables(dtb), kcbs, parts, 32),
        word64(
            g,
            Space::Tables(dtb),
            oh.wrapping_add(body.wrapping_add(block)),
            kcbs[0],
        ),
    ensures
        key_path(g, p, dtb, oh) == Ok::<Seq<char>, Request>(
            joined(path_names(parts.reverse()), seq!['\\']),
        ),
{
    lemma_key_chain(g, p, Space::Tables(dtb), kcbs, parts, 32);
    lemma_key_path(g, p, dtb, oh, body, block, kcbs[0], parts);
}

/// What a component adds to a path: nothing where it repeats the name before it in another hive,
/// else its name. Two components of one hive are never taken for one.
pub proof fn components_add_their_name(front: Seq<KeyPartView>, last: KeyPartView)
    ensures
        path_names(seq![]).len() == 0,
        front.len() > 0 && front.last().name == last.name && front.last().hive != last.hive
            ==> path_names(front.push(last)) == path_names(front),
        front.len() == 0 || front.last().name != last.name || front.last().hive == last.hive
            ==> path_names(front.push(last)) == path_names(front).push(last.name),
{
    assert(front.push(last).drop_last() =~= front);
}

/// A key whose control block is not in the kernel half, or cannot be read, has no path.
pub proof fn without_a_control_block_no_path(
    g: GuestView,
    p: &VolatilityJson,
    dtb: u64,
    oh: u64,
    body: u64,
    block: u64,
    kcb: u64,
)
    requires
        field_near(p, "_OBJECT_HEADER"@, "Body"@, 48, body),
        field_near(p, "_CM_KEY_BODY"@, "KeyControlBlock"@, 8, block),
        word64_or_zero(g, Space::Tables(dtb), oh.wrapping_add(body.wrapping_add(block)), kcb),
        kcb < 0xffff_0000_0000_0000,
    ensures
        key_path(g, p, dtb, oh) matches Ok(path) && path.len() == 0,
{
    broadcast use {group_memory, group_symbols};

    assert(Seq::<KeyPartView>::empty().reverse() =~= seq![]);
}

} // verus!
