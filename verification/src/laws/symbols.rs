//! What a profile says of fields and symbols.

use crate::laws::writing::{
    decimals_read_back, is_decimal, is_signed, signed_decimals_read_back,
};
use crate::profile::{VolatilityJson, VolatilityStructField, VolatilityType};
use crate::text::{decimal_chars, signed_chars};
use vstd::prelude::*;

verus! {

/// The profile has this field, with this entry.
pub open spec fn has_field(
    p: &VolatilityJson,
    ty: Seq<char>,
    field: Seq<char>,
    entry: VolatilityStructField,
) -> bool {
    &&& p.user_types@.contains_key(ty)
    &&& p.user_types@[ty].fields@.contains_key(field)
    &&& p.user_types@[ty].fields@[field] == entry
}

/// The profile does not have this field.
pub open spec fn lacks_field(p: &VolatilityJson, ty: Seq<char>, field: Seq<char>) -> bool {
    !(p.user_types@.contains_key(ty) && p.user_types@[ty].fields@.contains_key(field))
}

/// A signed offset as it is added to an address, modulo 2^64.
pub open spec fn is_offset(signed: i64, off: u64) -> bool {
    off == signed || off == signed + 0x1_0000_0000_0000_0000
}

/// The profile puts the field at `off`.
pub open spec fn field_at(p: &VolatilityJson, ty: Seq<char>, field: Seq<char>, off: u64) -> bool {
    &&& !lacks_field(p, ty, field)
    &&& is_offset(p.user_types@[ty].fields@[field].offset, off)
}

/// The profile puts the field at `off`, or does not have it and `off` is the customary place.
pub open spec fn field_near(
    p: &VolatilityJson,
    ty: Seq<char>,
    field: Seq<char>,
    customary: u64,
    off: u64,
) -> bool {
    field_at(p, ty, field, off) || (lacks_field(p, ty, field) && off == customary)
}

/// The field is a bit field at this position, of this length.
pub open spec fn bits_at(
    p: &VolatilityJson,
    ty: Seq<char>,
    field: Seq<char>,
    pos: u64,
    len: u64,
) -> bool {
    &&& !lacks_field(p, ty, field)
    &&& p.user_types@[ty].fields@[field].type_val matches Some(
        VolatilityType::Bitfield { bit_position, bit_length, .. },
    ) && bit_position == pos && bit_length == len
}

/// The field is no bit field, or the profile does not have it.
pub open spec fn no_bits_at(p: &VolatilityJson, ty: Seq<char>, field: Seq<char>) -> bool {
    lacks_field(p, ty, field) || !(p.user_types@[ty].fields@[field].type_val matches Some(
        VolatilityType::Bitfield { .. },
    ))
}

/// The field is a bit field at this position, of this length; or it is none, and these are the
/// customary ones.
pub open spec fn bits_near(
    p: &VolatilityJson,
    ty: Seq<char>,
    field: Seq<char>,
    customary: (u64, u64),
    pos: u64,
    len: u64,
) -> bool {
    bits_at(p, ty, field, pos, len) || (no_bits_at(p, ty, field) && customary == (pos, len))
}

/// The profile has this symbol, at this address relative to the image.
pub open spec fn symbol_at(p: &VolatilityJson, name: Seq<char>, rva: u64) -> bool {
    p.symbols@.contains_key(name) && p.symbols@[name].address == rva
}

/// A field's offset is the one in the profile, negative ones modulo 2^64.
pub broadcast proof fn fields_are_where_the_profile_says(
    p: &VolatilityJson,
    ty: Seq<char>,
    field: Seq<char>,
    off: u64,
)
    requires
        #[trigger] field_at(p, ty, field, off),
    ensures
        p.offset(ty, field) == Some(off),
        forall|customary: u64| p.offset_or(ty, field, customary) == off,
{
    let o = p.user_types@[ty].fields@[field].offset;
    assert(o >= 0 ==> o as u64 == o) by (bit_vector);
    assert(o < 0 ==> o as u64 == o + 0x1_0000_0000_0000_0000) by (bit_vector);
}

/// What the profile lacks is taken at its customary place, if there is one.
pub broadcast proof fn missing_fields_have_no_offset(
    p: &VolatilityJson,
    ty: Seq<char>,
    field: Seq<char>,
)
    requires
        #[trigger] lacks_field(p, ty, field),
    ensures
        p.offset(ty, field) is None,
        p.bits(ty, field) is None,
        forall|customary: u64| p.offset_or(ty, field, customary) == customary,
        forall|customary: (u64, u64)| p.bits_or(ty, field, customary) == customary,
{
}

/// Both of these.
pub broadcast proof fn fields_are_near(
    p: &VolatilityJson,
    ty: Seq<char>,
    field: Seq<char>,
    customary: u64,
    off: u64,
)
    requires
        #[trigger] field_near(p, ty, field, customary, off),
    ensures
        p.offset_or(ty, field, customary) == off,
{
    if field_at(p, ty, field, off) {
        fields_are_where_the_profile_says(p, ty, field, off);
    }
}

/// A bit field's position and length are those in the profile.
pub broadcast proof fn bit_fields_are_where_the_profile_says(
    p: &VolatilityJson,
    ty: Seq<char>,
    field: Seq<char>,
    pos: u64,
    len: u64,
)
    requires
        #[trigger] bits_at(p, ty, field, pos, len),
    ensures
        p.bits(ty, field) == Some((pos, len)),
        forall|customary: (u64, u64)| p.bits_or(ty, field, customary) == (pos, len),
{
}

pub broadcast proof fn bit_fields_are_near(
    p: &VolatilityJson,
    ty: Seq<char>,
    field: Seq<char>,
    customary: (u64, u64),
    pos: u64,
    len: u64,
)
    requires
        #[trigger] bits_near(p, ty, field, customary, pos, len),
    ensures
        p.bits_or(ty, field, customary) == (pos, len),
{
    if bits_at(p, ty, field, pos, len) {
        bit_fields_are_where_the_profile_says(p, ty, field, pos, len);
    }
}

/// A field of any other type is no bit field.
pub proof fn other_fields_are_no_bit_fields(
    p: &VolatilityJson,
    ty: Seq<char>,
    field: Seq<char>,
    entry: VolatilityStructField,
)
    requires
        has_field(p, ty, field, entry),
        !(entry.type_val matches Some(VolatilityType::Bitfield { .. })),
    ensures
        p.bits(ty, field) is None,
        forall|customary: (u64, u64)| p.bits_or(ty, field, customary) == customary,
{
}

/// A symbol's address is the one in the profile, and a symbol that it lacks has none.
pub broadcast proof fn symbols_are_where_the_profile_says(
    p: &VolatilityJson,
    name: Seq<char>,
    rva: u64,
)
    requires
        #[trigger] symbol_at(p, name, rva),
    ensures
        p.rva(name) == Some(rva),
{
}

/// A symbol that the profile lacks has no address.
pub proof fn missing_symbols_have_no_address(p: &VolatilityJson, name: Seq<char>)
    requires
        !p.symbols@.contains_key(name),
    ensures
        p.rva(name) is None,
{
}

/// Entries are independent: another symbol, or another field of the same type, changes nothing.
pub proof fn other_entries_do_not_matter(
    p: &VolatilityJson,
    q: &VolatilityJson,
    ty: Seq<char>,
    field: Seq<char>,
    name: Seq<char>,
)
    requires
        lacks_field(p, ty, field) == lacks_field(q, ty, field),
        !lacks_field(p, ty, field) ==> p.user_types@[ty].fields@[field]
            == q.user_types@[ty].fields@[field],
        p.symbols@.contains_key(name) == q.symbols@.contains_key(name),
        p.symbols@.contains_key(name) ==> p.symbols@[name].address == q.symbols@[name].address,
    ensures
        p.offset(ty, field) == q.offset(ty, field),
        p.bits(ty, field) == q.bits(ty, field),
        p.rva(name) == q.rva(name),
{
}

pub broadcast group group_symbols {
    fields_are_where_the_profile_says,
    missing_fields_have_no_offset,
    fields_are_near,
    bit_fields_are_where_the_profile_says,
    bit_fields_are_near,
    symbols_are_where_the_profile_says,
}

// ---- notation ---------------------------------------------------------------------------------

/// A pointer is written behind what it points to, an array's count behind what it holds, whatever
/// that is and however deep.
pub proof fn pointers_and_arrays_follow_their_subtype(t: VolatilityType, count: u64)
    ensures
        ({
            let pointer = VolatilityType::Pointer { subtype: Box::new(t) };
            &&& pointer.notation().len() == t.notation().len() + 1
            &&& pointer.notation().take(t.notation().len() as int) == t.notation()
            &&& pointer.notation().last() == '*'
        }),
        ({
            let array = VolatilityType::Array { count, subtype: Box::new(t) };
            let n = t.notation().len() as int;
            &&& array.notation().take(n) == t.notation()
            &&& array.notation()[n] == '['
            &&& array.notation().last() == ']'
            &&& is_decimal(
                array.notation().subrange(n + 1, array.notation().len() - 1),
                count as int,
            )
        }),
{
    reveal_strlit("*");
    reveal_strlit("[");
    reveal_strlit("]");
    let pointer = VolatilityType::Pointer { subtype: Box::new(t) };
    assert(pointer.notation().take(t.notation().len() as int) =~= t.notation());
    let array = VolatilityType::Array { count, subtype: Box::new(t) };
    let n = t.notation().len() as int;
    let digits = decimal_chars(count);
    assert(array.notation().take(n) =~= t.notation());
    assert(array.notation().subrange(n + 1, array.notation().len() - 1) =~= digits);
    decimals_read_back(count);
}

/// Names are written in full, behind the word for what they name.
pub proof fn names_are_written_in_full(name: String)
    ensures
        (VolatilityType::Base { name }).notation() == name@,
        ({
            let s = (VolatilityType::Struct { name }).notation();
            s.len() == 7 + name@.len() && s.skip(7) == name@ && s.take(7) == "struct "@
        }),
        ({
            let s = (VolatilityType::Enum { name }).notation();
            s.len() == 5 + name@.len() && s.skip(5) == name@ && s.take(5) == "enum "@
        }),
        ({
            let s = (VolatilityType::Union { name }).notation();
            s.len() == 6 + name@.len() && s.skip(6) == name@ && s.take(6) == "union "@
        }),
{
    reveal_strlit("struct ");
    reveal_strlit("enum ");
    reveal_strlit("union ");
    assert(("struct "@ + name@).skip(7) =~= name@);
    assert(("struct "@ + name@).take(7) =~= "struct "@);
    assert(("enum "@ + name@).skip(5) =~= name@);
    assert(("enum "@ + name@).take(5) =~= "enum "@);
    assert(("union "@ + name@).skip(6) =~= name@);
    assert(("union "@ + name@).take(6) =~= "union "@);
}

/// A bit field has its type, its lowest bit and, modulo 2^64, the bit behind its highest.
pub proof fn bit_fields_have_both_ends(t: VolatilityType, pos: i64, len: u64, end: u64)
    requires
        end as int == (pos + len) % 0x1_0000_0000_0000_0000,
    ensures
        ({
            let s = (VolatilityType::Bitfield {
                bit_position: pos,
                bit_length: len,
                base_type: Box::new(t),
            }).notation();
            exists|low: Seq<char>, high: Seq<char>| #[trigger]
                is_signed(low, pos as int) && #[trigger] is_decimal(
                    high,
                    end as int,
                ) && s == "(bitfield "@ + t.notation() + "["@ + low + ".."@ + high + "])"@
        }),
        VolatilityType::Function.notation() == "func_ptr"@,
{
    let low = signed_chars(pos);
    let high = decimal_chars(end);
    signed_decimals_read_back(pos);
    decimals_read_back(end);
    assert(pos >= 0 ==> pos as u64 == pos) by (bit_vector);
    assert(pos < 0 ==> pos as u64 == pos + 0x1_0000_0000_0000_0000) by (bit_vector);
    assert((pos as u64).wrapping_add(len) == end);
    assert(is_signed(low, pos as int) && is_decimal(high, end as int));
}

} // verus!
