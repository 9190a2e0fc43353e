//! A Volatility 3 symbol profile (ISF): symbols, structures and types of one kernel build.

use crate::text::{decimal, decimal_chars, signed, signed_chars};
use vstd::hash_map::StringHashMap;
use vstd::prelude::*;
use vstd::string::StringExecFns;

verus! {

#[derive(Debug, PartialEq)]
pub struct VolatilityBaseType {
    pub size: i64,
    pub signed: bool,
    pub kind: String,
    pub endian: String,
}

pub struct VolatilityEnum {
    pub size: i64,
    pub base: String,
    pub constants: StringHashMap<i64>,
}

#[derive(Debug, PartialEq)]
pub struct VolatilitySymbol {
    pub type_val: Option<VolatilityType>,
    pub address: u64,
    pub constant_data: Option<String>,
}

#[derive(Debug, PartialEq)]
pub enum VolatilityType {
    Base { name: String },
    Array { count: u64, subtype: Box<VolatilityType> },
    Pointer { subtype: Box<VolatilityType> },
    Struct { name: String },
    Enum { name: String },
    Union { name: String },
    Bitfield { bit_position: i64, bit_length: u64, base_type: Box<VolatilityType> },
    Function,
}

#[derive(Debug, PartialEq)]
pub struct VolatilityStructField {
    pub type_val: Option<VolatilityType>,
    pub offset: i64,
    pub anonymous: Option<bool>,
}

pub struct VolatilityStruct {
    pub size: i64,
    pub fields: StringHashMap<VolatilityStructField>,
    pub kind: String,
}

#[derive(Debug)]
pub struct SourceMetadata {
    pub kind: String,
    pub name: String,
    pub hash_type: String,
    pub hash_value: String,
}

#[derive(Debug)]
pub struct UnixMetadata {
    pub symbols: Vec<SourceMetadata>,
    pub types: Vec<SourceMetadata>,
}

/// Identifies the ntoskrnl PDB that the symbol table was built from.
#[derive(Debug)]
pub struct WindowsPdb {
    pub guid: String,
    pub age: i64,
    pub database: String,
    pub machine_type: Option<i64>,
}

#[derive(Debug)]
pub struct WindowsMetadata {
    pub pdb: WindowsPdb,
}

#[derive(Debug)]
pub struct Producer {
    pub name: String,
    pub version: String,
}

/// A profile carries the metadata of the one system it was generated for.
#[derive(Debug)]
pub struct VolatilityMetadata {
    pub linux: Option<UnixMetadata>,
    pub windows: Option<WindowsMetadata>,
    pub producer: Producer,
    pub format: String,
}

pub struct VolatilityJson {
    pub metadata: VolatilityMetadata,
    pub base_types: StringHashMap<VolatilityBaseType>,
    pub user_types: StringHashMap<VolatilityStruct>,
    pub enums: StringHashMap<VolatilityEnum>,
    pub symbols: StringHashMap<VolatilitySymbol>,
}

/// A lookup by name: the entry under that name, `None` where there is none.
pub open spec fn finds<T>(table: Map<Seq<char>, T>, name: Seq<char>, r: Option<&T>) -> bool {
    match r {
        Some(entry) => table.contains_key(name) && *entry == table[name],
        None => !table.contains_key(name),
    }
}

impl VolatilityType {
    /// C-like notation of the type.
    pub open spec fn notation(self) -> Seq<char>
        decreases self,
    {
        match self {
            VolatilityType::Base { name } => name@,
            VolatilityType::Array { count, subtype } => subtype.notation() + "["@ + decimal_chars(
                count,
            ) + "]"@,
            VolatilityType::Pointer { subtype } => subtype.notation() + "*"@,
            VolatilityType::Struct { name } => "struct "@ + name@,
            VolatilityType::Enum { name } => "enum "@ + name@,
            VolatilityType::Union { name } => "union "@ + name@,
            VolatilityType::Bitfield { bit_position, bit_length, base_type } => "(bitfield "@
                + base_type.notation() + "["@ + signed_chars(bit_position) + ".."@ + decimal_chars(
                (bit_position as u64).wrapping_add(bit_length),
            ) + "])"@,
            VolatilityType::Function => "func_ptr"@,
        }
    }

    /// The type in C-like notation. The upper end of a bit field is taken modulo 2^64.
    pub fn display(&self) -> (r: String)
        ensures
            r@ == self.notation(),
        decreases self,
    {
        match self {
            VolatilityType::Base { name } => name.clone(),
            VolatilityType::Array { count, subtype } => {
                let mut r = subtype.display();
                r.append("[");
                r.append(decimal(*count).as_str());
                r.append("]");
                r
            },
            VolatilityType::Pointer { subtype } => {
                let mut r = subtype.display();
                r.append("*");
                r
            },
            VolatilityType::Struct { name } => {
                let mut r = "struct ".to_owned();
                r.append(name.as_str());
                r
            },
            VolatilityType::Enum { name } => {
                let mut r = "enum ".to_owned();
                r.append(name.as_str());
                r
            },
            VolatilityType::Union { name } => {
                let mut r = "union ".to_owned();
                r.append(name.as_str());
                r
            },
            VolatilityType::Bitfield { bit_position, bit_length, base_type } => {
                let end: u64 = (*bit_position as u64).wrapping_add(*bit_length);
                let mut r = "(bitfield ".to_owned();
                r.append(base_type.display().as_str());
                r.append("[");
                r.append(signed(*bit_position).as_str());
                r.append("..");
                r.append(decimal(end).as_str());
                r.append("])");
                r
            },
            VolatilityType::Function => "func_ptr".to_owned(),
        }
    }

    /// The name of a base type, array or pointer. What an array holds, or a pointer points to,
    /// may be any type.
    pub fn to_string(&self) -> (r: String)
        requires
            self is Base || self is Array || self is Pointer,
        ensures
            r@ == self.notation(),
    {
        self.display()
    }
}

impl VolatilityEnum {
    pub fn new(size: i64, base: String) -> (r: VolatilityEnum)
        ensures
            r.size == size,
            r.base == base,
            r.constants@ == Map::<Seq<char>, i64>::empty(),
    {
        VolatilityEnum { size, base, constants: StringHashMap::new() }
    }

    pub fn add_constant(&mut self, name: String, value: i64)
        ensures
            final(self).size == old(self).size,
            final(self).base == old(self).base,
            final(self).constants@ == old(self).constants@.insert(name@, value),
    {
        self.constants.insert(name, value);
    }
}

impl VolatilityStruct {
    pub fn new(size: i64, kind: String) -> (r: VolatilityStruct)
        ensures
            r.size == size,
            r.kind == kind,
            r.fields@ == Map::<Seq<char>, VolatilityStructField>::empty(),
    {
        VolatilityStruct { size, fields: StringHashMap::new(), kind }
    }

    pub fn add_field(&mut self, name: String, field: VolatilityStructField)
        ensures
            final(self).size == old(self).size,
            final(self).kind == old(self).kind,
            final(self).fields@ == old(self).fields@.insert(name@, field),
    {
        self.fields.insert(name, field);
    }
}

impl VolatilityJson {
    /// A profile without entries.
    pub fn new(metadata: VolatilityMetadata) -> (r: VolatilityJson)
        ensures
            r.metadata == metadata,
            r.base_types@ == Map::<Seq<char>, VolatilityBaseType>::empty(),
            r.user_types@ == Map::<Seq<char>, VolatilityStruct>::empty(),
            r.enums@ == Map::<Seq<char>, VolatilityEnum>::empty(),
            r.symbols@ == Map::<Seq<char>, VolatilitySymbol>::empty(),
    {
        VolatilityJson {
            metadata,
            base_types: StringHashMap::new(),
            user_types: StringHashMap::new(),
            enums: StringHashMap::new(),
            symbols: StringHashMap::new(),
        }
    }

    pub fn add_base_type(&mut self, name: String, entry: VolatilityBaseType)
        ensures
            *final(self) == (VolatilityJson { base_types: final(self).base_types, ..*old(self) }),
            final(self).base_types@ == old(self).base_types@.insert(name@, entry),
    {
        self.base_types.insert(name, entry);
    }

    pub fn add_type(&mut self, name: String, entry: VolatilityStruct)
        ensures
            *final(self) == (VolatilityJson { user_types: final(self).user_types, ..*old(self) }),
            final(self).user_types@ == old(self).user_types@.insert(name@, entry),
    {
        self.user_types.insert(name, entry);
    }

    pub fn add_enum(&mut self, name: String, entry: VolatilityEnum)
        ensures
            *final(self) == (VolatilityJson { enums: final(self).enums, ..*old(self) }),
            final(self).enums@ == old(self).enums@.insert(name@, entry),
    {
        self.enums.insert(name, entry);
    }

    pub fn add_symbol(&mut self, name: String, entry: VolatilitySymbol)
        ensures
            *final(self) == (VolatilityJson { symbols: final(self).symbols, ..*old(self) }),
            final(self).symbols@ == old(self).symbols@.insert(name@, entry),
    {
        self.symbols.insert(name, entry);
    }

    pub fn enum_from_name(&self, name: &str) -> (r: Option<&VolatilityEnum>)
        ensures
            finds(self.enums@, name@, r),
    {
        self.enums.get(name)
    }

    pub fn base_type_from_name(&self, name: &str) -> (r: Option<&VolatilityBaseType>)
        ensures
            finds(self.base_types@, name@, r),
    {
        self.base_types.get(name)
    }

    pub fn symbol_from_name(&self, name: &str) -> (r: Option<&VolatilitySymbol>)
        ensures
            finds(self.symbols@, name@, r),
    {
        self.symbols.get(name)
    }

    pub fn type_from_name(&self, name: &str) -> (r: Option<&VolatilityStruct>)
        ensures
            finds(self.user_types@, name@, r),
    {
        self.user_types.get(name)
    }

    // ---- what the walkers ask of a profile ----------------------------------------------------

    /// Address of a symbol relative to the image base.
    pub open spec fn rva(&self, name: Seq<char>) -> Option<u64> {
        if self.symbols@.contains_key(name) {
            Some(self.symbols@[name].address)
        } else {
            None
        }
    }

    pub open spec fn field(&self, ty: Seq<char>, field: Seq<char>) -> Option<
        VolatilityStructField,
    > {
        if self.user_types@.contains_key(ty) && self.user_types@[ty].fields@.contains_key(field) {
            Some(self.user_types@[ty].fields@[field])
        } else {
            None
        }
    }

    /// Offset of a field in its structure. Offsets are added modulo 2^64, so a negative one
    /// reaches back.
    pub open spec fn offset(&self, ty: Seq<char>, field: Seq<char>) -> Option<u64> {
        match self.field(ty, field) {
            Some(f) => Some(f.offset as u64),
            None => None,
        }
    }

    /// The offset, or a fallback where the profile does not know the field.
    pub open spec fn offset_or(&self, ty: Seq<char>, field: Seq<char>, fallback: u64) -> u64 {
        match self.offset(ty, field) {
            Some(off) => off,
            None => fallback,
        }
    }

    /// Position and length of a bit field.
    pub open spec fn bits(&self, ty: Seq<char>, field: Seq<char>) -> Option<(u64, u64)> {
        match self.field(ty, field) {
            Some(f) => match f.type_val {
                Some(
                    VolatilityType::Bitfield { bit_position, bit_length, base_type },
                ) => Some((bit_position as u64, bit_length)),
                _ => None,
            },
            None => None,
        }
    }

    pub open spec fn bits_or(
        &self,
        ty: Seq<char>,
        field: Seq<char>,
        fallback: (u64, u64),
    ) -> (u64, u64) {
        match self.bits(ty, field) {
            Some(b) => b,
            None => fallback,
        }
    }
}

/// True if the profile was generated for Windows.
pub fn is_windows(p: &VolatilityJson) -> (r: bool)
    ensures
        r == (p.metadata.windows is Some),
{
    p.metadata.windows.is_some()
}

pub fn sym_rva(p: &VolatilityJson, name: &str) -> (r: Option<u64>)
    ensures
        r == p.rva(name@),
{
    match p.symbol_from_name(name) {
        Some(s) => Some(s.address),
        None => None,
    }
}

/// Address of a symbol in an image loaded at `base`.
pub fn sym_addr(p: &VolatilityJson, base: u64, name: &str) -> (r: Option<u64>)
    ensures
        r == match p.rva(name@) {
            Some(rva) => Some(base.wrapping_add(rva)),
            None => None,
        },
{
    match sym_rva(p, name) {
        Some(rva) => Some(base.wrapping_add(rva)),
        None => None,
    }
}

pub fn foff(p: &VolatilityJson, ty: &str, field: &str) -> (r: Option<u64>)
    ensures
        r == p.offset(ty@, field@),
{
    match p.type_from_name(ty) {
        Some(t) => match t.fields.get(field) {
            Some(f) => Some(f.offset as u64),
            None => None,
        },
        None => None,
    }
}

pub(crate) fn foff_or(p: &VolatilityJson, ty: &str, field: &str, fallback: u64) -> (r: u64)
    ensures
        r == p.offset_or(ty@, field@, fallback),
{
    match foff(p, ty, field) {
        Some(off) => off,
        None => fallback,
    }
}

/// (bit position, bit length) of a bit field member.
pub fn bitfield(p: &VolatilityJson, ty: &str, field: &str) -> (r: Option<(u64, u64)>)
    ensures
        r == p.bits(ty@, field@),
{
    match p.type_from_name(ty) {
        Some(t) => match t.fields.get(field) {
            Some(f) => match &f.type_val {
                Some(VolatilityType::Bitfield { bit_position, bit_length, base_type: _ }) => Some(
                    (*bit_position as u64, *bit_length),
                ),
                _ => None,
            },
            None => None,
        },
        None => None,
    }
}

pub(crate) fn bitfield_or(
    p: &VolatilityJson,
    ty: &str,
    field: &str,
    fallback: (u64, u64),
) -> (r: (u64, u64))
    ensures
        r == p.bits_or(ty@, field@, fallback),
{
    match bitfield(p, ty, field) {
        Some(b) => b,
        None => fallback,
    }
}

} // verus!
