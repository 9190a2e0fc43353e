//! From an object header to the type and name of the object.

use crate::guest::{steady, Guest, GuestView, Request};
use crate::lists::{list_outcome, prepend, views};
use crate::profile::{bitfield_or, foff_or, sym_rva, VolatilityJson};
use crate::reads::{
    agree, bytes_at, group_reads_steady, rd_bytes, rd_u16_or_zero, rd_u32_or_zero, rd_u64_or_zero,
    rd_u8, rd_u8_or_zero, rd_unicode_string, same_memory, same_scalars, text_outcome, u16_or_zero,
    u32_or_zero, u64_or_zero, u8_at, u8_or_zero, unicode_string, utf16_bytes, utf16_bytes_chars,
    Space, KERNEL_MIN,
};
use crate::text::{join, joined, texts, utf8_lossy, utf8_lossy_chars};
use vstd::prelude::*;

verus! {

// ---- registry keys ----------------------------------------------------------------------------

/// One component of a key path: its name, and the hive that the key is in.
#[derive(Clone, Debug)]
pub struct KeyPart {
    pub name: String,
    pub hive: u64,
}

pub struct KeyPartView {
    pub name: Seq<char>,
    pub hive: u64,
}

impl View for KeyPart {
    type V = KeyPartView;

    open spec fn view(&self) -> KeyPartView {
        KeyPartView { name: self.name@, hive: self.hive }
    }
}

/// Where the structures of a registry key keep what its path is made of.
#[derive(Clone, Copy, Debug)]
pub struct KeyLayout {
    pub key_control_block: u64,
    pub name_block: u64,
    pub parent: u64,
    pub hive: u64,
    pub name_length: u64,
    pub name: u64,
    /// The word that the Compressed bit is in, and the bit's position and length there.
    pub flags: u64,
    pub compressed: (u64, u64),
}

pub open spec fn key_layout(p: &VolatilityJson) -> KeyLayout {
    KeyLayout {
        key_control_block: p.offset_or("_OBJECT_HEADER"@, "Body"@, 0x30).wrapping_add(
            p.offset_or("_CM_KEY_BODY"@, "KeyControlBlock"@, 8),
        ),
        name_block: p.offset_or("_CM_KEY_CONTROL_BLOCK"@, "NameBlock"@, 80),
        parent: p.offset_or("_CM_KEY_CONTROL_BLOCK"@, "ParentKcb"@, 72),
        hive: p.offset_or("_CM_KEY_CONTROL_BLOCK"@, "KeyHive"@, 32),
        name_length: p.offset_or("_CM_NAME_CONTROL_BLOCK"@, "NameLength"@, 24),
        name: p.offset_or("_CM_NAME_CONTROL_BLOCK"@, "Name"@, 26),
        flags: p.offset_or("_CM_NAME_CONTROL_BLOCK"@, "Compressed"@, 0),
        compressed: p.bits_or("_CM_NAME_CONTROL_BLOCK"@, "Compressed"@, (0, 1)),
    }
}

fn key_layout_of(p: &VolatilityJson) -> (r: KeyLayout)
    ensures
        r == key_layout(p),
{
    KeyLayout {
        key_control_block: foff_or(p, "_OBJECT_HEADER", "Body", 0x30).wrapping_add(
            foff_or(p, "_CM_KEY_BODY", "KeyControlBlock", 8),
        ),
        name_block: foff_or(p, "_CM_KEY_CONTROL_BLOCK", "NameBlock", 80),
        parent: foff_or(p, "_CM_KEY_CONTROL_BLOCK", "ParentKcb", 72),
        hive: foff_or(p, "_CM_KEY_CONTROL_BLOCK", "KeyHive", 32),
        name_length: foff_or(p, "_CM_NAME_CONTROL_BLOCK", "NameLength", 24),
        name: foff_or(p, "_CM_NAME_CONTROL_BLOCK", "Name", 26),
        flags: foff_or(p, "_CM_NAME_CONTROL_BLOCK", "Compressed", 0),
        compressed: bitfield_or(p, "_CM_NAME_CONTROL_BLOCK", "Compressed", (0, 1)),
    }
}

/// A bit field of a 32-bit word is not zero. The position counts modulo 32.
pub open spec fn field_set(word: u32, field: (u64, u64)) -> bool {
    let mask = if field.1 >= 32 {
        u32::MAX
    } else {
        ((1u32 << field.1) - 1) as u32
    };
    (word >> (field.0 % 32)) & mask != 0
}

fn is_field_set(word: u32, field: (u64, u64)) -> (r: bool)
    ensures
        r == field_set(word, field),
{
    let (pos, len) = field;
    let mask: u32 = if len >= 32 {
        u32::MAX
    } else {
        assert((1u32 << len) >= 1) by (bit_vector)
            requires
                len < 32,
        ;
        (1u32 << len) - 1
    };
    (word >> (pos % 32)) & mask != 0
}

/// The component in a name block: ASCII where it is compressed, UTF-16 where it is not. Empty
/// unless the block is in the kernel half, 1 to 512 bytes long and readable.
pub open spec fn key_component(g: GuestView, space: Space, at: KeyLayout, block: u64) -> Result<
    Seq<char>,
    Request,
> {
    if block < KERNEL_MIN {
        Ok(seq![])
    } else {
        match u16_or_zero(g, space, block.wrapping_add(at.name_length)) {
            Err(q) => Err(q),
            Ok(len) => if len == 0 || len > 512 {
                Ok(seq![])
            } else {
                match u32_or_zero(g, space, block.wrapping_add(at.flags)) {
                    Err(q) => Err(q),
                    Ok(flags) => match bytes_at(
                        g,
                        space,
                        block.wrapping_add(at.name),
                        len as usize,
                    ) {
                        Err(q) => Err(q),
                        Ok(None) => Ok(seq![]),
                        Ok(Some(b)) => if field_set(flags, at.compressed) {
                            Ok(utf8_lossy_chars(b))
                        } else {
                            Ok(utf16_bytes_chars(b))
                        },
                    },
                }
            },
        }
    }
}

fn read_key_component(g: &Guest, space: Space, at: KeyLayout, block: u64) -> (r: Result<
    String,
    Request,
>)
    ensures
        text_outcome(r) == key_component(g@, space, at, block),
{
    if block < KERNEL_MIN {
        return Ok(String::new());
    }
    let len: usize = rd_u16_or_zero(g, space, block.wrapping_add(at.name_length))? as usize;
    if len == 0 || len > 512 {
        return Ok(String::new());
    }
    let flags = rd_u32_or_zero(g, space, block.wrapping_add(at.flags))?;
    match rd_bytes(g, space, block.wrapping_add(at.name), len)? {
        Some(b) => if is_field_set(flags, at.compressed) {
            Ok(utf8_lossy(b.as_slice()))
        } else {
            Ok(utf16_bytes(&b))
        },
        None => Ok(String::new()),
    }
}

/// At most this many levels of a key path are followed.
pub const MAX_KEY_DEPTH: u64 = 32;

/// The components from a key control block up to the root, the key itself first. A block without
/// a name contributes nothing.
pub open spec fn key_parts(
    g: GuestView,
    space: Space,
    at: KeyLayout,
    kcb: u64,
    left: nat,
) -> Result<Seq<KeyPartView>, Request>
    decreases left,
{
    if left == 0 || kcb < KERNEL_MIN {
        Ok(seq![])
    } else {
        match u64_or_zero(g, space, kcb.wrapping_add(at.hive)) {
            Err(q) => Err(q),
            Ok(hive) => match u64_or_zero(g, space, kcb.wrapping_add(at.name_block)) {
                Err(q) => Err(q),
                Ok(block) => match key_component(g, space, at, block) {
                    Err(q) => Err(q),
                    Ok(name) => match u64_or_zero(g, space, kcb.wrapping_add(at.parent)) {
                        Err(q) => Err(q),
                        Ok(parent) => match key_parts(g, space, at, parent, (left - 1) as nat) {
                            Err(q) => Err(q),
                            Ok(rest) => if name.len() == 0 {
                                Ok(rest)
                            } else {
                                Ok(seq![KeyPartView { name, hive }] + rest)
                            },
                        },
                    },
                },
            },
        }
    }
}

/// The root cell of a hive repeats the name of its mount point: same name as the component before
/// it, different hive.
pub open spec fn repeats_mount_point(parts: Seq<KeyPartView>, i: int) -> bool {
    0 < i < parts.len() && parts[i].name == parts[i - 1].name && parts[i].hive != parts[i - 1].hive
}

/// The names along a path (root first) without the repetitions at hive boundaries.
pub open spec fn path_names(parts: Seq<KeyPartView>) -> Seq<Seq<char>>
    decreases parts.len(),
{
    if parts.len() == 0 {
        seq![]
    } else if repeats_mount_point(parts, parts.len() - 1) {
        path_names(parts.drop_last())
    } else {
        path_names(parts.drop_last()).push(parts.last().name)
    }
}

/// The full path of the key whose object header is at `oh`; empty where it has no control block.
pub open spec fn key_path(g: GuestView, p: &VolatilityJson, dtb: u64, oh: u64) -> Result<
    Seq<char>,
    Request,
> {
    let space = Space::Tables(dtb);
    let at = key_layout(p);
    match u64_or_zero(g, space, oh.wrapping_add(at.key_control_block)) {
        Err(q) => Err(q),
        Ok(kcb) => match key_parts(g, space, at, kcb, MAX_KEY_DEPTH as nat) {
            Err(q) => Err(q),
            Ok(parts) => Ok(joined(path_names(parts.reverse()), "\\"@)),
        },
    }
}

/// The names along a path whose components are given from the key up.
pub fn collapse_path(parts: &Vec<KeyPart>) -> (r: Vec<String>)
    ensures
        texts(r@) == path_names(views(parts@).reverse()),
{
    let ghost down = views(parts@).reverse();
    let mut out: Vec<String> = Vec::new();
    let mut i: usize = parts.len();
    assert(texts(out@) =~= seq![]);
    while i > 0
        invariant
            i <= parts.len(),
            down == views(parts@).reverse(),
            texts(out@) == path_names(down.take(parts.len() - i)),
        decreases i,
    {
        let ghost n = parts.len() - i;
        let ghost upto = down.take(n + 1);
        assert(upto.drop_last() =~= down.take(n as int));
        assert(upto.last() == parts@[i - 1]@);
        assert(n > 0 ==> upto[n - 1] == parts@[i as int]@);
        i -= 1;
        let repeats = i + 1 < parts.len() && parts[i].name == parts[i + 1].name && parts[i].hive
            != parts[i + 1].hive;
        assert(repeats == repeats_mount_point(upto, n as int));
        if !repeats {
            let ghost before = texts(out@);
            out.push(parts[i].name.clone());
            assert(texts(out@) =~= before.push(upto.last().name));
        }
    }
    assert(down.take(parts.len() as int) =~= down);
    out
}

#[verifier::rlimit(60)]
#[verifier::spinoff_prover]
proof fn lemma_key_step(
    g: GuestView,
    space: Space,
    at: KeyLayout,
    kcb: u64,
    left: nat,
    done: Seq<KeyPartView>,
    it: KeyPartView,
    block: u64,
    parent: u64,
)
    requires
        left > 0,
        kcb >= KERNEL_MIN,
        u64_or_zero(g, space, kcb.wrapping_add(at.hive)) == Ok::<u64, Request>(it.hive),
        u64_or_zero(g, space, kcb.wrapping_add(at.name_block)) == Ok::<u64, Request>(block),
        key_component(g, space, at, block) == Ok::<Seq<char>, Request>(it.name),
        u64_or_zero(g, space, kcb.wrapping_add(at.parent)) == Ok::<u64, Request>(parent),
    ensures
        prepend(done, key_parts(g, space, at, kcb, left)) == prepend(
            if it.name.len() == 0 {
                done
            } else {
                done.push(it)
            },
            key_parts(g, space, at, parent, (left - 1) as nat),
        ),
{
    let here = key_parts(g, space, at, kcb, left);
    match key_parts(g, space, at, parent, (left - 1) as nat) {
        Err(q) => {
            assert(here == Err::<Seq<KeyPartView>, Request>(q));
        },
        Ok(rest) => {
            if it.name.len() == 0 {
                assert(here == Ok::<Seq<KeyPartView>, Request>(rest));
            } else {
                assert(here == Ok::<Seq<KeyPartView>, Request>(seq![it] + rest));
                assert(done + (seq![it] + rest) =~= done.push(it) + rest);
            }
        },
    }
}

fn read_key_parts(g: &Guest, space: Space, at: KeyLayout, start: u64) -> (r: Result<
    Vec<KeyPart>,
    Request,
>)
    ensures
        list_outcome(r) == key_parts(g@, space, at, start, MAX_KEY_DEPTH as nat),
{
    let ghost whole = key_parts(g@, space, at, start, MAX_KEY_DEPTH as nat);
    let mut kcb: u64 = start;
    let mut parts: Vec<KeyPart> = Vec::new();
    let mut depth: u64 = 0;
    proof {
        if let Ok(v) = whole {
            assert(views(parts@) + v =~= v);
        }
    }
    while kcb >= KERNEL_MIN && depth < MAX_KEY_DEPTH
        invariant
            depth <= MAX_KEY_DEPTH,
            whole == key_parts(g@, space, at, start, MAX_KEY_DEPTH as nat),
            whole == prepend(
                views(parts@),
                key_parts(g@, space, at, kcb, (MAX_KEY_DEPTH - depth) as nat),
            ),
        decreases MAX_KEY_DEPTH - depth,
    {
        let hive = rd_u64_or_zero(g, space, kcb.wrapping_add(at.hive))?;
        let block = rd_u64_or_zero(g, space, kcb.wrapping_add(at.name_block))?;
        let name = read_key_component(g, space, at, block)?;
        let parent = rd_u64_or_zero(g, space, kcb.wrapping_add(at.parent))?;
        let found = KeyPart { name, hive };
        let ghost done = views(parts@);
        let ghost it = found@;
        proof {
            let left = (MAX_KEY_DEPTH - depth) as nat;
            lemma_key_step(g@, space, at, kcb, left, done, it, block, parent);
        }
        if !found.name.as_str().is_empty() {
            parts.push(found);
            assert(views(parts@) =~= done.push(it));
        }
        kcb = parent;
        depth += 1;
    }
    assert(views(parts@) + Seq::<KeyPartView>::empty() =~= views(parts@));
    Ok(parts)
}

/// The path of a registry key, from its _CM_KEY_BODY up the _CM_KEY_CONTROL_BLOCK parents.
pub fn key_path_dtb(g: &Guest, p: &VolatilityJson, dtb: u64, oh: u64) -> (r: Result<
    String,
    Request,
>)
    ensures
        text_outcome(r) == key_path(g@, p, dtb, oh),
{
    let space = Space::Tables(dtb);
    let at = key_layout_of(p);
    let kcb = rd_u64_or_zero(g, space, oh.wrapping_add(at.key_control_block))?;
    let parts = read_key_parts(g, space, at, kcb)?;
    Ok(join(&collapse_path(&parts), "\\"))
}

// ---- objects ----------------------------------------------------------------------------------

/// The type name of an object: its TypeIndex, which is obfuscated with ObHeaderCookie and the
/// second byte of the header's address, selects an _OBJECT_TYPE in ObTypeIndexTable. Empty where
/// that leads nowhere, `None` where the header cannot be read.
pub open spec fn object_type(
    g: GuestView,
    p: &VolatilityJson,
    space: Space,
    base: u64,
    oh: u64,
) -> Result<Option<Seq<char>>, Request> {
    match u8_at(g, space, oh.wrapping_add(p.offset_or("_OBJECT_HEADER"@, "TypeIndex"@, 24))) {
        Err(q) => Err(q),
        Ok(None) => Ok(None),
        Ok(Some(stored)) => match header_cookie(g, p, space, base) {
            Err(q) => Err(q),
            Ok(cookie) => match p.rva("ObTypeIndexTable"@) {
                None => Ok(Some(seq![])),
                Some(rva) => match u64_or_zero(
                    g,
                    space,
                    base.wrapping_add(rva).wrapping_add(
                        (type_index(stored, oh, cookie) * 8) as u64,
                    ),
                ) {
                    Err(q) => Err(q),
                    Ok(ty) => if ty < KERNEL_MIN {
                        Ok(Some(seq![]))
                    } else {
                        match unicode_string(
                            g,
                            space,
                            ty.wrapping_add(p.offset_or("_OBJECT_TYPE"@, "Name"@, 16)),
                        ) {
                            Err(q) => Err(q),
                            Ok(name) => Ok(Some(name)),
                        }
                    },
                },
            },
        },
    }
}

/// The type index that was stored obfuscated in the header at `oh`.
pub open spec fn type_index(stored: u8, oh: u64, cookie: u8) -> u8 {
    stored ^ (((oh >> 8) & 0xff) as u8) ^ cookie
}

/// ObHeaderCookie; 0 where it cannot be had.
pub open spec fn header_cookie(g: GuestView, p: &VolatilityJson, space: Space, base: u64) -> Result<
    u8,
    Request,
> {
    match p.rva("ObHeaderCookie"@) {
        None => Ok(0),
        Some(rva) => u8_or_zero(g, space, base.wrapping_add(rva)),
    }
}

/// The name in an object's optional name header. InfoMask says whether there is one, and
/// ObpInfoMaskToOffset how far in front of the object header it is.
pub open spec fn header_name(
    g: GuestView,
    p: &VolatilityJson,
    space: Space,
    base: u64,
    oh: u64,
) -> Result<Seq<char>, Request> {
    match u8_or_zero(g, space, oh.wrapping_add(p.offset_or("_OBJECT_HEADER"@, "InfoMask"@, 26))) {
        Err(q) => Err(q),
        Ok(mask) => match p.rva("ObpInfoMaskToOffset"@) {
            Some(rva) if mask & 0x2 != 0 => match u8_or_zero(
                g,
                space,
                base.wrapping_add(rva).wrapping_add((mask & 0x3) as u64),
            ) {
                Err(q) => Err(q),
                Ok(back) => if back == 0 || back > oh {
                    Ok(seq![])
                } else {
                    unicode_string(
                        g,
                        space,
                        ((oh - back) as u64).wrapping_add(
                            p.offset_or("_OBJECT_HEADER_NAME_INFO"@, "Name"@, 8),
                        ),
                    )
                },
            },
            _ => Ok(seq![]),
        },
    }
}

/// _FILE_OBJECT.FileName of the object with this header.
pub open spec fn file_name(g: GuestView, p: &VolatilityJson, space: Space, oh: u64) -> Result<
    Seq<char>,
    Request,
> {
    unicode_string(
        g,
        space,
        oh.wrapping_add(p.offset_or("_OBJECT_HEADER"@, "Body"@, 0x30)).wrapping_add(
            p.offset_or("_FILE_OBJECT"@, "FileName"@, 0x58),
        ),
    )
}

/// Type and name of an object. A file without a name header is named by its file object.
pub open spec fn object(
    g: GuestView,
    p: &VolatilityJson,
    space: Space,
    base: u64,
    oh: u64,
) -> Result<(Seq<char>, Seq<char>), Request> {
    match object_type(g, p, space, base, oh) {
        Err(q) => Err(q),
        Ok(None) => Ok((seq![], seq![])),
        Ok(Some(ty)) => match header_name(g, p, space, base, oh) {
            Err(q) => Err(q),
            Ok(name) => if name.len() == 0 && ty == "File"@ {
                match file_name(g, p, space, oh) {
                    Err(q) => Err(q),
                    Ok(path) => Ok((ty, path)),
                }
            } else {
                Ok((ty, name))
            },
        },
    }
}

/// Type and name of an object through the tables at `dtb`. A registry key without a name header is
/// named by its path.
pub open spec fn object_with_keys(
    g: GuestView,
    p: &VolatilityJson,
    dtb: u64,
    base: u64,
    oh: u64,
) -> Result<(Seq<char>, Seq<char>), Request> {
    match object(g, p, Space::Tables(dtb), base, oh) {
        Err(q) => Err(q),
        Ok((ty, name)) => if name.len() == 0 && ty == "Key"@ {
            match key_path(g, p, dtb, oh) {
                Err(q) => Err(q),
                Ok(path) => Ok((ty, path)),
            }
        } else {
            Ok((ty, name))
        },
    }
}

/// The outcome of a query for type and name.
pub open spec fn pair_outcome(r: Result<(String, String), Request>) -> Result<
    (Seq<char>, Seq<char>),
    Request,
> {
    match r {
        Err(q) => Err(q),
        Ok((a, b)) => Ok((a@, b@)),
    }
}

pub open spec fn optional_text_outcome(r: Result<Option<String>, Request>) -> Result<
    Option<Seq<char>>,
    Request,
> {
    match r {
        Err(q) => Err(q),
        Ok(None) => Ok(None),
        Ok(Some(s)) => Ok(Some(s@)),
    }
}

/// The type name of an object.
pub fn resolve_type(g: &Guest, p: &VolatilityJson, space: Space, base: u64, oh: u64) -> (r: Result<
    Option<String>,
    Request,
>)
    ensures
        optional_text_outcome(r) == object_type(g@, p, space, base, oh),
{
    let ti_off = foff_or(p, "_OBJECT_HEADER", "TypeIndex", 24);
    let stored = match rd_u8(g, space, oh.wrapping_add(ti_off))? {
        Some(v) => v,
        None => return Ok(None),
    };
    let cookie: u8 = match sym_rva(p, "ObHeaderCookie") {
        Some(rva) => rd_u8_or_zero(g, space, base.wrapping_add(rva))?,
        None => 0,
    };
    let index: u8 = stored ^ (((oh >> 8) & 0xff) as u8) ^ cookie;
    match sym_rva(p, "ObTypeIndexTable") {
        Some(rva) => {
            let slot = base.wrapping_add(rva).wrapping_add(index as u64 * 8);
            let ty = rd_u64_or_zero(g, space, slot)?;
            if ty >= KERNEL_MIN {
                let name_off = foff_or(p, "_OBJECT_TYPE", "Name", 16);
                let name = rd_unicode_string(g, space, ty.wrapping_add(name_off))?;
                Ok(Some(name))
            } else {
                Ok(Some(String::new()))
            }
        },
        None => Ok(Some(String::new())),
    }
}

fn resolve_header_name(
    g: &Guest,
    p: &VolatilityJson,
    space: Space,
    base: u64,
    oh: u64,
) -> (r: Result<String, Request>)
    ensures
        text_outcome(r) == header_name(g@, p, space, base, oh),
{
    let im_off = foff_or(p, "_OBJECT_HEADER", "InfoMask", 26);
    let mask = rd_u8_or_zero(g, space, oh.wrapping_add(im_off))?;
    if mask & 0x2 != 0 {
        if let Some(rva) = sym_rva(p, "ObpInfoMaskToOffset") {
            let slot = base.wrapping_add(rva).wrapping_add((mask & 0x3) as u64);
            let back = rd_u8_or_zero(g, space, slot)? as u64;
            if back != 0 && back <= oh {
                let name_off = foff_or(p, "_OBJECT_HEADER_NAME_INFO", "Name", 8);
                return rd_unicode_string(g, space, (oh - back).wrapping_add(name_off));
            }
        }
    }
    Ok(String::new())
}

/// Resolves an _OBJECT_HEADER to (type name, object name).
pub fn resolve_object(g: &Guest, p: &VolatilityJson, space: Space, base: u64, oh: u64) -> (r:
    Result<(String, String), Request>)
    ensures
        pair_outcome(r) == object(g@, p, space, base, oh),
{
    let ty = match resolve_type(g, p, space, base, oh)? {
        Some(ty) => ty,
        None => return Ok((String::new(), String::new())),
    };
    let name = resolve_header_name(g, p, space, base, oh)?;
    if name.as_str().is_empty() && ty == "File".to_owned() {
        let body = foff_or(p, "_OBJECT_HEADER", "Body", 0x30);
        let file = foff_or(p, "_FILE_OBJECT", "FileName", 0x58);
        let path = rd_unicode_string(g, space, oh.wrapping_add(body).wrapping_add(file))?;
        return Ok((ty, path));
    }
    Ok((ty, name))
}

/// Resolves an _OBJECT_HEADER to (type name, object name) through the tables at `dtb`.
pub fn resolve_object_dtb(g: &Guest, p: &VolatilityJson, dtb: u64, base: u64, oh: u64) -> (r:
    Result<(String, String), Request>)
    ensures
        pair_outcome(r) == object_with_keys(g@, p, dtb, base, oh),
{
    let (ty, name) = resolve_object(g, p, Space::Tables(dtb), base, oh)?;
    if name.as_str().is_empty() && ty == "Key".to_owned() {
        let path = key_path_dtb(g, p, dtb, oh)?;
        return Ok((ty, path));
    }
    Ok((ty, name))
}

// ---- laws -------------------------------------------------------------------------------------

/// Within one hive every component is kept, so a key `\Foo\Foo` keeps both names.
pub proof fn names_in_one_hive_are_kept(parts: Seq<KeyPartView>)
    requires
        forall|i: int, j: int|
            0 <= i < parts.len() && 0 <= j < parts.len() ==> parts[i].hive == parts[j].hive,
    ensures
        path_names(parts) == Seq::new(parts.len(), |i: int| parts[i].name),
    decreases parts.len(),
{
    if parts.len() > 0 {
        names_in_one_hive_are_kept(parts.drop_last());
    }
    assert(path_names(parts) =~= Seq::new(parts.len(), |i: int| parts[i].name));
}

/// Where a component repeats the one before it across a hive boundary, the path is the same
/// without it, up to there.
pub proof fn mount_point_is_named_once(parts: Seq<KeyPartView>, i: int)
    requires
        repeats_mount_point(parts, i),
    ensures
        path_names(parts.take(i + 1)) == path_names(parts.take(i)),
{
    assert(parts.take(i + 1).drop_last() =~= parts.take(i));
    assert(repeats_mount_point(parts.take(i + 1), i));
}

/// Any other component adds its name.
pub proof fn other_components_are_kept(parts: Seq<KeyPartView>, i: int)
    requires
        0 <= i < parts.len(),
        !repeats_mount_point(parts, i),
    ensures
        path_names(parts.take(i + 1)) == path_names(parts.take(i)).push(parts[i].name),
{
    assert(parts.take(i + 1).drop_last() =~= parts.take(i));
    assert(!repeats_mount_point(parts.take(i + 1), i));
}

/// A key path has at most as many components as levels are followed, none of them empty.
pub proof fn key_parts_bounded(g: GuestView, space: Space, at: KeyLayout, kcb: u64, left: nat)
    ensures
        key_parts(g, space, at, kcb, left) matches Ok(parts) ==> parts.len() <= left && forall|
            i: int,
        | 0 <= i < parts.len() ==> (#[trigger] parts[i]).name.len() > 0,
    decreases left,
{
    if left > 0 && kcb >= KERNEL_MIN {
        if let Ok(parent) = u64_or_zero(g, space, kcb.wrapping_add(at.parent)) {
            key_parts_bounded(g, space, at, parent, (left - 1) as nat);
        }
    }
}

proof fn lemma_same_type(g: GuestView, p: &VolatilityJson, dtb: u64, base: u64, oh: u64)
    requires
        same_memory(g, dtb),
    ensures
        agree(
            object_type(g, p, Space::Current, base, oh),
            object_type(g, p, Space::Tables(dtb), base, oh),
        ),
{
    same_scalars(g, dtb);
}

proof fn lemma_same_header_name(g: GuestView, p: &VolatilityJson, dtb: u64, base: u64, oh: u64)
    requires
        same_memory(g, dtb),
    ensures
        agree(
            header_name(g, p, Space::Current, base, oh),
            header_name(g, p, Space::Tables(dtb), base, oh),
        ),
{
    same_scalars(g, dtb);
}

/// Where the kernel's own tables are current, an object that is not an unnamed key resolves the
/// same way along both routes.
pub proof fn routes_agree_on_objects(
    g: GuestView,
    p: &VolatilityJson,
    dtb: u64,
    base: u64,
    oh: u64,
)
    requires
        same_memory(g, dtb),
        !(object(g, p, Space::Current, base, oh) matches Ok((ty, name)) && ty == "Key"@
            && name.len() == 0),
    ensures
        agree(
            object(g, p, Space::Current, base, oh),
            object_with_keys(g, p, dtb, base, oh),
        ),
{
    lemma_same_type(g, p, dtb, base, oh);
    lemma_same_header_name(g, p, dtb, base, oh);
    same_scalars(g, dtb);
}

/// A key component is steady over a growing record.
pub broadcast proof fn key_component_steady(
    g: GuestView,
    h: GuestView,
    space: Space,
    at: KeyLayout,
    block: u64,
)
    requires
        #[trigger] g.extended_by(h),
    ensures
        steady(
            g,
            h,
            #[trigger] key_component(g, space, at, block),
            key_component(h, space, at, block),
        ),
{
    broadcast use group_reads_steady;

}

proof fn lemma_key_parts_steady(
    g: GuestView,
    h: GuestView,
    space: Space,
    at: KeyLayout,
    kcb: u64,
    left: nat,
)
    requires
        g.extended_by(h),
    ensures
        steady(g, h, key_parts(g, space, at, kcb, left), key_parts(h, space, at, kcb, left)),
    decreases left,
{
    broadcast use {group_reads_steady, key_component_steady};

    if left > 0 && kcb >= KERNEL_MIN {
        if let Ok(parent) = u64_or_zero(g, space, kcb.wrapping_add(at.parent)) {
            lemma_key_parts_steady(g, h, space, at, parent, (left - 1) as nat);
        }
    }
}

/// A key path is steady over a growing record.
pub broadcast proof fn key_path_steady(
    g: GuestView,
    h: GuestView,
    p: &VolatilityJson,
    dtb: u64,
    oh: u64,
)
    requires
        #[trigger] g.extended_by(h),
    ensures
        steady(g, h, #[trigger] key_path(g, p, dtb, oh), key_path(h, p, dtb, oh)),
{
    broadcast use group_reads_steady;

    let space = Space::Tables(dtb);
    let at = key_layout(p);
    if let Ok(kcb) = u64_or_zero(g, space, oh.wrapping_add(at.key_control_block)) {
        lemma_key_parts_steady(g, h, space, at, kcb, MAX_KEY_DEPTH as nat);
    }
}

/// The type of an object is steady over a growing record.
pub broadcast proof fn object_type_steady(
    g: GuestView,
    h: GuestView,
    p: &VolatilityJson,
    space: Space,
    base: u64,
    oh: u64,
)
    requires
        #[trigger] g.extended_by(h),
    ensures
        steady(
            g,
            h,
            #[trigger] object_type(g, p, space, base, oh),
            object_type(h, p, space, base, oh),
        ),
{
    broadcast use group_reads_steady;

}

/// A name header is steady over a growing record.
pub broadcast proof fn header_name_steady(
    g: GuestView,
    h: GuestView,
    p: &VolatilityJson,
    space: Space,
    base: u64,
    oh: u64,
)
    requires
        #[trigger] g.extended_by(h),
    ensures
        steady(
            g,
            h,
            #[trigger] header_name(g, p, space, base, oh),
            header_name(h, p, space, base, oh),
        ),
{
    broadcast use group_reads_steady;

}

/// Type and name of an object are steady over a growing record.
pub broadcast proof fn object_steady(
    g: GuestView,
    h: GuestView,
    p: &VolatilityJson,
    space: Space,
    base: u64,
    oh: u64,
)
    requires
        #[trigger] g.extended_by(h),
    ensures
        steady(g, h, #[trigger] object(g, p, space, base, oh), object(h, p, space, base, oh)),
{
    broadcast use {group_reads_steady, object_type_steady, header_name_steady};

}

/// So are they with key paths.
pub broadcast proof fn object_with_keys_steady(
    g: GuestView,
    h: GuestView,
    p: &VolatilityJson,
    dtb: u64,
    base: u64,
    oh: u64,
)
    requires
        #[trigger] g.extended_by(h),
    ensures
        steady(
            g,
            h,
            #[trigger] object_with_keys(g, p, dtb, base, oh),
            object_with_keys(h, p, dtb, base, oh),
        ),
{
    broadcast use {object_steady, key_path_steady};

}

} // verus!
