//! The handle table of a process.

use crate::guest::{steady, Guest, GuestView, Request};
use crate::kernel::{
    current_eproc_and_dtb, running_process_and_tables, running_process_and_tables_steady,
};
use crate::lists::{list_outcome, prepend, views};
use crate::objects::{
    object, object_steady, object_type, object_type_steady, object_with_keys,
    object_with_keys_steady, resolve_object, resolve_object_dtb, resolve_type,
};
use crate::profile::{bitfield_or, foff, foff_or, VolatilityJson};
use crate::reads::{
    agree, group_reads_steady, in_kernel, rd_u32_or_zero, rd_u64, same_kernel_memory,
    same_kernel_words, u32_or_zero, u64_at, u64_at_steady, Space, KERNEL_MIN,
};
use vstd::prelude::*;

verus! {

#[derive(Clone, Debug)]
pub struct WinHandle {
    pub handle: u32,
    pub object_header: u64,
    pub granted_access: u32,
    pub type_label: String,
    pub object_name: String,
}

pub struct WinHandleView {
    pub handle: u32,
    pub object_header: u64,
    pub granted_access: u32,
    pub type_label: Seq<char>,
    pub object_name: Seq<char>,
}

impl View for WinHandle {
    type V = WinHandleView;

    open spec fn view(&self) -> WinHandleView {
        WinHandleView {
            handle: self.handle,
            object_header: self.object_header,
            granted_access: self.granted_access,
            type_label: self.type_label@,
            object_name: self.object_name@,
        }
    }
}

/// At most this many handles are listed.
pub const MAX_HANDLES: usize = 65536;

// ---- entries ----------------------------------------------------------------------------------

/// The object header that the low word of a handle table entry points to: ObjectPointerBits are
/// the address without its canonical upper bits and its low four. `None` for a free entry. The
/// position counts modulo 64.
pub open spec fn entry_object(p: &VolatilityJson, low: u64) -> Option<u64> {
    let (pos, len) = p.bits_or("_HANDLE_TABLE_ENTRY"@, "ObjectPointerBits"@, (20, 44));
    let mask = if len >= 64 {
        u64::MAX
    } else {
        ((1u64 << len) - 1) as u64
    };
    let bits = (low >> (pos % 64)) & mask;
    if bits == 0 {
        None
    } else {
        Some(KERNEL_MIN | (bits << 4))
    }
}

fn entry_object_of(p: &VolatilityJson, low: u64) -> (r: Option<u64>)
    ensures
        r == entry_object(p, low),
{
    let (pos, len) = bitfield_or(p, "_HANDLE_TABLE_ENTRY", "ObjectPointerBits", (20, 44));
    let mask: u64 = if len >= 64 {
        u64::MAX
    } else {
        assert((1u64 << len) >= 1) by (bit_vector)
            requires
                len < 64,
        ;
        (1u64 << len) - 1
    };
    let bits = (low >> (pos % 64)) & mask;
    if bits == 0 {
        None
    } else {
        Some(KERNEL_MIN | (bits << 4))
    }
}

/// Where an entry keeps the word that its object pointer is in.
pub open spec fn pointer_word(p: &VolatilityJson, entry: u64) -> u64 {
    entry.wrapping_add(p.offset_or("_HANDLE_TABLE_ENTRY"@, "ObjectPointerBits"@, 0))
}

fn pointer_word_of(p: &VolatilityJson, entry: u64) -> (r: u64)
    ensures
        r == pointer_word(p, entry),
{
    entry.wrapping_add(foff_or(p, "_HANDLE_TABLE_ENTRY", "ObjectPointerBits", 0))
}

/// The handle in slot `slot` of the leaf page at `page`, whose first slot has index `first`.
/// `None` where the slot is free or cannot be read.
#[verifier::opaque]
pub open spec fn handle_entry(
    g: GuestView,
    p: &VolatilityJson,
    base: u64,
    page: u64,
    first: u64,
    slot: u64,
) -> Result<Option<WinHandleView>, Request> {
    let entry = page.wrapping_add((slot * 16) as u64);
    let access_off = p.offset_or("_HANDLE_TABLE_ENTRY"@, "GrantedAccessBits"@, 8);
    match u64_at(g, Space::Current, pointer_word(p, entry)) {
        Err(q) => Err(q),
        Ok(None) => Ok(None),
        Ok(Some(low)) => match entry_object(p, low) {
            None => Ok(None),
            Some(oh) => match u32_or_zero(g, Space::Current, entry.wrapping_add(access_off)) {
                Err(q) => Err(q),
                Ok(access) => match object(g, p, Space::Current, base, oh) {
                    Err(q) => Err(q),
                    Ok((type_label, object_name)) => Ok(
                        Some(
                            WinHandleView {
                                handle: ((first + slot) * 4) as u32,
                                object_header: oh,
                                granted_access: access & 0x01ff_ffff,
                                type_label,
                                object_name,
                            },
                        ),
                    ),
                },
            },
        },
    }
}

/// The outcome of a query for one handle.
pub open spec fn handle_outcome(r: Result<Option<WinHandle>, Request>) -> Result<
    Option<WinHandleView>,
    Request,
> {
    match r {
        Err(q) => Err(q),
        Ok(None) => Ok(None),
        Ok(Some(h)) => Ok(Some(h@)),
    }
}

fn read_handle_entry(
    g: &Guest,
    p: &VolatilityJson,
    base: u64,
    page: u64,
    first: u64,
    slot: u64,
) -> (r: Result<Option<WinHandle>, Request>)
    requires
        slot < 256,
        first <= 0x0fff_ff00,
    ensures
        handle_outcome(r) == handle_entry(g@, p, base, page, first, slot),
{
    reveal(handle_entry);
    let entry = page.wrapping_add(slot * 16);
    let low = match rd_u64(g, Space::Current, pointer_word_of(p, entry))? {
        Some(v) => v,
        None => return Ok(None),
    };
    let object_header = match entry_object_of(p, low) {
        Some(oh) => oh,
        None => return Ok(None),
    };
    let access_off = foff_or(p, "_HANDLE_TABLE_ENTRY", "GrantedAccessBits", 8);
    let access = rd_u32_or_zero(g, Space::Current, entry.wrapping_add(access_off))?;
    let granted_access = access & 0x01ff_ffff;
    let (type_label, object_name) = resolve_object(g, p, Space::Current, base, object_header)?;
    let handle: u32 = ((first + slot) * 4) as u32;
    Ok(Some(WinHandle { handle, object_header, granted_access, type_label, object_name }))
}

// ---- the table --------------------------------------------------------------------------------

/// The level and address of a process's handle table: TableCode holds the level in its low three
/// bits. `None` where the process has no table.
pub open spec fn handle_table(g: GuestView, p: &VolatilityJson, eprocess: u64) -> Result<
    Option<(u64, u64)>,
    Request,
> {
    match p.offset("_EPROCESS"@, "ObjectTable"@) {
        None => Ok(None),
        Some(off) => match u64_at(g, Space::Current, eprocess.wrapping_add(off)) {
            Err(q) => Err(q),
            Ok(Some(table)) if table >= KERNEL_MIN => match u64_at(
                g,
                Space::Current,
                table.wrapping_add(p.offset_or("_HANDLE_TABLE"@, "TableCode"@, 8)),
            ) {
                Err(q) => Err(q),
                Ok(None) => Ok(None),
                Ok(Some(code)) => Ok(Some((code & 0x7, code & !0x7u64))),
            },
            Ok(_) => Ok(None),
        },
    }
}

/// How many leaf pages a table of this level can have.
pub open spec fn leaf_count(level: u64) -> u64 {
    if level == 0 {
        1
    } else if level == 1 {
        512
    } else {
        0x4_0000
    }
}

/// The page that a slot of an upper-level table points to, if it is one in the kernel half.
pub open spec fn subtable(g: GuestView, table: u64, i: u64) -> Result<Option<u64>, Request> {
    match u64_at(g, Space::Current, table.wrapping_add((i * 8) as u64)) {
        Err(q) => Err(q),
        Ok(Some(sub)) if sub >= KERNEL_MIN => Ok(Some(sub & !0x7u64)),
        Ok(_) => Ok(None),
    }
}

/// Leaf page number `leaf` of a table.
#[verifier::opaque]
pub open spec fn leaf_page(g: GuestView, level: u64, table: u64, leaf: u64) -> Result<
    Option<u64>,
    Request,
> {
    if level == 0 {
        Ok(Some(table))
    } else if level == 1 {
        subtable(g, table, leaf)
    } else {
        match subtable(g, table, leaf / 512) {
            Err(q) => Err(q),
            Ok(None) => Ok(None),
            Ok(Some(middle)) => subtable(g, middle, leaf % 512),
        }
    }
}

/// The handles on a leaf page from a slot on, with `have` handles already found.
pub open spec fn page_handles(
    g: GuestView,
    p: &VolatilityJson,
    base: u64,
    page: u64,
    first: u64,
    slot: u64,
    have: nat,
) -> Result<Seq<WinHandleView>, Request>
    decreases 256 - slot,
{
    if slot >= 256 || have >= MAX_HANDLES {
        Ok(seq![])
    } else {
        match handle_entry(g, p, base, page, first, slot) {
            Err(q) => Err(q),
            Ok(None) => page_handles(g, p, base, page, first, (slot + 1) as u64, have),
            Ok(Some(found)) => prepend(
                seq![found],
                page_handles(g, p, base, page, first, (slot + 1) as u64, have + 1),
            ),
        }
    }
}

/// The handles of a table from a slot of a leaf page on, with `have` handles already found.
pub open spec fn table_handles(
    g: GuestView,
    p: &VolatilityJson,
    base: u64,
    level: u64,
    table: u64,
    leaf: u64,
    slot: u64,
    have: nat,
) -> Result<Seq<WinHandleView>, Request>
    decreases leaf_count(level) - leaf,
{
    if leaf >= leaf_count(level) {
        Ok(seq![])
    } else {
        match leaf_page(g, level, table, leaf) {
            Err(q) => Err(q),
            Ok(None) => table_handles(g, p, base, level, table, (leaf + 1) as u64, 0, have),
            Ok(Some(page)) => match page_handles(
                g,
                p,
                base,
                page,
                (leaf * 256) as u64,
                slot,
                have,
            ) {
                Err(q) => Err(q),
                Ok(here) => prepend(
                    here,
                    table_handles(
                        g,
                        p,
                        base,
                        level,
                        table,
                        (leaf + 1) as u64,
                        0,
                        have + here.len(),
                    ),
                ),
            },
        }
    }
}

/// The open handles of a process in the order of the table.
pub open spec fn handles_of(g: GuestView, p: &VolatilityJson, base: u64, eprocess: u64) -> Result<
    Seq<WinHandleView>,
    Request,
> {
    match handle_table(g, p, eprocess) {
        Err(q) => Err(q),
        Ok(None) => Ok(seq![]),
        Ok(Some((level, table))) => table_handles(g, p, base, level, table, 0, 0, 0),
    }
}

fn read_handle_table(g: &Guest, p: &VolatilityJson, eprocess: u64) -> (r: Result<
    Option<(u64, u64)>,
    Request,
>)
    ensures
        r == handle_table(g@, p, eprocess),
{
    let off = match foff(p, "_EPROCESS", "ObjectTable") {
        Some(o) => o,
        None => return Ok(None),
    };
    let table = match rd_u64(g, Space::Current, eprocess.wrapping_add(off))? {
        Some(v) => v,
        None => return Ok(None),
    };
    if table < KERNEL_MIN {
        return Ok(None);
    }
    let code_off = foff_or(p, "_HANDLE_TABLE", "TableCode", 8);
    match rd_u64(g, Space::Current, table.wrapping_add(code_off))? {
        Some(code) => Ok(Some((code & 0x7, code & !0x7u64))),
        None => Ok(None),
    }
}

fn leaf_count_of(level: u64) -> (r: u64)
    ensures
        r == leaf_count(level),
{
    if level == 0 {
        1
    } else if level == 1 {
        512
    } else {
        0x4_0000
    }
}

fn read_subtable(g: &Guest, table: u64, i: u64) -> (r: Result<Option<u64>, Request>)
    requires
        i < 512,
    ensures
        r == subtable(g@, table, i),
{
    match rd_u64(g, Space::Current, table.wrapping_add(i * 8))? {
        Some(sub) => if sub >= KERNEL_MIN {
            Ok(Some(sub & !0x7u64))
        } else {
            Ok(None)
        },
        None => Ok(None),
    }
}

fn read_leaf_page(g: &Guest, level: u64, table: u64, leaf: u64) -> (r: Result<Option<u64>, Request>)
    requires
        leaf < leaf_count(level),
    ensures
        r == leaf_page(g@, level, table, leaf),
{
    reveal(leaf_page);
    if level == 0 {
        Ok(Some(table))
    } else if level == 1 {
        read_subtable(g, table, leaf)
    } else {
        match read_subtable(g, table, leaf / 512)? {
            Some(middle) => read_subtable(g, middle, leaf % 512),
            None => Ok(None),
        }
    }
}

// ---- a walk that can be continued -------------------------------------------------------------

/// How far a walk over a handle table has come. Continued after each read that it waited for, a
/// walk looks at every entry once, however many handles there are.
pub struct HandleWalk {
    pub base: u64,
    pub level: u64,
    pub table: u64,
    /// The leaf page and slot that come next.
    pub leaf: u64,
    pub slot: u64,
    pub found: Vec<WinHandle>,
}

impl HandleWalk {
    pub open spec fn well_formed(&self) -> bool {
        &&& self.leaf <= leaf_count(self.level)
        &&& self.slot <= 256
        &&& self.found.len() <= MAX_HANDLES
    }

    /// What the walk comes to on a guest: the handles found so far and those still ahead.
    #[verifier::opaque]
    pub open spec fn outcome(&self, g: GuestView, p: &VolatilityJson) -> Result<
        Seq<WinHandleView>,
        Request,
    > {
        prepend(
            views(self.found@),
            table_handles(
                g,
                p,
                self.base,
                self.level,
                self.table,
                self.leaf,
                self.slot,
                self.found@.len(),
            ),
        )
    }

    pub open spec fn finished(&self) -> bool {
        self.leaf >= leaf_count(self.level)
    }

    /// A walk at the start of a process's table; `None` where the process has none.
    pub fn start(g: &Guest, p: &VolatilityJson, base: u64, eprocess: u64) -> (r: Result<
        Option<HandleWalk>,
        Request,
    >)
        ensures
            match r {
                Err(q) => handle_table(g@, p, eprocess) == Err::<Option<(u64, u64)>, Request>(q),
                Ok(None) => handle_table(g@, p, eprocess) == Ok::<Option<(u64, u64)>, Request>(
                    None,
                ),
                Ok(Some(walk)) => {
                    &&& handle_table(g@, p, eprocess) == Ok::<Option<(u64, u64)>, Request>(
                        Some((walk.level, walk.table)),
                    )
                    &&& walk.base == base
                    &&& walk.leaf == 0
                    &&& walk.slot == 0
                    &&& walk.found@.len() == 0
                    &&& walk.well_formed()
                    &&& forall|h: GuestView|
                        g@.extended_by(h) ==> #[trigger] walk.outcome(h, p) == handles_of(
                            h,
                            p,
                            base,
                            eprocess,
                        )
                },
            },
    {
        match read_handle_table(g, p, eprocess)? {
            Some((level, table)) => {
                let walk = HandleWalk { base, level, table, leaf: 0, slot: 0, found: Vec::new() };
                proof {
                    broadcast use handle_table_steady;

                    reveal(HandleWalk::outcome);
                    assert forall|h: GuestView| g@.extended_by(h) implies #[trigger] walk.outcome(
                        h,
                        p,
                    ) == handles_of(h, p, base, eprocess) by {
                        assert(handle_table(h, p, eprocess) == handle_table(g@, p, eprocess));
                        let all = table_handles(h, p, base, level, table, 0, 0, 0);
                        assert(views(walk.found@) =~= seq![]);
                        if let Ok(v) = all {
                            assert(Seq::<WinHandleView>::empty() + v =~= v);
                        }
                    }
                }
                Ok(Some(walk))
            },
            None => Ok(None),
        }
    }

    /// Looks at one slot, or goes on to the next leaf page. On `Err` the walk stays where it is.
    fn advance(&mut self, g: &Guest, p: &VolatilityJson) -> (r: Result<(), Request>)
        requires
            old(self).well_formed(),
            !old(self).finished(),
        ensures
            final(self).well_formed(),
            final(self).base == old(self).base,
            final(self).level == old(self).level,
            final(self).table == old(self).table,
            match r {
                Ok(()) => {
                    &&& forall|h: GuestView|
                        g@.extended_by(h) ==> #[trigger] final(self).outcome(h, p) == old(
                            self,
                        ).outcome(h, p)
                    &&& {
                        ||| final(self).leaf == old(self).leaf + 1
                        ||| final(self).leaf == old(self).leaf && final(self).slot == old(self).slot
                            + 1
                    }
                },
                Err(q) => *final(self) == *old(self) && old(self).outcome(g@, p) == Err::<
                    Seq<WinHandleView>,
                    Request,
                >(q),
            },
    {
        let ghost before = *self;
        reveal(HandleWalk::outcome);
        let page = match read_leaf_page(g, self.level, self.table, self.leaf)? {
            Some(page) => page,
            None => {
                self.leaf = self.leaf + 1;
                self.slot = 0;
                proof {
                    lemma_skipped_leaf(g@, p, before, *self);
                }
                return Ok(());
            },
        };
        if self.slot >= 256 || self.found.len() >= MAX_HANDLES {
            self.leaf = self.leaf + 1;
            self.slot = 0;
            proof {
                lemma_finished_leaf(g@, p, before, *self, page);
            }
            return Ok(());
        }
        let first: u64 = self.leaf * 256;
        match read_handle_entry(g, p, self.base, page, first, self.slot)? {
            Some(handle) => {
                let ghost it = handle@;
                self.found.push(handle);
                self.slot = self.slot + 1;
                proof {
                    assert(views(self.found@) =~= views(before.found@).push(it));
                    lemma_found(g@, p, before, *self, page, it);
                }
            },
            None => {
                self.slot = self.slot + 1;
                proof {
                    lemma_free_slot(g@, p, before, *self, page);
                }
            },
        }
        Ok(())
    }

    /// Continues until the table is done (`Ok`) or a read is open. Either way nothing is lost: on
    /// this guest and on every later one the walk still comes to the same list.
    pub fn resume(&mut self, g: &Guest, p: &VolatilityJson) -> (r: Result<(), Request>)
        requires
            old(self).well_formed(),
        ensures
            final(self).well_formed(),
            final(self).base == old(self).base,
            final(self).level == old(self).level,
            final(self).table == old(self).table,
            forall|h: GuestView|
                g@.extended_by(h) ==> #[trigger] final(self).outcome(h, p) == old(self).outcome(
                    h,
                    p,
                ),
            match r {
                Ok(()) => final(self).finished() && old(self).outcome(g@, p) == Ok::<
                    Seq<WinHandleView>,
                    Request,
                >(views(final(self).found@)),
                Err(q) => old(self).outcome(g@, p) == Err::<Seq<WinHandleView>, Request>(q),
            },
    {
        let ghost start = *self;
        let leaves = leaf_count_of(self.level);
        assert(g@.extended_by(g@));
        while self.leaf < leaves
            invariant
                leaves == leaf_count(self.level),
                self.well_formed(),
                self.base == start.base,
                self.level == start.level,
                self.table == start.table,
                start == *old(self),
                g@.extended_by(g@),
                forall|h: GuestView|
                    g@.extended_by(h) ==> #[trigger] self.outcome(h, p) == start.outcome(h, p),
            decreases leaves - self.leaf, 256 - self.slot,
        {
            let ghost before = *self;
            assert(before.outcome(g@, p) == start.outcome(g@, p));
            self.advance(g, p)?;
            assert forall|h: GuestView| g@.extended_by(h) implies #[trigger] self.outcome(h, p)
                == start.outcome(h, p) by {
                assert(before.outcome(h, p) == start.outcome(h, p));
            }
        }
        assert(self.outcome(g@, p) == start.outcome(g@, p));
        proof {
            self.finished_outcome(g@, p);
        }
        Ok(())
    }

    /// A finished walk comes to what it has found.
    pub proof fn finished_outcome(&self, g: GuestView, p: &VolatilityJson)
        requires
            self.finished(),
        ensures
            self.outcome(g, p) == Ok::<Seq<WinHandleView>, Request>(views(self.found@)),
    {
        reveal(HandleWalk::outcome);
        assert(views(self.found@) + Seq::<WinHandleView>::empty() =~= views(self.found@));
    }
}

proof fn lemma_skipped_leaf(g: GuestView, p: &VolatilityJson, a: HandleWalk, b: HandleWalk)
    requires
        a.leaf < leaf_count(a.level),
        leaf_page(g, a.level, a.table, a.leaf) == Ok::<Option<u64>, Request>(None),
        b == (HandleWalk { leaf: (a.leaf + 1) as u64, slot: 0, ..a }),
    ensures
        forall|h: GuestView| g.extended_by(h) ==> #[trigger] b.outcome(h, p) == a.outcome(h, p),
{
    reveal(HandleWalk::outcome);
    broadcast use leaf_page_steady;

}

proof fn lemma_finished_leaf(
    g: GuestView,
    p: &VolatilityJson,
    a: HandleWalk,
    b: HandleWalk,
    page: u64,
)
    requires
        a.leaf < leaf_count(a.level),
        leaf_page(g, a.level, a.table, a.leaf) == Ok::<Option<u64>, Request>(Some(page)),
        a.slot >= 256 || a.found.len() >= MAX_HANDLES,
        b == (HandleWalk { leaf: (a.leaf + 1) as u64, slot: 0, ..a }),
    ensures
        forall|h: GuestView| g.extended_by(h) ==> #[trigger] b.outcome(h, p) == a.outcome(h, p),
{
    reveal(HandleWalk::outcome);
    broadcast use leaf_page_steady;

    assert forall|h: GuestView| g.extended_by(h) implies #[trigger] b.outcome(h, p) == a.outcome(
        h,
        p,
    ) by {
        let rest = table_handles(h, p, b.base, b.level, b.table, b.leaf, 0, b.found@.len());
        if let Ok(v) = rest {
            assert(Seq::<WinHandleView>::empty() + v =~= v);
        }
        assert(page_handles(
            h,
            p,
            a.base,
            page,
            (a.leaf * 256) as u64,
            a.slot,
            a.found@.len(),
        ) == Ok::<Seq<WinHandleView>, Request>(seq![]));
    }
}

proof fn lemma_free_slot(g: GuestView, p: &VolatilityJson, a: HandleWalk, b: HandleWalk, page: u64)
    requires
        a.leaf < leaf_count(a.level),
        leaf_page(g, a.level, a.table, a.leaf) == Ok::<Option<u64>, Request>(Some(page)),
        a.slot < 256,
        a.found.len() < MAX_HANDLES,
        handle_entry(g, p, a.base, page, (a.leaf * 256) as u64, a.slot) == Ok::<
            Option<WinHandleView>,
            Request,
        >(None),
        b == (HandleWalk { slot: (a.slot + 1) as u64, ..a }),
    ensures
        forall|h: GuestView| g.extended_by(h) ==> #[trigger] b.outcome(h, p) == a.outcome(h, p),
{
    reveal(HandleWalk::outcome);
    broadcast use {leaf_page_steady, handle_entry_steady};

    assert forall|h: GuestView| g.extended_by(h) implies #[trigger] b.outcome(h, p) == a.outcome(
        h,
        p,
    ) by {
        let first = (a.leaf * 256) as u64;
        assert(handle_entry(h, p, a.base, page, first, a.slot) == handle_entry(
            g,
            p,
            a.base,
            page,
            first,
            a.slot,
        ));
    }
}

proof fn lemma_found_at(
    h: GuestView,
    p: &VolatilityJson,
    base: u64,
    level: u64,
    table: u64,
    leaf: u64,
    slot: u64,
    page: u64,
    it: WinHandleView,
    done: Seq<WinHandleView>,
)
    requires
        leaf < leaf_count(level),
        leaf_page(h, level, table, leaf) == Ok::<Option<u64>, Request>(Some(page)),
        slot < 256,
        done.len() < MAX_HANDLES,
        handle_entry(h, p, base, page, (leaf * 256) as u64, slot) == Ok::<
            Option<WinHandleView>,
            Request,
        >(Some(it)),
    ensures
        prepend(done, table_handles(h, p, base, level, table, leaf, slot, done.len())) == prepend(
            done.push(it),
            table_handles(h, p, base, level, table, leaf, (slot + 1) as u64, done.len() + 1),
        ),
{
    let first = (leaf * 256) as u64;
    let next = (slot + 1) as u64;
    let now = done.push(it);
    let more = page_handles(h, p, base, page, first, next, now.len());
    let here = page_handles(h, p, base, page, first, slot, done.len());
    assert(here == prepend(seq![it], more));
    if let Ok(tail) = more {
        assert((seq![it] + tail).len() == 1 + tail.len());
        let rest = table_handles(
            h,
            p,
            base,
            level,
            table,
            (leaf + 1) as u64,
            0,
            now.len() + tail.len(),
        );
        if let Ok(v) = rest {
            assert(done + ((seq![it] + tail) + v) =~= now + (tail + v));
        }
    }
}

proof fn lemma_found(
    g: GuestView,
    p: &VolatilityJson,
    a: HandleWalk,
    b: HandleWalk,
    page: u64,
    it: WinHandleView,
)
    requires
        a.leaf < leaf_count(a.level),
        leaf_page(g, a.level, a.table, a.leaf) == Ok::<Option<u64>, Request>(Some(page)),
        a.slot < 256,
        a.found.len() < MAX_HANDLES,
        handle_entry(g, p, a.base, page, (a.leaf * 256) as u64, a.slot) == Ok::<
            Option<WinHandleView>,
            Request,
        >(Some(it)),
        b == (HandleWalk { slot: (a.slot + 1) as u64, found: b.found, ..a }),
        b.found@.len() == a.found@.len() + 1,
        views(b.found@) == views(a.found@).push(it),
    ensures
        forall|h: GuestView| g.extended_by(h) ==> #[trigger] b.outcome(h, p) == a.outcome(h, p),
{
    reveal(HandleWalk::outcome);
    assert forall|h: GuestView| g.extended_by(h) implies #[trigger] b.outcome(h, p) == a.outcome(
        h,
        p,
    ) by {
        handle_entry_steady(g, h, p, a.base, page, (a.leaf * 256) as u64, a.slot);
        leaf_page_steady(g, h, a.level, a.table, a.leaf);
        lemma_found_at(
            h,
            p,
            a.base,
            a.level,
            a.table,
            a.leaf,
            a.slot,
            page,
            it,
            views(a.found@),
        );
    }
}

/// Walks a process's handle table and resolves every handle to the type and name of its object.
pub fn get_handle_list(g: &Guest, p: &VolatilityJson, base: u64, eprocess: u64) -> (r: Result<
    Vec<WinHandle>,
    Request,
>)
    ensures
        list_outcome(r) == handles_of(g@, p, base, eprocess),
{
    match HandleWalk::start(g, p, base, eprocess)? {
        Some(walk) => {
            let mut walk = walk;
            assert(g@.extended_by(g@));
            assert(walk.outcome(g@, p) == handles_of(g@, p, base, eprocess));
            walk.resume(g, p)?;
            Ok(walk.found)
        },
        None => {
            let none: Vec<WinHandle> = Vec::new();
            assert(views(none@) =~= seq![]);
            Ok(none)
        },
    }
}

// ---- one handle -------------------------------------------------------------------------------

/// The address of a handle's table entry. `None` where the index lies beyond the table or an
/// upper-level slot cannot be read.
pub open spec fn entry_of_index(
    g: GuestView,
    dtb: u64,
    level: u64,
    table: u64,
    index: u64,
) -> Result<Option<u64>, Request> {
    let within = ((index % 256) * 16) as u64;
    if index / 256 >= leaf_count(level) {
        Ok(None)
    } else if level == 0 {
        Ok(Some(table.wrapping_add(within)))
    } else if level == 1 {
        match u64_at(g, Space::Tables(dtb), table.wrapping_add((index / 256 * 8) as u64)) {
            Err(q) => Err(q),
            Ok(None) => Ok(None),
            Ok(Some(sub)) => Ok(Some((sub & !0x7u64).wrapping_add(within))),
        }
    } else {
        match u64_at(
            g,
            Space::Tables(dtb),
            table.wrapping_add((index / 256 / 512 * 8) as u64),
        ) {
            Err(q) => Err(q),
            Ok(None) => Ok(None),
            Ok(Some(middle)) => match u64_at(
                g,
                Space::Tables(dtb),
                (middle & !0x7u64).wrapping_add((index / 256 % 512 * 8) as u64),
            ) {
                Err(q) => Err(q),
                Ok(None) => Ok(None),
                Ok(Some(sub)) => Ok(Some((sub & !0x7u64).wrapping_add(within))),
            },
        }
    }
}

/// The object header behind a handle of a process, read through the page tables at `dtb`. `None`
/// for what is no handle (zero, or no multiple of four), for one beyond the table, for a free
/// entry, and where something on the way cannot be read.
pub open spec fn handle_object(
    g: GuestView,
    p: &VolatilityJson,
    dtb: u64,
    eprocess: u64,
    handle: u64,
) -> Result<Option<u64>, Request> {
    if handle == 0 || handle % 4 != 0 {
        Ok(None)
    } else {
        match p.offset("_EPROCESS"@, "ObjectTable"@) {
            None => Ok(None),
            Some(ot) => match u64_at(g, Space::Tables(dtb), eprocess.wrapping_add(ot)) {
                Err(q) => Err(q),
                Ok(Some(object_table)) if object_table >= KERNEL_MIN => match p.offset(
                    "_HANDLE_TABLE"@,
                    "TableCode"@,
                ) {
                    None => Ok(None),
                    Some(tc) => match u64_at(
                        g,
                        Space::Tables(dtb),
                        object_table.wrapping_add(tc),
                    ) {
                        Err(q) => Err(q),
                        Ok(None) => Ok(None),
                        Ok(Some(code)) => match entry_of_index(
                            g,
                            dtb,
                            code & 0x7,
                            code & !0x7u64,
                            handle / 4,
                        ) {
                            Err(q) => Err(q),
                            Ok(None) => Ok(None),
                            Ok(Some(entry)) => match u64_at(
                                g,
                                Space::Tables(dtb),
                                pointer_word(p, entry),
                            ) {
                                Err(q) => Err(q),
                                Ok(None) => Ok(None),
                                Ok(Some(low)) => Ok(entry_object(p, low)),
                            },
                        },
                    },
                },
                Ok(_) => Ok(None),
            },
        }
    }
}

fn read_entry_of_index(g: &Guest, dtb: u64, level: u64, table: u64, index: u64) -> (r: Result<
    Option<u64>,
    Request,
>)
    ensures
        r == entry_of_index(g@, dtb, level, table, index),
{
    let leaf = index / 256;
    let within = (index % 256) * 16;
    if leaf >= leaf_count_of(level) {
        return Ok(None);
    }
    if level == 0 {
        return Ok(Some(table.wrapping_add(within)));
    }
    let space = Space::Tables(dtb);
    let sub = if level == 1 {
        rd_u64(g, space, table.wrapping_add(leaf * 8))?
    } else {
        match rd_u64(g, space, table.wrapping_add(leaf / 512 * 8))? {
            Some(middle) => rd_u64(g, space, (middle & !0x7u64).wrapping_add(leaf % 512 * 8))?,
            None => None,
        }
    };
    match sub {
        Some(sub) => Ok(Some((sub & !0x7u64).wrapping_add(within))),
        None => Ok(None),
    }
}

/// Indexes a process's handle table and returns the address of the `_OBJECT_HEADER` behind the
/// handle.
pub fn handle_object_header(
    g: &Guest,
    p: &VolatilityJson,
    dtb: u64,
    eprocess: u64,
    handle: u64,
) -> (r: Result<Option<u64>, Request>)
    ensures
        r == handle_object(g@, p, dtb, eprocess, handle),
{
    if handle == 0 || handle % 4 != 0 {
        return Ok(None);
    }
    let ot = match foff(p, "_EPROCESS", "ObjectTable") {
        Some(o) => o,
        None => return Ok(None),
    };
    let object_table = match rd_u64(g, Space::Tables(dtb), eprocess.wrapping_add(ot))? {
        Some(v) => v,
        None => return Ok(None),
    };
    if object_table < KERNEL_MIN {
        return Ok(None);
    }
    let tc = match foff(p, "_HANDLE_TABLE", "TableCode") {
        Some(o) => o,
        None => return Ok(None),
    };
    let code = match rd_u64(g, Space::Tables(dtb), object_table.wrapping_add(tc))? {
        Some(v) => v,
        None => return Ok(None),
    };
    let entry = match read_entry_of_index(g, dtb, code & 0x7, code & !0x7u64, handle / 4)? {
        Some(entry) => entry,
        None => return Ok(None),
    };
    match rd_u64(g, Space::Tables(dtb), pointer_word_of(p, entry))? {
        Some(low) => Ok(entry_object_of(p, low)),
        None => Ok(None),
    }
}

/// The type and name of the object behind a handle; `None` where there is no object or its type
/// has no name.
pub open spec fn object_of_handle(
    g: GuestView,
    p: &VolatilityJson,
    base: u64,
    dtb: u64,
    eprocess: u64,
    handle: u64,
) -> Result<Option<(Seq<char>, Seq<char>)>, Request> {
    match handle_object(g, p, dtb, eprocess, handle) {
        Err(q) => Err(q),
        Ok(None) => Ok(None),
        Ok(Some(oh)) => match object_with_keys(g, p, dtb, base, oh) {
            Err(q) => Err(q),
            Ok((type_label, object_name)) => if type_label.len() == 0 {
                Ok(None)
            } else {
                Ok(Some((type_label, object_name)))
            },
        },
    }
}

pub open spec fn optional_pair_outcome(r: Result<Option<(String, String)>, Request>) -> Result<
    Option<(Seq<char>, Seq<char>)>,
    Request,
> {
    match r {
        Err(q) => Err(q),
        Ok(None) => Ok(None),
        Ok(Some((a, b))) => Ok(Some((a@, b@))),
    }
}

/// Resolves one handle to the type and name of its object.
pub fn handle_to_object(
    g: &Guest,
    p: &VolatilityJson,
    base: u64,
    dtb: u64,
    eprocess: u64,
    handle: u64,
) -> (r: Result<Option<(String, String)>, Request>)
    ensures
        optional_pair_outcome(r) == object_of_handle(g@, p, base, dtb, eprocess, handle),
{
    let oh = match handle_object_header(g, p, dtb, eprocess, handle)? {
        Some(oh) => oh,
        None => return Ok(None),
    };
    let (type_label, object_name) = resolve_object_dtb(g, p, dtb, base, oh)?;
    if type_label.as_str().is_empty() {
        Ok(None)
    } else {
        Ok(Some((type_label, object_name)))
    }
}

/// Whether an object is known to be no file: its type has a name, and another one. While no kernel
/// base is known (`base` is 0) types cannot be told apart, and nothing is known.
pub open spec fn known_other(
    g: GuestView,
    p: &VolatilityJson,
    base: u64,
    dtb: u64,
    oh: u64,
) -> Result<bool, Request> {
    if base == 0 {
        Ok(false)
    } else {
        match object_type(g, p, Space::Tables(dtb), base, oh) {
            Err(q) => Err(q),
            Ok(None) => Ok(false),
            Ok(Some(ty)) => Ok(ty.len() > 0 && ty != "File"@),
        }
    }
}

/// The position (CurrentByteOffset) of a file object; `None` where the object is known to be no
/// file.
#[verifier::opaque]
pub open spec fn object_position(
    g: GuestView,
    p: &VolatilityJson,
    base: u64,
    dtb: u64,
    oh: u64,
) -> Result<Option<i64>, Request> {
    match known_other(g, p, base, dtb, oh) {
        Err(q) => Err(q),
        Ok(true) => Ok(None),
        Ok(false) => match (
            p.offset("_OBJECT_HEADER"@, "Body"@),
            p.offset("_FILE_OBJECT"@, "CurrentByteOffset"@),
        ) {
            (Some(body), Some(at)) => match u64_at(
                g,
                Space::Tables(dtb),
                oh.wrapping_add(body).wrapping_add(at),
            ) {
                Err(q) => Err(q),
                Ok(None) => Ok(None),
                Ok(Some(pos)) => Ok(Some(pos as i64)),
            },
            _ => Ok(None),
        },
    }
}

/// The position of the file behind a handle; `None` where there is no object behind the handle or
/// it is known to be no file.
/// Everything is read through the page tables of the running process, which map the whole kernel
/// pool.
pub open spec fn file_position(
    g: GuestView,
    p: &VolatilityJson,
    base: u64,
    eprocess: u64,
    handle: u64,
) -> Result<Option<i64>, Request> {
    match running_process_and_tables(g, p) {
        Err(q) => Err(q),
        Ok(None) => Ok(None),
        Ok(Some((_, dtb))) => match handle_object(g, p, dtb, eprocess, handle) {
            Err(q) => Err(q),
            Ok(None) => Ok(None),
            Ok(Some(oh)) => object_position(g, p, base, dtb, oh),
        },
    }
}

/// The position of a file handle. `base` is the kernel image's base, by which object types are
/// told apart, or 0.
pub fn file_handle_pos(g: &Guest, p: &VolatilityJson, base: u64, eprocess: u64, handle: u64) -> (r:
    Result<Option<i64>, Request>)
    ensures
        r == file_position(g@, p, base, eprocess, handle),
{
    reveal(object_position);
    let dtb = match current_eproc_and_dtb(g, p)? {
        Some((_, dtb)) => dtb,
        None => return Ok(None),
    };
    let oh = match handle_object_header(g, p, dtb, eprocess, handle)? {
        Some(oh) => oh,
        None => return Ok(None),
    };
    if base != 0 {
        if let Some(ty) = resolve_type(g, p, Space::Tables(dtb), base, oh)? {
            if !ty.as_str().is_empty() && ty != "File".to_owned() {
                return Ok(None);
            }
        }
    }
    let body = match foff(p, "_OBJECT_HEADER", "Body") {
        Some(o) => o,
        None => return Ok(None),
    };
    let at = match foff(p, "_FILE_OBJECT", "CurrentByteOffset") {
        Some(o) => o,
        None => return Ok(None),
    };
    match rd_u64(g, Space::Tables(dtb), oh.wrapping_add(body).wrapping_add(at))? {
        Some(pos) => Ok(Some(pos as i64)),
        None => Ok(None),
    }
}

// ---- what holds of every handle ---------------------------------------------------------------

/// An object header lies in the kernel half, on a 16-byte boundary.
pub proof fn objects_are_in_the_kernel(p: &VolatilityJson, low: u64)
    ensures
        entry_object(p, low) matches Some(oh) ==> oh >= KERNEL_MIN && oh % 16 == 0,
{
    assert(forall|bits: u64|
        (0xffff_0000_0000_0000u64 | #[trigger] (bits << 4)) >= 0xffff_0000_0000_0000u64 && (
        0xffff_0000_0000_0000u64 | (bits << 4)) % 16 == 0) by (bit_vector);
}

/// What is no multiple of four, and zero, is nobody's handle.
pub proof fn only_multiples_of_four_are_handles(
    g: GuestView,
    p: &VolatilityJson,
    dtb: u64,
    eprocess: u64,
    handle: u64,
)
    requires
        handle == 0 || handle % 4 != 0,
    ensures
        handle_object(g, p, dtb, eprocess, handle) == Ok::<Option<u64>, Request>(None),
{
}

/// No table reaches as far as 2^28, so what lies beyond (an address, a pseudo-handle) is nobody's
/// handle either.
pub proof fn values_beyond_every_table_are_no_handles(
    g: GuestView,
    p: &VolatilityJson,
    dtb: u64,
    eprocess: u64,
    handle: u64,
)
    requires
        handle >= 0x1000_0000,
    ensures
        handle_object(g, p, dtb, eprocess, handle) matches Ok(found) ==> found is None,
{
    assert(handle / 4 / 256 >= 0x4_0000);
}

/// An object whose type is known to be another than File has no position, whatever its memory
/// holds.
pub proof fn only_files_have_a_position(
    g: GuestView,
    p: &VolatilityJson,
    base: u64,
    eprocess: u64,
    handle: u64,
    running: u64,
    dtb: u64,
    oh: u64,
    ty: Seq<char>,
)
    requires
        running_process_and_tables(g, p) == Ok::<Option<(u64, u64)>, Request>(Some((running, dtb))),
        handle_object(g, p, dtb, eprocess, handle) == Ok::<Option<u64>, Request>(Some(oh)),
        object_type(g, p, Space::Tables(dtb), base, oh) == Ok::<Option<Seq<char>>, Request>(
            Some(ty),
        ),
        ty.len() > 0,
        ty != "File"@,
        base != 0,
    ensures
        file_position(g, p, base, eprocess, handle) == Ok::<Option<i64>, Request>(None),
{
    reveal(object_position);
}

/// `it` is what slot `slot` of leaf page `leaf` holds.
pub open spec fn stands_at(
    g: GuestView,
    p: &VolatilityJson,
    base: u64,
    level: u64,
    table: u64,
    leaf: u64,
    slot: u64,
    it: WinHandleView,
) -> bool {
    &&& leaf < leaf_count(level)
    &&& slot < 256
    &&& leaf_page(g, level, table, leaf) matches Ok(Some(page)) && handle_entry(
        g,
        p,
        base,
        page,
        (leaf * 256) as u64,
        slot,
    ) == Ok::<Option<WinHandleView>, Request>(Some(it))
}

/// `it` stands in some slot of the table.
pub open spec fn stands_in(
    g: GuestView,
    p: &VolatilityJson,
    base: u64,
    level: u64,
    table: u64,
    it: WinHandleView,
) -> bool {
    exists|leaf: u64, slot: u64| stands_at(g, p, base, level, table, leaf, slot, it)
}

proof fn lemma_on_page(
    g: GuestView,
    p: &VolatilityJson,
    base: u64,
    page: u64,
    first: u64,
    slot: u64,
    have: nat,
)
    requires
        have <= MAX_HANDLES,
    ensures
        page_handles(g, p, base, page, first, slot, have) matches Ok(here) ==> {
            &&& have + here.len() <= MAX_HANDLES
            &&& forall|i: int|
                0 <= i < here.len() ==> exists|k: u64|
                    k < 256 && #[trigger] handle_entry(g, p, base, page, first, k) == Ok::<
                        Option<WinHandleView>,
                        Request,
                    >(Some(#[trigger] here[i]))
        },
    decreases 256 - slot,
{
    if slot < 256 && have < MAX_HANDLES {
        let next = (slot + 1) as u64;
        match handle_entry(g, p, base, page, first, slot) {
            Err(_) => {},
            Ok(None) => {
                lemma_on_page(g, p, base, page, first, next, have);
            },
            Ok(Some(found)) => {
                lemma_on_page(g, p, base, page, first, next, have + 1);
                if let Ok(tail) = page_handles(g, p, base, page, first, next, have + 1) {
                    let here = seq![found] + tail;
                    assert forall|i: int| 0 <= i < here.len() implies exists|k: u64|
                        k < 256 && #[trigger] handle_entry(g, p, base, page, first, k) == Ok::<
                            Option<WinHandleView>,
                            Request,
                        >(Some(#[trigger] here[i])) by {
                        if i > 0 {
                            assert(here[i] == tail[i - 1]);
                        }
                    }
                }
            },
        }
    }
}

proof fn lemma_in_table(
    g: GuestView,
    p: &VolatilityJson,
    base: u64,
    level: u64,
    table: u64,
    leaf: u64,
    slot: u64,
    have: nat,
)
    requires
        have <= MAX_HANDLES,
    ensures
        table_handles(g, p, base, level, table, leaf, slot, have) matches Ok(all) ==> {
            &&& have + all.len() <= MAX_HANDLES
            &&& forall|i: int|
                0 <= i < all.len() ==> stands_in(g, p, base, level, table, #[trigger] all[i])
        },
    decreases leaf_count(level) - leaf,
{
    if leaf < leaf_count(level) {
        let next = (leaf + 1) as u64;
        match leaf_page(g, level, table, leaf) {
            Err(_) => {},
            Ok(None) => {
                lemma_in_table(g, p, base, level, table, next, 0, have);
            },
            Ok(Some(page)) => {
                let first = (leaf * 256) as u64;
                lemma_on_page(g, p, base, page, first, slot, have);
                if let Ok(here) = page_handles(g, p, base, page, first, slot, have) {
                    let so_far = have + here.len();
                    lemma_in_table(g, p, base, level, table, next, 0, so_far);
                    let rest = table_handles(g, p, base, level, table, next, 0, so_far);
                    assert(table_handles(g, p, base, level, table, leaf, slot, have) == prepend(
                        here,
                        rest,
                    ));
                    if let Ok(tail) = rest {
                        let all = here + tail;
                        assert forall|i: int| 0 <= i < all.len() implies stands_in(
                            g,
                            p,
                            base,
                            level,
                            table,
                            #[trigger] all[i],
                        ) by {
                            if i < here.len() {
                                let k = choose|k: u64|
                                    k < 256 && #[trigger] handle_entry(
                                        g,
                                        p,
                                        base,
                                        page,
                                        first,
                                        k,
                                    ) == Ok::<Option<WinHandleView>, Request>(Some(here[i]));
                                assert(all[i] == here[i]);
                                assert(stands_at(g, p, base, level, table, leaf, k, all[i]));
                            } else {
                                assert(all[i] == tail[i - here.len()]);
                            }
                        }
                    }
                }
            },
        }
    }
}

/// No list is longer than the limit.
pub proof fn handles_bounded(g: GuestView, p: &VolatilityJson, base: u64, eprocess: u64)
    ensures
        handles_of(g, p, base, eprocess) matches Ok(all) ==> all.len() <= MAX_HANDLES,
{
    if let Ok(Some((level, table))) = handle_table(g, p, eprocess) {
        lemma_in_table(g, p, base, level, table, 0, 0, 0);
    }
}

/// Every listed handle is a multiple of four, its object header lies in the kernel half on a
/// 16-byte boundary, and its granted access keeps to the 25 access bits.
pub proof fn listed_handles_are_well_formed(
    g: GuestView,
    p: &VolatilityJson,
    base: u64,
    eprocess: u64,
    i: int,
)
    ensures
        handles_of(g, p, base, eprocess) matches Ok(all) ==> 0 <= i < all.len() ==> {
            &&& all[i].handle % 4 == 0
            &&& all[i].object_header >= KERNEL_MIN
            &&& all[i].object_header % 16 == 0
            &&& all[i].granted_access <= 0x01ff_ffff
        },
{
    if let Ok(Some((level, table))) = handle_table(g, p, eprocess) {
        lemma_in_table(g, p, base, level, table, 0, 0, 0);
        if let Ok(all) = handles_of(g, p, base, eprocess) {
            if 0 <= i < all.len() {
                let (n, k) = choose|n: u64, k: u64|
                    stands_at(g, p, base, level, table, n, k, all[i]);
                lemma_standing(g, p, base, level, table, n, k, all[i]);
            }
        }
    }
}

proof fn lemma_standing(
    g: GuestView,
    p: &VolatilityJson,
    base: u64,
    level: u64,
    table: u64,
    leaf: u64,
    slot: u64,
    it: WinHandleView,
)
    requires
        stands_at(g, p, base, level, table, leaf, slot, it),
    ensures
        it.handle == (leaf * 256 + slot) * 4,
        it.object_header >= KERNEL_MIN,
        it.object_header % 16 == 0,
        it.granted_access <= 0x01ff_ffff,
        leaf_page(g, level, table, leaf) matches Ok(Some(page)) && u64_at(
            g,
            Space::Current,
            pointer_word(p, page.wrapping_add((slot * 16) as u64)),
        ) matches Ok(Some(low)) && entry_object(p, low) == Some(it.object_header),
{
    reveal(handle_entry);
    assert(forall|access: u32| #[trigger] (access & 0x01ff_ffff) <= 0x01ff_ffff) by (bit_vector);
    let page = leaf_page(g, level, table, leaf).unwrap().unwrap();
    let word = pointer_word(p, page.wrapping_add((slot * 16) as u64));
    if let Ok(Some(low)) = u64_at(g, Space::Current, word) {
        objects_are_in_the_kernel(p, low);
    }
}

/// Handles in strictly ascending order, for indexes from `low` on and below `high`.
pub open spec fn ascending(v: Seq<WinHandleView>, low: int, high: int) -> bool {
    &&& forall|i: int| 0 <= i < v.len() ==> 4 * low <= (#[trigger] v[i]).handle < 4 * high
    &&& forall|i: int, j: int|
        0 <= i < j < v.len() ==> (#[trigger] v[i]).handle < (#[trigger] v[j]).handle
}

proof fn lemma_ascending_joined(
    a: Seq<WinHandleView>,
    b: Seq<WinHandleView>,
    low: int,
    middle: int,
    high: int,
)
    requires
        low <= middle <= high,
        ascending(a, low, middle),
        ascending(b, middle, high),
    ensures
        ascending(a + b, low, high),
{
    let v = a + b;
    assert forall|i: int| 0 <= i < v.len() implies 4 * low <= (#[trigger] v[i]).handle < 4
        * high by {
        if i < a.len() {
            assert(v[i] == a[i]);
        } else {
            assert(v[i] == b[i - a.len()]);
        }
    }
    assert forall|i: int, j: int| 0 <= i < j < v.len() implies (#[trigger] v[i]).handle < (
    #[trigger] v[j]).handle by {
        if j < a.len() {
            assert(v[i] == a[i] && v[j] == a[j]);
        } else if i < a.len() {
            assert(v[i] == a[i] && v[j] == b[j - a.len()]);
        } else {
            assert(v[i] == b[i - a.len()] && v[j] == b[j - a.len()]);
        }
    }
}

proof fn lemma_entry_handle(
    g: GuestView,
    p: &VolatilityJson,
    base: u64,
    page: u64,
    first: u64,
    slot: u64,
)
    requires
        first + slot < 0x400_0000,
    ensures
        handle_entry(g, p, base, page, first, slot) matches Ok(Some(it)) ==> it.handle == (first
            + slot) * 4,
{
    reveal(handle_entry);
}

proof fn lemma_page_ascending(
    g: GuestView,
    p: &VolatilityJson,
    base: u64,
    page: u64,
    first: u64,
    slot: u64,
    have: nat,
)
    requires
        first + 256 <= 0x400_0000,
        slot <= 256,
    ensures
        page_handles(g, p, base, page, first, slot, have) matches Ok(here) ==> ascending(
            here,
            first + slot,
            first + 256,
        ),
    decreases 256 - slot,
{
    if slot < 256 && have < MAX_HANDLES {
        let next = (slot + 1) as u64;
        lemma_entry_handle(g, p, base, page, first, slot);
        match handle_entry(g, p, base, page, first, slot) {
            Err(_) => {},
            Ok(None) => {
                lemma_page_ascending(g, p, base, page, first, next, have);
            },
            Ok(Some(found)) => {
                lemma_page_ascending(g, p, base, page, first, next, have + 1);
                if let Ok(tail) = page_handles(g, p, base, page, first, next, have + 1) {
                    lemma_ascending_joined(
                        seq![found],
                        tail,
                        first + slot,
                        first + next,
                        first + 256,
                    );
                }
            },
        }
    }
}

proof fn lemma_table_ascending(
    g: GuestView,
    p: &VolatilityJson,
    base: u64,
    level: u64,
    table: u64,
    leaf: u64,
    slot: u64,
    have: nat,
)
    requires
        leaf <= leaf_count(level),
        slot <= 256,
    ensures
        table_handles(g, p, base, level, table, leaf, slot, have) matches Ok(all) ==> ascending(
            all,
            leaf * 256 + slot,
            leaf_count(level) * 256 + 256,
        ),
    decreases leaf_count(level) - leaf,
{
    let high = leaf_count(level) * 256 + 256;
    if leaf < leaf_count(level) {
        let next = (leaf + 1) as u64;
        let first = (leaf * 256) as u64;
        match leaf_page(g, level, table, leaf) {
            Err(_) => {},
            Ok(None) => {
                lemma_table_ascending(g, p, base, level, table, next, 0, have);
            },
            Ok(Some(page)) => {
                lemma_page_ascending(g, p, base, page, first, slot, have);
                if let Ok(here) = page_handles(g, p, base, page, first, slot, have) {
                    let so_far = have + here.len();
                    lemma_table_ascending(g, p, base, level, table, next, 0, so_far);
                    let rest = table_handles(g, p, base, level, table, next, 0, so_far);
                    if let Ok(tail) = rest {
                        lemma_ascending_joined(
                            here,
                            tail,
                            leaf * 256 + slot,
                            next * 256,
                            high,
                        );
                    }
                }
            },
        }
    }
}

/// The list is in strictly ascending order of handles, so none is listed twice, and no handle
/// reaches 2^28.
pub proof fn listed_handles_ascend(g: GuestView, p: &VolatilityJson, base: u64, eprocess: u64)
    ensures
        handles_of(g, p, base, eprocess) matches Ok(all) ==> {
            &&& forall|i: int, j: int|
                0 <= i < j < all.len() ==> (#[trigger] all[i]).handle < (#[trigger] all[j]).handle
            &&& forall|i: int| 0 <= i < all.len() ==> (#[trigger] all[i]).handle < 0x1000_0000
        },
{
    if let Ok(Some((level, table))) = handle_table(g, p, eprocess) {
        lemma_table_ascending(g, p, base, level, table, 0, 0, 0);
        lemma_in_table(g, p, base, level, table, 0, 0, 0);
        if let Ok(all) = handles_of(g, p, base, eprocess) {
            assert forall|i: int| 0 <= i < all.len() implies (#[trigger] all[i]).handle
                < 0x1000_0000 by {
                let (n, k) = choose|n: u64, k: u64|
                    stands_at(g, p, base, level, table, n, k, all[i]);
                lemma_standing(g, p, base, level, table, n, k, all[i]);
            }
        }
    }
}

/// A process's handle table lies in the kernel half: the words that lead to it, its pages, and the
/// pointers on them.
pub open spec fn table_in_kernel(g: GuestView, p: &VolatilityJson, eprocess: u64) -> bool {
    let link = eprocess.wrapping_add(p.offset_or("_EPROCESS"@, "ObjectTable"@, 0));
    let code = p.offset_or("_HANDLE_TABLE"@, "TableCode"@, 8);
    &&& in_kernel(link, 8)
    &&& u64_at(g, Space::Current, link) matches Ok(Some(object_table)) ==> in_kernel(
        object_table.wrapping_add(code),
        8,
    )
    &&& handle_table(g, p, eprocess) matches Ok(Some((level, table))) ==> {
        &&& in_kernel(table, 0x1000)
        &&& forall|i: u64|
            level > 1 && i < 512 ==> (#[trigger] subtable(g, table, i) matches Ok(Some(middle))
                ==> in_kernel(middle, 0x1000))
        &&& forall|leaf: u64|
            leaf < leaf_count(level) ==> (#[trigger] leaf_page(g, level, table, leaf) matches Ok(
                Some(page),
            ) ==> in_kernel(pointer_word(p, page), 0x1000))
    }
}

/// A handle that the list shows leads to the object header that the list shows for it: looking it
/// up through page tables that map the same kernel memory finds no other. User addresses may be
/// mapped differently, so the tables may be another process's.
pub proof fn listed_handles_are_found(
    g: GuestView,
    p: &VolatilityJson,
    base: u64,
    dtb: u64,
    eprocess: u64,
    i: int,
)
    requires
        same_kernel_memory(g, dtb),
        table_in_kernel(g, p, eprocess),
        p.offset("_HANDLE_TABLE"@, "TableCode"@) is Some,
    ensures
        handles_of(g, p, base, eprocess) matches Ok(all) ==> 0 <= i < all.len() && all[i].handle
            != 0 ==> agree(
            Ok::<Option<u64>, Request>(Some(all[i].object_header)),
            handle_object(g, p, dtb, eprocess, all[i].handle as u64),
        ),
{
    if let Ok(Some((level, table))) = handle_table(g, p, eprocess) {
        lemma_in_table(g, p, base, level, table, 0, 0, 0);
        if let Ok(all) = handles_of(g, p, base, eprocess) {
            if 0 <= i < all.len() && all[i].handle != 0 {
                let (n, k) = choose|n: u64, k: u64|
                    stands_at(g, p, base, level, table, n, k, all[i]);
                lemma_standing(g, p, base, level, table, n, k, all[i]);
                lemma_lookup(g, p, base, dtb, eprocess, level, table, n, k, all[i]);
            }
        }
    }
}

proof fn lemma_lookup(
    g: GuestView,
    p: &VolatilityJson,
    base: u64,
    dtb: u64,
    eprocess: u64,
    level: u64,
    table: u64,
    leaf: u64,
    slot: u64,
    it: WinHandleView,
)
    requires
        same_kernel_memory(g, dtb),
        table_in_kernel(g, p, eprocess),
        p.offset("_HANDLE_TABLE"@, "TableCode"@) is Some,
        handle_table(g, p, eprocess) == Ok::<Option<(u64, u64)>, Request>(Some((level, table))),
        stands_at(g, p, base, level, table, leaf, slot, it),
        it.handle == (leaf * 256 + slot) * 4,
        it.handle != 0,
        leaf_page(g, level, table, leaf) matches Ok(Some(page)) && u64_at(
            g,
            Space::Current,
            pointer_word(p, page.wrapping_add((slot * 16) as u64)),
        ) matches Ok(Some(low)) && entry_object(p, low) == Some(it.object_header),
    ensures
        agree(
            Ok::<Option<u64>, Request>(Some(it.object_header)),
            handle_object(g, p, dtb, eprocess, it.handle as u64),
        ),
{
    lemma_entry_of_index(g, dtb, level, table, leaf, slot);
    same_kernel_words(g, dtb);
    let page = leaf_page(g, level, table, leaf).unwrap().unwrap();
    assert(in_kernel(pointer_word(p, page), 0x1000));
    assert(in_kernel(pointer_word(p, page.wrapping_add((slot * 16) as u64)), 8));
    assert((it.handle as u64) / 4 == leaf * 256 + slot);
}

proof fn lemma_entry_of_index(g: GuestView, dtb: u64, level: u64, table: u64, leaf: u64, slot: u64)
    requires
        same_kernel_memory(g, dtb),
        in_kernel(table, 0x1000),
        level > 1 ==> (subtable(g, table, leaf / 512) matches Ok(Some(middle)) ==> in_kernel(
            middle,
            0x1000,
        )),
        leaf < leaf_count(level),
        slot < 256,
        leaf_page(g, level, table, leaf) matches Ok(Some(_)),
    ensures
        agree(
            Ok::<Option<u64>, Request>(
                Some(
                    leaf_page(g, level, table, leaf).unwrap().unwrap().wrapping_add(
                        (slot * 16) as u64,
                    ),
                ),
            ),
            entry_of_index(g, dtb, level, table, (leaf * 256 + slot) as u64),
        ),
{
    reveal(leaf_page);
    same_kernel_words(g, dtb);
    let index = (leaf * 256 + slot) as u64;
    assert(index / 256 == leaf && index % 256 == slot);
}

// ---- handles over a growing record ------------------------------------------------------------

/// A handle table entry is steady over a growing record.
pub broadcast proof fn handle_entry_steady(
    g: GuestView,
    h: GuestView,
    p: &VolatilityJson,
    base: u64,
    page: u64,
    first: u64,
    slot: u64,
)
    requires
        #[trigger] g.extended_by(h),
    ensures
        steady(
            g,
            h,
            #[trigger] handle_entry(g, p, base, page, first, slot),
            handle_entry(h, p, base, page, first, slot),
        ),
{
    broadcast use {group_reads_steady, object_steady};

    reveal(handle_entry);
}

/// The location of a handle table is steady over a growing record.
pub broadcast proof fn handle_table_steady(
    g: GuestView,
    h: GuestView,
    p: &VolatilityJson,
    eprocess: u64,
)
    requires
        #[trigger] g.extended_by(h),
    ensures
        steady(g, h, #[trigger] handle_table(g, p, eprocess), handle_table(h, p, eprocess)),
{
    broadcast use group_reads_steady;

}

/// Its leaf pages are steady over a growing record.
pub broadcast proof fn leaf_page_steady(
    g: GuestView,
    h: GuestView,
    level: u64,
    table: u64,
    leaf: u64,
)
    requires
        #[trigger] g.extended_by(h),
    ensures
        steady(
            g,
            h,
            #[trigger] leaf_page(g, level, table, leaf),
            leaf_page(h, level, table, leaf),
        ),
{
    broadcast use group_reads_steady;

    reveal(leaf_page);
}

proof fn lemma_page_steady(
    g: GuestView,
    h: GuestView,
    p: &VolatilityJson,
    base: u64,
    page: u64,
    first: u64,
    slot: u64,
    have: nat,
)
    requires
        g.extended_by(h),
    ensures
        steady(
            g,
            h,
            page_handles(g, p, base, page, first, slot, have),
            page_handles(h, p, base, page, first, slot, have),
        ),
    decreases 256 - slot,
{
    if slot < 256 && have < MAX_HANDLES {
        handle_entry_steady(g, h, p, base, page, first, slot);
        lemma_page_steady(g, h, p, base, page, first, (slot + 1) as u64, have);
        lemma_page_steady(g, h, p, base, page, first, (slot + 1) as u64, have + 1);
    }
}

proof fn lemma_table_steady(
    g: GuestView,
    h: GuestView,
    p: &VolatilityJson,
    base: u64,
    level: u64,
    table: u64,
    leaf: u64,
    slot: u64,
    have: nat,
)
    requires
        g.extended_by(h),
    ensures
        steady(
            g,
            h,
            table_handles(g, p, base, level, table, leaf, slot, have),
            table_handles(h, p, base, level, table, leaf, slot, have),
        ),
    decreases leaf_count(level) - leaf,
{
    if leaf < leaf_count(level) {
        let next = (leaf + 1) as u64;
        leaf_page_steady(g, h, level, table, leaf);
        match leaf_page(g, level, table, leaf) {
            Err(_) => {},
            Ok(None) => {
                lemma_table_steady(g, h, p, base, level, table, next, 0, have);
            },
            Ok(Some(page)) => {
                let first = (leaf * 256) as u64;
                lemma_page_steady(g, h, p, base, page, first, slot, have);
                if let Ok(here) = page_handles(g, p, base, page, first, slot, have) {
                    lemma_table_steady(g, h, p, base, level, table, next, 0, have + here.len());
                }
            },
        }
    }
}

/// The list of a process's handles is steady over a growing record.
pub broadcast proof fn handles_of_steady(
    g: GuestView,
    h: GuestView,
    p: &VolatilityJson,
    base: u64,
    eprocess: u64,
)
    requires
        #[trigger] g.extended_by(h),
    ensures
        steady(
            g,
            h,
            #[trigger] handles_of(g, p, base, eprocess),
            handles_of(h, p, base, eprocess),
        ),
{
    handle_table_steady(g, h, p, eprocess);
    if let Ok(Some((level, table))) = handle_table(g, p, eprocess) {
        lemma_table_steady(g, h, p, base, level, table, 0, 0, 0);
    }
}

/// The object header behind a handle is steady over a growing record.
pub broadcast proof fn handle_object_steady(
    g: GuestView,
    h: GuestView,
    p: &VolatilityJson,
    dtb: u64,
    eprocess: u64,
    handle: u64,
)
    requires
        #[trigger] g.extended_by(h),
    ensures
        steady(
            g,
            h,
            #[trigger] handle_object(g, p, dtb, eprocess, handle),
            handle_object(h, p, dtb, eprocess, handle),
        ),
{
    broadcast use group_reads_steady;

}

/// So are the type and name of its object.
pub broadcast proof fn object_of_handle_steady(
    g: GuestView,
    h: GuestView,
    p: &VolatilityJson,
    base: u64,
    dtb: u64,
    eprocess: u64,
    handle: u64,
)
    requires
        #[trigger] g.extended_by(h),
    ensures
        steady(
            g,
            h,
            #[trigger] object_of_handle(g, p, base, dtb, eprocess, handle),
            object_of_handle(h, p, base, dtb, eprocess, handle),
        ),
{
    handle_object_steady(g, h, p, dtb, eprocess, handle);
    if let Ok(Some(oh)) = handle_object(g, p, dtb, eprocess, handle) {
        object_with_keys_steady(g, h, p, dtb, base, oh);
    }
}

proof fn lemma_object_position_steady(
    g: GuestView,
    h: GuestView,
    p: &VolatilityJson,
    base: u64,
    dtb: u64,
    oh: u64,
)
    requires
        g.extended_by(h),
    ensures
        steady(
            g,
            h,
            object_position(g, p, base, dtb, oh),
            object_position(h, p, base, dtb, oh),
        ),
{
    broadcast use {u64_at_steady, object_type_steady};

    reveal(object_position);
}

/// And a file's position.
pub broadcast proof fn file_position_steady(
    g: GuestView,
    h: GuestView,
    p: &VolatilityJson,
    base: u64,
    eprocess: u64,
    handle: u64,
)
    requires
        #[trigger] g.extended_by(h),
    ensures
        steady(
            g,
            h,
            #[trigger] file_position(g, p, base, eprocess, handle),
            file_position(h, p, base, eprocess, handle),
        ),
{
    running_process_and_tables_steady(g, h, p);
    if let Ok(Some((_, dtb))) = running_process_and_tables(g, p) {
        handle_object_steady(g, h, p, dtb, eprocess, handle);
        if let Ok(Some(oh)) = handle_object(g, p, dtb, eprocess, handle) {
            lemma_object_position_steady(g, h, p, base, dtb, oh);
        }
    }
}

} // verus!
