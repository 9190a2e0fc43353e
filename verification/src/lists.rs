//! The kernel's linked lists: processes, threads, kernel modules, and the modules of a process.

use crate::guest::{steady, Guest, GuestView, Request};
use crate::kernel::{
    current_eproc_and_dtb, running_process_and_tables, running_process_and_tables_steady,
};
use crate::profile::{foff, foff_or, sym_addr, VolatilityJson};
use crate::reads::{
    c_string, group_reads_steady, rd_cstr, rd_u32_or_zero, rd_u64, rd_u64_or_zero,
    rd_unicode_string, u32_or_zero, u64_at, u64_or_zero, unicode_string, Space, PA_MASK,
};
use vstd::prelude::*;

verus! {

// ---- list walks in general --------------------------------------------------------------------

/// The views of a list of values.
pub open spec fn views<T: View>(s: Seq<T>) -> Seq<T::V> {
    Seq::new(s.len(), |i: int| s[i]@)
}

/// The outcome of a query for a list.
pub open spec fn list_outcome<T: View>(r: Result<Vec<T>, Request>) -> Result<Seq<T::V>, Request> {
    match r {
        Err(q) => Err(q),
        Ok(v) => Ok(views(v@)),
    }
}

/// The items from node `cur` on: one for each node until the list is back at its head, a link is
/// null or unreadable, or `left` nodes have been seen.
pub open spec fn items_from<T>(
    next: spec_fn(u64) -> Result<Option<u64>, Request>,
    item: spec_fn(u64) -> Result<T, Request>,
    head: u64,
    cur: u64,
    left: nat,
) -> Result<Seq<T>, Request>
    decreases left,
{
    if left == 0 || cur == head || cur == 0 {
        Ok(seq![])
    } else {
        match item(cur) {
            Err(q) => Err(q),
            Ok(it) => match next(cur) {
                Err(q) => Err(q),
                Ok(None) => Ok(seq![it]),
                Ok(Some(node)) => match items_from(next, item, head, node, (left - 1) as nat) {
                    Err(q) => Err(q),
                    Ok(rest) => Ok(seq![it] + rest),
                },
            },
        }
    }
}

/// The items of the list with this head, at most `limit`; none where the head cannot be read.
pub open spec fn items<T>(
    next: spec_fn(u64) -> Result<Option<u64>, Request>,
    item: spec_fn(u64) -> Result<T, Request>,
    head: u64,
    limit: nat,
) -> Result<Seq<T>, Request> {
    match next(head) {
        Err(q) => Err(q),
        Ok(None) => Ok(seq![]),
        Ok(Some(first)) => items_from(next, item, head, first, limit),
    }
}

/// The link of a list node is its first 8 bytes.
pub open spec fn link(g: GuestView, space: Space) -> spec_fn(u64) -> Result<Option<u64>, Request> {
    |node: u64| u64_at(g, space, node)
}

/// What is in front goes in front of an answer.
pub open spec fn prepend<T>(done: Seq<T>, r: Result<Seq<T>, Request>) -> Result<Seq<T>, Request> {
    match r {
        Err(q) => Err(q),
        Ok(rest) => Ok(done + rest),
    }
}

proof fn lemma_step<T>(
    next: spec_fn(u64) -> Result<Option<u64>, Request>,
    item: spec_fn(u64) -> Result<T, Request>,
    head: u64,
    cur: u64,
    left: nat,
    done: Seq<T>,
    it: T,
)
    requires
        left > 0,
        cur != head,
        cur != 0,
        item(cur) == Ok::<T, Request>(it),
    ensures
        prepend(done, items_from(next, item, head, cur, left)) == match next(cur) {
            Err(q) => Err(q),
            Ok(None) => Ok(done.push(it)),
            Ok(Some(node)) => prepend(
                done.push(it),
                items_from(next, item, head, node, (left - 1) as nat),
            ),
        },
{
    assert(done + seq![it] =~= done.push(it));
    if let Ok(Some(node)) = next(cur) {
        if let Ok(rest) = items_from(next, item, head, node, (left - 1) as nat) {
            assert(done + (seq![it] + rest) =~= done.push(it) + rest);
        }
    }
}

/// A walk never delivers more than its limit.
pub proof fn items_bounded<T>(
    next: spec_fn(u64) -> Result<Option<u64>, Request>,
    item: spec_fn(u64) -> Result<T, Request>,
    head: u64,
    cur: u64,
    left: nat,
)
    ensures
        items_from(next, item, head, cur, left) matches Ok(v) ==> v.len() <= left,
    decreases left,
{
    if left > 0 && cur != head && cur != 0 {
        if let Ok(Some(node)) = next(cur) {
            items_bounded(next, item, head, node, (left - 1) as nat);
        }
    }
}

/// Whatever a walk delivers was noted of some node.
pub proof fn items_are_of_nodes<T>(
    next: spec_fn(u64) -> Result<Option<u64>, Request>,
    item: spec_fn(u64) -> Result<T, Request>,
    head: u64,
    cur: u64,
    left: nat,
    i: int,
)
    ensures
        items_from(next, item, head, cur, left) matches Ok(v) ==> 0 <= i < v.len() ==> exists|
            node: u64,
        | #[trigger] item(node) == Ok::<T, Request>(v[i]),
    decreases left,
{
    if left > 0 && cur != head && cur != 0 {
        if let Ok(Some(node)) = next(cur) {
            items_are_of_nodes(next, item, head, node, (left - 1) as nat, i - 1);
            if let Ok(rest) = items_from(next, item, head, node, (left - 1) as nat) {
                if let Ok(it) = item(cur) {
                    if 0 < i <= rest.len() {
                        assert((seq![it] + rest)[i] == rest[i - 1]);
                    }
                }
            }
        }
    }
}

proof fn lemma_ring_from<T>(
    next: spec_fn(u64) -> Result<Option<u64>, Request>,
    item: spec_fn(u64) -> Result<T, Request>,
    head: u64,
    nodes: Seq<u64>,
    found: Seq<T>,
    i: int,
    left: nat,
)
    requires
        0 <= i <= nodes.len(),
        nodes.len() - i <= left,
        found.len() == nodes.len(),
        forall|j: int| 0 <= j < nodes.len() ==> #[trigger] nodes[j] != head && nodes[j] != 0,
        forall|j: int|
            0 <= j < nodes.len() ==> #[trigger] item(nodes[j]) == Ok::<T, Request>(found[j]),
        forall|j: int|
            0 <= j < nodes.len() ==> #[trigger] next(nodes[j]) == Ok::<Option<u64>, Request>(
                Some(
                    if j + 1 < nodes.len() {
                        nodes[j + 1]
                    } else {
                        head
                    },
                ),
            ),
    ensures
        items_from(
            next,
            item,
            head,
            if i < nodes.len() {
                nodes[i]
            } else {
                head
            },
            left,
        ) == Ok::<Seq<T>, Request>(found.skip(i)),
    decreases nodes.len() - i,
{
    if i < nodes.len() {
        lemma_ring_from(next, item, head, nodes, found, i + 1, (left - 1) as nat);
        assert(item(nodes[i]) == Ok::<T, Request>(found[i]));
        assert(seq![found[i]] + found.skip(i + 1) =~= found.skip(i));
    } else {
        assert(found.skip(i) =~= seq![]);
    }
}

/// A ring whose nodes can all be read, and that is no longer than the limit, is walked completely
/// and in order.
pub proof fn ring_is_walked<T>(
    next: spec_fn(u64) -> Result<Option<u64>, Request>,
    item: spec_fn(u64) -> Result<T, Request>,
    head: u64,
    nodes: Seq<u64>,
    found: Seq<T>,
    limit: nat,
)
    requires
        nodes.len() <= limit,
        found.len() == nodes.len(),
        forall|j: int| 0 <= j < nodes.len() ==> #[trigger] nodes[j] != head && nodes[j] != 0,
        forall|j: int|
            0 <= j < nodes.len() ==> #[trigger] item(nodes[j]) == Ok::<T, Request>(found[j]),
        next(head) == Ok::<Option<u64>, Request>(
            Some(
                if nodes.len() > 0 {
                    nodes[0]
                } else {
                    head
                },
            ),
        ),
        forall|j: int|
            0 <= j < nodes.len() ==> #[trigger] next(nodes[j]) == Ok::<Option<u64>, Request>(
                Some(
                    if j + 1 < nodes.len() {
                        nodes[j + 1]
                    } else {
                        head
                    },
                ),
            ),
    ensures
        items(next, item, head, limit) == Ok::<Seq<T>, Request>(found),
{
    lemma_ring_from(next, item, head, nodes, found, 0, limit);
    assert(found.skip(0) =~= found);
}

proof fn lemma_items_from_steady<T>(
    g: GuestView,
    h: GuestView,
    space: Space,
    item_g: spec_fn(u64) -> Result<T, Request>,
    item_h: spec_fn(u64) -> Result<T, Request>,
    head: u64,
    cur: u64,
    left: nat,
)
    requires
        g.extended_by(h),
        forall|a: u64| steady(g, h, #[trigger] item_g(a), item_h(a)),
    ensures
        steady(
            g,
            h,
            items_from(link(g, space), item_g, head, cur, left),
            items_from(link(h, space), item_h, head, cur, left),
        ),
    decreases left,
{
    broadcast use group_reads_steady;

    if left > 0 && cur != head && cur != 0 {
        assert(steady(g, h, item_g(cur), item_h(cur)));
        if let Ok(Some(node)) = link(g, space)(cur) {
            lemma_items_from_steady(g, h, space, item_g, item_h, head, node, (left - 1) as nat);
        }
    }
}

/// A list walk is steady over a growing record if what it notes of each node is.
pub proof fn items_steady<T>(
    g: GuestView,
    h: GuestView,
    space: Space,
    item_g: spec_fn(u64) -> Result<T, Request>,
    item_h: spec_fn(u64) -> Result<T, Request>,
    head: u64,
    limit: nat,
)
    requires
        g.extended_by(h),
        forall|a: u64| steady(g, h, #[trigger] item_g(a), item_h(a)),
    ensures
        steady(
            g,
            h,
            items(link(g, space), item_g, head, limit),
            items(link(h, space), item_h, head, limit),
        ),
{
    broadcast use group_reads_steady;

    if let Ok(Some(first)) = link(g, space)(head) {
        lemma_items_from_steady(g, h, space, item_g, item_h, head, first, limit);
    }
}

// ---- processes --------------------------------------------------------------------------------

#[derive(Clone, Debug)]
pub struct WinProc {
    pub eprocess: u64,
    pub pid: u64,
    pub ppid: u64,
    pub name: String,
}

pub struct WinProcView {
    pub eprocess: u64,
    pub pid: u64,
    pub ppid: u64,
    pub name: Seq<char>,
}

impl View for WinProc {
    type V = WinProcView;

    open spec fn view(&self) -> WinProcView {
        WinProcView { eprocess: self.eprocess, pid: self.pid, ppid: self.ppid, name: self.name@ }
    }
}

/// At most this many processes are listed.
pub const MAX_PROCESSES: u64 = 4096;

/// The process whose links are at `node`. A field that cannot be read is 0, a name empty; a field
/// that the profile does not know is taken at offset 0.
pub open spec fn process_item(g: GuestView, p: &VolatilityJson, links: u64) -> spec_fn(
    u64,
) -> Result<WinProcView, Request> {
    |node: u64|
        {
            let eprocess = node.wrapping_sub(links);
            let pid_off = p.offset_or("_EPROCESS"@, "UniqueProcessId"@, 0);
            let ppid_off = p.offset_or("_EPROCESS"@, "InheritedFromUniqueProcessId"@, 0);
            let name_off = p.offset_or("_EPROCESS"@, "ImageFileName"@, 0);
            match u64_or_zero(g, Space::Current, eprocess.wrapping_add(pid_off)) {
                Err(q) => Err(q),
                Ok(pid) => match u64_or_zero(g, Space::Current, eprocess.wrapping_add(ppid_off)) {
                    Err(q) => Err(q),
                    Ok(ppid) => match c_string(g, eprocess.wrapping_add(name_off), 15) {
                        Err(q) => Err(q),
                        Ok(name) => Ok(WinProcView { eprocess, pid, ppid, name }),
                    },
                },
            }
        }
}

/// The processes on PsActiveProcessHead.
pub open spec fn process_list(g: GuestView, p: &VolatilityJson, base: u64) -> Result<
    Seq<WinProcView>,
    Request,
> {
    match (p.rva("PsActiveProcessHead"@), p.offset("_EPROCESS"@, "ActiveProcessLinks"@)) {
        (Some(rva), Some(links)) => items(
            link(g, Space::Current),
            process_item(g, p, links),
            base.wrapping_add(rva),
            MAX_PROCESSES as nat,
        ),
        _ => Ok(seq![]),
    }
}

/// Walks PsActiveProcessHead through _EPROCESS.ActiveProcessLinks.
pub fn get_process_list(g: &Guest, p: &VolatilityJson, base: u64) -> (r: Result<
    Vec<WinProc>,
    Request,
>)
    ensures
        list_outcome(r) == process_list(g@, p, base),
{
    let mut out: Vec<WinProc> = Vec::new();
    assert(views(out@) =~= seq![]);
    let head = match sym_addr(p, base, "PsActiveProcessHead") {
        Some(h) => h,
        None => return Ok(out),
    };
    let links = match foff(p, "_EPROCESS", "ActiveProcessLinks") {
        Some(o) => o,
        None => return Ok(out),
    };
    let pid_off = foff_or(p, "_EPROCESS", "UniqueProcessId", 0);
    let ppid_off = foff_or(p, "_EPROCESS", "InheritedFromUniqueProcessId", 0);
    let name_off = foff_or(p, "_EPROCESS", "ImageFileName", 0);

    let ghost next = link(g@, Space::Current);
    let ghost item = process_item(g@, p, links);
    let mut cur = match rd_u64(g, Space::Current, head)? {
        Some(v) => v,
        None => return Ok(out),
    };
    let ghost whole = items_from(next, item, head, cur, MAX_PROCESSES as nat);
    let mut guard: u64 = 0;
    proof {
        if let Ok(v) = whole {
            assert(views(out@) + v =~= v);
        }
    }
    while cur != head && cur != 0 && guard < MAX_PROCESSES
        invariant
            next == link(g@, Space::Current),
            item == process_item(g@, p, links),
            pid_off == p.offset_or("_EPROCESS"@, "UniqueProcessId"@, 0),
            ppid_off == p.offset_or("_EPROCESS"@, "InheritedFromUniqueProcessId"@, 0),
            name_off == p.offset_or("_EPROCESS"@, "ImageFileName"@, 0),
            guard <= MAX_PROCESSES,
            whole == process_list(g@, p, base),
            whole == prepend(
                views(out@),
                items_from(next, item, head, cur, (MAX_PROCESSES - guard) as nat),
            ),
        decreases MAX_PROCESSES - guard,
    {
        let eprocess = cur.wrapping_sub(links);
        let pid = rd_u64_or_zero(g, Space::Current, eprocess.wrapping_add(pid_off))?;
        let ppid = rd_u64_or_zero(g, Space::Current, eprocess.wrapping_add(ppid_off))?;
        let name = rd_cstr(g, eprocess.wrapping_add(name_off), 15)?;
        let found = WinProc { eprocess, pid, ppid, name };
        let ghost done = views(out@);
        let ghost it = found@;
        proof {
            lemma_step(next, item, head, cur, (MAX_PROCESSES - guard) as nat, done, it);
        }
        out.push(found);
        assert(views(out@) =~= done.push(it));
        cur = match rd_u64(g, Space::Current, cur)? {
            Some(v) => v,
            None => return Ok(out),
        };
        guard += 1;
    }
    assert(views(out@) + Seq::<WinProcView>::empty() =~= views(out@));
    Ok(out)
}

// ---- threads ----------------------------------------------------------------------------------

#[derive(Clone, Debug)]
pub struct WinThread {
    pub ethread: u64,
    pub tid: u64,
}

pub struct WinThreadView {
    pub ethread: u64,
    pub tid: u64,
}

impl View for WinThread {
    type V = WinThreadView;

    open spec fn view(&self) -> WinThreadView {
        WinThreadView { ethread: self.ethread, tid: self.tid }
    }
}

/// At most this many threads are listed.
pub const MAX_THREADS: u64 = 8192;

/// The thread whose list entry is at `node`.
pub open spec fn thread_item(g: GuestView, p: &VolatilityJson, entry: u64) -> spec_fn(
    u64,
) -> Result<WinThreadView, Request> {
    |node: u64|
        {
            let ethread = node.wrapping_sub(entry);
            let cid = p.offset_or("_ETHREAD"@, "Cid"@, 0);
            let unique = p.offset_or("_CLIENT_ID"@, "UniqueThread"@, 8);
            match u64_or_zero(g, Space::Current, ethread.wrapping_add(cid).wrapping_add(unique)) {
                Err(q) => Err(q),
                Ok(tid) => Ok(WinThreadView { ethread, tid }),
            }
        }
}

/// The threads on _EPROCESS.ThreadListHead.
pub open spec fn threads_of(g: GuestView, p: &VolatilityJson, eprocess: u64) -> Result<
    Seq<WinThreadView>,
    Request,
> {
    match (
        p.offset("_EPROCESS"@, "ThreadListHead"@),
        p.offset("_ETHREAD"@, "ThreadListEntry"@),
    ) {
        (Some(list), Some(entry)) => items(
            link(g, Space::Current),
            thread_item(g, p, entry),
            eprocess.wrapping_add(list),
            MAX_THREADS as nat,
        ),
        _ => Ok(seq![]),
    }
}

/// Walks _EPROCESS.ThreadListHead through _ETHREAD.ThreadListEntry.
pub fn get_thread_list(g: &Guest, p: &VolatilityJson, eprocess: u64) -> (r: Result<
    Vec<WinThread>,
    Request,
>)
    ensures
        list_outcome(r) == threads_of(g@, p, eprocess),
{
    let mut out: Vec<WinThread> = Vec::new();
    assert(views(out@) =~= seq![]);
    let list = match foff(p, "_EPROCESS", "ThreadListHead") {
        Some(o) => o,
        None => return Ok(out),
    };
    let entry = match foff(p, "_ETHREAD", "ThreadListEntry") {
        Some(o) => o,
        None => return Ok(out),
    };
    let cid = foff_or(p, "_ETHREAD", "Cid", 0);
    let unique = foff_or(p, "_CLIENT_ID", "UniqueThread", 8);

    let head = eprocess.wrapping_add(list);
    let ghost next = link(g@, Space::Current);
    let ghost item = thread_item(g@, p, entry);
    let mut cur = match rd_u64(g, Space::Current, head)? {
        Some(v) => v,
        None => return Ok(out),
    };
    let ghost whole = items_from(next, item, head, cur, MAX_THREADS as nat);
    let mut guard: u64 = 0;
    proof {
        if let Ok(v) = whole {
            assert(views(out@) + v =~= v);
        }
    }
    while cur != head && cur != 0 && guard < MAX_THREADS
        invariant
            next == link(g@, Space::Current),
            item == thread_item(g@, p, entry),
            cid == p.offset_or("_ETHREAD"@, "Cid"@, 0),
            unique == p.offset_or("_CLIENT_ID"@, "UniqueThread"@, 8),
            guard <= MAX_THREADS,
            whole == threads_of(g@, p, eprocess),
            whole == prepend(
                views(out@),
                items_from(next, item, head, cur, (MAX_THREADS - guard) as nat),
            ),
        decreases MAX_THREADS - guard,
    {
        let ethread = cur.wrapping_sub(entry);
        let tid = rd_u64_or_zero(
            g,
            Space::Current,
            ethread.wrapping_add(cid).wrapping_add(unique),
        )?;
        let found = WinThread { ethread, tid };
        let ghost done = views(out@);
        let ghost it = found@;
        proof {
            lemma_step(next, item, head, cur, (MAX_THREADS - guard) as nat, done, it);
        }
        out.push(found);
        assert(views(out@) =~= done.push(it));
        cur = match rd_u64(g, Space::Current, cur)? {
            Some(v) => v,
            None => return Ok(out),
        };
        guard += 1;
    }
    assert(views(out@) + Seq::<WinThreadView>::empty() =~= views(out@));
    Ok(out)
}

// ---- modules ----------------------------------------------------------------------------------

#[derive(Clone, Debug)]
pub struct WinMod {
    pub base: u64,
    pub size: u32,
    pub name: String,
}

pub struct WinModView {
    pub base: u64,
    pub size: u32,
    pub name: Seq<char>,
}

impl View for WinMod {
    type V = WinModView;

    open spec fn view(&self) -> WinModView {
        WinModView { base: self.base, size: self.size, name: self.name@ }
    }
}

/// At most this many kernel modules are listed.
pub const MAX_MODULES: u64 = 2048;

/// At most this many modules of a process are listed.
pub const MAX_DLLS: u64 = 1024;

/// Where a loader data table entry keeps image base, image size and name. Its list links come
/// first, so a list node is the entry itself.
#[derive(Clone, Copy, Debug)]
pub struct LoaderEntry {
    pub dll_base: u64,
    pub size_of_image: u64,
    pub base_dll_name: u64,
}

pub open spec fn loader_entry(p: &VolatilityJson, ty: Seq<char>) -> LoaderEntry {
    LoaderEntry {
        dll_base: p.offset_or(ty, "DllBase"@, 0x30),
        size_of_image: p.offset_or(ty, "SizeOfImage"@, 0x40),
        base_dll_name: p.offset_or(ty, "BaseDllName"@, 0x58),
    }
}

/// The module whose loader entry is at `node`.
pub open spec fn module_item(g: GuestView, space: Space, at: LoaderEntry) -> spec_fn(
    u64,
) -> Result<WinModView, Request> {
    |node: u64|
        match u64_or_zero(g, space, node.wrapping_add(at.dll_base)) {
            Err(q) => Err(q),
            Ok(base) => match u32_or_zero(g, space, node.wrapping_add(at.size_of_image)) {
                Err(q) => Err(q),
                Ok(size) => match unicode_string(g, space, node.wrapping_add(at.base_dll_name)) {
                    Err(q) => Err(q),
                    Ok(name) => Ok(WinModView { base, size, name }),
                },
            },
        }
}

fn loader_entry_of(p: &VolatilityJson, ty: &str) -> (r: LoaderEntry)
    ensures
        r == loader_entry(p, ty@),
{
    LoaderEntry {
        dll_base: foff_or(p, ty, "DllBase", 0x30),
        size_of_image: foff_or(p, ty, "SizeOfImage", 0x40),
        base_dll_name: foff_or(p, ty, "BaseDllName", 0x58),
    }
}

fn walk_modules(g: &Guest, space: Space, at: LoaderEntry, head: u64, limit: u64) -> (r: Result<
    Vec<WinMod>,
    Request,
>)
    ensures
        list_outcome(r) == items(
            link(g@, space),
            module_item(g@, space, at),
            head,
            limit as nat,
        ),
{
    let mut out: Vec<WinMod> = Vec::new();
    assert(views(out@) =~= seq![]);
    let ghost next = link(g@, space);
    let ghost item = module_item(g@, space, at);
    let mut cur = match rd_u64(g, space, head)? {
        Some(v) => v,
        None => return Ok(out),
    };
    let ghost whole = items_from(next, item, head, cur, limit as nat);
    let mut guard: u64 = 0;
    proof {
        if let Ok(v) = whole {
            assert(views(out@) + v =~= v);
        }
    }
    while cur != head && cur != 0 && guard < limit
        invariant
            next == link(g@, space),
            item == module_item(g@, space, at),
            guard <= limit,
            whole == items(next, item, head, limit as nat),
            whole == prepend(
                views(out@),
                items_from(next, item, head, cur, (limit - guard) as nat),
            ),
        decreases limit - guard,
    {
        let base = rd_u64_or_zero(g, space, cur.wrapping_add(at.dll_base))?;
        let size = rd_u32_or_zero(g, space, cur.wrapping_add(at.size_of_image))?;
        let name = rd_unicode_string(g, space, cur.wrapping_add(at.base_dll_name))?;
        let found = WinMod { base, size, name };
        let ghost done = views(out@);
        let ghost it = found@;
        proof {
            lemma_step(next, item, head, cur, (limit - guard) as nat, done, it);
        }
        out.push(found);
        assert(views(out@) =~= done.push(it));
        cur = match rd_u64(g, space, cur)? {
            Some(v) => v,
            None => return Ok(out),
        };
        guard += 1;
    }
    assert(views(out@) + Seq::<WinModView>::empty() =~= views(out@));
    Ok(out)
}

/// The kernel modules on PsLoadedModuleList.
pub open spec fn kernel_modules(g: GuestView, p: &VolatilityJson, base: u64) -> Result<
    Seq<WinModView>,
    Request,
> {
    match p.rva("PsLoadedModuleList"@) {
        Some(rva) => items(
            link(g, Space::Current),
            module_item(g, Space::Current, loader_entry(p, "_KLDR_DATA_TABLE_ENTRY"@)),
            base.wrapping_add(rva),
            MAX_MODULES as nat,
        ),
        None => Ok(seq![]),
    }
}

/// Walks PsLoadedModuleList through _KLDR_DATA_TABLE_ENTRY.InLoadOrderLinks.
pub fn get_module_list(g: &Guest, p: &VolatilityJson, base: u64) -> (r: Result<
    Vec<WinMod>,
    Request,
>)
    ensures
        list_outcome(r) == kernel_modules(g@, p, base),
{
    match sym_addr(p, base, "PsLoadedModuleList") {
        Some(head) => {
            let at = loader_entry_of(p, "_KLDR_DATA_TABLE_ENTRY");
            walk_modules(g, Space::Current, at, head, MAX_MODULES)
        },
        None => {
            let out: Vec<WinMod> = Vec::new();
            assert(views(out@) =~= seq![]);
            Ok(out)
        },
    }
}

// ---- the user half of a process ---------------------------------------------------------------

/// The directory base and PEB of a process, read through the tables of the current one; `None`
/// where either cannot be had, and for processes without a PEB.
pub open spec fn user_half(g: GuestView, p: &VolatilityJson, eprocess: u64) -> Result<
    Option<(u64, u64)>,
    Request,
> {
    match running_process_and_tables(g, p) {
        Err(q) => Err(q),
        Ok(None) => Ok(None),
        Ok(Some((_, tables))) => match (
            p.offset("_KPROCESS"@, "DirectoryTableBase"@),
            p.offset("_EPROCESS"@, "Peb"@),
        ) {
            (Some(dtb_off), Some(peb_off)) => match u64_at(
                g,
                Space::Tables(tables),
                eprocess.wrapping_add(dtb_off),
            ) {
                Err(q) => Err(q),
                Ok(None) => Ok(None),
                Ok(Some(dtb)) => match u64_or_zero(
                    g,
                    Space::Tables(tables),
                    eprocess.wrapping_add(peb_off),
                ) {
                    Err(q) => Err(q),
                    Ok(peb) => if peb == 0 {
                        Ok(None)
                    } else {
                        Ok(Some((dtb & PA_MASK, peb)))
                    },
                },
            },
            _ => Ok(None),
        },
    }
}

pub(crate) fn user_half_of(g: &Guest, p: &VolatilityJson, eprocess: u64) -> (r: Result<
    Option<(u64, u64)>,
    Request,
>)
    ensures
        r == user_half(g@, p, eprocess),
{
    let tables = match current_eproc_and_dtb(g, p)? {
        Some((_, dtb)) => dtb,
        None => return Ok(None),
    };
    match (foff(p, "_KPROCESS", "DirectoryTableBase"), foff(p, "_EPROCESS", "Peb")) {
        (Some(dtb_off), Some(peb_off)) => {
            let dtb = match rd_u64(g, Space::Tables(tables), eprocess.wrapping_add(dtb_off))? {
                Some(v) => v & PA_MASK,
                None => return Ok(None),
            };
            let peb = rd_u64_or_zero(g, Space::Tables(tables), eprocess.wrapping_add(peb_off))?;
            if peb == 0 {
                Ok(None)
            } else {
                Ok(Some((dtb, peb)))
            }
        },
        _ => Ok(None),
    }
}

/// The modules on PEB.Ldr.InLoadOrderModuleList, read through the process's own tables.
pub open spec fn dlls_of(g: GuestView, p: &VolatilityJson, eprocess: u64) -> Result<
    Seq<WinModView>,
    Request,
> {
    match user_half(g, p, eprocess) {
        Err(q) => Err(q),
        Ok(None) => Ok(seq![]),
        Ok(Some((dtb, peb))) => match u64_or_zero(
            g,
            Space::Tables(dtb),
            peb.wrapping_add(p.offset_or("_PEB"@, "Ldr"@, 0x18)),
        ) {
            Err(q) => Err(q),
            Ok(ldr) => if ldr == 0 {
                Ok(seq![])
            } else {
                items(
                    link(g, Space::Tables(dtb)),
                    module_item(
                        g,
                        Space::Tables(dtb),
                        loader_entry(p, "_LDR_DATA_TABLE_ENTRY"@),
                    ),
                    ldr.wrapping_add(
                        p.offset_or("_PEB_LDR_DATA"@, "InLoadOrderModuleList"@, 0x10),
                    ),
                    MAX_DLLS as nat,
                )
            },
        },
    }
}

/// The user-mode modules of a process. Its PEB is in user space, so the list is walked through
/// the process's own page tables; the _EPROCESS fields are read through those of the current one.
pub fn proc_dlls(g: &Guest, p: &VolatilityJson, eprocess: u64) -> (r: Result<
    Vec<WinMod>,
    Request,
>)
    ensures
        list_outcome(r) == dlls_of(g@, p, eprocess),
{
    let none: Vec<WinMod> = Vec::new();
    assert(views(none@) =~= seq![]);
    let (dtb, peb) = match user_half_of(g, p, eprocess)? {
        Some(found) => found,
        None => return Ok(none),
    };
    let space = Space::Tables(dtb);
    let ldr_off = foff_or(p, "_PEB", "Ldr", 0x18);
    let ldr = rd_u64_or_zero(g, space, peb.wrapping_add(ldr_off))?;
    if ldr == 0 {
        return Ok(none);
    }
    let list_off = foff_or(p, "_PEB_LDR_DATA", "InLoadOrderModuleList", 0x10);
    let at = loader_entry_of(p, "_LDR_DATA_TABLE_ENTRY");
    walk_modules(g, space, at, ldr.wrapping_add(list_off), MAX_DLLS)
}

// ---- lists over a growing record --------------------------------------------------------------

/// The process list is steady over a growing record.
pub broadcast proof fn process_list_steady(
    g: GuestView,
    h: GuestView,
    p: &VolatilityJson,
    base: u64,
)
    requires
        #[trigger] g.extended_by(h),
    ensures
        steady(g, h, #[trigger] process_list(g, p, base), process_list(h, p, base)),
{
    broadcast use group_reads_steady;

    if let (Some(rva), Some(links)) = (
        p.rva("PsActiveProcessHead"@),
        p.offset("_EPROCESS"@, "ActiveProcessLinks"@),
    ) {
        items_steady(
            g,
            h,
            Space::Current,
            process_item(g, p, links),
            process_item(h, p, links),
            base.wrapping_add(rva),
            MAX_PROCESSES as nat,
        );
    }
}

/// The thread list is steady over a growing record.
pub broadcast proof fn threads_of_steady(
    g: GuestView,
    h: GuestView,
    p: &VolatilityJson,
    eprocess: u64,
)
    requires
        #[trigger] g.extended_by(h),
    ensures
        steady(g, h, #[trigger] threads_of(g, p, eprocess), threads_of(h, p, eprocess)),
{
    broadcast use group_reads_steady;

    if let (Some(list), Some(entry)) = (
        p.offset("_EPROCESS"@, "ThreadListHead"@),
        p.offset("_ETHREAD"@, "ThreadListEntry"@),
    ) {
        items_steady(
            g,
            h,
            Space::Current,
            thread_item(g, p, entry),
            thread_item(h, p, entry),
            eprocess.wrapping_add(list),
            MAX_THREADS as nat,
        );
    }
}

proof fn lemma_modules_steady(
    g: GuestView,
    h: GuestView,
    space: Space,
    at: LoaderEntry,
    head: u64,
    limit: nat,
)
    requires
        g.extended_by(h),
    ensures
        steady(
            g,
            h,
            items(link(g, space), module_item(g, space, at), head, limit),
            items(link(h, space), module_item(h, space, at), head, limit),
        ),
{
    broadcast use group_reads_steady;

    items_steady(g, h, space, module_item(g, space, at), module_item(h, space, at), head, limit);
}

/// The kernel module list is steady over a growing record.
pub broadcast proof fn kernel_modules_steady(
    g: GuestView,
    h: GuestView,
    p: &VolatilityJson,
    base: u64,
)
    requires
        #[trigger] g.extended_by(h),
    ensures
        steady(g, h, #[trigger] kernel_modules(g, p, base), kernel_modules(h, p, base)),
{
    if let Some(rva) = p.rva("PsLoadedModuleList"@) {
        lemma_modules_steady(
            g,
            h,
            Space::Current,
            loader_entry(p, "_KLDR_DATA_TABLE_ENTRY"@),
            base.wrapping_add(rva),
            MAX_MODULES as nat,
        );
    }
}

/// Directory base and PEB are steady over a growing record.
pub broadcast proof fn user_half_steady(
    g: GuestView,
    h: GuestView,
    p: &VolatilityJson,
    eprocess: u64,
)
    requires
        #[trigger] g.extended_by(h),
    ensures
        steady(g, h, #[trigger] user_half(g, p, eprocess), user_half(h, p, eprocess)),
{
    broadcast use {group_reads_steady, running_process_and_tables_steady};

}

/// The module list of a process is steady over a growing record.
pub broadcast proof fn dlls_of_steady(
    g: GuestView,
    h: GuestView,
    p: &VolatilityJson,
    eprocess: u64,
)
    requires
        #[trigger] g.extended_by(h),
    ensures
        steady(g, h, #[trigger] dlls_of(g, p, eprocess), dlls_of(h, p, eprocess)),
{
    broadcast use {group_reads_steady, user_half_steady};

    if let Ok(Some((dtb, peb))) = user_half(g, p, eprocess) {
        if let Ok(ldr) = u64_or_zero(
            g,
            Space::Tables(dtb),
            peb.wrapping_add(p.offset_or("_PEB"@, "Ldr"@, 0x18)),
        ) {
            lemma_modules_steady(
                g,
                h,
                Space::Tables(dtb),
                loader_entry(p, "_LDR_DATA_TABLE_ENTRY"@),
                ldr.wrapping_add(p.offset_or("_PEB_LDR_DATA"@, "InLoadOrderModuleList"@, 0x10)),
                MAX_DLLS as nat,
            );
        }
    }
}

} // verus!
