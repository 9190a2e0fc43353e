//! The walkers on a small simulated Windows guest.

use cosi::dump::{current_report, full_report, try_dump};
use cosi::guest::{Guest, Registers, Request};
use cosi::handles::{
    file_handle_pos, get_handle_list, handle_object_header, handle_to_object, HandleWalk, WinHandle,
};
use cosi::kernel::{
    current_eproc_and_dtb, current_eprocess, current_tid, determine_kaslr_offset, get_kpcr,
    is_pe_image, kernel_base, reg,
};
use cosi::lists::{
    get_module_list, get_process_list, get_thread_list, proc_dlls, WinMod, WinProc, WinThread,
};
use cosi::objects::{
    collapse_path, key_path_dtb, resolve_object, resolve_object_dtb, resolve_type, KeyPart,
};
use cosi::process::{
    current_proc, handle_list, module_list, proc_at, proc_list, proc_params, proc_pid_name,
    thread_list, WinProcParams,
};
use cosi::profile::{
    bitfield, foff, is_windows, sym_addr, sym_rva, Producer, VolatilityJson, VolatilityMetadata,
    VolatilityStruct, VolatilityStructField, VolatilitySymbol, VolatilityType, WindowsMetadata,
    WindowsPdb,
};
use cosi::reads::{
    phys_u64, rd_bytes, rd_bytes_dtb, rd_cstr, rd_u16, rd_u32, rd_u64, rd_u8, rd_unicode_string,
    translate, Space,
};
use cosi::strace::{
    cstr_at, osi_selftest, write_arg, write_call, OsiProc, SyscallInfo, Tracer, MAX_SWITCHES,
    MAX_TRACE,
};
use cosi::surface::{
    cosi_win_current_eprocess, cosi_win_current_proc, cosi_win_current_tid,
    cosi_win_file_handle_pos, cosi_win_get_dll_list, cosi_win_get_handle_list,
    cosi_win_get_module_list, cosi_win_get_proc_list, cosi_win_get_proc_params,
    cosi_win_handle_access, cosi_win_handle_list_get, cosi_win_handle_list_len,
    cosi_win_handle_name, cosi_win_handle_object_header, cosi_win_handle_type,
    cosi_win_handle_value, cosi_win_kernel_base, cosi_win_module_base, cosi_win_module_list_get,
    cosi_win_module_list_len, cosi_win_module_name, cosi_win_module_size, cosi_win_params_cmdline,
    cosi_win_params_cwd, cosi_win_params_image_path, cosi_win_proc_at, cosi_win_proc_eprocess,
    cosi_win_proc_list_get, cosi_win_proc_list_len, cosi_win_proc_name, cosi_win_proc_pid,
    cosi_win_proc_ppid, to_cstr,
};
use std::collections::HashMap;

// ---- the machine ------------------------------------------------------------------------------

const BASE: u64 = 0xffff_f800_0000_0000;
const DTB: u64 = 0x1000;
const KPCR: u64 = 0xffff_f801_0000_0000;
const THREAD: u64 = 0xffff_f801_0001_0000;
const SYSTEM: u64 = 0xffff_f802_0000_0000;
const SHELL: u64 = 0xffff_f802_0001_0000;
const TABLE: u64 = 0xffff_f803_0000_0000;
const LEAF: u64 = 0xffff_f803_0001_0000;
const PEB: u64 = 0x0000_7ff0_0000_0000;

const RVA_ENTRY: u64 = 0x4000;
const RVA_PROCESSES: u64 = 0x2000;
const RVA_MODULES: u64 = 0x2100;
const RVA_COOKIE: u64 = 0x2200;
const RVA_TYPES: u64 = 0x2300;
const RVA_OFFSETS: u64 = 0x2b00;

/// Physical frames, and the page tables at `DTB`, which are also the current ones.
struct Machine {
    frames: HashMap<u64, Vec<u8>>,
    regs: Registers,
    next_frame: u64,
}

impl Machine {
    fn empty() -> Machine {
        let regs = Registers { gpr: [0; 16], lstar: 0, kernel_gs_base: 0, gs_base: 0 };
        let mut m = Machine { frames: HashMap::new(), regs, next_frame: 0x2000 };
        m.frames.insert(DTB, vec![0; 0x1000]);
        m
    }

    fn new_frame(&mut self) -> u64 {
        let frame = self.next_frame;
        self.next_frame += 0x1000;
        self.frames.insert(frame, vec![0; 0x1000]);
        frame
    }

    fn physical(&self, pa: u64, len: usize) -> Option<Vec<u8>> {
        let mut out = Vec::new();
        for i in 0..len as u64 {
            let at = pa + i;
            out.push(self.frames.get(&(at & !0xfff))?[(at & 0xfff) as usize]);
        }
        Some(out)
    }

    fn entry(&self, table: u64, va: u64, shift: u64) -> u64 {
        let at = (table & 0x000f_ffff_ffff_f000) + 8 * ((va >> shift) & 0x1ff);
        match self.physical(at, 8) {
            Some(b) => u64::from_le_bytes(b.try_into().unwrap()),
            None => 0,
        }
    }

    fn frame_of(&self, va: u64) -> Option<u64> {
        let mut table = DTB;
        for shift in [39, 30, 21, 12] {
            let e = self.entry(table, va, shift);
            if e & 1 == 0 {
                return None;
            }
            table = e;
        }
        Some(table & 0x000f_ffff_ffff_f000)
    }

    fn virt(&self, va: u64, len: usize) -> Option<Vec<u8>> {
        let mut out = Vec::new();
        for i in 0..len as u64 {
            let at = va.wrapping_add(i);
            let frame = self.frame_of(at)?;
            out.push(self.frames.get(&frame)?[(at & 0xfff) as usize]);
        }
        Some(out)
    }

    fn poke_physical(&mut self, pa: u64, bytes: &[u8]) {
        for (i, b) in bytes.iter().enumerate() {
            let at = pa + i as u64;
            self.frames.get_mut(&(at & !0xfff)).unwrap()[(at & 0xfff) as usize] = *b;
        }
    }

    fn map(&mut self, va: u64) -> u64 {
        let mut table = DTB;
        for shift in [39, 30, 21, 12] {
            let at = (table & 0x000f_ffff_ffff_f000) + 8 * ((va >> shift) & 0x1ff);
            let mut e = self.entry(table, va, shift);
            if e & 1 == 0 {
                e = self.new_frame() | 1;
                self.poke_physical(at, &e.to_le_bytes());
            }
            table = e;
        }
        table & 0x000f_ffff_ffff_f000
    }

    fn poke(&mut self, va: u64, bytes: &[u8]) {
        for (i, b) in bytes.iter().enumerate() {
            let at = va.wrapping_add(i as u64);
            let frame = self.map(at);
            self.frames.get_mut(&frame).unwrap()[(at & 0xfff) as usize] = *b;
        }
    }

    fn poke_u64(&mut self, va: u64, v: u64) {
        self.poke(va, &v.to_le_bytes());
    }

    /// A _UNICODE_STRING at `at` with its buffer at `buf`.
    fn poke_unicode(&mut self, at: u64, buf: u64, s: &str) {
        let bytes: Vec<u8> = s.encode_utf16().flat_map(|u| u.to_le_bytes()).collect();
        self.poke(at, &(bytes.len() as u16).to_le_bytes());
        self.poke_u64(at + 8, buf);
        self.poke(buf, &bytes);
    }

    fn read(&self, q: Request) -> Option<Vec<u8>> {
        match q {
            Request::Virtual { addr, len } => self.virt(addr, len),
            Request::Physical { addr, len } => self.physical(addr, len),
        }
    }
}

/// Runs a query, performing one read after the other until it finishes.
fn run<T>(m: &Machine, mut query: impl FnMut(&Guest) -> Result<T, Request>) -> T {
    let mut g = Guest::new(m.regs);
    loop {
        match query(&g) {
            Ok(v) => return v,
            Err(q) => {
                assert_eq!(g.read(q), Err(q));
                g.record(q, m.read(q));
            }
        }
    }
}

// ---- the profile ------------------------------------------------------------------------------

fn empty_profile() -> VolatilityJson {
    VolatilityJson::new(VolatilityMetadata {
        linux: None,
        windows: Some(WindowsMetadata {
            pdb: WindowsPdb {
                guid: "G".to_owned(),
                age: 1,
                database: "ntkrnlmp.pdb".to_owned(),
                machine_type: None,
            },
        }),
        producer: Producer { name: "test".to_owned(), version: "1".to_owned() },
        format: "6.2.0".to_owned(),
    })
}

fn plain(offset: i64) -> VolatilityStructField {
    VolatilityStructField { type_val: None, offset, anonymous: None }
}

fn add(p: &mut VolatilityJson, ty: &str, fields: &[(&str, i64)]) {
    let mut t = VolatilityStruct::new(0x1000, "struct".to_owned());
    for (name, offset) in fields {
        t.add_field((*name).to_owned(), plain(*offset));
    }
    p.add_type(ty.to_owned(), t);
}

fn symbol(p: &mut VolatilityJson, name: &str, address: u64) {
    p.add_symbol(
        name.to_owned(),
        VolatilitySymbol { type_val: None, address, constant_data: None },
    );
}

fn profile() -> VolatilityJson {
    let mut p = empty_profile();
    add(
        &mut p,
        "_EPROCESS",
        &[
            ("UniqueProcessId", 0x440),
            ("ActiveProcessLinks", 0x448),
            ("InheritedFromUniqueProcessId", 0x540),
            ("Peb", 0x550),
            ("ObjectTable", 0x570),
            ("ImageFileName", 0x5a8),
            ("ThreadListHead", 0x5e0),
        ],
    );
    add(&mut p, "_KPROCESS", &[("DirectoryTableBase", 0x28)]);
    add(&mut p, "_KPCR", &[("Self", 0x18), ("Prcb", 0x180)]);
    add(&mut p, "_KPRCB", &[("CurrentThread", 8)]);
    add(&mut p, "_KTHREAD", &[("ApcState", 0x98)]);
    add(&mut p, "_KAPC_STATE", &[("Process", 0x20)]);
    add(&mut p, "_ETHREAD", &[("Cid", 0x478), ("ThreadListEntry", 0x4e8)]);
    add(&mut p, "_CLIENT_ID", &[("UniqueThread", 8)]);
    add(&mut p, "_HANDLE_TABLE", &[("TableCode", 8)]);
    add(&mut p, "_OBJECT_HEADER", &[("TypeIndex", 24), ("InfoMask", 26), ("Body", 0x30)]);
    add(&mut p, "_FILE_OBJECT", &[("FileName", 0x58), ("CurrentByteOffset", 0x70)]);
    symbol(&mut p, "KiSystemCall64Shadow", RVA_ENTRY);
    symbol(&mut p, "KiSystemCall64", RVA_ENTRY + 0x100);
    symbol(&mut p, "PsActiveProcessHead", RVA_PROCESSES);
    symbol(&mut p, "PsLoadedModuleList", RVA_MODULES);
    symbol(&mut p, "ObHeaderCookie", RVA_COOKIE);
    symbol(&mut p, "ObTypeIndexTable", RVA_TYPES);
    symbol(&mut p, "ObpInfoMaskToOffset", RVA_OFFSETS);
    p
}

// ---- the guest --------------------------------------------------------------------------------

const COOKIE: u8 = 0x5a;
const OBJ_FILE: u64 = 0xffff_f804_0000_1230;
const OBJ_KEY: u64 = 0xffff_f804_0000_2340;
const OBJ_EVENT: u64 = 0xffff_f804_0000_3450;
const TYPE_FILE: u8 = 7;
const TYPE_KEY: u8 = 9;
const TYPE_EVENT: u8 = 11;

fn put_process(m: &mut Machine, e: u64, pid: u64, ppid: u64, name: &[u8]) {
    m.poke_u64(e + 0x28, DTB | 0x8000_0000_0000_0007);
    m.poke_u64(e + 0x440, pid);
    m.poke_u64(e + 0x540, ppid);
    m.poke_u64(e + 0x550, 0);
    m.poke(e + 0x5a8, &[0; 15]);
    m.poke(e + 0x5a8, name);
}

fn put_type(m: &mut Machine, index: u8, at: u64, name: &str) {
    m.poke_u64(BASE + RVA_TYPES + index as u64 * 8, at);
    m.poke_unicode(at + 16, at + 0x100, name);
}

fn put_object(m: &mut Machine, oh: u64, index: u8, info_mask: u8) {
    m.poke(oh + 24, &[index ^ ((oh >> 8) as u8) ^ COOKIE]);
    m.poke(oh + 26, &[info_mask]);
}

/// Low word of a handle table entry for an object header.
fn entry_for(oh: u64) -> u64 {
    ((oh & 0x0000_ffff_ffff_ffff) >> 4) << 20
}

fn put_handle(m: &mut Machine, page: u64, slot: u64, oh: u64, access: u32) {
    m.poke_u64(page + slot * 16, entry_for(oh));
    m.poke(page + slot * 16 + 8, &access.to_le_bytes());
}

fn put_key(m: &mut Machine, kcb: u64, hive: u64, name: &str, compressed: bool, parent: u64) {
    let block = kcb + 0x200;
    m.poke_u64(kcb + 32, hive);
    m.poke_u64(kcb + 72, parent);
    m.poke_u64(kcb + 80, block);
    let bytes: Vec<u8> = if compressed {
        name.bytes().collect()
    } else {
        name.encode_utf16().flat_map(|u| u.to_le_bytes()).collect()
    };
    m.poke(block, &(compressed as u32).to_le_bytes());
    m.poke(block + 24, &(bytes.len() as u16).to_le_bytes());
    m.poke(block + 26, &bytes);
}

fn windows() -> Machine {
    let mut m = Machine::empty();
    m.regs.lstar = BASE + RVA_ENTRY;
    m.regs.kernel_gs_base = 0x10;
    m.regs.gs_base = KPCR;

    // The image.
    m.poke(BASE, b"MZ");
    m.poke(BASE + 0x3c, &0x80u32.to_le_bytes());
    m.poke(BASE + 0x80, b"PE\0\0");

    // The running thread and process.
    m.poke_u64(KPCR + 0x18, KPCR);
    m.poke_u64(KPCR + 0x188, THREAD);
    m.poke_u64(THREAD + 0x98 + 0x20, SHELL);
    m.poke_u64(THREAD + 0x478 + 8, 0x1a4);

    // Two processes.
    put_process(&mut m, SYSTEM, 4, 0, b"System");
    put_process(&mut m, SHELL, 0x234, 4, b"explorer.exe");
    m.poke_u64(BASE + RVA_PROCESSES, SYSTEM + 0x448);
    m.poke_u64(SYSTEM + 0x448, SHELL + 0x448);
    m.poke_u64(SHELL + 0x448, BASE + RVA_PROCESSES);

    // The shell has the running thread and another one.
    let other = THREAD + 0x2000;
    m.poke_u64(other + 0x478 + 8, 0x1a8);
    m.poke_u64(SHELL + 0x5e0, THREAD + 0x4e8);
    m.poke_u64(THREAD + 0x4e8, other + 0x4e8);
    m.poke_u64(other + 0x4e8, SHELL + 0x5e0);
    m.poke_u64(SYSTEM + 0x5e0, SYSTEM + 0x5e0);

    // One kernel module.
    let module = 0xffff_f805_0000_0000;
    m.poke_u64(BASE + RVA_MODULES, module);
    m.poke_u64(module, BASE + RVA_MODULES);
    m.poke_u64(module + 0x30, BASE);
    m.poke(module + 0x40, &0x104_7000u32.to_le_bytes());
    m.poke_unicode(module + 0x58, module + 0x100, "ntoskrnl.exe");

    // Object types and three objects.
    m.poke(BASE + RVA_COOKIE, &[COOKIE]);
    put_type(&mut m, TYPE_FILE, 0xffff_f806_0000_0000, "File");
    put_type(&mut m, TYPE_KEY, 0xffff_f806_0000_1000, "Key");
    put_type(&mut m, TYPE_EVENT, 0xffff_f806_0000_2000, "Event");
    m.poke(BASE + RVA_OFFSETS, &[0, 0, 0x20, 0x40]);
    put_object(&mut m, OBJ_FILE, TYPE_FILE, 0);
    m.poke_unicode(OBJ_FILE + 0x30 + 0x58, OBJ_FILE + 0x400, "\\Windows\\notepad.exe");
    m.poke_u64(OBJ_FILE + 0x30 + 0x70, 0x1234);
    put_object(&mut m, OBJ_KEY, TYPE_KEY, 0);
    put_object(&mut m, OBJ_EVENT, TYPE_EVENT, 2);
    m.poke_unicode(OBJ_EVENT - 0x20 + 8, OBJ_EVENT + 0x400, "Ready");

    // The key is \REGISTRY\MACHINE\SOFTWARE\Foo\Foo, the hive SOFTWARE mounted below MACHINE.
    let kcb = 0xffff_f807_0000_0000;
    m.poke_u64(OBJ_KEY + 0x30 + 8, kcb + 0x5000);
    put_key(&mut m, kcb + 0x5000, 3, "Foo", true, kcb + 0x4000);
    put_key(&mut m, kcb + 0x4000, 3, "Foo", false, kcb + 0x3000);
    put_key(&mut m, kcb + 0x3000, 3, "SOFTWARE", true, kcb + 0x2000);
    put_key(&mut m, kcb + 0x2000, 2, "SOFTWARE", true, kcb + 0x1000);
    put_key(&mut m, kcb + 0x1000, 2, "MACHINE", true, kcb);
    put_key(&mut m, kcb, 2, "REGISTRY", true, 0);

    // The shell's handle table has one level; System has none.
    m.poke_u64(SHELL + 0x570, TABLE);
    m.poke_u64(TABLE + 8, LEAF);
    m.poke(LEAF, &[0; 0x1000]);
    put_handle(&mut m, LEAF, 1, OBJ_FILE, 0xffff_ffff);
    put_handle(&mut m, LEAF, 2, OBJ_KEY, 0x20019);
    put_handle(&mut m, LEAF, 5, OBJ_EVENT, 0x1f0003);

    // The shell's user half.
    m.poke_u64(SHELL + 0x550, PEB);
    let ldr = PEB + 0x1000;
    let dll = PEB + 0x2000;
    m.poke_u64(PEB + 0x18, ldr);
    m.poke_u64(ldr + 0x10, dll);
    m.poke_u64(dll, ldr + 0x10);
    m.poke_u64(dll + 0x30, 0x7ffe_0000_0000);
    m.poke(dll + 0x40, &0x1f_8000u32.to_le_bytes());
    m.poke_unicode(dll + 0x58, dll + 0x200, "ntdll.dll");
    let pp = PEB + 0x3000;
    m.poke_u64(PEB + 0x20, pp);
    m.poke_unicode(pp + 0x38, pp + 0x200, "C:\\");
    m.poke_unicode(pp + 0x60, pp + 0x300, "C:\\Windows\\explorer.exe");
    m.poke_unicode(pp + 0x70, pp + 0x400, "explorer \"x\"");
    m
}

// ---- profile helpers --------------------------------------------------------------------------

#[test]
fn profile_lookups() {
    let mut p = profile();
    assert!(is_windows(&p));
    assert_eq!(sym_rva(&p, "PsActiveProcessHead"), Some(RVA_PROCESSES));
    assert_eq!(sym_rva(&p, "Nothing"), None);
    assert_eq!(sym_addr(&p, BASE, "PsLoadedModuleList"), Some(BASE + RVA_MODULES));
    assert_eq!(sym_addr(&p, BASE, "Nothing"), None);
    assert_eq!(foff(&p, "_EPROCESS", "Peb"), Some(0x550));
    assert_eq!(foff(&p, "_EPROCESS", "Nothing"), None);
    assert_eq!(foff(&p, "_NOTHING", "Peb"), None);
    assert_eq!(bitfield(&p, "_EPROCESS", "Peb"), None);
    let mut t = VolatilityStruct::new(16, "struct".to_owned());
    t.add_field(
        "ObjectPointerBits".to_owned(),
        VolatilityStructField {
            type_val: Some(VolatilityType::Bitfield {
                bit_position: 20,
                bit_length: 44,
                base_type: Box::new(VolatilityType::Base { name: "unsigned long long".to_owned() }),
            }),
            offset: -8,
            anonymous: None,
        },
    );
    p.add_type("_HANDLE_TABLE_ENTRY".to_owned(), t);
    assert_eq!(bitfield(&p, "_HANDLE_TABLE_ENTRY", "ObjectPointerBits"), Some((20, 44)));
    assert_eq!(foff(&p, "_HANDLE_TABLE_ENTRY", "ObjectPointerBits"), Some(u64::MAX - 7));
}

// ---- the record -------------------------------------------------------------------------------

#[test]
fn record_answers_requests() {
    let regs = Registers { gpr: [3; 16], lstar: 1, kernel_gs_base: 2, gs_base: 4 };
    let mut g = Guest::new(regs);
    assert_eq!(g.regs().lstar, 1);
    let v = Request::Virtual { addr: 0x1000, len: 2 };
    let p = Request::Physical { addr: 0x1000, len: 2 };
    assert_eq!(g.read(v), Err(v));
    g.record(v, Some(vec![7, 8]));
    assert_eq!(g.read(v), Ok(Some(&vec![7, 8])));
    // Another length, another kind: another request.
    assert_eq!(g.read(p), Err(p));
    let longer = Request::Virtual { addr: 0x1000, len: 3 };
    assert_eq!(g.read(longer), Err(longer));
    g.record(p, None);
    assert_eq!(g.read(p), Ok(None));
    // A reply of the wrong length is no reply.
    g.record(longer, Some(vec![1]));
    assert_eq!(g.read(longer), Ok(None));
    // The latest outcome counts.
    g.record(v, Some(vec![9, 9]));
    assert_eq!(g.read(v), Ok(Some(&vec![9, 9])));
}

#[test]
fn open_requests_stay_open() {
    // The law of a growing record, on one query: each request is new, and the answer stays.
    let m = windows();
    let p = profile();
    let mut g = Guest::new(m.regs);
    let mut asked: Vec<Request> = Vec::new();
    let answer = loop {
        match current_tid(&g, &p) {
            Ok(v) => break v,
            Err(q) => {
                assert!(!asked.contains(&q));
                asked.push(q);
                // An unrelated answer changes nothing.
                g.record(Request::Virtual { addr: 5, len: asked.len() }, None);
                assert_eq!(current_tid(&g, &p), Err(q));
                g.record(q, m.read(q));
            }
        }
    };
    assert_eq!(answer, Some(0x1a4));
    g.record(Request::Physical { addr: 0x77, len: 8 }, Some(vec![0; 8]));
    assert_eq!(current_tid(&g, &p), Ok(Some(0x1a4)));
}

// ---- reads ------------------------------------------------------------------------------------

#[test]
fn scalar_reads() {
    let mut m = Machine::empty();
    m.poke(0x5000, &[1, 2, 3, 4, 5, 6, 7, 8]);
    for space in [Space::Current, Space::Tables(DTB)] {
        assert_eq!(run(&m, |g| rd_u64(g, space, 0x5000)), Some(0x0807_0605_0403_0201));
        assert_eq!(run(&m, |g| rd_u32(g, space, 0x5000)), Some(0x0403_0201));
        assert_eq!(run(&m, |g| rd_u16(g, space, 0x5001)), Some(0x0302));
        assert_eq!(run(&m, |g| rd_u8(g, space, 0x5007)), Some(8));
        assert_eq!(run(&m, |g| rd_u64(g, space, 0x9000)), None);
        assert_eq!(run(&m, |g| rd_bytes(g, space, 0x5000, 0)), Some(vec![]));
    }
    assert_eq!(run(&m, |g| phys_u64(g, 0xdead_0000)), None);
}

#[test]
fn translation_by_page_size() {
    let mut m = Machine::empty();
    let pdpt = m.new_frame();
    let pd = m.new_frame();
    let pt = m.new_frame();
    m.poke_physical(DTB, &(pdpt | 1).to_le_bytes());
    // A 1 GiB page, and a directory with a 2 MiB page and a 4 KiB page.
    m.poke_physical(pdpt, &(0x1_4000_0000u64 | 0x81).to_le_bytes());
    m.poke_physical(pdpt + 8, &(pd | 1).to_le_bytes());
    m.poke_physical(pd, &(0x8000_0000_0060_0000u64 | 0x81).to_le_bytes());
    m.poke_physical(pd + 8, &(pt | 1).to_le_bytes());
    m.poke_physical(pt, &0x8000_0000_0004_5001u64.to_le_bytes());
    assert_eq!(run(&m, |g| translate(g, DTB, 0x1234_5678)), Some(0x1_5234_5678));
    assert_eq!(run(&m, |g| translate(g, DTB, 0x4012_3456)), Some(0x72_3456));
    assert_eq!(run(&m, |g| translate(g, DTB, 0x4020_0abc)), Some(0x4_5abc));
    // Not present at each level.
    assert_eq!(run(&m, |g| translate(g, DTB, 0x4020_1000)), None);
    assert_eq!(run(&m, |g| translate(g, DTB, 0x4040_0000)), None);
    assert_eq!(run(&m, |g| translate(g, DTB, 0x8000_0000)), None);
    assert_eq!(run(&m, |g| translate(g, DTB, 0x80_0000_0000)), None);
    // Flags and high bits of the directory base do not count.
    assert_eq!(run(&m, |g| translate(g, DTB | 0xfff0_0000_0000_0fff, 0x4020_0abc)), Some(0x4_5abc));
    // Nor do address bits 48 to 63.
    assert_eq!(run(&m, |g| translate(g, DTB, 0x4020_0abc | 0xffff << 48)), Some(0x4_5abc));
    // Offsets are kept and neighbours share a frame.
    for va in [0x4020_0000u64, 0x4020_0fff, 0x4000_0001, 0x0fff_ffff] {
        let pa = run(&m, |g| translate(g, DTB, va)).unwrap();
        assert_eq!(pa % 0x1000, va % 0x1000);
        let other = run(&m, |g| translate(g, DTB, va ^ 0x7ff)).unwrap();
        assert_eq!(pa / 0x1000, other / 0x1000);
    }
}

#[test]
fn reads_cross_pages() {
    let mut m = Machine::empty();
    m.poke(0x5ffe, &[1, 2, 3, 4]);
    assert_eq!(run(&m, |g| rd_bytes_dtb(g, DTB, 0x5ffe, 4)), Some(vec![1, 2, 3, 4]));
    assert_eq!(run(&m, |g| rd_bytes_dtb(g, DTB, 0x6ffe, 4)), None);
    // Each byte is the one at its own translation.
    for k in 0..4 {
        let pa = run(&m, |g| translate(g, DTB, 0x5ffe + k)).unwrap();
        assert_eq!(m.physical(pa, 1), Some(vec![k as u8 + 1]));
    }
    // At the end of the address space reads wrap to its beginning.
    m.poke(u64::MAX, &[9]);
    m.poke(0, &[8]);
    assert_eq!(run(&m, |g| rd_bytes_dtb(g, DTB, u64::MAX, 2)), Some(vec![9, 8]));
}

#[test]
fn strings_in_memory() {
    let mut m = Machine::empty();
    m.poke(0x5000, b"abc\0def");
    assert_eq!(run(&m, |g| rd_cstr(g, 0x5000, 7)), "abc");
    assert_eq!(run(&m, |g| rd_cstr(g, 0x5000, 2)), "ab");
    assert_eq!(run(&m, |g| rd_cstr(g, 0x9000, 7)), "");
    m.poke(0x5100, &[0x61, 0xff, 0x62, 0]);
    assert_eq!(run(&m, |g| rd_cstr(g, 0x5100, 4)), "a\u{fffd}b");
    m.poke_unicode(0x5200, 0x5300, "na\u{ef}ve \u{1f600}");
    for space in [Space::Current, Space::Tables(DTB)] {
        assert_eq!(run(&m, |g| rd_unicode_string(g, space, 0x5200)), "na\u{ef}ve \u{1f600}");
    }
    // Length zero, too long, a null buffer, an unmapped buffer.
    m.poke(0x5400, &[0; 16]);
    assert_eq!(run(&m, |g| rd_unicode_string(g, Space::Current, 0x5400)), "");
    m.poke(0x5400, &0x402u16.to_le_bytes());
    m.poke_u64(0x5408, 0x5300);
    assert_eq!(run(&m, |g| rd_unicode_string(g, Space::Current, 0x5400)), "");
    m.poke(0x5400, &4u16.to_le_bytes());
    m.poke_u64(0x5408, 0);
    assert_eq!(run(&m, |g| rd_unicode_string(g, Space::Current, 0x5400)), "");
    m.poke_u64(0x5408, 0xa000);
    assert_eq!(run(&m, |g| rd_unicode_string(g, Space::Current, 0x5400)), "");
    // An odd length leaves its last byte out; a lone surrogate is replaced.
    m.poke(0x5500, &[0x41, 0, 0x00, 0xd8, 0x42]);
    m.poke(0x5400, &5u16.to_le_bytes());
    m.poke_u64(0x5408, 0x5500);
    assert_eq!(run(&m, |g| rd_unicode_string(g, Space::Current, 0x5400)), "A\u{fffd}");
}

// ---- the kernel -------------------------------------------------------------------------------

#[test]
fn kernel_base_is_found_and_kept() {
    let p = profile();
    let mut m = windows();
    assert_eq!(run(&m, |g| is_pe_image(g, BASE)), true);
    assert_eq!(run(&m, |g| is_pe_image(g, BASE + 0x1000)), false);
    assert_eq!(run(&m, |g| determine_kaslr_offset(g, &p)), BASE);
    let mut cache = 0;
    assert_eq!(run(&m, |g| kernel_base(&mut cache, g, &p)), BASE);
    assert_eq!(cache, BASE);
    // Once found, nothing is read again.
    m.regs.lstar = 0;
    let g = Guest::new(m.regs);
    assert_eq!(kernel_base(&mut cache, &g, &p), Ok(BASE));
    assert_eq!(cache, BASE);
    assert_eq!(determine_kaslr_offset(&g, &p), Ok(0));
    // The plain entry is tried after the shadow one.
    m.regs.lstar = BASE + RVA_ENTRY + 0x100;
    assert_eq!(run(&m, |g| determine_kaslr_offset(g, &p)), BASE);
    // Neither fits.
    m.regs.lstar = BASE + RVA_ENTRY + 0x40;
    assert_eq!(run(&m, |g| determine_kaslr_offset(g, &p)), 0);
    m.regs.lstar = RVA_ENTRY;
    assert_eq!(run(&m, |g| determine_kaslr_offset(g, &p)), 0);
    let mut cache = 0;
    assert_eq!(run(&m, |g| kernel_base(&mut cache, g, &p)), 0);
    assert_eq!(cache, 0);
}

#[test]
fn broken_images_are_rejected() {
    let mut m = windows();
    m.poke(BASE + 0x83, &[1]);
    assert_eq!(run(&m, |g| is_pe_image(g, BASE)), false);
    m.poke(BASE + 0x3c, &0xffff_0000u32.to_le_bytes());
    assert_eq!(run(&m, |g| is_pe_image(g, BASE)), false);
    m.poke(BASE, b"MX");
    assert_eq!(run(&m, |g| is_pe_image(g, BASE)), false);
}

#[test]
fn control_region_by_self_pointer() {
    let p = profile();
    let mut m = windows();
    assert_eq!(run(&m, |g| get_kpcr(g, &p)), KPCR);
    m.regs.kernel_gs_base = KPCR;
    m.regs.gs_base = 0x20;
    assert_eq!(run(&m, |g| get_kpcr(g, &p)), KPCR);
    // No self pointer: the swapped-out base if it is in the kernel half, else the active one.
    m.poke_u64(KPCR + 0x18, 1);
    assert_eq!(run(&m, |g| get_kpcr(g, &p)), KPCR);
    m.regs.kernel_gs_base = 0x30;
    assert_eq!(run(&m, |g| get_kpcr(g, &p)), 0x20);
}

#[test]
fn current_thread_and_process() {
    let p = profile();
    let mut m = windows();
    assert_eq!(run(&m, |g| current_eprocess(g, &p)), Some(SHELL));
    assert_eq!(run(&m, |g| current_tid(g, &p)), Some(0x1a4));
    // The directory base is cut down to its address bits.
    assert_eq!(run(&m, |g| current_eproc_and_dtb(g, &p)), Some((SHELL, DTB)));
    m.regs.gpr[10] = 77;
    assert_eq!(reg(&Guest::new(m.regs), 10), 77);
    let bare = empty_profile();
    assert_eq!(run(&m, |g| current_eprocess(g, &bare)), None);
    assert_eq!(run(&m, |g| current_tid(g, &bare)), None);
    assert_eq!(run(&m, |g| current_eproc_and_dtb(g, &bare)), None);
}

// ---- lists ------------------------------------------------------------------------------------

#[test]
fn processes_in_order() {
    let p = profile();
    let mut m = windows();
    let all = run(&m, |g| get_process_list(g, &p, BASE));
    let seen: Vec<(u64, u64, u64, &str)> =
        all.iter().map(|x| (x.eprocess, x.pid, x.ppid, x.name.as_str())).collect();
    assert_eq!(seen, [(SYSTEM, 4, 0, "System"), (SHELL, 0x234, 4, "explorer.exe")]);
    // Each one reads alike by its address.
    for x in &all {
        let one = run(&m, |g| proc_at(g, &p, x.eprocess));
        assert_eq!((one.pid, one.ppid, &one.name), (x.pid, x.ppid, &x.name));
    }
    // A null link, or one that cannot be read, ends the list.
    m.poke_u64(SYSTEM + 0x448, 0);
    assert_eq!(run(&m, |g| get_process_list(g, &p, BASE)).len(), 1);
    m.poke_u64(SYSTEM + 0x448, 0xffff_ffff_0000_0000);
    let all = run(&m, |g| get_process_list(g, &p, BASE));
    assert_eq!(all.len(), 2);
    assert_eq!((all[1].pid, all[1].name.as_str()), (0, ""));
    // Without the list head there is nothing to walk.
    assert_eq!(run(&m, |g| get_process_list(g, &p, 0x10)).len(), 0);
    assert_eq!(run(&m, |g| get_process_list(g, &empty_profile(), BASE)).len(), 0);
}

#[test]
fn endless_lists_are_cut_off() {
    let p = profile();
    let mut m = windows();
    // A module whose link is itself: the list never comes back to its head.
    let module = 0xffff_f805_0000_0000;
    m.poke_u64(module, module);
    let all = run(&m, |g| get_module_list(g, &p, BASE));
    assert_eq!(all.len(), 2048);
    let dll = PEB + 0x2000;
    m.poke_u64(dll, dll);
    assert_eq!(run(&m, |g| proc_dlls(g, &p, SHELL)).len(), 1024);
    m.poke_u64(SYSTEM + 0x448, SYSTEM + 0x448);
    assert_eq!(run(&m, |g| get_process_list(g, &p, BASE)).len(), 4096);
    m.poke_u64(THREAD + 0x4e8, THREAD + 0x4e8);
    assert_eq!(run(&m, |g| get_thread_list(g, &p, SHELL)).len(), 8192);
}

#[test]
fn threads_modules_and_dlls() {
    let p = profile();
    let m = windows();
    let tids: Vec<u64> = run(&m, |g| get_thread_list(g, &p, SHELL)).iter().map(|t| t.tid).collect();
    assert_eq!(tids, [0x1a4, 0x1a8]);
    let again = run(&m, |g| thread_list(g, &p, SHELL));
    assert_eq!(again[0].ethread, THREAD);
    assert_eq!(run(&m, |g| thread_list(g, &p, SYSTEM)).len(), 0);
    let mods = run(&m, |g| get_module_list(g, &p, BASE));
    assert_eq!(mods.len(), 1);
    assert_eq!(
        (mods[0].base, mods[0].size, mods[0].name.as_str()),
        (BASE, 0x104_7000, "ntoskrnl.exe")
    );
    let dlls = run(&m, |g| proc_dlls(g, &p, SHELL));
    assert_eq!(dlls.len(), 1);
    assert_eq!(
        (dlls[0].base, dlls[0].size, dlls[0].name.as_str()),
        (0x7ffe_0000_0000, 0x1f_8000, "ntdll.dll")
    );
    // System has no user half.
    assert_eq!(run(&m, |g| proc_dlls(g, &p, SYSTEM)).len(), 0);
}

#[test]
fn lists_wait_for_the_base() {
    let p = profile();
    let mut m = windows();
    let mut cache = 0;
    assert_eq!(run(&m, |g| proc_list(&mut cache, g, &p)).len(), 2);
    assert_eq!(cache, BASE);
    assert_eq!(run(&m, |g| module_list(&mut cache, g, &p)).len(), 1);
    assert_eq!(run(&m, |g| handle_list(&mut cache, g, &p, SHELL)).len(), 3);
    m.regs.lstar = 0;
    let mut cache = 0;
    assert_eq!(run(&m, |g| proc_list(&mut cache, g, &p)).len(), 0);
    assert_eq!(run(&m, |g| module_list(&mut cache, g, &p)).len(), 0);
    assert_eq!(run(&m, |g| handle_list(&mut cache, g, &p, SHELL)).len(), 0);
    assert_eq!(cache, 0);
}

// ---- objects ----------------------------------------------------------------------------------

#[test]
fn objects_by_type_and_name() {
    let p = profile();
    let m = windows();
    for space in [Space::Current, Space::Tables(DTB)] {
        let file = run(&m, |g| resolve_object(g, &p, space, BASE, OBJ_FILE));
        assert_eq!(file, ("File".to_owned(), "\\Windows\\notepad.exe".to_owned()));
        let event = run(&m, |g| resolve_object(g, &p, space, BASE, OBJ_EVENT));
        assert_eq!(event, ("Event".to_owned(), "Ready".to_owned()));
        let key = run(&m, |g| resolve_object(g, &p, space, BASE, OBJ_KEY));
        assert_eq!(key, ("Key".to_owned(), String::new()));
        assert_eq!(run(&m, |g| resolve_type(g, &p, space, BASE, OBJ_KEY)), Some("Key".to_owned()));
        assert_eq!(run(&m, |g| resolve_type(g, &p, space, BASE, 0xa000)), None);
        let none = run(&m, |g| resolve_object(g, &p, space, BASE, 0xa000));
        assert_eq!(none, (String::new(), String::new()));
    }
    // Keys get their path only through page tables.
    let key = run(&m, |g| resolve_object_dtb(g, &p, DTB, BASE, OBJ_KEY));
    assert_eq!(key, ("Key".to_owned(), "REGISTRY\\MACHINE\\SOFTWARE\\Foo\\Foo".to_owned()));
    let path = run(&m, |g| key_path_dtb(g, &p, DTB, OBJ_KEY));
    assert_eq!(path, "REGISTRY\\MACHINE\\SOFTWARE\\Foo\\Foo");
    assert_eq!(run(&m, |g| key_path_dtb(g, &p, DTB, OBJ_EVENT)), "");
}

#[test]
fn type_index_is_deobfuscated() {
    // The stored index is XORed with the cookie and the second byte of the header's address.
    let p = profile();
    let mut m = windows();
    m.poke(BASE + RVA_COOKIE, &[COOKIE ^ TYPE_FILE ^ TYPE_EVENT]);
    assert_eq!(
        run(&m, |g| resolve_type(g, &p, Space::Current, BASE, OBJ_FILE)),
        Some("Event".to_owned())
    );
    // An index without a type has an empty name.
    m.poke(BASE + RVA_COOKIE, &[COOKIE ^ TYPE_FILE]);
    assert_eq!(
        run(&m, |g| resolve_type(g, &p, Space::Current, BASE, OBJ_FILE)),
        Some(String::new())
    );
}

fn part(name: &str, hive: u64) -> KeyPart {
    KeyPart { name: name.to_owned(), hive }
}

#[test]
fn paths_collapse_at_hive_boundaries() {
    // Components come from the key up.
    let one_hive = vec![part("Foo", 1), part("Foo", 1), part("Root", 1)];
    assert_eq!(collapse_path(&one_hive), ["Root", "Foo", "Foo"]);
    let boundary = vec![part("Foo", 2), part("Foo", 1), part("Root", 1)];
    assert_eq!(collapse_path(&boundary), ["Root", "Foo"]);
    let other_name = vec![part("Bar", 2), part("Foo", 1)];
    assert_eq!(collapse_path(&other_name), ["Foo", "Bar"]);
    let thrice = vec![part("A", 3), part("A", 2), part("A", 1)];
    assert_eq!(collapse_path(&thrice), ["A"]);
    assert_eq!(collapse_path(&vec![]), Vec::<String>::new());
}

#[test]
fn key_chains_are_cut_off() {
    let p = profile();
    let mut m = windows();
    let kcb = 0xffff_f807_0000_0000;
    put_key(&mut m, kcb + 0x5000, 3, "Loop", true, kcb + 0x5000);
    let path = run(&m, |g| key_path_dtb(g, &p, DTB, OBJ_KEY));
    assert_eq!(path, vec!["Loop"; 32].join("\\"));
    // A name that is too long contributes nothing.
    m.poke(kcb + 0x5200 + 24, &513u16.to_le_bytes());
    assert_eq!(run(&m, |g| key_path_dtb(g, &p, DTB, OBJ_KEY)), "");
}

// ---- handles ----------------------------------------------------------------------------------

fn summary(all: &[WinHandle]) -> Vec<(u32, u64, u32, &str, &str)> {
    all.iter()
        .map(|h| {
            (
                h.handle,
                h.object_header,
                h.granted_access,
                h.type_label.as_str(),
                h.object_name.as_str(),
            )
        })
        .collect()
}

/// The handles of a process, each entry looked at once.
fn walk_handles(m: &Machine, p: &VolatilityJson, eprocess: u64) -> Vec<WinHandle> {
    let mut g = Guest::new(m.regs);
    let mut walk = loop {
        match HandleWalk::start(&g, p, BASE, eprocess) {
            Ok(Some(w)) => break w,
            Ok(None) => return vec![],
            Err(q) => g.record(q, m.read(q)),
        }
    };
    while let Err(q) = walk.resume(&g, p) {
        g.record(q, m.read(q));
    }
    walk.found
}

#[test]
fn handles_of_a_process() {
    let p = profile();
    let m = windows();
    let all = run(&m, |g| get_handle_list(g, &p, BASE, SHELL));
    assert_eq!(
        summary(&all),
        [
            (4, OBJ_FILE, 0x01ff_ffff, "File", "\\Windows\\notepad.exe"),
            (8, OBJ_KEY, 0x20019, "Key", ""),
            (20, OBJ_EVENT, 0x1f0003, "Event", "Ready"),
        ]
    );
    assert!(all.windows(2).all(|w| w[0].handle < w[1].handle));
    for h in &all {
        assert!(h.handle < 0x1000_0000);
        assert_eq!(h.handle % 4, 0);
        assert_eq!(h.object_header % 16, 0);
        // Looking it up finds the header that the list shows.
        let oh = run(&m, |g| handle_object_header(g, &p, DTB, SHELL, h.handle as u64));
        assert_eq!(oh, Some(h.object_header));
    }
    assert_eq!(run(&m, |g| get_handle_list(g, &p, BASE, SYSTEM)).len(), 0);
    assert_eq!(run(&m, |g| get_handle_list(g, &empty_profile(), BASE, SHELL)).len(), 0);
}

#[test]
fn handle_lookups() {
    let p = profile();
    let m = windows();
    let header = |h: u64| run(&m, |g| handle_object_header(g, &p, DTB, SHELL, h));
    assert_eq!(header(4), Some(OBJ_FILE));
    assert_eq!(header(0), None);
    assert_eq!(header(5), None);
    assert_eq!(header(12), None);
    assert_eq!(header(255 * 4), None);
    assert_eq!(header(256 * 4), None);
    assert_eq!(header(u64::MAX - 3), None);
    let object = |h: u64| run(&m, |g| handle_to_object(g, &p, BASE, DTB, SHELL, h));
    assert_eq!(object(20), Some(("Event".to_owned(), "Ready".to_owned())));
    assert_eq!(
        object(8),
        Some(("Key".to_owned(), "REGISTRY\\MACHINE\\SOFTWARE\\Foo\\Foo".to_owned()))
    );
    assert_eq!(object(12), None);
    let position = |h: u64| run(&m, |g| file_handle_pos(g, &p, BASE, SHELL, h));
    assert_eq!(position(4), Some(0x1234));
    // Not a file, and no handle at all.
    assert_eq!(position(8), None);
    assert_eq!(position(20), None);
    assert_eq!(position(6), None);
}

#[test]
fn files_of_unknown_type_have_a_position() {
    let p = profile();
    let mut m = windows();
    // A type without a name leaves it open whether the object is a file.
    put_object(&mut m, OBJ_FILE, 200, 0);
    assert_eq!(run(&m, |g| file_handle_pos(g, &p, BASE, SHELL, 4)), Some(0x1234));
    // A known type settles it, unless there is no base to find types by.
    let other = 0xffff_f804_0001_0f00;
    put_handle(&mut m, LEAF, 1, other, 1);
    m.poke_u64(other + 0x30 + 0x70, 0x55);
    put_object(&mut m, other, TYPE_FILE, 0);
    assert_eq!(run(&m, |g| file_handle_pos(g, &p, BASE, SHELL, 4)), Some(0x55));
    put_object(&mut m, other, TYPE_EVENT, 0);
    assert_eq!(run(&m, |g| file_handle_pos(g, &p, BASE, SHELL, 4)), None);
    assert_eq!(run(&m, |g| file_handle_pos(g, &p, 0, SHELL, 4)), Some(0x55));
}

#[test]
fn negative_positions_are_kept() {
    let p = profile();
    let mut m = windows();
    m.poke_u64(OBJ_FILE + 0x30 + 0x70, u64::MAX - 1);
    assert_eq!(run(&m, |g| file_handle_pos(g, &p, BASE, SHELL, 4)), Some(-2));
}

#[test]
fn untyped_objects_are_not_shown() {
    let p = profile();
    let mut m = windows();
    put_object(&mut m, OBJ_EVENT, 200, 0);
    assert_eq!(run(&m, |g| handle_to_object(g, &p, BASE, DTB, SHELL, 20)), None);
}

#[test]
fn two_level_tables() {
    let p = profile();
    let mut m = windows();
    let top = 0xffff_f803_0010_0000;
    let leaf = 0xffff_f803_0020_0000;
    m.poke(top, &[0; 0x1000]);
    m.poke(leaf, &[0; 0x1000]);
    m.poke_u64(TABLE + 8, top | 1);
    m.poke_u64(top + 2 * 8, leaf | 4);
    put_handle(&mut m, leaf, 3, OBJ_EVENT, 1);
    let all = run(&m, |g| get_handle_list(g, &p, BASE, SHELL));
    let expected = ((2 * 256 + 3) * 4) as u32;
    assert_eq!(summary(&all), [(expected, OBJ_EVENT, 1, "Event", "Ready")]);
    let header = |h: u64| run(&m, |g| handle_object_header(g, &p, DTB, SHELL, h));
    assert_eq!(header(expected as u64), Some(OBJ_EVENT));
    assert_eq!(header(512 * 256 * 4), None);
}

#[test]
fn handle_lists_are_cut_off() {
    // Every slot of the top page leads to one full leaf page.
    let p = profile();
    let mut m = windows();
    let top = 0xffff_f803_0010_0000;
    m.poke_u64(TABLE + 8, top | 1);
    for i in 0..512 {
        m.poke_u64(top + i * 8, LEAF);
    }
    for slot in 0..256 {
        put_handle(&mut m, LEAF, slot, OBJ_EVENT, 1);
    }
    let all = walk_handles(&m, &p, SHELL);
    assert_eq!(all.len(), 65536);
    assert_eq!(all[0].handle, 0);
    assert_eq!(all[65535].handle, 65535 * 4);
}

#[test]
fn three_level_tables() {
    let p = profile();
    let mut m = windows();
    let top = 0xffff_f803_0010_0000;
    let middle = 0xffff_f803_0020_0000;
    let leaf = 0xffff_f803_0030_0000;
    for page in [top, middle, leaf] {
        m.poke(page, &[0; 0x1000]);
    }
    m.poke_u64(TABLE + 8, top | 2);
    m.poke_u64(top + 8, middle);
    m.poke_u64(middle + 4 * 8, leaf);
    put_handle(&mut m, leaf, 7, OBJ_FILE, 2);
    // A page behind the top page is no part of the table.
    m.poke_u64(top + 0x1000, middle);
    let handle = ((1 * 512 + 4) * 256 + 7) * 4;
    let header = |h: u64| run(&m, |g| handle_object_header(g, &p, DTB, SHELL, h));
    assert_eq!(header(handle), Some(OBJ_FILE));
    assert_eq!(header(handle + 4), None);
    assert_eq!(header(((512 * 512 + 4) * 256 + 7) * 4), None);
    let all = walk_handles(&m, &p, SHELL);
    assert_eq!(summary(&all), [(handle as u32, OBJ_FILE, 2, "File", "\\Windows\\notepad.exe")]);
}

#[test]
fn pointer_bits_come_from_the_profile() {
    let mut p = profile();
    let mut m = windows();
    let mut t = VolatilityStruct::new(16, "struct".to_owned());
    t.add_field(
        "ObjectPointerBits".to_owned(),
        VolatilityStructField {
            type_val: Some(VolatilityType::Bitfield {
                bit_position: 16,
                bit_length: 44,
                base_type: Box::new(VolatilityType::Base { name: "unsigned long long".to_owned() }),
            }),
            offset: 0,
            anonymous: None,
        },
    );
    p.add_type("_HANDLE_TABLE_ENTRY".to_owned(), t);
    m.poke_u64(LEAF + 16, entry_for(OBJ_FILE) >> 4 | 0xffff);
    let header = run(&m, |g| handle_object_header(g, &p, DTB, SHELL, 4));
    assert_eq!(header, Some(OBJ_FILE));
}

fn bits(position: i64, length: u64, offset: i64) -> VolatilityStructField {
    VolatilityStructField {
        type_val: Some(VolatilityType::Bitfield {
            bit_position: position,
            bit_length: length,
            base_type: Box::new(VolatilityType::Base { name: "unsigned long".to_owned() }),
        }),
        offset,
        anonymous: None,
    }
}

#[test]
fn entry_offsets_come_from_the_profile() {
    let mut p = profile();
    let mut m = windows();
    let mut t = VolatilityStruct::new(16, "struct".to_owned());
    t.add_field("GrantedAccessBits".to_owned(), bits(0, 25, 12));
    p.add_type("_HANDLE_TABLE_ENTRY".to_owned(), t);
    m.poke(LEAF + 16 + 12, &0xfe00_0042u32.to_le_bytes());
    let all = run(&m, |g| get_handle_list(g, &p, BASE, SHELL));
    assert_eq!((all[0].handle, all[0].granted_access), (4, 0x42));
    assert_eq!((all[1].handle, all[1].granted_access), (8, 0));
    // The pointer in the second word, the access in the first.
    let mut t = VolatilityStruct::new(16, "struct".to_owned());
    t.add_field("GrantedAccessBits".to_owned(), bits(0, 25, 0));
    t.add_field("ObjectPointerBits".to_owned(), bits(20, 44, 8));
    p.add_type("_HANDLE_TABLE_ENTRY".to_owned(), t);
    m.poke(LEAF, &[0; 0x1000]);
    m.poke_u64(LEAF + 3 * 16, 7);
    m.poke_u64(LEAF + 3 * 16 + 8, entry_for(OBJ_EVENT));
    let all = run(&m, |g| get_handle_list(g, &p, BASE, SHELL));
    assert_eq!(summary(&all), [(12, OBJ_EVENT, 7, "Event", "Ready")]);
    assert_eq!(run(&m, |g| handle_object_header(g, &p, DTB, SHELL, 12)), Some(OBJ_EVENT));
}

#[test]
fn name_flags_come_from_the_profile() {
    let mut p = profile();
    let mut m = windows();
    let kcb = 0xffff_f807_0000_0000;
    put_key(&mut m, kcb + 0x5000, 3, "Foo", true, 0);
    // The flags word moves to 4, bit 3.
    m.poke(kcb + 0x5200, &0u32.to_le_bytes());
    m.poke(kcb + 0x5204, &8u32.to_le_bytes());
    let mut t = VolatilityStruct::new(32, "struct".to_owned());
    t.add_field("Compressed".to_owned(), bits(3, 1, 4));
    p.add_type("_CM_NAME_CONTROL_BLOCK".to_owned(), t);
    assert_eq!(run(&m, |g| key_path_dtb(g, &p, DTB, OBJ_KEY)), "Foo");
    // Without the bit the bytes are UTF-16.
    m.poke(kcb + 0x5204, &7u32.to_le_bytes());
    assert_eq!(run(&m, |g| key_path_dtb(g, &p, DTB, OBJ_KEY)), "\u{6f46}");
}

#[test]
fn handles_are_found_through_other_tables() {
    // Page tables that share the kernel half alone.
    let p = profile();
    let mut m = windows();
    let other = m.new_frame();
    let kernel_half = m.physical(DTB + 0x800, 0x800).unwrap();
    m.poke_physical(other + 0x800, &kernel_half);
    assert_eq!(run(&m, |g| rd_u64(g, Space::Tables(other), PEB + 0x18)), None);
    for h in run(&m, |g| get_handle_list(g, &p, BASE, SHELL)) {
        let found = run(&m, |g| handle_object_header(g, &p, other, SHELL, h.handle as u64));
        assert_eq!(found, Some(h.object_header));
    }
}

#[test]
fn interrupted_walks_lose_nothing() {
    let p = profile();
    let m = windows();
    let mut g = Guest::new(m.regs);
    let mut walk = loop {
        match HandleWalk::start(&g, &p, BASE, SHELL) {
            Ok(w) => break w.unwrap(),
            Err(q) => g.record(q, m.read(q)),
        }
    };
    let mut stops = 0;
    while let Err(q) = walk.resume(&g, &p) {
        stops += 1;
        g.record(q, m.read(q));
    }
    assert!(stops > 256);
    let whole = run(&m, |g| get_handle_list(g, &p, BASE, SHELL));
    assert_eq!(summary(&walk.found), summary(&whole));
    // A finished walk stays finished.
    assert_eq!(walk.resume(&g, &p), Ok(()));
    assert_eq!(walk.found.len(), 3);
    // No table, no walk.
    let mut g = Guest::new(m.regs);
    let none = loop {
        match HandleWalk::start(&g, &p, BASE, SYSTEM) {
            Ok(w) => break w,
            Err(q) => g.record(q, m.read(q)),
        }
    };
    assert!(none.is_none());
}

// ---- one process ------------------------------------------------------------------------------

#[test]
fn parameters_of_a_process() {
    let p = profile();
    let m = windows();
    let pp = run(&m, |g| proc_params(g, &p, SHELL));
    assert_eq!(
        (pp.cwd.as_str(), pp.image_path.as_str(), pp.cmdline.as_str()),
        ("C:\\", "C:\\Windows\\explorer.exe", "explorer \"x\"")
    );
    let none = run(&m, |g| proc_params(g, &p, SYSTEM));
    assert_eq!((none.cwd.as_str(), none.image_path.as_str(), none.cmdline.as_str()), ("", "", ""));
    let d = WinProcParams::default();
    assert_eq!((d.cwd.as_str(), d.image_path.as_str(), d.cmdline.as_str()), ("", "", ""));
}

#[test]
fn identity_of_a_process() {
    let p = profile();
    let m = windows();
    assert_eq!(run(&m, |g| proc_pid_name(g, &p, SYSTEM)), (4, "System".to_owned()));
    let now = run(&m, |g| current_proc(g, &p)).unwrap();
    assert_eq!((now.eprocess, now.pid, now.ppid), (SHELL, 0x234, 4));
    assert_eq!(now.name, "explorer.exe");
    // Fields that the profile does not know are 0 and empty.
    let bare = empty_profile();
    assert_eq!(run(&m, |g| proc_pid_name(g, &bare, SYSTEM)), (0, String::new()));
    assert!(run(&m, |g| current_proc(g, &bare)).is_none());
    // A name fills its field without a terminator.
    let mut m = m;
    m.poke(SYSTEM + 0x5a8, b"fifteen-letters-and-more");
    assert_eq!(run(&m, |g| proc_at(g, &p, SYSTEM)).name, "fifteen-letters");
}

// ---- the report -------------------------------------------------------------------------------

#[test]
fn dump_of_the_guest() {
    let p = profile();
    let m = windows();
    let mut cache = 0;
    let (ran, lines) = run(&m, |g| try_dump(&mut cache, g, &p));
    assert!(ran);
    assert_eq!(cache, BASE);
    assert_eq!(
        lines,
        [
            "\n========== [cosi-win] OSI dump ==========",
            "[cosi-win] ntoskrnl base = 0xfffff80000000000",
            "[cosi-win] current _EPROCESS = 0xfffff80200010000",
            "[cosi-win] current process has 2 threads; first tids = [420, 424]",
            "[cosi-win] current process has 3 handles:",
            "    handle=0x0004 type=File           access=0x1ffffff name=\"\\\\Windows\\\\notepad.exe\"",
            "    handle=0x0008 type=Key            access=0x20019",
            "    handle=0x0014 type=Event          access=0x1f0003 name=\"Ready\"",
            "[cosi-win] current process has 1 loaded DLLs:",
            "    base=0x7ffe00000000 size=0x1f8000 ntdll.dll",
            "[cosi-win] cwd=\"C:\\\\\" image=\"C:\\\\Windows\\\\explorer.exe\" cmdline=\"explorer \\\"x\\\"\"",
            "[cosi-win] file handle 0x4 \"\\\\Windows\\\\notepad.exe\" CurrentByteOffset=0x1234",
            "[cosi-win] process list (2 procs):",
            "    pid=     4 ppid=     0 System           eproc=0xfffff80200000000",
            "    pid=   564 ppid=     4 explorer.exe     eproc=0xfffff80200010000",
            "[cosi-win] System(pid 4) has 0 handles:",
            "[cosi-win] kernel modules (1):",
            "    base=0xfffff80000000000 size=0x1047000 ntoskrnl.exe",
            "=========================================\n",
        ]
    );
}

#[test]
fn dump_waits_for_the_kernel() {
    let p = profile();
    let mut m = windows();
    // A user-half link: kernel globals are not what is mapped there.
    m.poke_u64(BASE + RVA_PROCESSES, 0x1000);
    let mut cache = 0;
    assert_eq!(run(&m, |g| try_dump(&mut cache, g, &p)), (false, vec![]));
    assert_eq!(cache, BASE);
    assert_eq!(run(&m, |g| try_dump(&mut cache, g, &empty_profile())), (false, vec![]));
    // An empty list is written, but does not count.
    m.poke_u64(BASE + RVA_PROCESSES, BASE + RVA_PROCESSES);
    let (ran, lines) = run(&m, |g| try_dump(&mut cache, g, &p));
    assert!(!ran);
    assert!(lines.contains(&"[cosi-win] process list (0 procs):".to_owned()));
    m.regs.lstar = 0;
    let mut cache = 0;
    assert_eq!(run(&m, |g| try_dump(&mut cache, g, &p)), (false, vec![]));
}

#[test]
fn reports_are_shortened() {
    let threads: Vec<WinThread> = (0..20).map(|i| WinThread { ethread: 0, tid: i }).collect();
    let handles: Vec<WinHandle> = (0..30)
        .map(|i| WinHandle {
            handle: i * 4,
            object_header: 0,
            granted_access: 0,
            type_label: "Mutant".to_owned(),
            object_name: String::new(),
        })
        .collect();
    let mods: Vec<WinMod> =
        (0..30).map(|i| WinMod { base: i, size: 0, name: "m".to_owned() }).collect();
    let params = WinProcParams::default();
    let lines = current_report(1, &threads, &handles, &mods, &params);
    assert_eq!(lines.len(), 3 + 24 + 1 + 20 + 1);
    assert_eq!(
        lines[1],
        "[cosi-win] current process has 20 threads; first tids = [0, 1, 2, 3, 4, 5, 6, 7, 8, 9, 10, 11]"
    );
    assert_eq!(lines[2], "[cosi-win] current process has 30 handles:");
    assert_eq!(lines[26], "    handle=0x005c type=Mutant         access=0x0");
    let procs: Vec<WinProc> = (0..90)
        .map(|i| WinProc { eprocess: i, pid: i, ppid: 0, name: "p".to_owned() })
        .collect();
    let all = full_report(0, vec!["x".to_owned()], &procs, vec![], &mods);
    assert_eq!(all.len(), 2 + 1 + 1 + 80 + 1 + 16 + 1);
    assert_eq!(all[2], "x");
    assert_eq!(all[3], "[cosi-win] process list (90 procs):");
}

// ---- the tracer -------------------------------------------------------------------------------

fn call(name: Option<&str>, nargs: i32, argn: &[Option<&str>]) -> SyscallInfo {
    SyscallInfo {
        name: name.map(|s| s.as_bytes().to_vec()),
        nargs,
        argn: argn.iter().map(|a| a.map(|s| s.as_bytes().to_vec())).collect(),
    }
}

fn trace(m: &Machine, t: &mut Tracer, info: Option<&SyscallInfo>) -> Option<String> {
    let p = profile();
    let mut cache = 0;
    run(m, |g| t.on_sys_enter(true, info, &mut cache, g, &p))
}

#[test]
fn traced_calls() {
    let mut m = windows();
    m.regs.gpr[10] = 4;
    m.regs.gpr[2] = 0x1000;
    m.regs.gpr[8] = 8;
    m.regs.gpr[9] = 20;
    let mut t = Tracer::new();
    let read = call(
        Some("NtReadFile"),
        9,
        &[Some("FileHandle"), Some("Event"), Some("KeyHandle"), Some("EventHandle")],
    );
    assert_eq!(
        trace(&m, &mut t, Some(&read)).unwrap(),
        "[strace pid=564 explorer.exe] NtReadFile(\
         FileHandle=0x4 -> File \"\\\\Windows\\\\notepad.exe\", \
         Event=0x1000, \
         KeyHandle=0x8 -> Key \"REGISTRY\\\\MACHINE\\\\SOFTWARE\\\\Foo\\\\Foo\", \
         EventHandle=0x14 -> Event \"Ready\", ...)"
    );
    assert_eq!(t.traced, 1);
    // Missing names, exactly four arguments, a pseudo-handle.
    m.regs.gpr[10] = u64::MAX;
    let close = call(None, 4, &[Some("Handle"), None, Some("")]);
    assert_eq!(
        trace(&m, &mut t, Some(&close)).unwrap(),
        "[strace pid=564 explorer.exe] ?(Handle=0xffffffffffffffff, arg1=0x1000, arg2=0x8, arg3=0x14)"
    );
    let nothing = call(Some("NtYieldExecution"), -1, &[]);
    assert_eq!(
        trace(&m, &mut t, Some(&nothing)).unwrap(),
        "[strace pid=564 explorer.exe] NtYieldExecution()"
    );
    assert_eq!(t.traced, 3);
    // A call that the table does not know is not counted.
    assert_eq!(trace(&m, &mut t, None), None);
    assert_eq!(t.traced, 3);
}

#[test]
fn unnamed_objects_are_traced_by_type() {
    assert_eq!(
        write_arg("Handle", 8, &Some(("Key".to_owned(), String::new()))),
        "Handle=0x8 -> Key"
    );
    assert_eq!(
        write_arg("Handle", 8, &Some(("Key".to_owned(), "a\tb".to_owned()))),
        "Handle=0x8 -> Key \"a\\tb\""
    );
    assert_eq!(write_arg("n", 0, &None), "n=0x0");
    assert_eq!(write_call(7, "p", "c", &vec![], true), "[strace pid=7 p] c(, ...)");
    let names = vec![Some(b"\xffx".to_vec()), None];
    assert_eq!(cstr_at(&names, 0), "\u{fffd}x");
    assert_eq!(cstr_at(&names, 1), "");
    assert_eq!(cstr_at(&names, 2), "");
}

#[test]
fn tracing_is_bounded() {
    let m = windows();
    let p = profile();
    let info = call(Some("NtClose"), 0, &[]);
    let mut t = Tracer::new();
    t.traced = MAX_TRACE - 1;
    assert!(trace(&m, &mut t, Some(&info)).is_some());
    assert_eq!(t.traced, MAX_TRACE);
    // However many calls come, that many lines are written and no more.
    let mut t = Tracer::new();
    let lines = (0..500).filter(|_| trace(&m, &mut t, Some(&info)).is_some()).count();
    assert_eq!((lines, t.traced), (400, MAX_TRACE));
    // Nothing is even read any more.
    let g = Guest::new(m.regs);
    let mut cache = 0;
    assert_eq!(t.on_sys_enter(true, Some(&info), &mut cache, &g, &p), Ok(None));
    assert_eq!((t.traced, cache), (MAX_TRACE, 0));
    // Nor before the tracer is ready.
    let mut t = Tracer::new();
    assert_eq!(t.on_sys_enter(false, Some(&info), &mut cache, &g, &p), Ok(None));
    assert_eq!(t.on_asid_changed(false, &g, &p), Ok(None));
    // An open read counts nothing.
    assert!(t.on_sys_enter(true, Some(&info), &mut cache, &g, &p).is_err());
    assert_eq!(t.traced, 0);
}

#[test]
fn switches_are_logged_once() {
    let mut m = windows();
    let p = profile();
    let mut t = Tracer::new();
    assert_eq!((t.last_pid, t.switches), (u64::MAX, 0));
    let line = run(&m, |g| t.on_asid_changed(true, g, &p));
    assert_eq!(
        line.unwrap(),
        "[procswitch] -> pid=564 explorer.exe (eproc=0xfffff80200010000)"
    );
    assert_eq!((t.last_pid, t.switches), (564, 1));
    assert_eq!(run(&m, |g| t.on_asid_changed(true, g, &p)), None);
    assert_eq!(t.switches, 1);
    m.poke_u64(THREAD + 0xb8, SYSTEM);
    assert!(run(&m, |g| t.on_asid_changed(true, g, &p)).is_some());
    assert_eq!((t.last_pid, t.switches), (4, 2));
    // The idle process has id 0.
    m.poke_u64(SYSTEM + 0x440, 0);
    assert_eq!(run(&m, |g| t.on_asid_changed(true, g, &p)), None);
    assert_eq!((t.last_pid, t.switches), (4, 2));
    t.switches = MAX_SWITCHES;
    m.poke_u64(THREAD + 0xb8, SHELL);
    assert_eq!(run(&m, |g| t.on_asid_changed(true, g, &p)), None);
    assert_eq!(t.last_pid, 4);
}

#[test]
fn self_test_report() {
    let named = OsiProc { pid: 4, ppid: -1, name: Some(b"System".to_vec()) };
    let procs: Vec<OsiProc> =
        (0..12).map(|i| OsiProc { pid: i, ppid: 0, name: None }).collect();
    let lines = osi_selftest(Some(&named), &procs);
    assert_eq!(lines.len(), 13);
    assert_eq!(lines[0], "[osi-selftest] routing through osi -> osi_cosi -> cosi ...");
    assert_eq!(
        lines[1],
        "[osi-selftest] osi.get_current_process -> pid=4 ppid=-1 name=\"System\""
    );
    assert_eq!(lines[2], "[osi-selftest] osi.get_processes -> 12 procs:");
    assert_eq!(lines[12], "    pid=9 ppid=0 ");
    let none = osi_selftest(None, &vec![named]);
    assert_eq!(none[1], "[osi-selftest] osi.get_current_process -> None");
    assert_eq!(none[3], "    pid=4 ppid=-1 System");
}

// ---- the flat interface -----------------------------------------------------------------------

#[test]
fn flat_values() {
    let p = profile();
    let mut m = windows();
    let mut cache = 0;
    assert_eq!(run(&m, |g| cosi_win_kernel_base(&mut cache, g, &p)), BASE);
    assert_eq!(run(&m, |g| cosi_win_current_eprocess(g, &p)), SHELL);
    assert_eq!(run(&m, |g| cosi_win_current_tid(g, &p)), 0x1a4);
    assert_eq!(run(&m, |g| cosi_win_current_proc(g, &p)).unwrap().pid, 564);
    assert_eq!(run(&m, |g| cosi_win_proc_at(g, &p, SYSTEM)).pid, 4);
    let pos = |m: &Machine, h: u64| {
        let mut cache = 0;
        run(m, |g| cosi_win_file_handle_pos(&mut cache, g, &p, SHELL, h))
    };
    assert_eq!(pos(&m, 4), 0x1234);
    assert_eq!(pos(&m, 8), -1);
    assert_eq!(pos(&m, 3), -1);
    let pp = run(&m, |g| cosi_win_get_proc_params(g, &p, SHELL));
    assert_eq!(cosi_win_params_cwd(&pp).unwrap(), "C:\\");
    assert_eq!(cosi_win_params_image_path(&pp).unwrap(), "C:\\Windows\\explorer.exe");
    assert_eq!(cosi_win_params_cmdline(&pp).unwrap(), "explorer \"x\"");
    // Without a kernel base types cannot be told apart, and the position is read all the same.
    m.poke_u64(OBJ_KEY + 0x30 + 0x70, 0x77);
    m.regs.lstar = 0;
    assert_eq!(pos(&m, 4), 0x1234);
    assert_eq!(pos(&m, 8), 0x77);
    assert_eq!(pos(&m, 3), -1);
    let bare = empty_profile();
    assert_eq!(run(&m, |g| cosi_win_current_eprocess(g, &bare)), 0);
    assert_eq!(run(&m, |g| cosi_win_current_tid(g, &bare)), 0);
    assert!(run(&m, |g| cosi_win_current_proc(g, &bare)).is_none());
}

#[test]
fn flat_lists() {
    let p = profile();
    let mut m = windows();
    let mut cache = 0;
    let procs = run(&m, |g| cosi_win_get_proc_list(&mut cache, g, &p)).unwrap();
    assert_eq!(cosi_win_proc_list_len(&procs), 2);
    let second = cosi_win_proc_list_get(&procs, 1).unwrap();
    assert_eq!(cosi_win_proc_pid(second), 564);
    assert_eq!(cosi_win_proc_ppid(second), 4);
    assert_eq!(cosi_win_proc_eprocess(second), SHELL);
    assert_eq!(cosi_win_proc_name(second).unwrap(), "explorer.exe");
    assert!(cosi_win_proc_list_get(&procs, 2).is_none());
    let mods = run(&m, |g| cosi_win_get_module_list(&mut cache, g, &p)).unwrap();
    assert_eq!(cosi_win_module_list_len(&mods), 1);
    let first = cosi_win_module_list_get(&mods, 0).unwrap();
    assert_eq!(cosi_win_module_base(first), BASE);
    assert_eq!(cosi_win_module_size(first), 0x104_7000);
    assert_eq!(cosi_win_module_name(first).unwrap(), "ntoskrnl.exe");
    assert!(cosi_win_module_list_get(&mods, 1).is_none());
    let handles = run(&m, |g| cosi_win_get_handle_list(&mut cache, g, &p, SHELL)).unwrap();
    assert_eq!(cosi_win_handle_list_len(&handles), 3);
    let third = cosi_win_handle_list_get(&handles, 2).unwrap();
    assert_eq!(cosi_win_handle_value(third), 20);
    assert_eq!(cosi_win_handle_object_header(third), OBJ_EVENT);
    assert_eq!(cosi_win_handle_access(third), 0x1f0003);
    assert_eq!(cosi_win_handle_type(third).unwrap(), "Event");
    assert_eq!(cosi_win_handle_name(third).unwrap(), "Ready");
    assert!(cosi_win_handle_list_get(&handles, 3).is_none());
    assert_eq!(run(&m, |g| cosi_win_get_dll_list(g, &p, SHELL)).unwrap().len(), 1);
    // What found nothing is null.
    assert!(run(&m, |g| cosi_win_get_dll_list(g, &p, SYSTEM)).is_none());
    assert!(run(&m, |g| cosi_win_get_handle_list(&mut cache, g, &p, SYSTEM)).is_none());
    m.regs.lstar = 0;
    let mut cache = 0;
    assert!(run(&m, |g| cosi_win_get_proc_list(&mut cache, g, &p)).is_none());
    assert!(run(&m, |g| cosi_win_get_module_list(&mut cache, g, &p)).is_none());
}

#[test]
fn c_strings_hold_no_nul() {
    assert_eq!(to_cstr("a b").unwrap(), "a b");
    assert_eq!(to_cstr("").unwrap(), "");
    assert_eq!(to_cstr("a\0b"), None);
}
