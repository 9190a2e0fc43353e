//! Text, profiles and compressed profiles.

use cosi::compressed::{decompress_profile, text_of_profile, ProfileError};
use cosi::pandbox_compat::{
    panda_record_begin, panda_record_end, panda_replay_begin, panda_replay_end,
    RRCTRL_ret_RRCTRL_EINVALID, RRCTRL_ret_RRCTRL_EPENDING, RRCTRL_ret_RRCTRL_OK,
    MEMTX_DECODE_ERROR, MEMTX_ERROR,
};
use cosi::profile::{
    is_windows, Producer, SourceMetadata, UnixMetadata, VolatilityBaseType, VolatilityEnum,
    VolatilityJson, VolatilityMetadata, VolatilityStruct, VolatilityStructField, VolatilitySymbol,
    VolatilityType,
};
use cosi::text::{
    contains, decimal, hex, hex_padded, join, number_list, pad_left, pad_right, signed,
    utf16_lossy,
};

#[test]
fn numbers_as_text() {
    for n in [0u64, 1, 9, 10, 15, 16, 255, 256, 1234567890, u64::MAX] {
        assert_eq!(decimal(n), format!("{}", n));
        assert_eq!(hex(n), format!("{:#x}", n));
        assert_eq!(hex_padded(n, 6), format!("{:#06x}", n));
    }
    for n in [0i64, 1, -1, 42, -42, i64::MAX, i64::MIN] {
        assert_eq!(signed(n), format!("{}", n));
    }
    for v in [vec![], vec![7], vec![1, 20, 300]] {
        assert_eq!(number_list(&v), format!("{:?}", v));
    }
}

#[test]
fn padding_counts_characters() {
    for s in ["", "abc", "na\u{ef}ve", "a long name that fills it"] {
        assert_eq!(pad_right(s, 14), format!("{:<14}", s));
        assert_eq!(pad_left(s, 6), format!("{:>6}", s));
    }
}

#[test]
fn searching_and_joining() {
    for (s, pat) in [
        ("PortHandle", "Handle"),
        ("Handle", "Handle"),
        ("handle", "Handle"),
        ("Hand", "Handle"),
        ("HandHandle", "Handle"),
        ("x", ""),
        ("", "x"),
    ] {
        assert_eq!(contains(s, pat), s.contains(pat));
    }
    let parts = vec!["a".to_owned(), String::new(), "b".to_owned()];
    assert_eq!(join(&parts, ", "), "a, , b");
    assert_eq!(join(&vec![], ", "), "");
    assert_eq!(join(&vec!["x".to_owned()], ", "), "x");
}

#[test]
fn utf16_is_decoded_lossily() {
    let cases: Vec<Vec<u16>> = vec![
        vec![],
        vec![0x41, 0x42],
        vec![0xd83d, 0xde00],
        vec![0xd83d],
        vec![0xde00, 0x41],
        vec![0xd83d, 0x41],
        vec![0xd83d, 0xd83d, 0xde00],
        vec![0xdbff, 0xdfff, 0xffff, 0],
    ];
    for units in cases {
        assert_eq!(utf16_lossy(&units), String::from_utf16_lossy(&units));
    }
}

fn base(name: &str) -> VolatilityType {
    VolatilityType::Base { name: name.to_owned() }
}

#[test]
fn types_in_c_notation() {
    let array = VolatilityType::Array { count: 15, subtype: Box::new(base("char")) };
    assert_eq!(array.to_string(), "char[15]");
    let pointer = VolatilityType::Pointer { subtype: Box::new(array) };
    assert_eq!(pointer.to_string(), "char[15]*");
    assert_eq!(base("int").to_string(), "int");
    let s = VolatilityType::Struct { name: "_EPROCESS".to_owned() };
    assert_eq!(s.display(), "struct _EPROCESS");
    let p = VolatilityType::Pointer { subtype: Box::new(s) };
    assert_eq!(p.to_string(), "struct _EPROCESS*");
    assert_eq!(VolatilityType::Enum { name: "E".to_owned() }.display(), "enum E");
    assert_eq!(VolatilityType::Union { name: "U".to_owned() }.display(), "union U");
    assert_eq!(VolatilityType::Function.display(), "func_ptr");
    let bits = VolatilityType::Bitfield {
        bit_position: 20,
        bit_length: 44,
        base_type: Box::new(base("unsigned long long")),
    };
    assert_eq!(bits.display(), "(bitfield unsigned long long[20..64])");
    let back = VolatilityType::Bitfield {
        bit_position: -1,
        bit_length: 3,
        base_type: Box::new(base("int")),
    };
    assert_eq!(back.display(), "(bitfield int[-1..2])");
}

fn linux() -> VolatilityJson {
    VolatilityJson::new(VolatilityMetadata {
        linux: Some(UnixMetadata {
            symbols: vec![],
            types: vec![SourceMetadata {
                kind: "dwarf".to_owned(),
                name: "vmlinux".to_owned(),
                hash_type: "sha256".to_owned(),
                hash_value: "0".to_owned(),
            }],
        }),
        windows: None,
        producer: Producer { name: "dwarf2json".to_owned(), version: "0.8".to_owned() },
        format: "6.2.0".to_owned(),
    })
}

#[test]
fn profile_entries_by_name() {
    let mut p = linux();
    assert!(!is_windows(&p));
    p.add_base_type(
        "int".to_owned(),
        VolatilityBaseType {
            size: 4,
            signed: true,
            kind: "int".to_owned(),
            endian: "little".to_owned(),
        },
    );
    let mut e = VolatilityEnum::new(4, "int".to_owned());
    e.add_constant("RED".to_owned(), 1);
    e.add_constant("RED".to_owned(), 2);
    p.add_enum("color".to_owned(), e);
    let mut t = VolatilityStruct::new(8, "struct".to_owned());
    t.add_field(
        "x".to_owned(),
        VolatilityStructField { type_val: None, offset: 4, anonymous: Some(false) },
    );
    p.add_type("point".to_owned(), t);
    p.add_symbol(
        "init_task".to_owned(),
        VolatilitySymbol { type_val: Some(base("int")), address: 7, constant_data: None },
    );
    assert_eq!(p.base_type_from_name("int").unwrap().size, 4);
    assert!(p.base_type_from_name("long").is_none());
    assert_eq!(p.enum_from_name("color").unwrap().constants.get("RED"), Some(&2));
    assert!(p.enum_from_name("int").is_none());
    assert_eq!(p.type_from_name("point").unwrap().fields.get("x").unwrap().offset, 4);
    assert!(p.type_from_name("init_task").is_none());
    assert_eq!(p.symbol_from_name("init_task").unwrap().address, 7);
    assert!(p.symbol_from_name("point").is_none());
}

fn compress(bytes: &[u8]) -> Vec<u8> {
    let mut out = Vec::new();
    let mut input = bytes;
    lzma_rs::xz_compress(&mut input, &mut out).unwrap();
    out
}

#[test]
fn compressed_profiles_are_read() {
    let text = "{\"metadata\": \"na\u{ef}ve\"}";
    let file = compress(text.as_bytes());
    assert_ne!(file, text.as_bytes());
    assert_eq!(decompress_profile(&file).unwrap(), text);
    // Bytes that are no UTF-8 are replaced.
    let file = compress(&[0x61, 0xff, 0x62]);
    assert_eq!(decompress_profile(&file).unwrap(), "a\u{fffd}b");
    assert_eq!(decompress_profile(&compress(b"")).unwrap(), "");
}

#[test]
fn broken_profiles_are_reported() {
    assert_eq!(decompress_profile(b""), Err(ProfileError::Empty));
    assert_eq!(decompress_profile(b"{}"), Err(ProfileError::Corrupt));
    let mut file = compress(b"some text");
    let last = file.len() - 1;
    file.truncate(last);
    assert_eq!(decompress_profile(&file), Err(ProfileError::Corrupt));
    assert_eq!(text_of_profile(None), Err(ProfileError::Corrupt));
    assert_eq!(text_of_profile(Some(vec![0x68, 0x69])), Ok("hi".to_owned()));
}

#[test]
fn sizes_of_all_ones_are_corrupt() {
    // The backward size of an otherwise intact file, with more, less or other bytes behind it.
    let mut file = compress(b"some text");
    let at = file.len() - 8;
    file[at..at + 4].fill(0xff);
    assert_eq!(decompress_profile(&file), Err(ProfileError::Corrupt));
    file.truncate(at + 4);
    assert_eq!(decompress_profile(&file), Err(ProfileError::Corrupt));
    file.extend([0xff; 40]);
    assert_eq!(decompress_profile(&file), Err(ProfileError::Corrupt));
    // The shortest stream: a header, an index without records, a footer.
    let mut none: Vec<u8> = compress(b"")[..12].to_vec();
    none.extend([0, 0, 0, 0, 0x1c, 0xdf, 0x44, 0x21]);
    none.extend([0; 4]);
    none.extend([0xff; 4]);
    none.extend([0; 4]);
    assert_eq!(decompress_profile(&none), Err(ProfileError::Corrupt));
}

#[test]
fn all_ones_in_the_data_are_read() {
    // At every alignment, and behind what could be an index.
    for before in 0..8 {
        let mut bytes = vec![0x61; before];
        bytes.extend([0xff; 9]);
        bytes.extend([0; 8]);
        bytes.extend([0x62; 8]);
        bytes.extend([0xff; 12]);
        bytes.extend([0, 1, 3, 4]);
        bytes.extend([0x63; 8]);
        bytes.extend([0xff; 7]);
        let text = String::from_utf8_lossy(&bytes).into_owned();
        assert_eq!(decompress_profile(&compress(&bytes)), Ok(text));
    }
    // A whole stream with such a size, inside another one.
    let mut inner = compress(b"inner");
    let at = inner.len() - 8;
    inner[at..at + 4].fill(0xff);
    for before in 0..4 {
        let mut bytes = vec![0x61; before];
        bytes.extend(&inner);
        let text = String::from_utf8_lossy(&bytes).into_owned();
        assert_eq!(decompress_profile(&compress(&bytes)), Ok(text));
    }
}

#[test]
fn record_and_replay_are_declined() {
    assert_eq!(panda_record_begin(Some("a"), None), RRCTRL_ret_RRCTRL_EINVALID);
    assert_eq!(panda_record_end(), RRCTRL_ret_RRCTRL_EINVALID);
    assert_eq!(panda_replay_begin(Some("a")), RRCTRL_ret_RRCTRL_EINVALID);
    assert_eq!(panda_replay_end(), RRCTRL_ret_RRCTRL_EINVALID);
    assert_eq!((RRCTRL_ret_RRCTRL_OK, RRCTRL_ret_RRCTRL_EPENDING), (0, 2));
    assert_eq!((MEMTX_ERROR, MEMTX_DECODE_ERROR), (1, 2));
}
