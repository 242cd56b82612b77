//! Encoding typed values through the `Serializer`. Pids and refs
//! follow the creation threshold: a creation up to 3 selects the
//! legacy wire form with masked fields, above 3 the new full-width
//! form.

use std::collections::HashMap;

use cnode::consts::{I27_MAX, I27_MIN};
use cnode::io::Writer;
use cnode::ser::Serializer;
use cnode::term::{Atom, Msg, Pid, Port, Ref, Trace};

fn ser() -> Serializer {
    Serializer::new(Writer::new())
}

fn utf8(s: &str) -> Atom {
    Atom::UTF8(s.as_bytes().to_vec())
}

#[test]
fn serialize_bool() {
    for (input, expected) in vec![
        (true, vec![0x77, 0x04, 0x74, 0x72, 0x75, 0x65]),
        (false, vec![0x77, 0x05, 0x66, 0x61, 0x6c, 0x73, 0x65]),
    ] {
        let mut s = ser();
        s.serialize_bool(input).unwrap();
        assert_eq!(expected, s.into_vec(), "{:?}", input);
    }
}

#[test]
fn serialize_i8() {
    for (input, expected) in vec![
        (i8::MIN, vec![0x62, 0xff, 0xff, 0xff, 0x80]),
        (u8::MIN as i8 - 1, vec![0x62, 0xff, 0xff, 0xff, 0xff]),
        (u8::MIN as i8, vec![0x61, 0x00]),
        (u8::MIN as i8 + 1, vec![0x61, 0x01]),
        (i8::MAX, vec![0x61, 0x7f]),
    ] {
        let mut s = ser();
        s.serialize_i8(input).unwrap();
        assert_eq!(expected, s.into_vec(), "{:?}", input);
    }
}

#[test]
fn serialize_i16() {
    for (input, expected) in vec![
        (i16::MIN, vec![0x62, 0xff, 0xff, 0x80, 0x00]),
        (u8::MIN as i16 - 1, vec![0x62, 0xff, 0xff, 0xff, 0xff]),
        (u8::MIN as i16, vec![0x61, 0x00]),
        (u8::MIN as i16 + 1, vec![0x61, 0x01]),
        (u8::MAX as i16, vec![0x61, 0xff]),
        (u8::MAX as i16 + 1, vec![0x62, 0x00, 0x00, 0x01, 0x00]),
        (i16::MAX, vec![0x62, 0x00, 0x00, 0x7f, 0xff]),
    ] {
        let mut s = ser();
        s.serialize_i16(input).unwrap();
        assert_eq!(expected, s.into_vec(), "{:?}", input);
    }
}

#[test]
fn serialize_i32() {
    for (input, expected) in vec![
        (i32::MIN + 1, vec![0x6e, 0x04, 0x01, 0xff, 0xff, 0xff, 0x7f]),
        (I27_MIN - 1, vec![0x6e, 0x04, 0x01, 0x01, 0x00, 0x00, 0x08]),
        (I27_MIN, vec![0x62, 0xf8, 0x00, 0x00, 0x00]),
        (u8::MIN as i32 - 1, vec![0x62, 0xff, 0xff, 0xff, 0xff]),
        (u8::MIN as i32, vec![0x61, 0x00]),
        (u8::MIN as i32 + 1, vec![0x61, 0x01]),
        (u8::MAX as i32, vec![0x61, 0xff]),
        (u8::MAX as i32 + 1, vec![0x62, 0x00, 0x00, 0x01, 0x00]),
        (I27_MAX, vec![0x62, 0x07, 0xff, 0xff, 0xff]),
        (I27_MAX + 1, vec![0x6e, 0x04, 0x00, 0x00, 0x00, 0x00, 0x08]),
        (i32::MAX, vec![0x6e, 0x04, 0x00, 0xff, 0xff, 0xff, 0x7f]),
    ] {
        let mut s = ser();
        s.serialize_i32(input).unwrap();
        assert_eq!(expected, s.into_vec(), "{:?}", input);
    }
    {
        let mut s = ser();
        assert!(s.serialize_i32(i32::MIN).is_err());
    }
}

#[test]
fn serialize_i64() {
    for (input, expected) in vec![
        (
            i64::MIN + 1,
            vec![0x6e, 0x08, 0x01, 0xff, 0xff, 0xff, 0xff, 0xff, 0xff, 0xff, 0x7f],
        ),
        (I27_MIN as i64 - 1, vec![0x6e, 0x04, 0x01, 0x01, 0x00, 0x00, 0x08]),
        (I27_MIN as i64, vec![0x62, 0xf8, 0x00, 0x00, 0x00]),
        (u8::MIN as i64 - 1, vec![0x62, 0xff, 0xff, 0xff, 0xff]),
        (u8::MIN as i64, vec![0x61, 0x00]),
        (u8::MIN as i64 + 1, vec![0x61, 0x01]),
        (u8::MAX as i64, vec![0x61, 0xff]),
        (u8::MAX as i64 + 1, vec![0x62, 0x00, 0x00, 0x01, 0x00]),
        (I27_MAX as i64, vec![0x62, 0x07, 0xff, 0xff, 0xff]),
        (I27_MAX as i64 + 1, vec![0x6e, 0x04, 0x00, 0x00, 0x00, 0x00, 0x08]),
        (
            i64::MAX,
            vec![0x6e, 0x08, 0x00, 0xff, 0xff, 0xff, 0xff, 0xff, 0xff, 0xff, 0x7f],
        ),
    ] {
        let mut s = ser();
        s.serialize_i64(input).unwrap();
        assert_eq!(expected, s.into_vec(), "{:?}", input);
    }
    {
        let mut s = ser();
        assert!(s.serialize_i64(i64::MIN).is_err());
    }
}

#[test]
fn serialize_u8() {
    for (input, expected) in vec![
        (u8::MIN, vec![0x61, 0x00]),
        (u8::MIN + 1, vec![0x61, 0x01]),
        (u8::MAX, vec![0x61, 0xff]),
    ] {
        let mut s = ser();
        s.serialize_u8(input).unwrap();
        assert_eq!(expected, s.into_vec(), "{:?}", input);
    }
}

#[test]
fn serialize_u16() {
    for (input, expected) in vec![
        (u8::MIN as u16, vec![0x61, 0x00]),
        (u8::MIN as u16 + 1, vec![0x61, 0x01]),
        (u8::MAX as u16, vec![0x61, 0xff]),
        (u8::MAX as u16 + 1, vec![0x62, 0x00, 0x00, 0x01, 0x00]),
        (u16::MAX, vec![0x62, 0x00, 0x00, 0xff, 0xff]),
    ] {
        let mut s = ser();
        s.serialize_u16(input).unwrap();
        assert_eq!(expected, s.into_vec(), "{:?}", input);
    }
}

#[test]
fn serialize_u32() {
    for (input, expected) in vec![
        (u8::MIN as u32, vec![0x61, 0x00]),
        (u8::MIN as u32 + 1, vec![0x61, 0x01]),
        (u8::MAX as u32, vec![0x61, 0xff]),
        (u8::MAX as u32 + 1, vec![0x62, 0x00, 0x00, 0x01, 0x00]),
        (I27_MAX as u32, vec![0x62, 0x07, 0xff, 0xff, 0xff]),
        (I27_MAX as u32 + 1, vec![0x6e, 0x04, 0x00, 0x00, 0x00, 0x00, 0x08]),
        (u32::MAX, vec![0x6e, 0x04, 0x00, 0xff, 0xff, 0xff, 0xff]),
    ] {
        let mut s = ser();
        s.serialize_u32(input).unwrap();
        assert_eq!(expected, s.into_vec(), "{:?}", input);
    }
}

#[test]
fn serialize_u64() {
    for (input, expected) in vec![
        (u8::MIN as u64, vec![0x61, 0x00]),
        (u8::MIN as u64 + 1, vec![0x61, 0x01]),
        (u8::MAX as u64, vec![0x61, 0xff]),
        (u8::MAX as u64 + 1, vec![0x62, 0x00, 0x00, 0x01, 0x00]),
        (I27_MAX as u64, vec![0x62, 0x07, 0xff, 0xff, 0xff]),
        (I27_MAX as u64 + 1, vec![0x6e, 0x04, 0x00, 0x00, 0x00, 0x00, 0x08]),
        (
            u64::MAX,
            vec![0x6e, 0x08, 0x00, 0xff, 0xff, 0xff, 0xff, 0xff, 0xff, 0xff, 0xff],
        ),
    ] {
        let mut s = ser();
        s.serialize_u64(input).unwrap();
        assert_eq!(expected, s.into_vec(), "{:?}", input);
    }
}

#[test]
fn serialize_f64() {
    for (input, expected) in vec![
        (-1.0 as f64, vec![0x46, 0xbf, 0xf0, 0x00, 0x00, 0x00, 0x00, 0x00, 0x00]),
        (-0.0 as f64, vec![0x46, 0x80, 0x00, 0x00, 0x00, 0x00, 0x00, 0x00, 0x00]),
        (0.0 as f64, vec![0x46, 0x00, 0x00, 0x00, 0x00, 0x00, 0x00, 0x00, 0x00]),
        (1.0 as f64, vec![0x46, 0x3f, 0xf0, 0x00, 0x00, 0x00, 0x00, 0x00, 0x00]),
    ] {
        let mut s = ser();
        s.serialize_f64_bits(input.to_bits()).unwrap();
        assert_eq!(expected, s.into_vec(), "{:?}", input);
    }
}

#[test]
fn serialize_str() {
    for (input, expected) in vec![
        ("", vec![0x6a]),
        ("hello", vec![0x6b, 0x00, 0x05, 0x68, 0x65, 0x6c, 0x6c, 0x6f]),
    ] {
        let mut s = ser();
        s.serialize_str(input.as_bytes()).unwrap();
        assert_eq!(expected, s.into_vec(), "{:?}", input);
    }
}

#[test]
fn serialize_bytes() {
    for (input, expected) in vec![
        ("", vec![0x6d, 0x00, 0x00, 0x00, 0x00]),
        ("hello", vec![0x6d, 0x00, 0x00, 0x00, 0x05, 0x68, 0x65, 0x6c, 0x6c, 0x6f]),
    ] {
        let mut s = ser();
        s.serialize_bytes(input.as_bytes()).unwrap();
        assert_eq!(expected, s.into_vec(), "{:?}", input);
    }
}

#[test]
fn serialize_unit_struct() {
    let mut s = ser();
    s.serialize_unit().unwrap();
    assert_eq!(vec![0x6a], s.into_vec());
}

#[test]
fn serialize_newtype_struct() {
    let mut s = ser();
    s.write_tuple(1).unwrap();
    s.serialize_str(b"a").unwrap();
    assert_eq!(vec![0x68, 0x01, 0x6b, 0x00, 0x01, 0x61], s.into_vec());
}

#[test]
fn serialize_seq() {
    for (input, expected) in vec![
        (vec![], vec![0x6a]),
        (vec![1], vec![0x6c, 0x00, 0x00, 0x00, 0x01, 0x61, 0x01, 0x6a]),
    ] {
        let mut s = ser();
        if input.is_empty() {
            s.serialize_unit().unwrap();
        } else {
            s.serialize_list_header(input.len() as u32).unwrap();
            for e in &input {
                s.serialize_i32(*e).unwrap();
            }
            s.serialize_unit().unwrap();
        }
        assert_eq!(expected, s.into_vec(), "{:?}", input);
    }
}

#[test]
fn serialize_tuple() {
    {
        let mut s = ser();
        s.serialize_unit().unwrap();
        assert_eq!(vec![0x6a], s.into_vec());
    }
    {
        let mut s = ser();
        s.write_tuple(1).unwrap();
        s.serialize_u8(1).unwrap();
        assert_eq!(vec![0x68, 0x01, 0x61, 0x01], s.into_vec());
    }
    {
        let mut s = ser();
        s.write_tuple(2).unwrap();
        s.serialize_u8(1).unwrap();
        s.serialize_bool(true).unwrap();
        assert_eq!(
            vec![0x68, 0x02, 0x61, 0x01, 0x77, 0x04, 0x74, 0x72, 0x75, 0x65],
            s.into_vec()
        );
    }
}

#[test]
fn serialize_tuple_struct() {
    let mut s = ser();
    s.write_tuple(2).unwrap();
    s.serialize_i8(1).unwrap();
    s.serialize_u8(2).unwrap();
    assert_eq!(vec![0x68, 0x02, 0x61, 0x01, 0x61, 0x02], s.into_vec());
}

#[test]
fn serialize_map() {
    let mut map: HashMap<u8, u8> = HashMap::new();

    map.clear();
    {
        let mut s = ser();
        s.serialize_map_header(map.len() as u32).unwrap();
        assert_eq!(vec![0x74, 0x00, 0x00, 0x00, 0x00], s.into_vec());
    }

    map.clear();
    map.insert(1, 2);
    {
        let mut s = ser();
        s.serialize_map_header(map.len() as u32).unwrap();
        for (k, v) in &map {
            s.serialize_u8(*k).unwrap();
            s.serialize_u8(*v).unwrap();
        }
        assert_eq!(vec![0x74, 0x00, 0x00, 0x00, 0x01, 0x61, 0x01, 0x61, 0x02], s.into_vec());
    }
}

#[test]
fn serialize_struct() {
    let mut s = ser();
    s.write_tuple(3).unwrap();
    s.serialize_i64(1).unwrap();
    s.serialize_u64(2).unwrap();
    s.serialize_f64_bits((3 as f64).to_bits()).unwrap();
    assert_eq!(
        vec![
            0x68, 0x03, 0x61, 0x01, 0x61, 0x02, 0x46, 0x40, 0x08, 0x00, 0x00, 0x00, 0x00, 0x00,
            0x00,
        ],
        s.into_vec()
    );
}

#[test]
fn serialize_atom() {
    for (input, expected) in vec![
        (Atom::Latin1(b"n".to_vec()), vec![0x64, 0x00, 0x01, 0x6e]),
        (Atom::UTF8Small(b"n".to_vec()), vec![0x77, 0x01, 0x6e]),
        (Atom::UTF8(b"n".to_vec()), vec![0x76, 0x00, 0x01, 0x6e]),
    ] {
        let mut s = ser();
        s.write_atom(&input).unwrap();
        assert_eq!(expected, s.into_vec(), "{:?}", input);
    }
}

// A creation of 3 selects the legacy pid form.
#[test]
fn serialize_pid() {
    for (input, expected) in vec![
        (
            Pid { node: utf8("n"), num: 1, serial: 2, creation: 3 },
            vec![
                0x67, 0x76, 0x00, 0x01, 0x6e, 0x00, 0x00, 0x00, 0x01, 0x00, 0x00, 0x00, 0x02,
                0x03,
            ],
        ),
        (
            Pid { node: utf8("n"), num: 1, serial: 2, creation: 4 },
            vec![
                0x58, 0x76, 0x00, 0x01, 0x6e, 0x00, 0x00, 0x00, 0x01, 0x00, 0x00, 0x00, 0x02,
                0x00, 0x00, 0x00, 0x04,
            ],
        ),
    ] {
        let mut s = ser();
        s.write_pid(&input).unwrap();
        assert_eq!(expected, s.into_vec(), "{:?}", input);
    }
}

#[test]
fn serialize_port() {
    for (input, expected) in vec![
        (
            Port::NewPort { node: utf8("n"), id: 1, creation: 2 },
            vec![
                0x59, 0x76, 0x00, 0x01, 0x6e, 0x00, 0x00, 0x00, 0x01, 0x00, 0x00, 0x00, 0x02,
            ],
        ),
        (
            Port::V4Port { node: utf8("n"), id: 1, creation: 2 },
            vec![
                0x78, 0x76, 0x00, 0x01, 0x6e, 0x00, 0x00, 0x00, 0x00, 0x00, 0x00, 0x00, 0x01,
                0x00, 0x00, 0x00, 0x02,
            ],
        ),
    ] {
        let mut s = ser();
        s.write_port(&input).unwrap();
        assert_eq!(expected, s.into_vec(), "{:?}", input);
    }
}

// A creation of 1 selects the legacy reference form with a one-byte
// creation; a creation above 3 the newer form, which may carry up to
// five words.
#[test]
fn serialize_ref() {
    for (input, expected) in vec![
        (
            Ref { len: 0, node: utf8("n"), creation: 1, n: None },
            vec![0x72, 0x00, 0x00, 0x76, 0x00, 0x01, 0x6e, 0x01],
        ),
        (
            Ref { len: 1, node: utf8("n"), creation: 1, n: Some(vec![2]) },
            vec![
                0x72, 0x00, 0x01, 0x76, 0x00, 0x01, 0x6e, 0x01, 0x00, 0x00, 0x00, 0x02,
            ],
        ),
        (
            Ref { len: 5, node: utf8("n"), creation: 4, n: Some(vec![2, 3, 4, 5, 6]) },
            vec![
                0x5a, 0x00, 0x05, 0x76, 0x00, 0x01, 0x6e, 0x00, 0x00, 0x00, 0x04, 0x00, 0x00,
                0x00, 0x02, 0x00, 0x00, 0x00, 0x03, 0x00, 0x00, 0x00, 0x04, 0x00, 0x00, 0x00,
                0x05, 0x00, 0x00, 0x00, 0x06,
            ],
        ),
    ] {
        let mut s = ser();
        s.write_ref(&input).unwrap();
        assert_eq!(expected, s.into_vec(), "{:?}", input);
    }
}

#[test]
fn serialize_trace() {
    for (input, expected) in vec![
        (
            Trace(1, 2, 3, Pid { node: utf8("n"), num: 4, serial: 5, creation: 6 }, 7),
            vec![
                0x68, 0x05, 0x61, 0x01, 0x61, 0x02, 0x61, 0x03, 0x58, 0x76, 0x00, 0x01, 0x6e,
                0x00, 0x00, 0x00, 0x04, 0x00, 0x00, 0x00, 0x05, 0x00, 0x00, 0x00, 0x06, 0x61,
                0x07,
            ],
        ),
    ] {
        let mut s = ser();
        s.write_trace(&input).unwrap();
        assert_eq!(expected, s.into_vec(), "{:?}", input);
    }
}

#[test]
fn serialize_msg() {
    for (input, expected) in vec![
        (
            Msg::Send {
                cookie: utf8("c"),
                to: Pid { node: utf8("n"), num: 1, serial: 2, creation: 3 },
            },
            vec![
                0x68, 0x03, 0x61, 0x02, 0x76, 0x00, 0x01, 0x63, 0x67, 0x76, 0x00, 0x01, 0x6e,
                0x00, 0x00, 0x00, 0x01, 0x00, 0x00, 0x00, 0x02, 0x03,
            ],
        ),
        (
            Msg::SendTT {
                cookie: utf8("c"),
                to: Pid { node: utf8("n1"), num: 1, serial: 2, creation: 3 },
                token: Trace(
                    4,
                    5,
                    6,
                    Pid { node: utf8("n2"), num: 7, serial: 8, creation: 9 },
                    10,
                ),
            },
            vec![
                0x68, 0x04, 0x61, 0x0c, 0x76, 0x00, 0x01, 0x63, 0x67, 0x76, 0x00, 0x02, 0x6e,
                0x31, 0x00, 0x00, 0x00, 0x01, 0x00, 0x00, 0x00, 0x02, 0x03, 0x68, 0x05, 0x61,
                0x04, 0x61, 0x05, 0x61, 0x06, 0x58, 0x76, 0x00, 0x02, 0x6e, 0x32, 0x00, 0x00,
                0x00, 0x07, 0x00, 0x00, 0x00, 0x08, 0x00, 0x00, 0x00, 0x09, 0x61, 0x0a,
            ],
        ),
        (
            Msg::RegSend {
                from: Pid { node: utf8("n"), num: 1, serial: 2, creation: 3 },
                cookie: utf8("c"),
                toname: utf8("s"),
            },
            vec![
                0x68, 0x04, 0x61, 0x06, 0x67, 0x76, 0x00, 0x01, 0x6e, 0x00, 0x00, 0x00, 0x01,
                0x00, 0x00, 0x00, 0x02, 0x03, 0x76, 0x00, 0x01, 0x63, 0x76, 0x00, 0x01, 0x73,
            ],
        ),
        (
            Msg::RegSendTT {
                from: Pid { node: utf8("n1"), num: 1, serial: 2, creation: 3 },
                cookie: utf8("c"),
                toname: utf8("s"),
                token: Trace(
                    4,
                    5,
                    6,
                    Pid { node: utf8("n2"), num: 7, serial: 8, creation: 9 },
                    10,
                ),
            },
            vec![
                0x68, 0x05, 0x61, 0x10, 0x67, 0x76, 0x00, 0x02, 0x6e, 0x31, 0x00, 0x00, 0x00,
                0x01, 0x00, 0x00, 0x00, 0x02, 0x03, 0x76, 0x00, 0x01, 0x63, 0x76, 0x00, 0x01,
                0x73, 0x68, 0x05, 0x61, 0x04, 0x61, 0x05, 0x61, 0x06, 0x58, 0x76, 0x00, 0x02,
                0x6e, 0x32, 0x00, 0x00, 0x00, 0x07, 0x00, 0x00, 0x00, 0x08, 0x00, 0x00, 0x00,
                0x09, 0x61, 0x0a,
            ],
        ),
        (
            Msg::Exit {
                from: Pid { node: utf8("n1"), num: 1, serial: 2, creation: 3 },
                to: Pid { node: utf8("n2"), num: 4, serial: 5, creation: 6 },
                reason: b"any".to_vec(),
            },
            vec![
                0x68, 0x04, 0x61, 0x03, 0x67, 0x76, 0x00, 0x02, 0x6e, 0x31, 0x00, 0x00, 0x00,
                0x01, 0x00, 0x00, 0x00, 0x02, 0x03, 0x58, 0x76, 0x00, 0x02, 0x6e, 0x32, 0x00,
                0x00, 0x00, 0x04, 0x00, 0x00, 0x00, 0x05, 0x00, 0x00, 0x00, 0x06, 0x6b, 0x00,
                0x03, 0x61, 0x6e, 0x79,
            ],
        ),
        (
            Msg::ExitTT {
                from: Pid { node: utf8("n1"), num: 1, serial: 2, creation: 3 },
                to: Pid { node: utf8("n2"), num: 4, serial: 5, creation: 6 },
                token: Trace(
                    7,
                    8,
                    9,
                    Pid { node: utf8("n3"), num: 10, serial: 11, creation: 12 },
                    13,
                ),
                reason: b"any".to_vec(),
            },
            vec![
                0x68, 0x05, 0x61, 0x0d, 0x67, 0x76, 0x00, 0x02, 0x6e, 0x31, 0x00, 0x00, 0x00,
                0x01, 0x00, 0x00, 0x00, 0x02, 0x03, 0x58, 0x76, 0x00, 0x02, 0x6e, 0x32, 0x00,
                0x00, 0x00, 0x04, 0x00, 0x00, 0x00, 0x05, 0x00, 0x00, 0x00, 0x06, 0x68, 0x05,
                0x61, 0x07, 0x61, 0x08, 0x61, 0x09, 0x58, 0x76, 0x00, 0x02, 0x6e, 0x33, 0x00,
                0x00, 0x00, 0x0a, 0x00, 0x00, 0x00, 0x0b, 0x00, 0x00, 0x00, 0x0c, 0x61, 0x0d,
                0x6b, 0x00, 0x03, 0x61, 0x6e, 0x79,
            ],
        ),
    ] {
        let mut s = ser();
        s.write_msg(&input).unwrap();
        assert_eq!(expected, s.into_vec(), "{:?}", input);
    }
}
