//! Decoding ETF terms from byte vectors.

use std::collections::HashMap;

use cnode::de::Deserializer;
use cnode::error::Error;
use cnode::io::Reader;
use cnode::term::{Atom, Msg, Pid, Port, Ref, Trace};

fn de(v: Vec<u8>) -> Deserializer {
    Deserializer::new(Reader::new(v))
}

fn latin1(s: &str) -> Atom {
    Atom::Latin1(s.as_bytes().to_vec())
}

fn read_u8_list(d: &mut Deserializer) -> Result<Vec<u8>, Error> {
    match d.read_list_header()? {
        None => Ok(vec![]),
        Some(n) => {
            let mut out = Vec::new();
            for _ in 0..n {
                out.push(d.read_u8()?);
            }
            d.read_unit()?;
            Ok(out)
        }
    }
}

#[test]
fn decode_u64() {
    for (expected, input) in vec![
        (0 as u64, vec![0x61, 0x00]),
        (1 as u64, vec![0x61, 0x01]),
        (255 as u64, vec![0x61, 0xff]),
        (256 as u64, vec![0x62, 0x00, 0x00, 0x01, 0x00]),
        (134217727 as u64, vec![0x62, 0x07, 0xff, 0xff, 0xff]),
        (134217728 as u64, vec![0x6e, 0x04, 0x00, 0x00, 0x00, 0x00, 0x08]),
        (
            18446744073709551615 as u64,
            vec![0x6e, 0x08, 0x00, 0xff, 0xff, 0xff, 0xff, 0xff, 0xff, 0xff, 0xff],
        ),
    ] {
        assert_eq!(expected, de(input.clone()).read_u64().unwrap(), "{:?}", input);
    }
    for (expected, input) in vec![
        (
            "18446744073709551616",
            vec![0x6e, 0x09, 0x00, 0x00, 0x00, 0x00, 0x00, 0x00, 0x00, 0x00, 0x00, 0x01],
        ),
    ] {
        assert!(de(input).read_u64().is_err(), "{}", expected);
    }
}

#[test]
fn decode_u32() {
    for (expected, input) in vec![
        (0 as u32, vec![0x61, 0x00]),
        (1 as u32, vec![0x61, 0x01]),
        (255 as u32, vec![0x61, 0xff]),
        (256 as u32, vec![0x62, 0x00, 0x00, 0x01, 0x00]),
        (134217727 as u32, vec![0x62, 0x07, 0xff, 0xff, 0xff]),
        (134217728 as u32, vec![0x6e, 0x04, 0x00, 0x00, 0x00, 0x00, 0x08]),
        (4294967295 as u32, vec![0x6e, 0x04, 0x00, 0xff, 0xff, 0xff, 0xff]),
    ] {
        assert_eq!(expected, de(input.clone()).read_u32().unwrap(), "{:?}", input);
    }
    for (expected, input) in vec![
        ("4294967296", vec![0x6e, 0x05, 0x00, 0x00, 0x00, 0x00, 0x00, 0x01]),
    ] {
        assert!(de(input).read_u32().is_err(), "{}", expected);
    }
}

#[test]
fn decode_u16() {
    for (expected, input) in vec![
        (0 as u16, vec![0x61, 0x00]),
        (1 as u16, vec![0x61, 0x01]),
        (255 as u16, vec![0x61, 0xff]),
        (256 as u16, vec![0x62, 0x00, 0x00, 0x01, 0x00]),
        (65535 as u16, vec![0x62, 0x00, 0x00, 0xff, 0xff]),
    ] {
        assert_eq!(expected, de(input.clone()).read_u16().unwrap(), "{:?}", input);
    }
    for (expected, input) in vec![("65536", vec![0x62, 0x00, 0x01, 0x00, 0x00])] {
        assert!(de(input).read_u16().is_err(), "{}", expected);
    }
}

#[test]
fn decode_u8() {
    for (expected, input) in vec![
        (0 as u8, vec![0x61, 0x00]),
        (1 as u8, vec![0x61, 0x01]),
        (255 as u8, vec![0x61, 0xff]),
    ] {
        assert_eq!(expected, de(input.clone()).read_u8().unwrap(), "{:?}", input);
    }
    for (expected, input) in vec![("256", vec![0x62, 0x00, 0x00, 0x01, 0x00])] {
        assert!(de(input).read_u8().is_err(), "{}", expected);
    }
}

#[test]
fn decode_i64() {
    for (expected, input) in vec![
        (
            -9223372036854775807 as i64,
            vec![0x6e, 0x08, 0x01, 0xff, 0xff, 0xff, 0xff, 0xff, 0xff, 0xff, 0x7f],
        ),
        (-134217729 as i64, vec![0x6e, 0x04, 0x01, 0x01, 0x00, 0x00, 0x08]),
        (-134217728 as i64, vec![0x62, 0xf8, 0x00, 0x00, 0x00]),
        (-1 as i64, vec![0x62, 0xff, 0xff, 0xff, 0xff]),
        (0 as i64, vec![0x61, 0x00]),
        (1 as i64, vec![0x61, 0x01]),
        (255 as i64, vec![0x61, 0xff]),
        (256 as i64, vec![0x62, 0x00, 0x00, 0x01, 0x00]),
        (134217727 as i64, vec![0x62, 0x07, 0xff, 0xff, 0xff]),
        (134217728 as i64, vec![0x6e, 0x04, 0x00, 0x00, 0x00, 0x00, 0x08]),
        (
            9223372036854775807 as i64,
            vec![0x6e, 0x08, 0x00, 0xff, 0xff, 0xff, 0xff, 0xff, 0xff, 0xff, 0x7f],
        ),
    ] {
        assert_eq!(expected, de(input.clone()).read_i64().unwrap(), "{:?}", input);
    }
    for (expected, input) in vec![
        (
            "-9223372036854775809",
            vec![0x6e, 0x09, 0x01, 0xff, 0xff, 0xff, 0xff, 0xff, 0xff, 0xff, 0xf7, 0xff],
        ),
        (
            "-9223372036854775808",
            vec![0x6e, 0x08, 0x01, 0x00, 0x00, 0x00, 0x00, 0x00, 0x00, 0x00, 0x80],
        ),
        (
            "9223372036854775808",
            vec![0x6e, 0x09, 0x00, 0x00, 0x00, 0x00, 0x00, 0x00, 0x00, 0x00, 0x80, 0x00],
        ),
    ] {
        assert!(de(input).read_i64().is_err(), "{}", expected);
    }
}

#[test]
fn decode_i32() {
    for (expected, input) in vec![
        (-2147483647 as i32, vec![0x6e, 0x04, 0x01, 0xff, 0xff, 0xff, 0x7f]),
        (-134217729 as i32, vec![0x6e, 0x04, 0x01, 0x01, 0x00, 0x00, 0x08]),
        (-134217728 as i32, vec![0x62, 0xf8, 0x00, 0x00, 0x00]),
        (-1 as i32, vec![0x62, 0xff, 0xff, 0xff, 0xff]),
        (0 as i32, vec![0x61, 0x00]),
        (1 as i32, vec![0x61, 0x01]),
        (255 as i32, vec![0x61, 0xff]),
        (256 as i32, vec![0x62, 0x00, 0x00, 0x01, 0x00]),
        (134217727 as i32, vec![0x62, 0x07, 0xff, 0xff, 0xff]),
        (134217728 as i32, vec![0x6e, 0x04, 0x00, 0x00, 0x00, 0x00, 0x08]),
        (2147483647 as i32, vec![0x6e, 0x04, 0x00, 0xff, 0xff, 0xff, 0x7f]),
    ] {
        assert_eq!(expected, de(input.clone()).read_i32().unwrap(), "{:?}", input);
    }
    for (expected, input) in vec![
        ("-2147483649", vec![0x6e, 0x05, 0x01, 0xff, 0xff, 0xff, 0x7f, 0xff]),
        ("-2147483648", vec![0x6e, 0x05, 0x01, 0x00, 0x00, 0x00, 0x80, 0x00]),
        ("2147483648", vec![0x6e, 0x05, 0x00, 0x00, 0x00, 0x00, 0x80, 0x00]),
    ] {
        assert!(de(input).read_i32().is_err(), "{}", expected);
    }
}

#[test]
fn decode_i16() {
    for (expected, input) in vec![
        (-32768 as i16, vec![0x62, 0xff, 0xff, 0x80, 0x00]),
        (-1 as i16, vec![0x62, 0xff, 0xff, 0xff, 0xff]),
        (0 as i16, vec![0x61, 0x00]),
        (1 as i16, vec![0x61, 0x01]),
        (255 as i16, vec![0x61, 0xff]),
        (256 as i16, vec![0x62, 0x00, 0x00, 0x01, 0x00]),
        (32767 as i16, vec![0x62, 0x00, 0x00, 0x7f, 0xff]),
    ] {
        assert_eq!(expected, de(input.clone()).read_i16().unwrap(), "{:?}", input);
    }
    for (expected, input) in vec![
        ("-32769", vec![0x62, 0xff, 0xff, 0x7f, 0xff]),
        ("32768", vec![0x62, 0x00, 0x00, 0x80, 0x00]),
    ] {
        assert!(de(input).read_i16().is_err(), "{}", expected);
    }
}

#[test]
fn decode_i8() {
    for (expected, input) in vec![
        (-128 as i8, vec![0x62, 0xff, 0xff, 0xff, 0x80]),
        (-1 as i8, vec![0x62, 0xff, 0xff, 0xff, 0xff]),
        (0 as i8, vec![0x61, 0x00]),
        (1 as i8, vec![0x61, 0x01]),
        (127 as i8, vec![0x61, 0x7f]),
    ] {
        assert_eq!(expected, de(input.clone()).read_i8().unwrap(), "{:?}", input);
    }
    for (expected, input) in vec![
        ("-129", vec![0x62, 0xff, 0xff, 0xff, 0x7f]),
        ("128", vec![0x61, 0x80]),
    ] {
        assert!(de(input).read_i8().is_err(), "{}", expected);
    }
}

#[test]
fn decoder_encode_bool() {
    for (expected, input) in vec![
        (true, vec![0x64, 0x00, 0x04, 0x74, 0x72, 0x75, 0x65]),
        (false, vec![0x64, 0x00, 0x05, 0x66, 0x61, 0x6c, 0x73, 0x65]),
    ] {
        assert_eq!(expected, de(input.clone()).read_bool().unwrap(), "{:?}", input);
    }
}

#[test]
fn decode_f64() {
    for (expected, input) in vec![
        (-1.0 as f64, vec![0x46, 0xbf, 0xf0, 0x00, 0x00, 0x00, 0x00, 0x00, 0x00]),
        (-0.0 as f64, vec![0x46, 0x80, 0x00, 0x00, 0x00, 0x00, 0x00, 0x00, 0x00]),
        (0.0 as f64, vec![0x46, 0x00, 0x00, 0x00, 0x00, 0x00, 0x00, 0x00, 0x00]),
        (1.0 as f64, vec![0x46, 0x3f, 0xf0, 0x00, 0x00, 0x00, 0x00, 0x00, 0x00]),
    ] {
        assert_eq!(
            expected,
            f64::from_bits(de(input.clone()).read_f64_bits().unwrap()),
            "{:?}",
            input
        );
    }
}

#[test]
fn decode_str() {
    for (expected, input) in vec![
        ("", vec![0x6a]),
        ("hello", vec![0x6b, 0x00, 0x05, 0x68, 0x65, 0x6c, 0x6c, 0x6f]),
    ] {
        assert_eq!(
            expected.as_bytes().to_vec(),
            de(input.clone()).read_str().unwrap(),
            "{:?}",
            input
        );
    }
}

#[test]
fn decode_tuple() {
    {
        let mut d = de(vec![0x6a]);
        assert!(d.read_unit().is_ok());
    }
    {
        let mut d = de(vec![0x68, 0x01, 0x61, 0x01]);
        assert_eq!(1, d.read_tuple().unwrap());
        assert_eq!(1, d.read_u8().unwrap());
    }
    {
        let mut d = de(vec![0x68, 0x02, 0x61, 0x01, 0x64, 0x00, 0x04, 0x74, 0x72, 0x75, 0x65]);
        assert_eq!(2, d.read_tuple().unwrap());
        assert_eq!((1, true), (d.read_u8().unwrap(), d.read_bool().unwrap()));
    }
}

#[test]
fn decode_seq() {
    for (expected, input) in vec![
        (vec![], vec![0x6a]),
        (vec![1], vec![0x6c, 0x00, 0x00, 0x00, 0x01, 0x61, 0x01, 0x6a]),
    ] {
        let mut d = de(input.clone());
        assert_eq!(expected, read_u8_list(&mut d).unwrap(), "{:?}", input);
    }
}

#[test]
fn decode_map() {
    let mut map: HashMap<u8, u8> = HashMap::new();

    map.clear();
    {
        let mut d = de(vec![0x74, 0x00, 0x00, 0x00, 0x00]);
        let n = d.read_map_header().unwrap();
        let mut actual = HashMap::new();
        for _ in 0..n {
            let k = d.read_u8().unwrap();
            let v = d.read_u8().unwrap();
            actual.insert(k, v);
        }
        assert_eq!(map, actual);
    }

    map.clear();
    map.insert(1, 2);
    {
        let mut d = de(vec![0x74, 0x00, 0x00, 0x00, 0x01, 0x61, 0x01, 0x61, 0x02]);
        let n = d.read_map_header().unwrap();
        let mut actual = HashMap::new();
        for _ in 0..n {
            let k = d.read_u8().unwrap();
            let v = d.read_u8().unwrap();
            actual.insert(k, v);
        }
        assert_eq!(map, actual);
    }
}

#[test]
fn decode_atom() {
    for (expected, input) in vec![
        (latin1("true"), vec![0x64, 0x00, 0x04, 0x74, 0x72, 0x75, 0x65]),
        (latin1("false"), vec![0x64, 0x00, 0x05, 0x66, 0x61, 0x6c, 0x73, 0x65]),
        (Atom::UTF8(b"n1".to_vec()), vec![0x76, 0x00, 0x02, 0x6e, 0x31]),
        (Atom::UTF8Small(b"n1".to_vec()), vec![0x77, 0x02, 0x6e, 0x31]),
    ] {
        assert_eq!(expected, de(input.clone()).read_atom().unwrap(), "{:?}", input);
    }
}

#[test]
fn decode_msg() {
    for (expected, input) in vec![
        (
            Msg::Send {
                cookie: Atom::UTF8Small(b"".to_vec()),
                to: Pid {
                    node: latin1("n1"),
                    num: 0x00007fff,
                    serial: 0x00001fff,
                    creation: 0x00000003,
                },
            },
            vec![
                0x68, 0x03, 0x61, 0x02, 0x77, 0x00, 0x67, 0x64, 0x00, 0x02, 0x6e, 0x31, 0x00,
                0x00, 0x7f, 0xff, 0x00, 0x00, 0x1f, 0xff, 0x03,
            ],
        ),
        (
            Msg::SendTT {
                cookie: Atom::UTF8Small(b"".to_vec()),
                to: Pid {
                    node: latin1("n1"),
                    num: 0x00007fff,
                    serial: 0x00001fff,
                    creation: 0x00000003,
                },
                token: Trace(
                    1,
                    2,
                    4,
                    Pid { node: latin1("n1"), num: 1, serial: 2, creation: 4 },
                    8,
                ),
            },
            vec![
                0x68, 0x04, 0x61, 0x0c, 0x77, 0x00, 0x67, 0x64, 0x00, 0x02, 0x6e, 0x31, 0x00,
                0x00, 0x7f, 0xff, 0x00, 0x00, 0x1f, 0xff, 0x03, 0x68, 0x05, 0x61, 0x01, 0x61,
                0x02, 0x61, 0x04, 0x58, 0x64, 0x00, 0x02, 0x6e, 0x31, 0x00, 0x00, 0x00, 0x01,
                0x00, 0x00, 0x00, 0x02, 0x00, 0x00, 0x00, 0x04, 0x61, 0x08,
            ],
        ),
        (
            Msg::RegSend {
                from: Pid {
                    node: latin1("n1"),
                    num: 0x00007fff,
                    serial: 0x00001fff,
                    creation: 0x00000003,
                },
                cookie: Atom::UTF8Small(b"".to_vec()),
                toname: Atom::UTF8Small(b"any".to_vec()),
            },
            vec![
                0x68, 0x04, 0x61, 0x06, 0x67, 0x64, 0x00, 0x02, 0x6e, 0x31, 0x00, 0x00, 0x7f,
                0xff, 0x00, 0x00, 0x1f, 0xff, 0x03, 0x77, 0x00, 0x77, 0x03, 0x61, 0x6e, 0x79,
            ],
        ),
        (
            Msg::RegSendTT {
                from: Pid {
                    node: latin1("n1"),
                    num: 0x00007fff,
                    serial: 0x00001fff,
                    creation: 0x00000003,
                },
                cookie: Atom::UTF8Small(b"".to_vec()),
                toname: Atom::UTF8Small(b"any".to_vec()),
                token: Trace(
                    1,
                    2,
                    4,
                    Pid { node: latin1("n1"), num: 1, serial: 2, creation: 4 },
                    8,
                ),
            },
            vec![
                0x68, 0x05, 0x61, 0x10, 0x67, 0x64, 0x00, 0x02, 0x6e, 0x31, 0x00, 0x00, 0x7f,
                0xff, 0x00, 0x00, 0x1f, 0xff, 0x03, 0x77, 0x00, 0x77, 0x03, 0x61, 0x6e, 0x79,
                0x68, 0x05, 0x61, 0x01, 0x61, 0x02, 0x61, 0x04, 0x58, 0x64, 0x00, 0x02, 0x6e,
                0x31, 0x00, 0x00, 0x00, 0x01, 0x00, 0x00, 0x00, 0x02, 0x00, 0x00, 0x00, 0x04,
                0x61, 0x08,
            ],
        ),
        (
            Msg::Exit {
                from: Pid {
                    node: latin1("n1"),
                    num: 0x00007fff,
                    serial: 0x00001fff,
                    creation: 0x00000003,
                },
                to: Pid {
                    node: latin1("r1"),
                    num: 0x00007fff,
                    serial: 0x00001fff,
                    creation: 0x00000003,
                },
                reason: b"any".to_vec(),
            },
            vec![
                0x68, 0x04, 0x61, 0x03, 0x67, 0x64, 0x00, 0x02, 0x6e, 0x31, 0x00, 0x00, 0x7f,
                0xff, 0x00, 0x00, 0x1f, 0xff, 0x03, 0x67, 0x64, 0x00, 0x02, 0x72, 0x31, 0x00,
                0x00, 0x7f, 0xff, 0x00, 0x00, 0x1f, 0xff, 0x03, 0x6b, 0x00, 0x03, 0x61, 0x6e,
                0x79,
            ],
        ),
        (
            Msg::ExitTT {
                from: Pid {
                    node: latin1("n1"),
                    num: 0x00007fff,
                    serial: 0x00001fff,
                    creation: 0x00000003,
                },
                to: Pid {
                    node: latin1("r1"),
                    num: 0x00007fff,
                    serial: 0x00001fff,
                    creation: 0x00000003,
                },
                token: Trace(
                    1,
                    2,
                    4,
                    Pid { node: latin1("n1"), num: 1, serial: 2, creation: 4 },
                    8,
                ),
                reason: b"any".to_vec(),
            },
            vec![
                0x68, 0x05, 0x61, 0x0d, 0x67, 0x64, 0x00, 0x02, 0x6e, 0x31, 0x00, 0x00, 0x7f,
                0xff, 0x00, 0x00, 0x1f, 0xff, 0x03, 0x67, 0x64, 0x00, 0x02, 0x72, 0x31, 0x00,
                0x00, 0x7f, 0xff, 0x00, 0x00, 0x1f, 0xff, 0x03, 0x68, 0x05, 0x61, 0x01, 0x61,
                0x02, 0x61, 0x04, 0x58, 0x64, 0x00, 0x02, 0x6e, 0x31, 0x00, 0x00, 0x00, 0x01,
                0x00, 0x00, 0x00, 0x02, 0x00, 0x00, 0x00, 0x04, 0x61, 0x08, 0x6b, 0x00, 0x03,
                0x61, 0x6e, 0x79,
            ],
        ),
    ] {
        assert_eq!(expected, de(input.clone()).read_msg().unwrap(), "{:?}", input);
    }
}

#[test]
fn decode_pid() {
    for (expected, input) in vec![
        (
            Pid {
                node: latin1("n1"),
                num: 0x00007fff,
                serial: 0x00001fff,
                creation: 0x00000003,
            },
            vec![
                0x67, 0x64, 0x00, 0x02, 0x6e, 0x31, 0xff, 0xff, 0xff, 0xff, 0xff, 0xff, 0xff,
                0xff, 0x03,
            ],
        ),
        // The new tag carries full-width fields; nothing is masked.
        (
            Pid {
                node: latin1("n1"),
                num: 0xffffffff,
                serial: 0xffffffff,
                creation: 0x00000004,
            },
            vec![
                0x58, 0x64, 0x00, 0x02, 0x6e, 0x31, 0xff, 0xff, 0xff, 0xff, 0xff, 0xff, 0xff,
                0xff, 0x00, 0x00, 0x00, 0x04,
            ],
        ),
    ] {
        assert_eq!(expected, de(input.clone()).read_pid().unwrap(), "{:?}", input);
    }
}

#[test]
fn decode_port() {
    for (expected, input) in vec![
        (
            Port::NewPort { node: latin1("n1"), id: 0x0fffffff, creation: 0x00000003 },
            vec![0x66, 0x64, 0x00, 0x02, 0x6e, 0x31, 0xff, 0xff, 0xff, 0xff, 0x03],
        ),
        // The new tag carries a full-width id; nothing is masked.
        (
            Port::NewPort { node: latin1("n1"), id: 0xffffffff, creation: 0x00000004 },
            vec![
                0x59, 0x64, 0x00, 0x02, 0x6e, 0x31, 0xff, 0xff, 0xff, 0xff, 0x00, 0x00, 0x00,
                0x04,
            ],
        ),
    ] {
        assert_eq!(expected, de(input.clone()).read_port().unwrap(), "{:?}", input);
    }
}

#[test]
fn decode_ref() {
    for (expected, input) in vec![
        (
            Ref { len: 0, node: latin1("n1"), creation: 3, n: None },
            vec![0x72, 0x00, 0x00, 0x64, 0x00, 0x02, 0x6e, 0x31, 0x03],
        ),
        (
            Ref { len: 1, node: latin1("n1"), creation: 3, n: Some(vec![10]) },
            vec![
                0x72, 0x00, 0x01, 0x64, 0x00, 0x02, 0x6e, 0x31, 0x03, 0x00, 0x00, 0x00, 0x0a,
            ],
        ),
        (
            Ref { len: 3, node: latin1("n1"), creation: 3, n: Some(vec![10, 11, 12]) },
            vec![
                0x72, 0x00, 0x03, 0x64, 0x00, 0x02, 0x6e, 0x31, 0x03, 0x00, 0x00, 0x00, 0x0a,
                0x00, 0x00, 0x00, 0x0b, 0x00, 0x00, 0x00, 0x0c,
            ],
        ),
        (
            Ref { len: 0, node: latin1("n1"), creation: 4, n: None },
            vec![0x5a, 0x00, 0x00, 0x64, 0x00, 0x02, 0x6e, 0x31, 0x00, 0x00, 0x00, 0x04],
        ),
    ] {
        assert_eq!(expected, de(input.clone()).read_ref().unwrap(), "{:?}", input);
    }
}

#[test]
fn decode_trace() {
    for (expected, input) in vec![
        (
            Trace(1, 2, 4, Pid { node: latin1("n1"), num: 1, serial: 2, creation: 4 }, 8),
            vec![
                0x68, 0x05, 0x61, 0x01, 0x61, 0x02, 0x61, 0x04, 0x58, 0x64, 0x00, 0x02, 0x6e,
                0x31, 0x00, 0x00, 0x00, 0x01, 0x00, 0x00, 0x00, 0x02, 0x00, 0x00, 0x00, 0x04,
                0x61, 0x08,
            ],
        ),
    ] {
        assert_eq!(expected, de(input.clone()).read_trace().unwrap(), "{:?}", input);
    }
}
