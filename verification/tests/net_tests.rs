//! Big-endian primitive reads and writes.

use cnode::io::{Reader, Writer};

fn reader(v: Vec<u8>) -> Reader {
    Reader::new(v)
}

#[test]
fn read_u64() {
    for (expected, input) in vec![
        (0 as u64, vec![0x00, 0x00, 0x00, 0x00, 0x00, 0x00, 0x00, 0x00]),
        (1 as u64, vec![0x00, 0x00, 0x00, 0x00, 0x00, 0x00, 0x00, 0x01]),
        (18446744073709551615 as u64, vec![0xff, 0xff, 0xff, 0xff, 0xff, 0xff, 0xff, 0xff]),
    ] {
        assert_eq!(expected, reader(input).read_u64().unwrap());
    }
}

#[test]
fn read_u32() {
    for (expected, input) in vec![
        (0 as u32, vec![0x00, 0x00, 0x00, 0x00]),
        (1 as u32, vec![0x00, 0x00, 0x00, 0x01]),
        (4294967295 as u32, vec![0xff, 0xff, 0xff, 0xff]),
    ] {
        assert_eq!(expected, reader(input).read_u32().unwrap());
    }
}

#[test]
fn read_u16() {
    for (expected, input) in vec![
        (0 as u16, vec![0x00, 0x00]),
        (1 as u16, vec![0x00, 0x01]),
        (65535 as u16, vec![0xff, 0xff]),
    ] {
        assert_eq!(expected, reader(input).read_u16().unwrap());
    }
}

#[test]
fn read_u8() {
    for (expected, input) in vec![
        (0 as u8, vec![0x00]),
        (1 as u8, vec![0x01]),
        (255 as u8, vec![0xff]),
    ] {
        assert_eq!(expected, reader(input).read_u8().unwrap());
    }
}

#[test]
fn read_i64() {
    for (expected, input) in vec![
        (-9223372036854775808 as i64, vec![0x80, 0x00, 0x00, 0x00, 0x00, 0x00, 0x00, 0x00]),
        (-1 as i64, vec![0xff, 0xff, 0xff, 0xff, 0xff, 0xff, 0xff, 0xff]),
        (0 as i64, vec![0x00, 0x00, 0x00, 0x00, 0x00, 0x00, 0x00, 0x00]),
        (1 as i64, vec![0x00, 0x00, 0x00, 0x00, 0x00, 0x00, 0x00, 0x01]),
        (9223372036854775807 as i64, vec![0x7f, 0xff, 0xff, 0xff, 0xff, 0xff, 0xff, 0xff]),
    ] {
        assert_eq!(expected, reader(input).read_i64().unwrap());
    }
}

#[test]
fn read_i32() {
    for (expected, input) in vec![
        (-2147483648 as i32, vec![0x80, 0x00, 0x00, 0x00]),
        (-1 as i32, vec![0xff, 0xff, 0xff, 0xff]),
        (0 as i32, vec![0x00, 0x00, 0x00, 0x00]),
        (1 as i32, vec![0x00, 0x00, 0x00, 0x01]),
        (2147483647 as i32, vec![0x7f, 0xff, 0xff, 0xff]),
    ] {
        assert_eq!(expected, reader(input).read_i32().unwrap());
    }
}

#[test]
fn read_i16() {
    for (expected, input) in vec![
        (-32768 as i16, vec![0x80, 0x00]),
        (-1 as i16, vec![0xff, 0xff]),
        (0 as i16, vec![0x00, 0x00]),
        (1 as i16, vec![0x00, 0x01]),
        (32767 as i16, vec![0x7f, 0xff]),
    ] {
        assert_eq!(expected, reader(input).read_i16().unwrap());
    }
}

#[test]
fn read_i8() {
    for (expected, input) in vec![
        (-128 as i8, vec![0x80]),
        (-1 as i8, vec![0xff]),
        (0 as i8, vec![0x00]),
        (1 as i8, vec![0x01]),
        (127 as i8, vec![0x7f]),
    ] {
        assert_eq!(expected, reader(input).read_i8().unwrap());
    }
}

#[test]
fn read_f64() {
    for (expected, input) in vec![
        (-1.0 as f64, vec![0xbf, 0xf0, 0x00, 0x00, 0x00, 0x00, 0x00, 0x00]),
        (-0.0 as f64, vec![0x00, 0x00, 0x00, 0x00, 0x00, 0x00, 0x00, 0x00]),
        (0.0 as f64, vec![0x00, 0x00, 0x00, 0x00, 0x00, 0x00, 0x00, 0x00]),
        (1.0 as f64, vec![0x3f, 0xf0, 0x00, 0x00, 0x00, 0x00, 0x00, 0x00]),
    ] {
        assert_eq!(expected, f64::from_bits(reader(input).read_u64().unwrap()));
    }
}

#[test]
fn read_f32() {
    for (expected, input) in vec![
        (-1.0 as f32, vec![0xbf, 0x80, 0x00, 0x00]),
        (-0.0 as f32, vec![0x80, 0x00, 0x00, 0x00]),
        (0.0 as f32, vec![0x00, 0x00, 0x00, 0x00]),
        (1.0 as f32, vec![0x3f, 0x80, 0x00, 0x00]),
    ] {
        assert_eq!(expected, f32::from_bits(reader(input).read_u32().unwrap()));
    }
}

#[test]
fn write_u64() {
    for (input, expected) in vec![
        (0 as u64, vec![0x00, 0x00, 0x00, 0x00, 0x00, 0x00, 0x00, 0x00]),
        (1 as u64, vec![0x00, 0x00, 0x00, 0x00, 0x00, 0x00, 0x00, 0x01]),
        (18446744073709551615 as u64, vec![0xff, 0xff, 0xff, 0xff, 0xff, 0xff, 0xff, 0xff]),
    ] {
        let mut output = Writer::new();
        output.write_u64(input).unwrap();
        assert_eq!(expected, output.into_vec());
    }
}

#[test]
fn write_u32() {
    for (input, expected) in vec![
        (0 as u32, vec![0x00, 0x00, 0x00, 0x00]),
        (1 as u32, vec![0x00, 0x00, 0x00, 0x01]),
        (4294967295 as u32, vec![0xff, 0xff, 0xff, 0xff]),
    ] {
        let mut output = Writer::new();
        output.write_u32(input).unwrap();
        assert_eq!(expected, output.into_vec());
    }
}

#[test]
fn write_u16() {
    for (input, expected) in vec![
        (0 as u16, vec![0x00, 0x00]),
        (1 as u16, vec![0x00, 0x01]),
        (65535 as u16, vec![0xff, 0xff]),
    ] {
        let mut output = Writer::new();
        output.write_u16(input).unwrap();
        assert_eq!(expected, output.into_vec());
    }
}

#[test]
fn write_u8() {
    for (input, expected) in vec![
        (0 as u8, vec![0x00]),
        (1 as u8, vec![0x01]),
        (255 as u8, vec![0xff]),
    ] {
        let mut output = Writer::new();
        output.write_u8(input).unwrap();
        assert_eq!(expected, output.into_vec());
    }
}

#[test]
fn write_i64() {
    for (input, expected) in vec![
        (-9223372036854775808 as i64, vec![0x80, 0x00, 0x00, 0x00, 0x00, 0x00, 0x00, 0x00]),
        (-1 as i64, vec![0xff, 0xff, 0xff, 0xff, 0xff, 0xff, 0xff, 0xff]),
        (0 as i64, vec![0x00, 0x00, 0x00, 0x00, 0x00, 0x00, 0x00, 0x00]),
        (1 as i64, vec![0x00, 0x00, 0x00, 0x00, 0x00, 0x00, 0x00, 0x01]),
        (9223372036854775807 as i64, vec![0x7f, 0xff, 0xff, 0xff, 0xff, 0xff, 0xff, 0xff]),
    ] {
        let mut output = Writer::new();
        output.write_i64(input).unwrap();
        assert_eq!(expected, output.into_vec());
    }
}

#[test]
fn write_i32() {
    for (input, expected) in vec![
        (-2147483648 as i32, vec![0x80, 0x00, 0x00, 0x00]),
        (-1 as i32, vec![0xff, 0xff, 0xff, 0xff]),
        (0 as i32, vec![0x00, 0x00, 0x00, 0x00]),
        (1 as i32, vec![0x00, 0x00, 0x00, 0x01]),
        (2147483647 as i32, vec![0x7f, 0xff, 0xff, 0xff]),
    ] {
        let mut output = Writer::new();
        output.write_i32(input).unwrap();
        assert_eq!(expected, output.into_vec());
    }
}

#[test]
fn write_i16() {
    for (input, expected) in vec![
        (-32768 as i16, vec![0x80, 0x00]),
        (-1 as i16, vec![0xff, 0xff]),
        (0 as i16, vec![0x00, 0x00]),
        (1 as i16, vec![0x00, 0x01]),
        (32767 as i16, vec![0x7f, 0xff]),
    ] {
        let mut output = Writer::new();
        output.write_i16(input).unwrap();
        assert_eq!(expected, output.into_vec());
    }
}

#[test]
fn write_i8() {
    for (input, expected) in vec![
        (-128 as i8, vec![0x80]),
        (-1 as i8, vec![0xff]),
        (0 as i8, vec![0x00]),
        (1 as i8, vec![0x01]),
        (127 as i8, vec![0x7f]),
    ] {
        let mut output = Writer::new();
        output.write_i8(input).unwrap();
        assert_eq!(expected, output.into_vec());
    }
}

#[test]
fn write_f64() {
    for (input, expected) in vec![
        (-1.0 as f64, vec![0xbf, 0xf0, 0x00, 0x00, 0x00, 0x00, 0x00, 0x00]),
        (-0.0 as f64, vec![0x80, 0x00, 0x00, 0x00, 0x00, 0x00, 0x00, 0x00]),
        (0.0 as f64, vec![0x00, 0x00, 0x00, 0x00, 0x00, 0x00, 0x00, 0x00]),
        (1.0 as f64, vec![0x3f, 0xf0, 0x00, 0x00, 0x00, 0x00, 0x00, 0x00]),
    ] {
        let mut output = Writer::new();
        output.write_u64(input.to_bits()).unwrap();
        assert_eq!(expected, output.into_vec());
    }
}

#[test]
fn write_f32() {
    for (input, expected) in vec![
        (-1.0 as f32, vec![0xbf, 0x80, 0x00, 0x00]),
        (-0.0 as f32, vec![0x80, 0x00, 0x00, 0x00]),
        (0.0 as f32, vec![0x00, 0x00, 0x00, 0x00]),
        (1.0 as f32, vec![0x3f, 0x80, 0x00, 0x00]),
    ] {
        let mut output = Writer::new();
        output.write_u32(input.to_bits()).unwrap();
        assert_eq!(expected, output.into_vec());
    }
}
