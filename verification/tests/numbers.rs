use orbit::bytes::to_le_bytes;
use orbit::usizebuf::{decimal_digits, usize_to_str, UsizeBuf, FmtError};

#[test]
fn usize_to_str_writes_decimal() {
    let mut buf = [b'x'; 8];
    assert_eq!(usize_to_str(1234, &mut buf), Some("1234"));
    assert_eq!(&buf[4..], b"xxxx");
    let mut zero = [0u8; 1];
    assert_eq!(usize_to_str(0, &mut zero), Some("0"));
}

#[test]
fn usize_to_str_refuses_short_buffer() {
    let mut buf = [b'x'; 3];
    assert_eq!(usize_to_str(1234, &mut buf), None);
    assert_eq!(&buf, b"xxx");
}

#[test]
fn decimal_digits_match_format() {
    for n in [0usize, 7, 10, 99, 100, 65535, usize::MAX] {
        assert_eq!(decimal_digits(n), format!("{}", n).into_bytes());
    }
}

#[test]
fn usizebuf_appends_until_full() {
    let mut buf = [0u8; 5];
    let mut w = UsizeBuf::new(&mut buf);
    assert_eq!(w.write_str("ab"), Ok(()));
    assert_eq!(w.write_str("cde"), Ok(()));
    assert_eq!(w.write_str("f"), Err(FmtError));
    drop(w);
    assert_eq!(&buf, b"abcde");
}

#[test]
fn little_endian_bytes() {
    let b = to_le_bytes(0x0102usize);
    assert_eq!(b, 0x0102usize.to_le_bytes().to_vec());
}
