use member_auth::decimal::{read_decimal, write_decimal};

#[test]
fn write_decimal_gives_canonical_text() {
    assert_eq!(write_decimal(0), b"0".to_vec());
    assert_eq!(write_decimal(7), b"7".to_vec());
    assert_eq!(write_decimal(10), b"10".to_vec());
    assert_eq!(write_decimal(-1), b"-1".to_vec());
    assert_eq!(write_decimal(1_700_000_060_000_000_000), b"1700000060000000000".to_vec());
    assert_eq!(
        write_decimal(i128::MAX),
        b"170141183460469231731687303715884105727".to_vec()
    );
    assert_eq!(
        write_decimal(i128::MIN),
        b"-170141183460469231731687303715884105728".to_vec()
    );
}

#[test]
fn read_decimal_reads_canonical_text() {
    assert_eq!(read_decimal(b"0"), Some(0));
    assert_eq!(read_decimal(b"9"), Some(9));
    assert_eq!(read_decimal(b"120"), Some(120));
    assert_eq!(read_decimal(b"-120"), Some(-120));
    assert_eq!(
        read_decimal(b"170141183460469231731687303715884105727"),
        Some(i128::MAX)
    );
    assert_eq!(
        read_decimal(b"-170141183460469231731687303715884105728"),
        Some(i128::MIN)
    );
}

#[test]
fn read_decimal_rejects_text_that_is_not_canonical() {
    for bad in [
        &b""[..],
        b"-",
        b"+1",
        b"00",
        b"01",
        b"-0",
        b"-01",
        b"1 ",
        b" 1",
        b"1a",
        b"a",
        b"--1",
        b"1-",
        b"1.0",
        b"\xff",
    ] {
        assert_eq!(read_decimal(bad), None, "{:?}", bad);
    }
}

#[test]
fn read_decimal_rejects_what_an_i128_cannot_hold() {
    assert_eq!(read_decimal(b"170141183460469231731687303715884105728"), None);
    assert_eq!(read_decimal(b"-170141183460469231731687303715884105729"), None);
    assert_eq!(read_decimal(b"999999999999999999999999999999999999999"), None);
    assert_eq!(read_decimal(b"1000000000000000000000000000000000000000"), None);
    assert_eq!(
        read_decimal(b"-100000000000000000000000000000000000000000000000000"),
        None
    );
}

#[test]
fn read_decimal_inverts_write_decimal() {
    let mut v: i128 = 1;
    for _ in 0..126 {
        for candidate in [v, -v, v - 1, 1 - v, v + 1] {
            assert_eq!(read_decimal(&write_decimal(candidate)), Some(candidate));
        }
        v *= 2;
    }
}
