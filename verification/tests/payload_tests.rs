use member_auth::model::{Subject, Token};
use member_auth::payload::{read_payload, write_payload, SEPARATOR};
use member_auth::time::Timestamp;

fn token(name: &str, nanos: i128) -> Token {
    Token::new(Subject::new(name.to_string()), Timestamp::from_nanos(nanos))
}

#[test]
fn write_payload_gives_expiry_colon_username() {
    assert_eq!(SEPARATOR, b':');
    assert_eq!(
        write_payload(&token("alice", 1_700_000_060_000_000_000)),
        b"1700000060000000000:alice".to_vec()
    );
    assert_eq!(write_payload(&token("", 0)), b"0:".to_vec());
    assert_eq!(write_payload(&token("a:b", -3)), b"-3:a:b".to_vec());
    assert_eq!(write_payload(&token("zo\u{eb}", 12)), b"12:zo\xc3\xab".to_vec());
}

#[test]
fn read_payload_reads_a_record() {
    assert_eq!(
        read_payload(b"1700000060000000000:alice"),
        Some(token("alice", 1_700_000_060_000_000_000))
    );
    assert_eq!(read_payload(b"0:"), Some(token("", 0)));
    assert_eq!(read_payload(b"-3:a:b"), Some(token("a:b", -3)));
    assert_eq!(read_payload(b"12:zo\xc3\xab"), Some(token("zo\u{eb}", 12)));
    assert_eq!(read_payload(b"5::"), Some(token(":", 5)));
}

#[test]
fn read_payload_rejects_what_is_no_record() {
    for bad in [
        &b""[..],
        b"alice",
        b"12",
        b":alice",
        b"012:alice",
        b"-0:alice",
        b"12 :alice",
        b"1e3:alice",
        b"12:\xff",
        b"12:zo\xc3",
        b"170141183460469231731687303715884105728:late",
    ] {
        assert_eq!(read_payload(bad), None, "{:?}", bad);
    }
}

#[test]
fn read_payload_inverts_write_payload() {
    for name in ["alice", "", ":", "a b", "\u{1f600}", "12:34", "\0"] {
        for nanos in [0, 1, -1, 60_000_000_000, i128::MAX, i128::MIN] {
            let t = token(name, nanos);
            assert_eq!(read_payload(&write_payload(&t)), Some(t));
        }
    }
}
