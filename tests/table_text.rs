use rotp::otp::OTP;
use rotp::table::{deserialize, FormatError, SecretsTable};
use rotp::text::{decimal_text, parse_unsigned_text};

fn otp(uri: &str) -> OTP {
    OTP::parse_uri(&uri.to_string()).unwrap()
}

fn shown(t: &SecretsTable) -> Vec<String> {
    t.entries().iter().map(|o| format!("{:?}", o)).collect()
}

#[test]
fn encode_writes_one_section_per_credential() {
    let mut t = SecretsTable::new();
    t.insert(otp("otpauth://totp/Label?secret=ABC"));
    t.insert(otp("otpauth://hotp/Other?secret=XYZ&issuer=Bank&algorithm=SHA512&counter=42"));
    let expected = "[secrets]\n\
        \n[secrets.\"Label\"]\n\
        secret = \"ABC\"\n\
        issuer = \"Label\"\n\
        algorithm = \"SHA1\"\n\
        step = \"30\"\n\
        full_uri = \"otpauth://totp/Label?secret=ABC\"\n\
        \n[secrets.\"Other\"]\n\
        secret = \"XYZ\"\n\
        issuer = \"Bank\"\n\
        algorithm = \"SHA512\"\n\
        counter = \"42\"\n\
        full_uri = \"otpauth://hotp/Other?secret=XYZ&issuer=Bank&algorithm=SHA512&counter=42\"\n";
    assert_eq!(t.encode(), expected);
}

#[test]
fn empty_table_encodes_the_namespace_alone() {
    assert_eq!(SecretsTable::new().encode(), "[secrets]\n");
}

#[test]
fn encode_then_deserialize_gives_the_table() {
    let mut t = SecretsTable::new();
    t.insert(otp("otpauth://hotp/Omega?secret=ABC&counter=18446744073709551615"));
    t.insert(otp("otpauth://totp/Beta?secret=DEF&issuer=Some%22Quote%5C&period=45&algorithm=SHA256"));
    let back = deserialize(&t.encode()).unwrap();
    assert_eq!(back.len(), 2);
    assert_eq!(shown(&back), shown(&t));
}

#[test]
fn quotes_and_control_characters_are_escaped() {
    let mut t = SecretsTable::new();
    t.insert(otp("otpauth://totp/L%22?secret=S%09T&issuer=a%22b%5Cc%0A"));
    let text = t.encode();
    assert!(text.contains("[secrets.\"L%22\"]\n"));
    assert!(text.contains("issuer = \"a\\\"b\\\\c\\u000a\"\n"));
    assert!(text.contains("secret = \"S\\u0009T\"\n"));
    let back = deserialize(&text).unwrap();
    assert_eq!(shown(&back), shown(&t));
}

#[test]
fn insert_replaces_the_same_label() {
    let mut t = SecretsTable::new();
    t.insert(otp("otpauth://totp/Label?secret=OLD"));
    t.insert(otp("otpauth://totp/Label?secret=NEW"));
    assert_eq!(t.len(), 1);
    match t.get("Label").unwrap() {
        OTP::TOTP(x) => assert_eq!(x.secret, "NEW"),
        OTP::HOTP(_) => panic!("expected a time-based credential"),
    }
    assert!(t.get("Other").is_none());
}

#[test]
fn empty_namespace_decodes_to_empty_table() {
    assert_eq!(deserialize("[secrets]").unwrap().len(), 0);
    assert_eq!(deserialize("[secrets]\n").unwrap().len(), 0);
    assert_eq!(deserialize("").unwrap().len(), 0);
}

#[test]
fn malformed_tables_are_corrupt() {
    for text in [
        "[secrets",
        "secrets = \"flat\"",
        "[secrets.x]\nsecret = \"A\"\n",
        "[secrets.x]\nsecret = \"A\"\nissuer = \"I\"\nalgorithm = \"SHA1\"\nfull_uri = \"u\"\ncounter = \"1\"\nstep = \"30\"\n",
        "[secrets.x]\nsecret = \"A\"\nissuer = \"I\"\nalgorithm = \"MD5\"\nfull_uri = \"u\"\nstep = \"30\"\n",
        "[secrets.x]\nsecret = \"\"\nissuer = \"I\"\nalgorithm = \"SHA1\"\nfull_uri = \"u\"\nstep = \"30\"\n",
        "[secrets.x]\nsecret = \"A\"\nissuer = \"I\"\nalgorithm = \"SHA1\"\nfull_uri = \"u\"\nstep = \"4294967296\"\n",
        "[secrets.x]\nsecret = \"A\"\nissuer = \"I\"\nalgorithm = \"SHA1\"\nfull_uri = \"u\"\ncounter = 5\n",
        "[secrets]\nx = 5\n",
    ] {
        assert_eq!(deserialize(text).unwrap_err(), FormatError::TableCorrupt, "{}", text);
    }
}

#[test]
fn sections_read_back_with_their_fields() {
    let text = "[secrets.\"k\"]\nsecret = \"A\"\nissuer = \"I\"\nalgorithm = \"SHA256\"\nfull_uri = \"u\"\ncounter = \"+7\"\n";
    let t = deserialize(text).unwrap();
    match t.get("k").unwrap() {
        OTP::HOTP(h) => {
            assert_eq!(h.label, "k");
            assert_eq!(h.counter, 7);
            assert_eq!(h.issuer, "I");
        }
        OTP::TOTP(_) => panic!("expected a counter-based credential"),
    }
}

#[test]
fn unsigned_numbers_are_read_as_std_reads_them() {
    assert_eq!(parse_unsigned_text("0", u64::MAX), Some(0));
    assert_eq!(parse_unsigned_text("+12", u64::MAX), Some(12));
    assert_eq!(parse_unsigned_text("007", 10), Some(7));
    assert_eq!(parse_unsigned_text("11", 10), None);
    assert_eq!(parse_unsigned_text("", u64::MAX), None);
    assert_eq!(parse_unsigned_text("+", u64::MAX), None);
    assert_eq!(parse_unsigned_text("1a", u64::MAX), None);
    assert_eq!(parse_unsigned_text("-1", u64::MAX), None);
    assert_eq!(parse_unsigned_text("18446744073709551615", u64::MAX), Some(u64::MAX));
    assert_eq!(parse_unsigned_text("18446744073709551616", u64::MAX), None);
}

#[test]
fn numbers_are_spelled_in_decimal() {
    assert_eq!(decimal_text(0), vec!['0']);
    assert_eq!(decimal_text(1234), vec!['1', '2', '3', '4']);
    assert_eq!(decimal_text(u64::MAX).iter().collect::<String>(), "18446744073709551615");
}
