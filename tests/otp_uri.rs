use rotp::otp::{first_qr_text, Algo, OtpError, OTP};

fn parse(uri: &str) -> Result<OTP, OtpError> {
    OTP::parse_uri(&uri.to_string())
}

#[test]
fn parse_test() {
    let otp = OTP::parse_uri(&"otpauth://totp/grwrwghwRGHRGWRGW?secret=BASE32SECRET3232&issuer=grwrwghwRGHRGWRGW&algorithm=SHA1&digits=6&period=30".to_string()).unwrap();
    println!("{:?}", otp);
    match otp {
        OTP::TOTP(t) => {
            assert_eq!(t.label, "grwrwghwRGHRGWRGW");
            assert_eq!(t.secret, "BASE32SECRET3232");
            assert_eq!(t.step, 30);
        }
        OTP::HOTP(_) => panic!("expected a time-based credential"),
    }
}

#[test]
fn types_test() {
    let list: Vec<OTP> = vec![];
    assert!(list.is_empty());
}

#[test]
fn totp_full_uri() {
    let uri = "otpauth://totp/Label?secret=BASE32SECRET3232&issuer=Issuer&algorithm=SHA1&period=30";
    match parse(uri).unwrap() {
        OTP::TOTP(t) => {
            assert_eq!(t.secret, "BASE32SECRET3232");
            assert_eq!(t.label, "Label");
            assert_eq!(t.issuer, "Issuer");
            assert_eq!(t.algo, Algo::SHA1);
            assert_eq!(t.step, 30);
            assert_eq!(t.full_uri, uri);
        }
        OTP::HOTP(_) => panic!("expected a time-based credential"),
    }
}

#[test]
fn hotp_with_counter() {
    match parse("otpauth://hotp/Label?secret=ABC&counter=5").unwrap() {
        OTP::HOTP(h) => {
            assert_eq!(h.secret, "ABC");
            assert_eq!(h.label, "Label");
            assert_eq!(h.issuer, "Label");
            assert_eq!(h.algo, Algo::SHA1);
            assert_eq!(h.counter, 5);
        }
        OTP::TOTP(_) => panic!("expected a counter-based credential"),
    }
}

#[test]
fn unknown_algorithm_falls_back_to_sha1() {
    match parse("otpauth://totp/Label?secret=ABC&algorithm=MD5").unwrap() {
        OTP::TOTP(t) => assert_eq!(t.algo, Algo::SHA1),
        OTP::HOTP(_) => panic!("expected a time-based credential"),
    }
}

#[test]
fn known_algorithms_are_kept() {
    match parse("otpauth://totp/L?secret=ABC&algorithm=SHA256").unwrap() {
        OTP::TOTP(t) => assert_eq!(t.algo, Algo::SHA256),
        OTP::HOTP(_) => panic!("expected a time-based credential"),
    }
    match parse("otpauth://hotp/L?secret=ABC&algorithm=SHA512&counter=0").unwrap() {
        OTP::HOTP(h) => assert_eq!(h.algo, Algo::SHA512),
        OTP::TOTP(_) => panic!("expected a counter-based credential"),
    }
    match parse("otpauth://totp/L?secret=ABC&algorithm=sha256").unwrap() {
        OTP::TOTP(t) => assert_eq!(t.algo, Algo::SHA1),
        OTP::HOTP(_) => panic!("expected a time-based credential"),
    }
}

#[test]
fn hotp_without_counter_fails() {
    assert_eq!(parse("otpauth://hotp/Label?secret=ABC").unwrap_err(), OtpError::CounterMissing);
}

#[test]
fn https_link_is_not_an_otp_link() {
    assert_eq!(parse("https://example.com").unwrap_err(), OtpError::NotAnOtpLink);
}

#[test]
fn unparsable_uri_is_not_an_otp_link() {
    assert_eq!(parse("not a uri at all").unwrap_err(), OtpError::NotAnOtpLink);
}

#[test]
fn unknown_type_fails() {
    assert_eq!(parse("otpauth://motp/Label?secret=ABC").unwrap_err(), OtpError::UnknownOtpType);
    assert_eq!(parse("otpauth:totp/Label?secret=ABC").unwrap_err(), OtpError::UnknownOtpType);
}

#[test]
fn missing_label_fails() {
    assert_eq!(parse("otpauth://totp/?secret=ABC").unwrap_err(), OtpError::LabelMissing);
    assert_eq!(parse("otpauth://totp?secret=ABC").unwrap_err(), OtpError::LabelMissing);
}

#[test]
fn missing_or_empty_secret_fails() {
    assert_eq!(parse("otpauth://totp/Label?issuer=X").unwrap_err(), OtpError::SecretMissing);
    assert_eq!(parse("otpauth://hotp/Label?secret=&counter=1").unwrap_err(), OtpError::SecretMissing);
}

#[test]
fn malformed_counter_fails() {
    assert_eq!(parse("otpauth://hotp/L?secret=ABC&counter=five").unwrap_err(), OtpError::MalformedCounter);
    assert_eq!(parse("otpauth://hotp/L?secret=ABC&counter=18446744073709551616").unwrap_err(), OtpError::MalformedCounter);
    assert_eq!(parse("otpauth://hotp/L?secret=ABC&counter=-1").unwrap_err(), OtpError::MalformedCounter);
}

#[test]
fn largest_counter_is_read() {
    match parse("otpauth://hotp/L?secret=ABC&counter=18446744073709551615").unwrap() {
        OTP::HOTP(h) => assert_eq!(h.counter, u64::MAX),
        OTP::TOTP(_) => panic!("expected a counter-based credential"),
    }
}

#[test]
fn bad_period_falls_back_to_thirty() {
    for uri in [
        "otpauth://totp/L?secret=ABC&period=soon",
        "otpauth://totp/L?secret=ABC&period=4294967296",
        "otpauth://totp/L?secret=ABC",
        "otpauth://totp/L?secret=ABC&period=+60",
    ] {
        match parse(uri).unwrap() {
            OTP::TOTP(t) => assert_eq!(t.step, 30),
            OTP::HOTP(_) => panic!("expected a time-based credential"),
        }
    }
    match parse("otpauth://totp/L?secret=ABC&period=%2B60").unwrap() {
        OTP::TOTP(t) => assert_eq!(t.step, 60),
        OTP::HOTP(_) => panic!("expected a time-based credential"),
    }
}

#[test]
fn first_duplicate_query_key_wins() {
    match parse("otpauth://totp/L?secret=FIRST&secret=SECOND&issuer=A%20B").unwrap() {
        OTP::TOTP(t) => {
            assert_eq!(t.secret, "FIRST");
            assert_eq!(t.issuer, "A B");
        }
        OTP::HOTP(_) => panic!("expected a time-based credential"),
    }
}

#[test]
fn qr_results_pick_the_first() {
    assert_eq!(first_qr_text(vec![]), Err(OtpError::CannotParseQR));
    assert_eq!(first_qr_text(vec![None, Some("x".to_string())]), Err(OtpError::CannotParseQR));
    assert_eq!(first_qr_text(vec![Some("a".to_string()), Some("b".to_string())]), Ok("a".to_string()));
}

