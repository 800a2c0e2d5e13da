use rotp::archive::{pack, unpack, ArchiveError};
use rotp::otp::OTP;
use rotp::storage::{db_export_line, db_path_for, has_suffix, is_db_export, onboarding, profile_without_exports, CryptoError, StoreError, StoreState, DB};
use rotp::table::SecretsTable;

fn otp(uri: &str) -> OTP {
    OTP::parse_uri(&uri.to_string()).unwrap()
}

fn shown(t: &SecretsTable) -> Vec<String> {
    t.entries().iter().map(|o| format!("{:?}", o)).collect()
}

#[test]
fn test_encryption_decryption() {
    let encrypted = DB::encrypt("test", "shimmi shiimmi ya u lalala".as_bytes()).unwrap();
    assert_ne!(encrypted, "shimmi shiimmi ya u lalala".as_bytes().to_vec());
    let decrypted = DB::decrypt("test", &encrypted).unwrap();
    assert_eq!("shimmi shiimmi ya u lalala".as_bytes().to_vec(), decrypted);
}

#[test]
fn test_onboarding() {
    let (db, sealed) = onboarding(false, "vault.tar.rotp".to_string(), "pw").unwrap();
    assert_eq!(db.state(), StoreState::Open);
    assert_eq!(db.path(), "vault.tar.rotp");
    assert_eq!(db.table().unwrap().len(), 0);
    let mut again = DB::new("vault.tar.rotp".to_string());
    again.open(&sealed, "pw").unwrap();
    assert_eq!(again.table().unwrap().len(), 0);
}

#[test]
fn onboarding_refuses_an_existing_path() {
    assert_eq!(onboarding(true, "vault.tar.rotp".to_string(), "pw").err(), Some(StoreError::AlreadyExists));
    assert_eq!(onboarding(false, "vault.db".to_string(), "pw").err(), Some(StoreError::BadName));
}

#[test]
fn wrong_passphrase_fails_to_decrypt() {
    let sealed = DB::encrypt("right", b"payload").unwrap();
    assert_eq!(DB::decrypt("wrong", &sealed), Err(CryptoError::CannotDecrypt));
    assert_eq!(DB::opendb(&sealed, "wrong").err(), Some(StoreError::WrongPassphraseOrCorrupt));
}

#[test]
fn tampered_envelope_fails_to_decrypt() {
    let sealed = DB::encrypt("pw", b"some plaintext that spans a few bytes").unwrap();
    let n = sealed.len();
    for at in [n / 3, n - 20, n - 1] {
        let mut bad = sealed.clone();
        bad[at] ^= 0x01;
        assert_eq!(DB::decrypt("pw", &bad), Err(CryptoError::CannotDecrypt), "byte {}", at);
    }
}

#[test]
fn store_round_trip_keeps_the_table() {
    let (mut db, _) = onboarding(false, "v.tar.rotp".to_string(), "pw").unwrap();
    db.add(otp("otpauth://totp/Zeta?secret=DEF&issuer=Corp&period=60")).unwrap();
    db.add(otp("otpauth://hotp/Alpha?secret=ABC&counter=5")).unwrap();
    db.add(otp("otpauth://totp/Mid?secret=GHI")).unwrap();
    let sealed = db.save("pw").unwrap();
    let mut other = DB::new("v.tar.rotp".to_string());
    other.open(&sealed, "pw").unwrap();
    assert_eq!(shown(other.table().unwrap()), shown(db.table().unwrap()));
    assert_eq!(other.table().unwrap().len(), 3);
    let labels: Vec<String> = other.table().unwrap().entries().iter().map(|o| o.label().clone()).collect();
    assert_eq!(labels, vec!["Zeta", "Alpha", "Mid"]);
}

#[test]
fn lifecycle_errors() {
    let mut db = DB::new("v.tar.rotp".to_string());
    assert_eq!(db.state(), StoreState::Uninitialized);
    assert_eq!(db.save("pw").err(), Some(StoreError::NotOpen));
    assert_eq!(db.add(otp("otpauth://totp/L?secret=A")).err(), Some(StoreError::NotOpen));
    let (mut open, sealed) = onboarding(false, "v.tar.rotp".to_string(), "pw").unwrap();
    assert_eq!(open.open(&sealed, "pw").err(), Some(StoreError::AlreadyOpen));
    open.close();
    assert_eq!(open.state(), StoreState::Closed);
    assert!(open.table().is_none());
    open.open(&sealed, "pw").unwrap();
    assert_eq!(open.state(), StoreState::Open);
    assert_eq!(db.open(&sealed, "bad").err(), Some(StoreError::WrongPassphraseOrCorrupt));
    assert_eq!(db.state(), StoreState::Uninitialized);
}

#[test]
fn containers_hold_their_entry() {
    let bytes = pack("secrets.toml", b"[secrets]", 1_700_000_000).unwrap();
    assert_eq!(bytes.len() % 512, 0);
    let entries = unpack(&bytes).unwrap();
    assert_eq!(entries, vec![("secrets.toml".to_string(), b"[secrets]".to_vec())]);
    assert_eq!(unpack(&vec![0x41u8; 1024]).err(), Some(ArchiveError::ArchiveCorrupt));
}

#[test]
fn extract_reports_each_container_fault() {
    assert_eq!(DB::extract_secrets(&vec![0x41u8; 1024]).err(), Some(StoreError::ArchiveCorrupt));
    let other = pack("other.txt", b"[secrets]", 0).unwrap();
    assert_eq!(DB::extract_secrets(&other).err(), Some(StoreError::EntryMissing));
    let bad_text = pack("secrets.toml", b"[secrets", 0).unwrap();
    assert_eq!(DB::extract_secrets(&bad_text).err(), Some(StoreError::TableCorrupt));
    let not_utf8 = pack("secrets.toml", &[0xff, 0xfe], 0).unwrap();
    assert_eq!(DB::extract_secrets(&not_utf8).err(), Some(StoreError::TableCorrupt));
    let empty = pack("secrets.toml", b"[secrets]", 0).unwrap();
    assert_eq!(DB::extract_secrets(&empty).unwrap().len(), 0);
}

#[test]
fn location_is_checked_in_order() {
    assert_eq!(DB::get_name(None), Err(StoreError::NotConfigured));
    assert_eq!(DB::get_name(Some("a".to_string())), Ok("a".to_string()));
    assert_eq!(DB::get_db(None, true), Err(StoreError::NotConfigured));
    assert_eq!(DB::get_db(Some("/tmp/x.db".to_string()), true), Err(StoreError::BadName));
    assert_eq!(DB::get_db(Some("/tmp/x.tar.rotp".to_string()), false), Err(StoreError::NotFound));
    assert_eq!(DB::get_db(Some("/tmp/x.tar.rotp".to_string()), true), Ok("/tmp/x.tar.rotp".to_string()));
}

#[test]
fn suffix_helpers() {
    assert_eq!(db_path_for("/home/me/vault"), "/home/me/vault.tar.rotp");
    assert!(has_suffix("a.tar.rotp", ".tar.rotp"));
    assert!(!has_suffix("a.tar.rotp.bak", ".tar.rotp"));
    assert!(!has_suffix("rotp", ".tar.rotp"));
}

#[test]
fn sealed_packed_table_reads_back() {
    let mut t = SecretsTable::new();
    t.insert(otp("otpauth://totp/Label?secret=BASE32SECRET3232&issuer=Issuer&algorithm=SHA1&period=30"));
    t.insert(otp("otpauth://hotp/Counter?secret=ABC&counter=5"));
    let text = t.encode();
    let packed = pack("secrets.toml", text.as_bytes(), 0).unwrap();
    let sealed = DB::encrypt("pass phrase", &packed).unwrap();
    let opened = DB::decrypt("pass phrase", &sealed).unwrap();
    assert_eq!(opened, packed);
    let back = DB::extract_secrets(&opened).unwrap();
    assert_eq!(shown(&back), shown(&t));
}

#[test]
fn empty_secrets_entry_decodes_to_empty_table() {
    let sealed = DB::encrypt("pw", &pack("secrets.toml", b"[secrets]", 0).unwrap()).unwrap();
    let table = DB::opendb(&sealed, "pw").unwrap();
    assert_eq!(table.len(), 0);
}

#[test]
fn profile_loses_only_store_exports() {
    assert_eq!(profile_without_exports("a\nexport ROTP_DB=/x.tar.rotp\nb\n"), "a\nb");
    assert_eq!(profile_without_exports(""), "");
    assert_eq!(profile_without_exports("export ROTP_DB=1"), "");
    assert_eq!(profile_without_exports("x\r\ny"), "x\ny");
    assert_eq!(profile_without_exports("a\n\nb"), "a\n\nb");
    assert_eq!(profile_without_exports("\nexport ROTP_DB=/a.tar.rotp\n"), "");
    assert_eq!(profile_without_exports("keep\r"), "keep\r");
}

#[test]
fn export_lines_are_recognised() {
    assert_eq!(db_export_line("/v.tar.rotp"), "export ROTP_DB=/v.tar.rotp");
    assert!(is_db_export("  export ROTP_DB=/v.tar.rotp"));
    assert!(!is_db_export("export PATH=/bin"));
    assert!(!is_db_export(""));
}

#[test]
fn failed_decryption_gives_no_table() {
    assert_eq!(DB::open_decrypted(Err(CryptoError::CannotDecrypt)).err(), Some(StoreError::WrongPassphraseOrCorrupt));
    assert_eq!(DB::open_decrypted(Ok(vec![0x41u8; 1024])).err(), Some(StoreError::ArchiveCorrupt));
    let plain = pack("secrets.toml", b"[secrets]", 0).unwrap();
    assert_eq!(DB::open_decrypted(Ok(plain)).unwrap().len(), 0);
}

#[test]
fn tampered_store_file_fails_to_open() {
    let (_, sealed) = onboarding(false, "t.tar.rotp".to_string(), "pw").unwrap();
    let mut bad = sealed.clone();
    let at = bad.len() - 5;
    bad[at] ^= 0x80;
    assert_eq!(DB::opendb(&bad, "pw").err(), Some(StoreError::WrongPassphraseOrCorrupt));
}
