use vstd::prelude::*;
use vstd::utf8::{decode_utf8, encode_utf8, valid_utf8};
use crate::archive::{entry_named, pack, take_entry, tar_archive_of, tar_entries_of, unix_time_now, unpack, ArchiveError};
use crate::envelope::{age_open, age_seal};
use crate::otp::{OtpView, OTP};
use crate::text::{push_str, string_of_chars};
use crate::table::{deserialize, table_of_text, table_text, table_wf, FormatError, SecretsTable};

verus! {

/// The ending that every store's file name carries.
pub const DB_SUFFIX: &'static str = ".tar.rotp";

/// The name of the container entry that holds the secrets table.
pub const SECRETS_ENTRY: &'static str = "secrets.toml";

/// Why the envelope could not be sealed or opened. Opening does not tell a wrong
/// passphrase from damaged bytes.
#[derive(Clone, Copy, Debug, PartialEq, Eq, Structural)]
pub enum CryptoError {
    CannotEncrypt,
    CannotDecrypt,
}

/// Why a store operation failed.
#[derive(Clone, Copy, Debug, PartialEq, Eq, Structural)]
pub enum StoreError {
    NotConfigured,
    BadName,
    NotFound,
    AlreadyExists,
    AlreadyOpen,
    NotOpen,
    WrongPassphraseOrCorrupt,
    EncryptionFailed,
    ArchiveCorrupt,
    EntryRejected,
    EntryMissing,
    TableCorrupt,
}

/// Where a store is in its life.
#[derive(Clone, Copy, Debug, PartialEq, Eq, Structural)]
pub enum StoreState {
    Uninitialized,
    Open,
    Closed,
}

/// The credential store: where its file is, and its table while it is open.
pub struct DB {
    path: String,
    state: StoreState,
    table: Option<SecretsTable>,
}

/// The mathematical value of a store.
pub struct DbView {
    pub path: Seq<char>,
    pub state: StoreState,
    pub table: Option<Seq<OtpView>>,
}

impl View for DB {
    type V = DbView;

    closed spec fn view(&self) -> DbView {
        DbView {
            path: self.path@,
            state: self.state,
            table: match self.table {
                Some(t) => Some(t@),
                None => None,
            },
        }
    }
}

/// A store holds a table exactly while it is open, and that table is well formed.
pub open spec fn db_wf(d: DbView) -> bool {
    &&& (d.state == StoreState::Open <==> d.table is Some)
    &&& d.table matches Some(t) ==> table_wf(t)
}

/// Whether `s` ends with `suf`.
pub open spec fn ends_with(s: Seq<char>, suf: Seq<char>) -> bool {
    s.len() >= suf.len() && s.subrange(s.len() - suf.len(), s.len() as int) == suf
}

/// Where the store is, from the configured name and whether a file stands there.
pub open spec fn location_of(configured: Option<Seq<char>>, exists: bool) -> Result<Seq<char>, StoreError> {
    match configured {
        None => Err(StoreError::NotConfigured),
        Some(p) => if !ends_with(p, DB_SUFFIX@) {
            Err(StoreError::BadName)
        } else if !exists {
            Err(StoreError::NotFound)
        } else {
            Ok(p)
        },
    }
}

/// The table that a decrypted container holds.
pub open spec fn archive_table(b: Seq<u8>) -> Result<Seq<OtpView>, StoreError> {
    match tar_entries_of(b) {
        None => Err(StoreError::ArchiveCorrupt),
        Some(es) => match entry_named(es, SECRETS_ENTRY@) {
            None => Err(StoreError::EntryMissing),
            Some(p) => if valid_utf8(p) {
                match table_of_text(decode_utf8(p)) {
                    Ok(t) => Ok(t),
                    Err(_) => Err(StoreError::TableCorrupt),
                }
            } else {
                Err(StoreError::TableCorrupt)
            },
        },
    }
}

/// The container that holds a table's text, modified at `mtime`.
pub open spec fn table_archive(t: Seq<OtpView>, mtime: u64) -> Result<Seq<u8>, StoreError> {
    match tar_archive_of(SECRETS_ENTRY@, encode_utf8(table_text(t)), mtime) {
        Some(b) => Ok(b),
        None => Err(StoreError::EntryRejected),
    }
}

/// A result whose table is replaced by its value.
pub open spec fn stored_table(r: Result<SecretsTable, StoreError>) -> Result<Seq<OtpView>, StoreError> {
    match r {
        Ok(t) => Ok(t@),
        Err(e) => Err(e),
    }
}

/// A result whose bytes are replaced by their value.
pub open spec fn stored_bytes(r: Result<Vec<u8>, StoreError>) -> Result<Seq<u8>, StoreError> {
    match r {
        Ok(b) => Ok(b@),
        Err(e) => Err(e),
    }
}

/// Relies on `std::str::from_utf8`: the text whose UTF-8 encoding the bytes are, where
/// they are valid UTF-8.
#[verifier::external_body]
fn utf8_text(b: &[u8]) -> (r: Option<String>)
    ensures
        r is Some <==> valid_utf8(b@),
        r matches Some(s) ==> s@ == decode_utf8(b@),
{
    std::str::from_utf8(b).ok().map(|s| s.to_string())
}

/// Whether `s` ends with `suf`.
pub fn has_suffix(s: &str, suf: &str) -> (r: bool)
    ensures
        r == ends_with(s@, suf@),
{
    let n = s.unicode_len();
    let m = suf.unicode_len();
    if n < m {
        return false;
    }
    let mut i: usize = 0;
    while i < m
        invariant
            n == s@.len(),
            m == suf@.len(),
            m <= n,
            i <= m,
            forall|j: int| 0 <= j < i ==> s@[n - m + j] == suf@[j],
        decreases m - i,
    {
        if s.get_char(n - m + i) != suf.get_char(i) {
            assert(s@.subrange(n - m, n as int)[i as int] != suf@[i as int]);
            return false;
        }
        i = i + 1;
    }
    assert(s@.subrange(n - m, n as int) =~= suf@);
    true
}

/// The file name for a store at `base`: `base` with the store suffix.
pub fn db_path_for(base: &str) -> (r: String)
    ensures
        r@ == base@ + DB_SUFFIX@,
{
    let mut r = base.to_owned();
    r.append(DB_SUFFIX);
    r
}

/// Whether `pat` stands somewhere in `s`.
pub open spec fn contains(s: Seq<char>, pat: Seq<char>) -> bool {
    exists|i: int| 0 <= i && i + pat.len() <= s.len() && #[trigger] s.subrange(i, i + pat.len()) == pat
}

/// Whether `pat` stands in `s` at `at`.
fn matches_at(s: &str, pat: &str, at: usize) -> (r: bool)
    requires
        at + pat@.len() <= s@.len(),
    ensures
        r == (s@.subrange(at as int, at + pat@.len()) == pat@),
{
    let n = s.unicode_len();
    let m = pat.unicode_len();
    let mut j: usize = 0;
    while j < m
        invariant
            n == s@.len(),
            m == pat@.len(),
            at + m <= s@.len(),
            j <= m,
            forall|k: int| 0 <= k < j ==> s@[at + k] == pat@[k],
        decreases m - j,
    {
        if s.get_char(at + j) != pat.get_char(j) {
            assert(s@.subrange(at as int, at + m)[j as int] != pat@[j as int]);
            return false;
        }
        j = j + 1;
    }
    assert(s@.subrange(at as int, at + m) =~= pat@);
    true
}

/// Whether `pat` stands somewhere in `s`.
pub fn contains_text(s: &str, pat: &str) -> (r: bool)
    ensures
        r == contains(s@, pat@),
{
    let n = s.unicode_len();
    let m = pat.unicode_len();
    if m > n {
        return false;
    }
    if m == 0 {
        assert(s@.subrange(0, 0 + pat@.len() as int) =~= pat@);
        return true;
    }
    let mut i: usize = 0;
    while i <= n - m
        invariant
            n == s@.len(),
            m == pat@.len(),
            1 <= m <= n,
            i <= n - m + 1,
            forall|k: int| 0 <= k < i ==> #[trigger] s@.subrange(k, k + m) != pat@,
        decreases n - m + 1 - i,
    {
        if matches_at(s, pat, i) {
            return true;
        }
        i = i + 1;
    }
    false
}

/// The profile line that names the store for new shells.
pub open spec fn is_db_export_line(line: Seq<char>) -> bool {
    contains(line, "export ROTP_DB"@)
}

/// Whether a profile line names the store for new shells; such lines are replaced when a
/// store is created.
pub fn is_db_export(line: &str) -> (r: bool)
    ensures
        r == is_db_export_line(line@),
{
    contains_text(line, "export ROTP_DB")
}

/// The profile line that names the store at `path` for new shells.
pub fn db_export_line(path: &str) -> (r: String)
    ensures
        r@ == "export ROTP_DB="@ + path@,
{
    let mut r = "export ROTP_DB=".to_owned();
    r.append(path);
    r
}

/// A line with the carriage return that ended it dropped.
pub open spec fn strip_cr(line: Seq<char>) -> Seq<char> {
    if line.len() > 0 && line.last() == '\r' {
        line.drop_last()
    } else {
        line
    }
}

/// The lines of `s`, after the line `cur` already begun.
pub open spec fn lines_from(s: Seq<char>, cur: Seq<char>) -> Seq<Seq<char>>
    decreases s.len(),
{
    if s.len() == 0 {
        if cur.len() == 0 {
            Seq::empty()
        } else {
            seq![cur]
        }
    } else if s[0] == '\n' {
        seq![strip_cr(cur)] + lines_from(s.drop_first(), Seq::empty())
    } else {
        lines_from(s.drop_first(), cur.push(s[0]))
    }
}

/// The lines of a text: split after each line feed, with a carriage return right before
/// it dropped; a final line feed starts no further line.
pub open spec fn lines_of(s: Seq<char>) -> Seq<Seq<char>> {
    lines_from(s, Seq::empty())
}

/// The lines that do not name a store.
pub open spec fn kept_lines(ls: Seq<Seq<char>>) -> Seq<Seq<char>>
    decreases ls.len(),
{
    if ls.len() == 0 {
        ls
    } else if is_db_export_line(ls.last()) {
        kept_lines(ls.drop_last())
    } else {
        kept_lines(ls.drop_last()).push(ls.last())
    }
}

/// Lines joined by line feeds.
pub open spec fn joined(ls: Seq<Seq<char>>) -> Seq<char>
    decreases ls.len(),
{
    if ls.len() == 0 {
        Seq::empty()
    } else if ls.len() == 1 {
        ls[0]
    } else {
        joined(ls.drop_last()) + seq!['\n'] + ls.last()
    }
}

/// Relies on `str::lines`, as std documents it: lines end at a line feed, or at a carriage
/// return and line feed, and the last line feed is optional.
#[verifier::external_body]
fn text_lines(s: &str) -> (r: Vec<String>)
    ensures
        r.deep_view() == lines_of(s@),
{
    s.lines().map(|l| l.to_string()).collect()
}

/// A profile without the lines that name a store, the others joined by line feeds.
pub fn profile_without_exports(content: &str) -> (r: String)
    ensures
        r@ == joined(kept_lines(lines_of(content@))),
{
    let lines = text_lines(content);
    let ghost ls = lines.deep_view();
    let mut out: Vec<char> = Vec::new();
    let mut kept_any = false;
    let mut i: usize = 0;
    assert(ls.subrange(0, 0) =~= Seq::<Seq<char>>::empty());
    while i < lines.len()
        invariant
            i <= lines.len(),
            ls == lines.deep_view(),
            out@ == joined(kept_lines(ls.subrange(0, i as int))),
            kept_any == (kept_lines(ls.subrange(0, i as int)).len() > 0),
        decreases lines.len() - i,
    {
        let ghost before = kept_lines(ls.subrange(0, i as int));
        let ghost p = ls.subrange(0, i + 1);
        assert(p.drop_last() =~= ls.subrange(0, i as int));
        assert(p.last() == lines[i as int]@);
        if !is_db_export(lines[i].as_str()) {
            assert(before.push(lines[i as int]@).drop_last() =~= before);
            if kept_any {
                out.push('\n');
            }
            push_str(&mut out, lines[i].as_str());
            kept_any = true;
        }
        i = i + 1;
    }
    assert(ls.subrange(0, lines.len() as int) =~= ls);
    string_of_chars(&out)
}

impl DB {
    /// A store at `path` that has not been opened.
    pub fn new(path: String) -> (r: DB)
        ensures
            r@ == (DbView { path: path@, state: StoreState::Uninitialized, table: None }),
            db_wf(r@),
    {
        DB { path, state: StoreState::Uninitialized, table: None }
    }

    /// Where the store's file is.
    pub fn path(&self) -> (r: &String)
        ensures
            r@ == self@.path,
    {
        &self.path
    }

    /// Where the store is in its life.
    pub fn state(&self) -> (r: StoreState)
        ensures
            r == self@.state,
    {
        self.state
    }

    /// The table, while the store is open.
    pub fn table(&self) -> (r: Option<&SecretsTable>)
        ensures
            match r {
                Some(t) => self@.table == Some(t@),
                None => self@.table is None,
            },
    {
        match &self.table {
            Some(t) => Some(t),
            None => None,
        }
    }

    /// The configured name of the store; `NotConfigured` where there is none.
    pub fn get_name(configured: Option<String>) -> (r: Result<String, StoreError>)
        ensures
            match configured {
                Some(p) => r == Ok::<String, StoreError>(p),
                None => r == Err::<String, StoreError>(StoreError::NotConfigured),
            },
    {
        match configured {
            Some(p) => Ok(p),
            None => Err(StoreError::NotConfigured),
        }
    }

    /// Where the store is: the configured name, where it carries the store suffix and a
    /// file stands there.
    pub fn get_db(configured: Option<String>, exists: bool) -> (r: Result<String, StoreError>)
        ensures
            match location_of(configured.deep_view(), exists) {
                Ok(p) => r matches Ok(s) && s@ == p,
                Err(e) => r == Err::<String, StoreError>(e),
            },
    {
        let name = match DB::get_name(configured) {
            Ok(n) => n,
            Err(e) => return Err(e),
        };
        if !has_suffix(name.as_str(), DB_SUFFIX) {
            return Err(StoreError::BadName);
        }
        if !exists {
            return Err(StoreError::NotFound);
        }
        Ok(name)
    }

    /// Seals bytes under a passphrase.
    pub fn encrypt(pass: &str, data: &[u8]) -> (r: Result<Vec<u8>, CryptoError>)
        ensures
            r is Err ==> r == Err::<Vec<u8>, CryptoError>(CryptoError::CannotEncrypt),
    {
        match age_seal(pass, data) {
            Some(b) => Ok(b),
            None => Err(CryptoError::CannotEncrypt),
        }
    }

    /// Opens bytes sealed under a passphrase.
    pub fn decrypt(pass: &str, data: &[u8]) -> (r: Result<Vec<u8>, CryptoError>)
        ensures
            r is Err ==> r == Err::<Vec<u8>, CryptoError>(CryptoError::CannotDecrypt),
    {
        match age_open(pass, data) {
            Some(b) => Ok(b),
            None => Err(CryptoError::CannotDecrypt),
        }
    }

    /// The table that a decrypted container holds in its secrets entry.
    pub fn extract_secrets(plain: &[u8]) -> (r: Result<SecretsTable, StoreError>)
        ensures
            stored_table(r) == archive_table(plain@),
            r matches Ok(t) ==> table_wf(t@),
    {
        let entries = match unpack(plain) {
            Ok(es) => es,
            Err(_) => return Err(StoreError::ArchiveCorrupt),
        };
        let payload = match take_entry(entries, SECRETS_ENTRY) {
            Some(p) => p,
            None => return Err(StoreError::EntryMissing),
        };
        let text = match utf8_text(payload.as_slice()) {
            Some(t) => t,
            None => return Err(StoreError::TableCorrupt),
        };
        match deserialize(text.as_str()) {
            Ok(t) => Ok(t),
            Err(FormatError::TableCorrupt) => Err(StoreError::TableCorrupt),
        }
    }

    /// The table behind the outcome of decrypting a store file: a failed decryption
    /// gives `WrongPassphraseOrCorrupt` and no table, else the decrypted container is read.
    pub fn open_decrypted(d: Result<Vec<u8>, CryptoError>) -> (r: Result<SecretsTable, StoreError>)
        ensures
            d is Err ==> r == Err::<SecretsTable, StoreError>(StoreError::WrongPassphraseOrCorrupt),
            d matches Ok(p) ==> stored_table(r) == archive_table(p@),
            r matches Ok(t) ==> table_wf(t@),
    {
        match d {
            Ok(plain) => DB::extract_secrets(plain.as_slice()),
            Err(_) => Err(StoreError::WrongPassphraseOrCorrupt),
        }
    }

    /// The table of a sealed store file: decrypt, unpack, find the secrets entry, read it.
    pub fn opendb(sealed: &[u8], pass: &str) -> (r: Result<SecretsTable, StoreError>)
        ensures
            r == Err::<SecretsTable, StoreError>(StoreError::WrongPassphraseOrCorrupt)
                || exists|p: Seq<u8>| stored_table(r) == archive_table(p),
            r != Err::<SecretsTable, StoreError>(StoreError::AlreadyOpen),
            r matches Ok(t) ==> table_wf(t@),
    {
        DB::open_decrypted(DB::decrypt(pass, sealed))
    }

    /// Opens the store from its sealed file. On failure the store is unchanged.
    pub fn open(&mut self, sealed: &[u8], pass: &str) -> (r: Result<(), StoreError>)
        requires
            db_wf(old(self)@),
        ensures
            db_wf(final(self)@),
            old(self)@.state == StoreState::Open ==> r == Err::<(), StoreError>(StoreError::AlreadyOpen),
            old(self)@.state != StoreState::Open ==> r != Err::<(), StoreError>(StoreError::AlreadyOpen),
            r is Err ==> final(self)@ == old(self)@,
            r is Ok ==> {
                &&& final(self)@.state == StoreState::Open
                &&& final(self)@.path == old(self)@.path
                &&& exists|p: Seq<u8>| archive_table(p) == Ok::<Seq<OtpView>, StoreError>(final(self)@.table->0)
            },
    {
        if self.state == StoreState::Open {
            return Err(StoreError::AlreadyOpen);
        }
        match DB::opendb(sealed, pass) {
            Ok(t) => {
                self.table = Some(t);
                self.state = StoreState::Open;
                Ok(())
            },
            Err(e) => Err(e),
        }
    }

    /// The container that holds the open table, modified at `mtime`.
    pub fn archive_bytes(&self, mtime: u64) -> (r: Result<Vec<u8>, StoreError>)
        requires
            db_wf(self@),
        ensures
            match self@.table {
                Some(t) => stored_bytes(r) == table_archive(t, mtime),
                None => r == Err::<Vec<u8>, StoreError>(StoreError::NotOpen),
            },
    {
        match &self.table {
            Some(t) => {
                let text = t.encode();
                match pack(SECRETS_ENTRY, text.as_str().as_bytes(), mtime) {
                    Ok(b) => Ok(b),
                    Err(ArchiveError::EntryRejected) => Err(StoreError::EntryRejected),
                    Err(ArchiveError::ArchiveCorrupt) => Err(StoreError::EntryRejected),
                }
            },
            None => Err(StoreError::NotOpen),
        }
    }

    /// The sealed bytes of the open table, stamped with the time now, for the caller to
    /// write in place of the store's file.
    pub fn save(&self, pass: &str) -> (r: Result<Vec<u8>, StoreError>)
        requires
            db_wf(self@),
        ensures
            self@.table is None ==> r == Err::<Vec<u8>, StoreError>(StoreError::NotOpen),
            self@.table matches Some(t) ==> (r is Err ==> (r == Err::<Vec<u8>, StoreError>(StoreError::EncryptionFailed)
                || exists|m: u64| stored_bytes(r) == table_archive(t, m))),
    {
        let mtime: u64 = match unix_time_now() {
            Some(m) => m,
            None => 0,
        };
        let plain = match self.archive_bytes(mtime) {
            Ok(b) => b,
            Err(e) => return Err(e),
        };
        match DB::encrypt(pass, plain.as_slice()) {
            Ok(b) => Ok(b),
            Err(_) => Err(StoreError::EncryptionFailed),
        }
    }

    /// Adds a credential to the open table, in place of one under the same label.
    pub fn add(&mut self, otp: OTP) -> (r: Result<(), StoreError>)
        requires
            db_wf(old(self)@),
            otp@.secret().len() > 0,
        ensures
            db_wf(final(self)@),
            old(self)@.table is None ==> r == Err::<(), StoreError>(StoreError::NotOpen) && final(self)@ == old(self)@,
            old(self)@.table matches Some(t) ==> {
                &&& r is Ok
                &&& final(self)@.state == old(self)@.state
                &&& final(self)@.path == old(self)@.path
                &&& final(self)@.table matches Some(u) && {
                    &&& forall|i: int| 0 <= i < t.len() && (#[trigger] t[i]).label() == otp@.label() ==> u == t.update(i, otp@)
                    &&& (forall|i: int| 0 <= i < t.len() ==> (#[trigger] t[i]).label() != otp@.label()) ==> u == t.push(otp@)
                }
            },
    {
        match &mut self.table {
            Some(t) => {
                t.insert(otp);
                Ok(())
            },
            None => Err(StoreError::NotOpen),
        }
    }

    /// Closes the store: the decrypted table is dropped.
    pub fn close(&mut self)
        requires
            db_wf(old(self)@),
        ensures
            final(self)@ == (DbView { path: old(self)@.path, state: StoreState::Closed, table: None }),
            db_wf(final(self)@),
    {
        self.table = None;
        self.state = StoreState::Closed;
    }
}

/// Creates a new store at `path` under `pass`, open with an empty table, and the sealed
/// bytes for the caller to write there. Where a file already stands at `path` nothing is
/// made.
pub fn onboarding(path_exists: bool, path: String, pass: &str) -> (r: Result<(DB, Vec<u8>), StoreError>)
    ensures
        path_exists ==> (r matches Err(e) && e == StoreError::AlreadyExists),
        !path_exists && !ends_with(path@, DB_SUFFIX@) ==> (r matches Err(e) && e == StoreError::BadName),
        !path_exists && ends_with(path@, DB_SUFFIX@) ==> (r is Ok || (r matches Err(e)
            && (e == StoreError::EncryptionFailed || e == StoreError::EntryRejected))),
        r matches Ok((d, _)) ==> {
            &&& d@ == (DbView { path: path@, state: StoreState::Open, table: Some(Seq::<OtpView>::empty()) })
            &&& db_wf(d@)
        },
{
    if path_exists {
        return Err(StoreError::AlreadyExists);
    }
    if !has_suffix(path.as_str(), DB_SUFFIX) {
        return Err(StoreError::BadName);
    }
    let d = DB { path, state: StoreState::Open, table: Some(SecretsTable::new()) };
    match d.save(pass) {
        Ok(b) => Ok((d, b)),
        Err(e) => Err(e),
    }
}

} // verus!
