use vstd::prelude::*;
use crate::otp::{Algo, OtpView, HOTP, OTP, TOTP};
use crate::text::{
    find_key, key_index, decimal_of, decimal_text, digit_char, lemma_decimal_round_trip, parse_unsigned,
    parse_unsigned_text, push_str, same_text, string_of_chars, unsigned_digits,
};

verus! {

/// Why a secrets table could not be read.
#[derive(Clone, Copy, Debug, PartialEq, Eq, Structural)]
pub enum FormatError {
    TableCorrupt,
}

/// The key/value pairs that a section's text holds, in order.
pub type WrittenFields = Seq<(Seq<char>, Seq<char>)>;

/// The fields of one section of a document, each under its key: its text, or `None`
/// where the value is not a string.
pub type FieldsView = Seq<(Seq<char>, Option<Seq<char>>)>;

/// The sections of one top-level namespace, each under its key: its fields, or `None`
/// where the value is not a table.
pub type SectionsView = Seq<(Seq<char>, Option<FieldsView>)>;

/// A document: its top-level namespaces, each under its key: its sections, or `None`
/// where the value is not a table.
pub type DocView = Seq<(Seq<char>, Option<SectionsView>)>;

/// A document as plain values, in the order of its text.
pub type Document = Vec<(String, Option<Vec<(String, Option<Vec<(String, Option<String>)>>)>>)>;

/// No two credentials share a label.
pub open spec fn labels_unique(es: Seq<OtpView>) -> bool {
    forall|i: int, j: int|
        0 <= i < es.len() && 0 <= j < es.len() && i != j ==> #[trigger] es[i].label() != #[trigger] es[j].label()
}

/// What every table holds: unique labels and secrets that are not empty.
pub open spec fn table_wf(es: Seq<OtpView>) -> bool {
    &&& labels_unique(es)
    &&& forall|i: int| 0 <= i < es.len() ==> (#[trigger] es[i]).secret().len() > 0
}

/// Credentials keyed by their labels, in the order they were added.
#[derive(Clone, Debug)]
pub struct SecretsTable {
    entries: Vec<OTP>,
}

impl View for SecretsTable {
    type V = Seq<OtpView>;

    closed spec fn view(&self) -> Seq<OtpView> {
        self.entries@.map_values(|o: OTP| o@)
    }
}

/// A result whose table is replaced by its value.
pub open spec fn table_result(r: Result<SecretsTable, FormatError>) -> Result<Seq<OtpView>, FormatError> {
    match r {
        Ok(t) => Ok(t@),
        Err(e) => Err(e),
    }
}

/// The name that a table writes for an algorithm.
pub open spec fn algo_text(a: Algo) -> Seq<char> {
    match a {
        Algo::SHA1 => "SHA1"@,
        Algo::SHA256 => "SHA256"@,
        Algo::SHA512 => "SHA512"@,
    }
}

/// The algorithm that a table names, by its exact name.
pub open spec fn algo_of_text(n: Seq<char>) -> Option<Algo> {
    if n == "SHA1"@ {
        Some(Algo::SHA1)
    } else if n == "SHA256"@ {
        Some(Algo::SHA256)
    } else if n == "SHA512"@ {
        Some(Algo::SHA512)
    } else {
        None
    }
}

/// The fields of a credential's section, in the order they are written.
pub open spec fn entry_fields(e: OtpView) -> WrittenFields {
    match e {
        OtpView::Hotp { secret, issuer, algo, counter, full_uri, .. } => seq![
            ("secret"@, secret),
            ("issuer"@, issuer),
            ("algorithm"@, algo_text(algo)),
            ("counter"@, decimal_of(counter as nat)),
            ("full_uri"@, full_uri),
        ],
        OtpView::Totp { secret, issuer, algo, step, full_uri, .. } => seq![
            ("secret"@, secret),
            ("issuer"@, issuer),
            ("algorithm"@, algo_text(algo)),
            ("step"@, decimal_of(step as nat)),
            ("full_uri"@, full_uri),
        ],
    }
}

/// The fields of a credential's section, as a document holds them.
pub open spec fn section_fields(e: OtpView) -> FieldsView {
    match e {
        OtpView::Hotp { secret, issuer, algo, counter, full_uri, .. } => seq![
            ("secret"@, Some(secret)),
            ("issuer"@, Some(issuer)),
            ("algorithm"@, Some(algo_text(algo))),
            ("counter"@, Some(decimal_of(counter as nat))),
            ("full_uri"@, Some(full_uri)),
        ],
        OtpView::Totp { secret, issuer, algo, step, full_uri, .. } => seq![
            ("secret"@, Some(secret)),
            ("issuer"@, Some(issuer)),
            ("algorithm"@, Some(algo_text(algo))),
            ("step"@, Some(decimal_of(step as nat))),
            ("full_uri"@, Some(full_uri)),
        ],
    }
}

/// The sections of a table's credentials, in the table's order.
pub open spec fn table_sections(es: Seq<OtpView>) -> SectionsView {
    es.map_values(|e: OtpView| (e.label(), Some(section_fields(e))))
}

/// The document that the text of a table is written to stand for: one `secrets` namespace
/// with a section for each credential, under its label, in the table's order, and in each
/// section the fields in the order `entry_fields` writes them.
pub open spec fn doc_of_table(es: Seq<OtpView>) -> DocView {
    seq![("secrets"@, Some(table_sections(es)))]
}

/// The text of field `key`: `None` where it is missing or not a string.
pub open spec fn field_text(fs: FieldsView, key: Seq<char>) -> Option<Seq<char>> {
    match key_index(fs, key) {
        Some(i) => fs[i].1,
        None => None,
    }
}

/// Whether a section has field `key`.
pub open spec fn has_field(fs: FieldsView, key: Seq<char>) -> bool {
    key_index(fs, key) is Some
}

/// The value of an unsigned field no larger than `max`.
pub open spec fn number_field(fs: FieldsView, key: Seq<char>, max: nat) -> Option<nat> {
    match field_text(fs, key) {
        Some(t) => parse_unsigned(t, max),
        None => None,
    }
}

/// The credential that a section describes: every field present, a known algorithm, a
/// secret that is not empty, and exactly one of a 64-bit `counter` and a 32-bit `step`.
pub open spec fn entry_of_section(label: Seq<char>, fs: FieldsView) -> Option<OtpView> {
    match (field_text(fs, "secret"@), field_text(fs, "issuer"@), field_text(fs, "algorithm"@), field_text(fs, "full_uri"@)) {
        (Some(secret), Some(issuer), Some(a), Some(full_uri)) => match algo_of_text(a) {
            Some(algo) => if secret.len() == 0 {
                None
            } else {
                match (has_field(fs, "counter"@), has_field(fs, "step"@)) {
                    (true, false) => match number_field(fs, "counter"@, u64::MAX as nat) {
                        Some(v) => Some(OtpView::Hotp { secret, label, issuer, algo, counter: v as u64, full_uri }),
                        None => None,
                    },
                    (false, true) => match number_field(fs, "step"@, u32::MAX as nat) {
                        Some(v) => Some(OtpView::Totp { secret, label, issuer, algo, step: v as u32, full_uri }),
                        None => None,
                    },
                    _ => None,
                }
            },
            None => None,
        },
        _ => None,
    }
}

/// The credentials of a namespace's sections, in order; `None` where a section does not
/// describe one or two share a label.
pub open spec fn entries_of_sections(secs: SectionsView) -> Option<Seq<OtpView>>
    decreases secs.len(),
{
    if secs.len() == 0 {
        Some(Seq::empty())
    } else {
        match (entries_of_sections(secs.drop_last()), section_entry(secs.last())) {
            (Some(es), Some(e)) => if label_free(es, e.label()) {
                Some(es.push(e))
            } else {
                None
            },
            _ => None,
        }
    }
}

/// The credential that a section describes; `None` where its value is not a table.
pub open spec fn section_entry(sec: (Seq<char>, Option<FieldsView>)) -> Option<OtpView> {
    match sec.1 {
        Some(fs) => entry_of_section(sec.0, fs),
        None => None,
    }
}

/// No credential of `es` is stored under `label`.
pub open spec fn label_free(es: Seq<OtpView>, label: Seq<char>) -> bool {
    forall|i: int| 0 <= i < es.len() ==> (#[trigger] es[i]).label() != label
}

/// The table that a document holds: none where it has no `secrets` namespace.
pub open spec fn table_of_doc(doc: DocView) -> Result<Seq<OtpView>, FormatError> {
    match key_index(doc, "secrets"@) {
        None => Ok(Seq::empty()),
        Some(i) => match doc[i].1 {
            Some(secs) => match entries_of_sections(secs) {
                Some(es) => Ok(es),
                None => Err(FormatError::TableCorrupt),
            },
            None => Err(FormatError::TableCorrupt),
        },
    }
}

/// What `toml::from_str` reads from a text into a `toml::Table`, entries in the order of
/// the text: at each of three levels the tables that `Value::as_table` gives, and at the
/// last the strings that `Value::as_str` gives.
pub uninterp spec fn toml_doc_of(s: Seq<char>) -> Option<DocView>;

/// Relies on `toml::from_str` into a `toml::Table`, which with the `preserve_order`
/// feature keeps entries in the order of the text, and on `Value::as_table` and
/// `Value::as_str`: the document is a function of the text alone.
#[verifier::external_body]
fn toml_document(s: &str) -> (r: Option<Document>)
    ensures
        r.deep_view() == toml_doc_of(s@),
{
    let doc: toml::Table = toml::from_str(s).ok()?;
    Some(doc.iter().map(|(k, v)| (k.clone(), v.as_table().map(|t| t.iter().map(|(l, v)| (l.clone(),
        v.as_table().map(|f| f.iter().map(|(n, v)| (n.clone(), v.as_str().map(|x| x.to_string()))).collect()))).collect()))).collect())
}

/// The table that a text holds.
pub open spec fn table_of_text(s: Seq<char>) -> Result<Seq<OtpView>, FormatError> {
    match toml_doc_of(s) {
        Some(d) => table_of_doc(d),
        None => Err(FormatError::TableCorrupt),
    }
}

/// A hexadecimal digit, in lower case.
pub open spec fn hex_digit(d: nat) -> char {
    if d < 10 {
        digit_char(d)
    } else {
        ((d + 87) as u8) as char
    }
}

/// Whether a character must be escaped inside a quoted string.
pub open spec fn is_control(c: char) -> bool {
    (c as u32) < 32 || (c as u32) == 127
}

/// How one character is written inside a quoted string.
pub open spec fn escape_char(c: char) -> Seq<char> {
    if c == '"' {
        seq!['\\', '"']
    } else if c == '\\' {
        seq!['\\', '\\']
    } else if is_control(c) {
        seq!['\\', 'u', '0', '0', hex_digit(((c as u32) / 16) as nat), hex_digit(((c as u32) % 16) as nat)]
    } else {
        seq![c]
    }
}

/// How a string is written between quotes.
pub open spec fn escaped(s: Seq<char>) -> Seq<char>
    decreases s.len(),
{
    if s.len() == 0 {
        Seq::empty()
    } else {
        escaped(s.drop_last()) + escape_char(s.last())
    }
}

pub open spec fn quoted(s: Seq<char>) -> Seq<char> {
    seq!['"'] + escaped(s) + seq!['"']
}

/// The lines that hold a section's fields.
pub open spec fn fields_text(fs: WrittenFields) -> Seq<char>
    decreases fs.len(),
{
    if fs.len() == 0 {
        Seq::empty()
    } else {
        fields_text(fs.drop_last()) + fs.last().0 + " = "@ + quoted(fs.last().1) + seq!['\n']
    }
}

/// The section that holds one credential.
pub open spec fn entry_text(e: OtpView) -> Seq<char> {
    "\n[secrets."@ + quoted(e.label()) + "]\n"@ + fields_text(entry_fields(e))
}

pub open spec fn entries_text(es: Seq<OtpView>) -> Seq<char>
    decreases es.len(),
{
    if es.len() == 0 {
        Seq::empty()
    } else {
        entries_text(es.drop_last()) + entry_text(es.last())
    }
}

/// The text of a table: the `secrets` namespace, then a section for each credential.
pub open spec fn table_text(es: Seq<OtpView>) -> Seq<char> {
    "[secrets]\n"@ + entries_text(es)
}

fn hex_char(d: u32) -> (c: char)
    requires
        d < 16,
    ensures
        c == hex_digit(d as nat),
{
    if d < 10 {
        ((d as u8) + 48) as char
    } else {
        ((d as u8) + 87) as char
    }
}

fn push_escaped_char(v: &mut Vec<char>, c: char)
    ensures
        final(v)@ == old(v)@ + escape_char(c),
{
    let code = c as u32;
    if c == '"' {
        v.push('\\');
        v.push('"');
    } else if c == '\\' {
        v.push('\\');
        v.push('\\');
    } else if code < 32 || code == 127 {
        v.push('\\');
        v.push('u');
        v.push('0');
        v.push('0');
        v.push(hex_char(code / 16));
        v.push(hex_char(code % 16));
    } else {
        v.push(c);
    }
    assert(final(v)@ =~= old(v)@ + escape_char(c));
}

fn push_quoted(v: &mut Vec<char>, s: &str)
    ensures
        final(v)@ == old(v)@ + quoted(s@),
{
    let ghost start = v@;
    v.push('"');
    let n = s.unicode_len();
    let mut i: usize = 0;
    while i < n
        invariant
            n == s@.len(),
            i <= n,
            v@ == start + seq!['"'] + escaped(s@.subrange(0, i as int)),
        decreases n - i,
    {
        let c = s.get_char(i);
        push_escaped_char(v, c);
        proof {
            let p = s@.subrange(0, i + 1);
            assert(p.drop_last() =~= s@.subrange(0, i as int));
            assert(p.last() == c);
        }
        i = i + 1;
        assert(v@ =~= start + seq!['"'] + escaped(s@.subrange(0, i as int)));
    }
    assert(s@.subrange(0, n as int) =~= s@);
    v.push('"');
    assert(v@ =~= start + quoted(s@));
}

fn push_field(v: &mut Vec<char>, key: &str, value: &str)
    ensures
        final(v)@ == old(v)@ + key@ + " = "@ + quoted(value@) + seq!['\n'],
{
    let ghost start = v@;
    push_str(v, key);
    push_str(v, " = ");
    push_quoted(v, value);
    v.push('\n');
    assert(v@ =~= start + key@ + " = "@ + quoted(value@) + seq!['\n']);
}

fn algo_name(a: Algo) -> (r: &'static str)
    ensures
        r@ == algo_text(a),
{
    match a {
        Algo::SHA1 => "SHA1",
        Algo::SHA256 => "SHA256",
        Algo::SHA512 => "SHA512",
    }
}

fn algo_from_name(n: &String) -> (r: Option<Algo>)
    ensures
        r == algo_of_text(n@),
{
    if same_text(n, "SHA1") {
        Some(Algo::SHA1)
    } else if same_text(n, "SHA256") {
        Some(Algo::SHA256)
    } else if same_text(n, "SHA512") {
        Some(Algo::SHA512)
    } else {
        None
    }
}

fn field(key: &str, value: String) -> (r: (String, String))
    ensures
        r.0@ == key@,
        r.1@ == value@,
{
    (key.to_owned(), value)
}

/// The fields of a credential's section.
fn fields_of(e: &OTP) -> (r: Vec<(String, String)>)
    ensures
        r.deep_view() == entry_fields(e@),
{
    let r = match e {
        OTP::HOTP(h) => vec![
            field("secret", h.secret.clone()),
            field("issuer", h.issuer.clone()),
            field("algorithm", algo_name(h.algo).to_owned()),
            field("counter", string_of_chars(&decimal_text(h.counter))),
            field("full_uri", h.full_uri.clone()),
        ],
        OTP::TOTP(t) => vec![
            field("secret", t.secret.clone()),
            field("issuer", t.issuer.clone()),
            field("algorithm", algo_name(t.algo).to_owned()),
            field("step", string_of_chars(&decimal_text(t.step as u64))),
            field("full_uri", t.full_uri.clone()),
        ],
    };
    assert(r.deep_view() =~= entry_fields(e@));
    r
}

fn push_fields(v: &mut Vec<char>, fs: &Vec<(String, String)>)
    ensures
        final(v)@ == old(v)@ + fields_text(fs.deep_view()),
{
    let ghost start = v@;
    let mut i: usize = 0;
    while i < fs.len()
        invariant
            i <= fs.len(),
            v@ == start + fields_text(fs.deep_view().subrange(0, i as int)),
        decreases fs.len() - i,
    {
        push_field(v, fs[i].0.as_str(), fs[i].1.as_str());
        proof {
            let p = fs.deep_view().subrange(0, i + 1);
            assert(p.drop_last() =~= fs.deep_view().subrange(0, i as int));
            assert(p.last() == fs.deep_view()[i as int]);
        }
        i = i + 1;
        assert(v@ =~= start + fields_text(fs.deep_view().subrange(0, i as int)));
    }
    assert(fs.deep_view().subrange(0, fs.len() as int) =~= fs.deep_view());
}

fn push_entry(v: &mut Vec<char>, e: &OTP)
    ensures
        final(v)@ == old(v)@ + entry_text(e@),
{
    let ghost start = v@;
    push_str(v, "\n[secrets.");
    push_quoted(v, e.label().as_str());
    push_str(v, "]\n");
    push_fields(v, &fields_of(e));
    assert(v@ =~= start + entry_text(e@));
}

impl SecretsTable {
    /// The table with no credentials.
    pub fn new() -> (r: SecretsTable)
        ensures
            r@ == Seq::<OtpView>::empty(),
    {
        SecretsTable { entries: Vec::new() }
    }

    /// The number of credentials.
    pub fn len(&self) -> (r: usize)
        ensures
            r == self@.len(),
    {
        self.entries.len()
    }

    /// The credentials, in order.
    pub fn entries(&self) -> (r: &Vec<OTP>)
        ensures
            r@.map_values(|o: OTP| o@) == self@,
    {
        &self.entries
    }

    /// The position of the credential stored under `label`.
    pub fn position(&self, label: &str) -> (r: Option<usize>)
        ensures
            match r {
                Some(i) => i < self@.len() && self@[i as int].label() == label@,
                None => forall|i: int| 0 <= i < self@.len() ==> (#[trigger] self@[i]).label() != label@,
            },
    {
        let k = label.to_owned();
        let mut i: usize = 0;
        while i < self.entries.len()
            invariant
                i <= self.entries.len(),
                k@ == label@,
                forall|j: int| 0 <= j < i ==> (#[trigger] self@[j]).label() != label@,
            decreases self.entries.len() - i,
        {
            if *self.entries[i].label() == k {
                return Some(i);
            }
            i = i + 1;
        }
        None
    }

    /// The credential stored under `label`.
    pub fn get(&self, label: &str) -> (r: Option<&OTP>)
        ensures
            match r {
                Some(o) => exists|i: int| 0 <= i < self@.len() && self@[i] == o@ && o@.label() == label@,
                None => forall|i: int| 0 <= i < self@.len() ==> (#[trigger] self@[i]).label() != label@,
            },
    {
        match self.position(label) {
            Some(i) => Some(&self.entries[i]),
            None => None,
        }
    }

    /// Stores a credential under its label: in place of the one stored there, else last.
    pub fn insert(&mut self, otp: OTP)
        requires
            table_wf(old(self)@),
            otp@.secret().len() > 0,
        ensures
            table_wf(final(self)@),
            forall|i: int|
                0 <= i < old(self)@.len() && (#[trigger] old(self)@[i]).label() == otp@.label()
                    ==> final(self)@ == old(self)@.update(i, otp@),
            (forall|i: int| 0 <= i < old(self)@.len() ==> (#[trigger] old(self)@[i]).label() != otp@.label())
                ==> final(self)@ == old(self)@.push(otp@),
    {
        let ghost o = otp@;
        let p = self.position(otp.label().as_str());
        match p {
            Some(i) => {
                self.entries.set(i, otp);
                assert(self@ =~= old(self)@.update(i as int, o));
            },
            None => {
                self.entries.push(otp);
                assert(self@ =~= old(self)@.push(o));
            },
        }
    }

    /// The text of the table.
    pub fn encode(&self) -> (r: String)
        ensures
            r@ == table_text(self@),
    {
        let mut v: Vec<char> = Vec::new();
        push_str(&mut v, "[secrets]\n");
        let mut i: usize = 0;
        while i < self.entries.len()
            invariant
                i <= self.entries.len(),
                v@ == "[secrets]\n"@ + entries_text(self@.subrange(0, i as int)),
            decreases self.entries.len() - i,
        {
            push_entry(&mut v, &self.entries[i]);
            proof {
                let p = self@.subrange(0, i + 1);
                assert(p.drop_last() =~= self@.subrange(0, i as int));
            }
            i = i + 1;
            assert(v@ =~= "[secrets]\n"@ + entries_text(self@.subrange(0, i as int)));
        }
        assert(self@.subrange(0, self.entries.len() as int) =~= self@);
        string_of_chars(&v)
    }
}

/// The text of field `key`: `None` where it is missing or not a string.
fn field_lookup(fs: &Vec<(String, Option<String>)>, key: &str) -> (r: Option<String>)
    ensures
        r.deep_view() == field_text(fs.deep_view(), key@),
{
    match find_key(fs, key) {
        Some(i) => match &fs[i].1 {
            Some(t) => Some(t.clone()),
            None => None,
        },
        None => None,
    }
}

/// Whether a section has field `key`.
fn field_present(fs: &Vec<(String, Option<String>)>, key: &str) -> (r: bool)
    ensures
        r == has_field(fs.deep_view(), key@),
{
    match find_key(fs, key) {
        Some(_) => true,
        None => false,
    }
}

/// The value of an unsigned field no larger than `max`.
fn number_lookup(fs: &Vec<(String, Option<String>)>, key: &str, max: u64) -> (r: Option<u64>)
    ensures
        match number_field(fs.deep_view(), key@, max as nat) {
            Some(v) => r == Some(v as u64),
            None => r is None,
        },
{
    match field_lookup(fs, key) {
        Some(t) => parse_unsigned_text(t.as_str(), max),
        None => None,
    }
}

/// The credential that a section describes, stored under `label`.
pub fn entry_from_section(label: &String, fs: &Vec<(String, Option<String>)>) -> (r: Option<OTP>)
    ensures
        match r {
            Some(o) => entry_of_section(label@, fs.deep_view()) == Some(o@),
            None => entry_of_section(label@, fs.deep_view()) is None,
        },
{
    let secret = match field_lookup(fs, "secret") {
        Some(x) => x,
        None => return None,
    };
    let issuer = match field_lookup(fs, "issuer") {
        Some(x) => x,
        None => return None,
    };
    let algo = match field_lookup(fs, "algorithm") {
        Some(a) => match algo_from_name(&a) {
            Some(x) => x,
            None => return None,
        },
        None => return None,
    };
    let full_uri = match field_lookup(fs, "full_uri") {
        Some(x) => x,
        None => return None,
    };
    if secret.unicode_len() == 0 {
        return None;
    }
    match (field_present(fs, "counter"), field_present(fs, "step")) {
        (true, false) => match number_lookup(fs, "counter", u64::MAX) {
            Some(counter) => Some(OTP::HOTP(HOTP { secret, label: label.clone(), issuer, algo, counter, full_uri })),
            None => None,
        },
        (false, true) => match number_lookup(fs, "step", u32::MAX as u64) {
            Some(step) => Some(OTP::TOTP(TOTP { secret, label: label.clone(), issuer, algo, step: step as u32, full_uri })),
            None => None,
        },
        _ => None,
    }
}

proof fn lemma_sections_none_extends(secs: SectionsView, i: int)
    requires
        0 <= i <= secs.len(),
        entries_of_sections(secs.subrange(0, i)) is None,
    ensures
        entries_of_sections(secs) is None,
    decreases secs.len() - i,
{
    if i < secs.len() {
        let p = secs.subrange(0, i + 1);
        assert(p.drop_last() =~= secs.subrange(0, i));
        lemma_sections_none_extends(secs, i + 1);
    } else {
        assert(secs.subrange(0, i) =~= secs);
    }
}

proof fn lemma_entry_shape(label: Seq<char>, fs: FieldsView)
    ensures
        entry_of_section(label, fs) matches Some(e) ==> e.label() == label && e.secret().len() > 0,
{
}

proof fn lemma_sections_labels(secs: SectionsView)
    ensures
        entries_of_sections(secs) matches Some(es) ==> table_wf(es),
    decreases secs.len(),
{
    if secs.len() > 0 {
        lemma_sections_labels(secs.drop_last());
        if let Some(fs) = secs.last().1 {
            lemma_entry_shape(secs.last().0, fs);
        }
        assert(section_entry(secs.last()) matches Some(e) ==> e.secret().len() > 0);
        if let Some(all) = entries_of_sections(secs) {
            let es = entries_of_sections(secs.drop_last())->0;
            let e = all.last();
            assert(all == es.push(e));
            assert(section_entry(secs.last()) == Some(e));
            assert(label_free(es, e.label()));
            assert forall|i: int| 0 <= i < all.len() implies (#[trigger] all[i]).secret().len() > 0 by {
                if i < es.len() {
                    assert(all[i] == es[i]);
                }
            }
            assert forall|i: int, j: int|
                0 <= i < all.len() && 0 <= j < all.len() && i != j implies #[trigger] all[i].label() != #[trigger] all[j].label() by {
                if i < es.len() {
                    assert(all[i] == es[i]);
                }
                if j < es.len() {
                    assert(all[j] == es[j]);
                }
            }
        }
    }
}

/// The credentials of a namespace's sections; `None` where a section does not describe
/// one or two share a label.
pub fn table_from_sections(secs: &Vec<(String, Option<Vec<(String, Option<String>)>>)>) -> (r: Option<SecretsTable>)
    ensures
        match r {
            Some(t) => entries_of_sections(secs.deep_view()) == Some(t@),
            None => entries_of_sections(secs.deep_view()) is None,
        },
{
    let mut out = SecretsTable::new();
    let mut i: usize = 0;
    while i < secs.len()
        invariant
            i <= secs.len(),
            entries_of_sections(secs.deep_view().subrange(0, i as int)) == Some(out@),
        decreases secs.len() - i,
    {
        let ghost p = secs.deep_view().subrange(0, i + 1);
        assert(p.drop_last() =~= secs.deep_view().subrange(0, i as int));
        assert(p.last() == secs.deep_view()[i as int]);
        let found = match &secs[i].1 {
            Some(fs) => {
                assert(secs.deep_view()[i as int].1 == Some(fs.deep_view()));
                assert(secs.deep_view()[i as int].0 == secs@[i as int].0@);
                entry_from_section(&secs[i].0, fs)
            },
            None => None,
        };
        assert(section_entry(p.last()) == match found {
            Some(o) => Some(o@),
            None => None::<OtpView>,
        });
        let e = match found {
            Some(e) => e,
            None => {
                proof { lemma_sections_none_extends(secs.deep_view(), i + 1); }
                return None;
            },
        };
        if let Some(k) = out.position(e.label().as_str()) {
            assert(out@[k as int].label() == e@.label());
            proof { lemma_sections_none_extends(secs.deep_view(), i + 1); }
            return None;
        }
        let ghost before = out@;
        out.entries.push(e);
        assert(out@ =~= before.push(e@));
        i = i + 1;
    }
    assert(secs.deep_view().subrange(0, secs.len() as int) =~= secs.deep_view());
    Some(out)
}

/// The table that a document holds: the empty table where it has no `secrets` namespace.
pub fn table_from_doc(doc: &Document) -> (r: Result<SecretsTable, FormatError>)
    ensures
        table_result(r) == table_of_doc(doc.deep_view()),
        r matches Ok(t) ==> table_wf(t@),
{
    match find_key(doc, "secrets") {
        None => Ok(SecretsTable::new()),
        Some(i) => {
            assert(doc.deep_view()[i as int].1 == doc@[i as int].1.deep_view());
            match &doc[i].1 {
                Some(secs) => {
                    proof { lemma_sections_labels(secs.deep_view()); }
                    match table_from_sections(secs) {
                        Some(t) => Ok(t),
                        None => Err(FormatError::TableCorrupt),
                    }
                },
                None => Err(FormatError::TableCorrupt),
            }
        },
    }
}

/// Reads a secrets table from its text.
pub fn deserialize(raw: &str) -> (r: Result<SecretsTable, FormatError>)
    ensures
        table_result(r) == table_of_text(raw@),
        r matches Ok(t) ==> table_wf(t@),
{
    match toml_document(raw) {
        Some(doc) => table_from_doc(&doc),
        None => Err(FormatError::TableCorrupt),
    }
}

proof fn lemma_parse_decimal(n: nat, max: nat)
    requires
        n <= max,
    ensures
        parse_unsigned(decimal_of(n), max) == Some(n),
{
    lemma_decimal_round_trip(n);
    assert(unsigned_digits(decimal_of(n)) == decimal_of(n));
}

proof fn lemma_algo_round_trip(a: Algo)
    ensures
        algo_of_text(algo_text(a)) == Some(a),
{
    reveal_strlit("SHA1");
    reveal_strlit("SHA256");
    reveal_strlit("SHA512");
    assert("SHA1"@.len() != "SHA256"@.len());
    assert("SHA1"@.len() != "SHA512"@.len());
    assert("SHA256"@[3] != "SHA512"@[3]);
}

/// A credential's section reads back as the credential.
pub proof fn lemma_entry_round_trip(e: OtpView)
    requires
        e.secret().len() > 0,
    ensures
        entry_of_section(e.label(), section_fields(e)) == Some(e),
{
    reveal_strlit("secret");
    reveal_strlit("issuer");
    reveal_strlit("algorithm");
    reveal_strlit("counter");
    reveal_strlit("step");
    reveal_strlit("full_uri");
    reveal_with_fuel(key_index, 6);
    assert("secret"@[0] != "issuer"@[0] && "secret"@[0] != "algorithm"@[0] && "secret"@[0] != "counter"@[0]);
    assert("secret"@[0] != "full_uri"@[0] && "issuer"@[0] != "algorithm"@[0] && "issuer"@[0] != "counter"@[0]);
    assert("issuer"@[0] != "step"@[0] && "issuer"@[0] != "full_uri"@[0] && "algorithm"@[0] != "counter"@[0]);
    assert("algorithm"@[0] != "step"@[0] && "algorithm"@[0] != "full_uri"@[0] && "counter"@[0] != "full_uri"@[0]);
    assert("secret"@[1] != "step"@[1] && "step"@[0] != "full_uri"@[0] && "step"@[0] != "counter"@[0]);
    let fs = section_fields(e);
    lemma_algo_round_trip(
        match e {
            OtpView::Hotp { algo, .. } => algo,
            OtpView::Totp { algo, .. } => algo,
        },
    );
    match e {
        OtpView::Hotp { counter, .. } => {
            lemma_parse_decimal(counter as nat, u64::MAX as nat);
            assert(fs.drop_first().drop_first().drop_first().drop_first().drop_first() =~= Seq::<(Seq<char>, Option<Seq<char>>)>::empty());
        },
        OtpView::Totp { step, .. } => {
            lemma_parse_decimal(step as nat, u32::MAX as nat);
            assert(fs.drop_first().drop_first().drop_first().drop_first().drop_first() =~= Seq::<(Seq<char>, Option<Seq<char>>)>::empty());
        },
    }
}

proof fn lemma_sections_round_trip(es: Seq<OtpView>)
    requires
        table_wf(es),
    ensures
        entries_of_sections(table_sections(es)) == Some(es),
    decreases es.len(),
{
    let secs = table_sections(es);
    if es.len() > 0 {
        let init = es.drop_last();
        assert(secs.drop_last() =~= table_sections(init));
        assert(table_wf(init)) by {
            assert forall|i: int| 0 <= i < init.len() implies (#[trigger] init[i]).secret().len() > 0 by {
                assert(init[i] == es[i]);
            }
            assert forall|i: int, j: int|
                0 <= i < init.len() && 0 <= j < init.len() && i != j implies #[trigger] init[i].label() != #[trigger] init[j].label() by {
                assert(init[i] == es[i] && init[j] == es[j]);
            }
        }
        lemma_sections_round_trip(init);
        let last = es.last();
        assert(es[es.len() - 1].secret().len() > 0);
        lemma_entry_round_trip(last);
        assert forall|i: int| 0 <= i < init.len() implies (#[trigger] init[i]).label() != last.label() by {
            assert(init[i] == es[i]);
            assert(es[i].label() != es[es.len() - 1].label());
        }
        assert(init.push(last) =~= es);
    } else {
        assert(es =~= Seq::<OtpView>::empty());
    }
}

/// The document that a table's text is written to stand for reads back as the table.
pub(crate) proof fn lemma_doc_round_trip(es: Seq<OtpView>)
    requires
        table_wf(es),
    ensures
        table_of_doc(doc_of_table(es)) == Ok::<Seq<OtpView>, FormatError>(es),
{
    lemma_sections_round_trip(es);
    assert(key_index(doc_of_table(es), "secrets"@) == Some(0int));
}

} // verus!
