use vstd::prelude::*;
use crate::otp::OtpView;
use crate::text::key_index;
use crate::table::{doc_of_table, entries_of_sections, lemma_doc_round_trip, table_of_doc, table_wf, DocView, FormatError, SectionsView};

verus! {

/// For every table, the document that `encode`'s text is written to stand for (one
/// `secrets` namespace, a section per credential in the table's order, string fields)
/// is read back by `deserialize`'s reading step as that same table, order included. That
/// `toml` parses the text into this document is the outside crate's part and is not
/// stated here.
pub proof fn table_round_trip(t: Seq<OtpView>)
    requires
        table_wf(t),
    ensures
        table_of_doc(doc_of_table(t)) == Ok::<Seq<OtpView>, FormatError>(t),
{
    lemma_doc_round_trip(t);
}

/// A document whose `secrets` namespace is missing, or is a table with no section, reads
/// as the table with no credentials, not as an error.
pub proof fn empty_namespace_reads_empty(doc: DocView)
    requires
        key_index(doc, "secrets"@) matches Some(i) ==> doc[i].1 == Some(Seq::<(Seq<char>, Option<crate::table::FieldsView>)>::empty()),
    ensures
        table_of_doc(doc) == Ok::<Seq<OtpView>, FormatError>(Seq::empty()),
{
    if let Some(i) = key_index(doc, "secrets"@) {
        assert(entries_of_sections(Seq::<(Seq<char>, Option<crate::table::FieldsView>)>::empty()) == Some(Seq::<OtpView>::empty()));
    }
}

} // verus!
