//! Parsed metadata documents.
//!
//! A metadata file is a key/value-section document. Only the entry section
//! is consulted, and within it only the MIME-type-list key. Parsing itself
//! is delegated to an outside parser; this module holds the parsed shape and
//! the rules that read it.

use vstd::prelude::*;
use crate::tokens::mime_tokens;

verus! {

/// One section of a parsed metadata document: its name (`None` for keys
/// found outside any section header) and its key/value pairs in document
/// order.
pub struct Section {
    pub name: Option<String>,
    pub entries: Vec<(String, String)>,
}

/// Spec-level image of a section: its name and its key/value pairs.
pub type SectionView = (Option<Seq<char>>, Seq<(Seq<char>, Seq<char>)>);

impl DeepView for Section {
    type V = SectionView;

    open spec fn deep_view(&self) -> SectionView {
        (self.name.deep_view(), self.entries.deep_view())
    }
}

/// A parsed metadata document: its sections in document order.
pub struct Document {
    pub sections: Vec<Section>,
}

/// Spec-level image of a document.
pub type DocumentView = Seq<SectionView>;

impl DeepView for Document {
    type V = DocumentView;

    open spec fn deep_view(&self) -> DocumentView {
        self.sections.deep_view()
    }
}

/// The one recognized section name: only its keys carry handler metadata.
pub open spec fn entry_section_name() -> Seq<char> {
    "Desktop Entry"@
}

/// The key whose value lists the MIME types a file declares.
pub open spec fn mime_key() -> Seq<char> {
    "MimeType"@
}

/// First-match lookup among a section's key/value pairs, as the underlying
/// document format resolves a key that occurs more than once.
pub open spec fn lookup(entries: Seq<(Seq<char>, Seq<char>)>, key: Seq<char>) -> Option<Seq<char>>
    decreases entries.len(),
{
    if entries.len() == 0 {
        None
    } else if entries[0].0 == key {
        Some(entries[0].1)
    } else {
        lookup(entries.drop_first(), key)
    }
}

/// The MIME types one section contributes: none unless it is the entry
/// section and declares the MIME-type-list key; otherwise the tokens of
/// that key's value.
pub open spec fn section_mimes(s: SectionView) -> Seq<Seq<char>> {
    if s.0 != Some(entry_section_name()) {
        Seq::empty()
    } else {
        match lookup(s.1, mime_key()) {
            None => Seq::empty(),
            Some(value) => mime_tokens(value),
        }
    }
}

/// The MIME types a whole document contributes, in document order.
pub open spec fn doc_mimes(d: DocumentView) -> Seq<Seq<char>>
    decreases d.len(),
{
    if d.len() == 0 {
        Seq::empty()
    } else {
        section_mimes(d[0]) + doc_mimes(d.drop_first())
    }
}

/// Whether this section is the entry section.
pub fn section_is_entry(section: &Section) -> (r: bool)
    ensures
        r == (section.deep_view().0 == Some(entry_section_name())),
{
    match &section.name {
        Some(n) => {
            let target = "Desktop Entry".to_owned();
            *n == target
        },
        None => false,
    }
}

/// First-match lookup of `key` among a section's key/value pairs.
#[verifier::loop_isolation(false)]
pub fn lookup_value<'a>(entries: &'a Vec<(String, String)>, key: &String) -> (r: Option<
    &'a String,
>)
    ensures
        match r {
            Some(v) => lookup(entries.deep_view(), key@) == Some(v@),
            None => lookup(entries.deep_view(), key@) is None,
        },
{
    let n = entries.len();
    let mut i: usize = 0;
    proof {
        assert(entries.deep_view().subrange(0, n as int) =~= entries.deep_view());
    }
    while i < n
        invariant
            0 <= i <= n,
            n == entries.len(),
            lookup(entries.deep_view(), key@) == lookup(
                entries.deep_view().subrange(i as int, n as int),
                key@,
            ),
        decreases n - i,
    {
        let ghost rest = entries.deep_view().subrange(i as int, n as int);
        proof {
            assert(rest[0] == entries.deep_view()[i as int]);
            assert(rest.drop_first() =~= entries.deep_view().subrange(i as int + 1, n as int));
        }
        if entries[i].0 == *key {
            proof {
                assert(rest[0].0 == key@);
            }
            return Some(&entries[i].1);
        }
        i = i + 1;
    }
    proof {
        assert(entries.deep_view().subrange(n as int, n as int).len() == 0);
    }
    None
}

/// What parsing a metadata text yields: the sections in document order with
/// their key/value pairs, or nothing when the text is malformed. The
/// outcome is a function of the text alone.
pub uninterp spec fn parsed_document(text: Seq<char>) -> Option<DocumentView>;

/// Relies on `ini::Ini::load_from_str`: parses a key/value-section text and
/// hands back its sections with their key/value pairs, both in document
/// order; parsing is deterministic in the text. The error case carries the
/// parser's own message.
#[verifier::external_body]
pub(crate) fn parse_metadata_text(text: &str) -> (r: Result<Document, String>)
    ensures
        match r {
            Ok(doc) => parsed_document(text@) == Some(doc.deep_view()),
            Err(_) => parsed_document(text@) is None,
        },
{
    match ini::Ini::load_from_str(text) {
        Ok(doc) => Ok(Document {
            sections: doc.iter().map(|(name, props)| Section {
                name: name.map(|n| n.to_owned()),
                entries: props.iter().map(|(k, v)| (k.to_owned(), v.to_owned())).collect(),
            }).collect(),
        }),
        Err(e) => Err(format!("{}", e)),
    }
}

} // verus!
