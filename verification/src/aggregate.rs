//! The aggregator: folds the MIME types declared by a set of metadata files
//! into one association map, collecting a notice for everything it skips.
//!
//! Every failure here is recoverable and per-file: a malformed file, a
//! section with an unexpected name, or a missing MIME-type key drops that
//! contribution alone and never aborts the run.

use vstd::prelude::*;
use crate::assoc::{AssocMap, AssocView, upsert, wf_assoc, lemma_upsert_preserves_wf};
use crate::document::{
    Document, DocumentView, SectionView, doc_mimes, entry_section_name, lookup, lookup_value,
    mime_key, parse_metadata_text, parsed_document, section_is_entry, section_mimes,
};
use crate::tokens::split_mime_list;

verus! {

/// A recoverable, per-file condition noted while aggregating; the caller
/// reports each and goes on.
pub enum Notice {
    /// The file could not be parsed; carries the parser's message.
    ParseFailure { path: String, detail: String },
    /// A section with an unexpected name was ignored.
    UnrecognizedSection { path: String, section: String },
    /// Keys stood outside any section header.
    MissingSection { path: String },
    /// The entry section declares no MIME types.
    MissingMimeType { path: String },
}

/// Spec-level image of a notice. The parser's message is free-form and is
/// not modelled.
pub enum NoticeView {
    ParseFailure { path: Seq<char> },
    UnrecognizedSection { path: Seq<char>, section: Seq<char> },
    MissingSection { path: Seq<char> },
    MissingMimeType { path: Seq<char> },
}

impl DeepView for Notice {
    type V = NoticeView;

    open spec fn deep_view(&self) -> NoticeView {
        match self {
            Notice::ParseFailure { path, detail: _ } => NoticeView::ParseFailure { path: path@ },
            Notice::UnrecognizedSection { path, section } => NoticeView::UnrecognizedSection {
                path: path@,
                section: section@,
            },
            Notice::MissingSection { path } => NoticeView::MissingSection { path: path@ },
            Notice::MissingMimeType { path } => NoticeView::MissingMimeType { path: path@ },
        }
    }
}

/// The notices one section of `path`'s document raises. A nameless scope
/// is reported as a missing section only when it actually holds keys: the
/// parser yields an empty unnamed scope even for a file whose keys all sit
/// under headers, and that artifact is no finding about the file.
pub open spec fn section_notices(path: Seq<char>, s: SectionView) -> Seq<NoticeView> {
    match s.0 {
        Option::None => if s.1.len() == 0 {
            Seq::empty()
        } else {
            seq![NoticeView::MissingSection { path }]
        },
        Option::Some(name) => if name == entry_section_name() {
            match lookup(s.1, mime_key()) {
                Option::None => seq![NoticeView::MissingMimeType { path }],
                Option::Some(_) => Seq::empty(),
            }
        } else {
            seq![NoticeView::UnrecognizedSection { path, section: name }]
        },
    }
}

/// The notices a whole parsed document raises, in document order.
pub open spec fn doc_notices(path: Seq<char>, d: DocumentView) -> Seq<NoticeView>
    decreases d.len(),
{
    if d.len() == 0 {
        Seq::empty()
    } else {
        section_notices(path, d[0]) + doc_notices(path, d.drop_first())
    }
}

/// Folds a list of MIME types into the map, appending `handler` to each.
pub open spec fn fold_mimes(m: AssocView, handler: Seq<char>, mimes: Seq<Seq<char>>) -> AssocView
    decreases mimes.len(),
{
    if mimes.len() == 0 {
        m
    } else {
        fold_mimes(upsert(m, mimes[0], handler), handler, mimes.drop_first())
    }
}

/// Folding preserves well-formedness of the map.
pub proof fn lemma_fold_mimes_preserves_wf(m: AssocView, handler: Seq<char>, mimes: Seq<Seq<char>>)
    requires
        wf_assoc(m),
    ensures
        wf_assoc(fold_mimes(m, handler, mimes)),
    decreases mimes.len(),
{
    if mimes.len() > 0 {
        lemma_upsert_preserves_wf(m, mimes[0], handler);
        lemma_fold_mimes_preserves_wf(upsert(m, mimes[0], handler), handler, mimes.drop_first());
    }
}

/// Folding a concatenation folds its parts in order.
pub proof fn lemma_fold_mimes_concat(
    m: AssocView,
    handler: Seq<char>,
    a: Seq<Seq<char>>,
    b: Seq<Seq<char>>,
)
    ensures
        fold_mimes(m, handler, a + b) == fold_mimes(fold_mimes(m, handler, a), handler, b),
    decreases a.len(),
{
    if a.len() == 0 {
        assert(a + b =~= b);
    } else {
        assert((a + b)[0] == a[0]);
        assert((a + b).drop_first() =~= a.drop_first() + b);
        lemma_fold_mimes_concat(upsert(m, a[0], handler), handler, a.drop_first(), b);
    }
}

/// What one file contributes to the map: nothing when its text is
/// malformed, otherwise its document's MIME types keyed to its path.
pub open spec fn file_fold(m: AssocView, path: Seq<char>, text: Seq<char>) -> AssocView {
    match parsed_document(text) {
        Option::None => m,
        Option::Some(d) => fold_mimes(m, path, doc_mimes(d)),
    }
}

/// The notices one file raises: a parse failure, or its document's own.
pub open spec fn file_notices(path: Seq<char>, text: Seq<char>) -> Seq<NoticeView> {
    match parsed_document(text) {
        Option::None => seq![NoticeView::ParseFailure { path }],
        Option::Some(d) => doc_notices(path, d),
    }
}

/// The association map after folding `files` (each a path/text pair) into `m`.
pub open spec fn build_from(m: AssocView, files: Seq<(Seq<char>, Seq<char>)>) -> AssocView
    decreases files.len(),
{
    if files.len() == 0 {
        m
    } else {
        build_from(file_fold(m, files[0].0, files[0].1), files.drop_first())
    }
}

/// The association map aggregated from `files`, starting empty.
pub open spec fn spec_associations(files: Seq<(Seq<char>, Seq<char>)>) -> AssocView {
    build_from(Seq::empty(), files)
}

/// All notices raised while aggregating `files`, in file order.
pub open spec fn spec_notices(files: Seq<(Seq<char>, Seq<char>)>) -> Seq<NoticeView>
    decreases files.len(),
{
    if files.len() == 0 {
        Seq::empty()
    } else {
        file_notices(files[0].0, files[0].1) + spec_notices(files.drop_first())
    }
}

/// Every MIME-type key of an aggregated association map has a non-empty
/// candidate list, and keys are unique: no entry is ever created empty.
pub proof fn lemma_associations_nonempty(files: Seq<(Seq<char>, Seq<char>)>)
    ensures
        wf_assoc(spec_associations(files)),
        forall|i: int|
            0 <= i < spec_associations(files).len() ==> (#[trigger] spec_associations(
                files,
            )[i]).1.len() > 0,
{
    lemma_build_from_preserves_wf(Seq::empty(), files);
}

/// Folding any file sequence into a well-formed map keeps it well-formed.
pub proof fn lemma_build_from_preserves_wf(m: AssocView, files: Seq<(Seq<char>, Seq<char>)>)
    requires
        wf_assoc(m),
    ensures
        wf_assoc(build_from(m, files)),
    decreases files.len(),
{
    if files.len() > 0 {
        let m1 = file_fold(m, files[0].0, files[0].1);
        match parsed_document(files[0].1) {
            Option::None => {},
            Option::Some(d) => {
                lemma_fold_mimes_preserves_wf(m, files[0].0, doc_mimes(d));
            },
        }
        lemma_build_from_preserves_wf(m1, files.drop_first());
    }
}

/// A document none of whose sections is the entry section contributes
/// nothing to the association map, whatever else it holds.
pub proof fn lemma_foreign_document_contributes_nothing(
    m: AssocView,
    path: Seq<char>,
    d: DocumentView,
)
    requires
        forall|i: int| 0 <= i < d.len() ==> (#[trigger] d[i]).0 != Some(entry_section_name()),
    ensures
        fold_mimes(m, path, doc_mimes(d)) == m,
    decreases d.len(),
{
    if d.len() == 0 {
    } else {
        assert(section_mimes(d[0]) =~= Seq::<Seq<char>>::empty());
        assert forall|i: int| 0 <= i < d.drop_first().len() implies (#[trigger] d.drop_first()[i]).0
            != Some(entry_section_name()) by {
            assert(d.drop_first()[i] == d[i + 1]);
        }
        lemma_foreign_document_contributes_nothing(m, path, d.drop_first());
        assert(doc_mimes(d) =~= doc_mimes(d.drop_first()));
    }
}

/// One discovered metadata file: its path (also its handler identifier) and
/// the text read from it.
pub struct SourceFile {
    pub path: String,
    pub text: String,
}

impl DeepView for SourceFile {
    type V = (Seq<char>, Seq<char>);

    open spec fn deep_view(&self) -> (Seq<char>, Seq<char>) {
        (self.path@, self.text@)
    }
}

/// Folds one parsed document into the map: each MIME type declared by an
/// entry section gains `path` as a candidate handler, in document order.
#[verifier::loop_isolation(false)]
pub fn fold_document(map: &mut AssocMap, path: &String, doc: &Document) -> (notes: Vec<Notice>)
    requires
        old(map).wf(),
    ensures
        final(map).wf(),
        final(map)@ == fold_mimes(old(map)@, path@, doc_mimes(doc.deep_view())),
        notes.deep_view() == doc_notices(path@, doc.deep_view()),
{
    let ghost d = doc.deep_view();
    let ghost m0 = old(map)@;
    let mut notes: Vec<Notice> = Vec::new();
    let n = doc.sections.len();
    let mut i: usize = 0;
    proof {
        assert(d.subrange(0, n as int) =~= d);
        assert(notes.deep_view() =~~= Seq::<NoticeView>::empty());
    }
    while i < n
        invariant
            0 <= i <= n,
            n == doc.sections.len(),
            map.wf(),
            fold_mimes(map@, path@, doc_mimes(d.subrange(i as int, n as int))) == fold_mimes(
                m0,
                path@,
                doc_mimes(d),
            ),
            notes.deep_view() + doc_notices(path@, d.subrange(i as int, n as int)) =~~=
                doc_notices(path@, d),
        decreases n - i,
    {
        let ghost rest = d.subrange(i as int, n as int);
        proof {
            assert(rest[0] == d[i as int]);
            assert(rest.drop_first() =~= d.subrange(i as int + 1, n as int));
            assert(doc_mimes(rest) == section_mimes(rest[0]) + doc_mimes(rest.drop_first()));
            lemma_fold_mimes_concat(map@, path@, section_mimes(rest[0]), doc_mimes(
                rest.drop_first(),
            ));
        }
        let section = &doc.sections[i];
        proof {
            assert(section.deep_view() == d[i as int]);
        }
        if section_is_entry(section) {
            let key = "MimeType".to_owned();
            match lookup_value(&section.entries, &key) {
                Some(value) => {
                    let tokens = split_mime_list(value.as_str());
                    let tn = tokens.len();
                    let ghost mimes = section_mimes(d[i as int]);
                    proof {
                        assert(mimes == tokens.deep_view());
                        assert(section_notices(path@, d[i as int]) =~~=
                            Seq::<NoticeView>::empty());
                        assert(mimes.subrange(0, tn as int) =~= mimes);
                    }
                    let ghost mfolded = fold_mimes(map@, path@, mimes);
                    let mut j: usize = 0;
                    while j < tn
                        invariant
                            0 <= j <= tn,
                            tn == tokens.len(),
                            map.wf(),
                            fold_mimes(map@, path@, mimes.subrange(j as int, tn as int))
                                == mfolded,
                        decreases tn - j,
                    {
                        let ghost trest = mimes.subrange(j as int, tn as int);
                        proof {
                            assert(trest[0] == mimes[j as int]);
                            assert(trest.drop_first() =~= mimes.subrange(
                                j as int + 1,
                                tn as int,
                            ));
                            assert(mimes[j as int] == tokens[j as int]@);
                        }
                        map.upsert(&tokens[j], path);
                        j = j + 1;
                    }
                    proof {
                        assert(mimes.subrange(tn as int, tn as int).len() == 0);
                        assert(map@ == mfolded);
                    }
                },
                None => {
                    notes.push(Notice::MissingMimeType { path: path.clone() });
                    proof {
                        assert(section_mimes(d[i as int]) =~= Seq::<Seq<char>>::empty());
                        assert(section_notices(path@, d[i as int]) =~~= seq![
                            NoticeView::MissingMimeType { path: path@ },
                        ]);
                    }
                },
            }
        } else {
            match &section.name {
                Some(name) => {
                    notes.push(
                        Notice::UnrecognizedSection {
                            path: path.clone(),
                            section: name.clone(),
                        },
                    );
                    proof {
                        assert(section_notices(path@, d[i as int]) =~~= seq![
                            NoticeView::UnrecognizedSection { path: path@, section: name@ },
                        ]);
                    }
                },
                None => {
                    if section.entries.len() > 0 {
                        notes.push(Notice::MissingSection { path: path.clone() });
                        proof {
                            assert(section_notices(path@, d[i as int]) =~~= seq![
                                NoticeView::MissingSection { path: path@ },
                            ]);
                        }
                    } else {
                        proof {
                            assert(section_notices(path@, d[i as int]) =~~=
                                Seq::<NoticeView>::empty());
                        }
                    }
                },
            }
            proof {
                assert(section_mimes(d[i as int]) =~= Seq::<Seq<char>>::empty());
            }
        }
        i = i + 1;
    }
    proof {
        assert(d.subrange(n as int, n as int).len() == 0);
        assert(notes.deep_view() =~~= doc_notices(path@, d));
    }
    notes
}

/// Aggregates the discovered files into the association map, returning the
/// map and every notice raised along the way. One malformed file, foreign
/// section or missing declaration never aborts the run: it is turned into a
/// notice and the remaining files are still folded in.
#[verifier::loop_isolation(false)]
pub fn build_associations(files: &Vec<SourceFile>) -> (r: (AssocMap, Vec<Notice>))
    ensures
        r.0.wf(),
        r.0@ == spec_associations(files.deep_view()),
        r.1.deep_view() == spec_notices(files.deep_view()),
{
    let ghost fv = files.deep_view();
    let mut map = AssocMap::new();
    let mut notes: Vec<Notice> = Vec::new();
    let n = files.len();
    let mut i: usize = 0;
    proof {
        assert(fv.subrange(0, n as int) =~= fv);
        assert(notes.deep_view() =~~= Seq::<NoticeView>::empty());
    }
    while i < n
        invariant
            0 <= i <= n,
            n == files.len(),
            map.wf(),
            build_from(map@, fv.subrange(i as int, n as int)) == spec_associations(fv),
            notes.deep_view() + spec_notices(fv.subrange(i as int, n as int)) =~~= spec_notices(
                fv,
            ),
        decreases n - i,
    {
        let ghost rest = fv.subrange(i as int, n as int);
        proof {
            assert(rest[0] == fv[i as int]);
            assert(rest.drop_first() =~= fv.subrange(i as int + 1, n as int));
            assert(fv[i as int] == files[i as int].deep_view());
        }
        let file = &files[i];
        match parse_metadata_text(file.text.as_str()) {
            Ok(doc) => {
                let mut sub = fold_document(&mut map, &file.path, &doc);
                proof {
                    assert(file_notices(fv[i as int].0, fv[i as int].1) == doc_notices(
                        file.path@,
                        doc.deep_view(),
                    ));
                }
                let ghost before = notes.deep_view();
                let ghost subv = sub.deep_view();
                notes.append(&mut sub);
                proof {
                    assert(notes.deep_view() =~~= before + subv);
                }
            },
            Err(detail) => {
                notes.push(Notice::ParseFailure { path: file.path.clone(), detail });
                proof {
                    assert(file_notices(fv[i as int].0, fv[i as int].1) =~~= seq![
                        NoticeView::ParseFailure { path: file.path@ },
                    ]);
                }
            },
        }
        i = i + 1;
    }
    proof {
        assert(fv.subrange(n as int, n as int).len() == 0);
        assert(notes.deep_view() =~~= spec_notices(fv));
    }
    (map, notes)
}

} // verus!
