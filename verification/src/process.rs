//! From decoded documents to accepted remarks.
//!
//! Only a "Missed" document with a resolvable location is a candidate;
//! the acceptance policy then decides whether it becomes a remark. The
//! surviving candidates keep their pass and name verbatim, carry the
//! demangled function identity with the remapped location, and compose
//! their arguments into a message. Document order, and file order across
//! files, are preserved.

use crate::demangle::demangle;
use crate::demangle::demangle_spec;
use crate::message::compose_message;
use crate::message::construct_message;
use crate::model::DebugLocationV;
use crate::model::Function;
use crate::model::FunctionV;
use crate::model::MissedDocV;
use crate::model::RawDocument;
use crate::model::RawDocumentV;
use crate::model::Remark;
use crate::model::RemarkLoadOptions;
use crate::model::RemarkLoadOptionsV;
use crate::model::RemarkV;
use crate::paths::debug_loc_spec;
use crate::paths::join_exec;
use crate::paths::parse_debug_loc;
use crate::policy::accept_candidate;
use crate::policy::accepts;
use crate::policy::needs_probe;
use crate::policy::probe_path_spec;
use vstd::prelude::*;

verus! {

/// The remark a decoded document yields, if any: a "Missed" document with
/// a location that the policy accepts yields exactly one remark, with its
/// pass, name and hotness preserved verbatim; every other document yields
/// nothing.
pub open spec fn doc_remark(
    doc: RawDocumentV,
    opts: RemarkLoadOptionsV,
    file_exists: bool,
) -> Option<RemarkV> {
    match doc {
        RawDocumentV::Missed(m) => match m.debug_loc {
            Option::Some(loc) => if accepts(opts, m.name, loc.file, file_exists) {
                Option::Some(
                    RemarkV {
                        pass: m.pass,
                        name: m.name,
                        function: FunctionV {
                            name: demangle_spec(m.function),
                            location: Option::Some(debug_loc_spec(opts, loc)),
                        },
                        message: compose_message(opts, m.args),
                        hotness: m.hotness,
                    },
                )
            } else {
                Option::None
            },
            Option::None => Option::None,
        },
        RawDocumentV::Passed => Option::None,
        RawDocumentV::Analysis => Option::None,
    }
}

/// A "Missed" document with a location the policy accepts yields exactly
/// one remark, whose pass, name and hotness are the document's own, whose
/// function identity is the demangled name at the remapped location, and
/// whose message is the composition of its arguments.
pub proof fn lemma_accepted_missed_yields_remark(
    m: MissedDocV,
    loc: DebugLocationV,
    opts: RemarkLoadOptionsV,
    file_exists: bool,
)
    requires
        m.debug_loc == Option::Some(loc),
        accepts(opts, m.name, loc.file, file_exists),
    ensures
        doc_remark(RawDocumentV::Missed(m), opts, file_exists) == Option::Some(
            RemarkV {
                pass: m.pass,
                name: m.name,
                function: FunctionV {
                    name: demangle_spec(m.function),
                    location: Option::Some(debug_loc_spec(opts, loc)),
                },
                message: compose_message(opts, m.args),
                hotness: m.hotness,
            },
        ),
{
}

/// A "Passed" or "Analysis" document never yields a remark, whatever it
/// holds.
pub proof fn lemma_non_missed_yields_nothing(
    doc: RawDocumentV,
    opts: RemarkLoadOptionsV,
    file_exists: bool,
)
    requires
        doc == RawDocumentV::Passed || doc == RawDocumentV::Analysis,
    ensures
        (doc_remark(doc, opts, file_exists) is None),
{
}

/// A "Missed" document without a location yields no remark.
pub proof fn lemma_unlocated_missed_yields_nothing(
    m: MissedDocV,
    opts: RemarkLoadOptionsV,
    file_exists: bool,
)
    requires
        (m.debug_loc is None),
    ensures
        (doc_remark(RawDocumentV::Missed(m), opts, file_exists) is None),
{
}

/// Turns one decoded document into its remark, if the document is a
/// located "Missed" candidate that the policy accepts. `file_exists` is
/// the outcome of the filesystem probe for the candidate's path (see
/// [`document_probe_path`]); it is ignored whenever the policy does not
/// consult the filesystem.
pub fn process_document(
    document: RawDocument,
    options: &RemarkLoadOptions,
    file_exists: bool,
) -> (r: Option<Remark>)
    ensures
        r.deep_view() == doc_remark(document@, options@, file_exists),
{
    match document {
        RawDocument::Missed(m) => {
            match m.debug_loc {
                Option::Some(loc) => {
                    if accept_candidate(options, &m.name, &loc.file, file_exists) {
                        let function_name = demangle(m.function.as_str());
                        let location = parse_debug_loc(options, loc);
                        let message = construct_message(options, m.args);
                        let remark = Remark {
                            pass: m.pass,
                            name: m.name,
                            function: Function {
                                name: function_name,
                                location: Option::Some(location),
                            },
                            message,
                            hotness: m.hotness,
                        };
                        Option::Some(remark)
                    } else {
                        Option::None
                    }
                },
                Option::None => Option::None,
            }
        },
        RawDocument::Passed => Option::None,
        RawDocument::Analysis => Option::None,
    }
}

/// The path the policy would probe for a document, if it probes at all: a
/// located "Missed" document of a load that rejects external remarks, with
/// a relative path, asks whether that path resolved under the source
/// directory names an existing regular file.
pub open spec fn probe_request(doc: RawDocumentV, opts: RemarkLoadOptionsV) -> Option<Seq<char>> {
    match doc {
        RawDocumentV::Missed(m) => match m.debug_loc {
            Option::Some(loc) => if needs_probe(opts, loc.file) {
                Option::Some(probe_path_spec(opts, loc.file))
            } else {
                Option::None
            },
            Option::None => Option::None,
        },
        RawDocumentV::Passed => Option::None,
        RawDocumentV::Analysis => Option::None,
    }
}

/// The path whose existence the caller must probe before handing the
/// document to [`process_document`], or nothing when the policy never
/// consults the filesystem for it.
pub fn document_probe_path(document: &RawDocument, options: &RemarkLoadOptions) -> (r: Option<
    String,
>)
    ensures
        r.deep_view() == probe_request(document@, options@),
{
    match document {
        RawDocument::Missed(m) => {
            match &m.debug_loc {
                Option::Some(loc) => {
                    if options.external {
                        return Option::None;
                    }
                    let f = loc.file.as_str();
                    if f.unicode_len() > 0 && f.get_char(0) == '/' {
                        return Option::None;
                    }
                    Option::Some(join_exec(&options.source_dir, f))
                },
                Option::None => Option::None,
            }
        },
        RawDocument::Passed => Option::None,
        RawDocument::Analysis => Option::None,
    }
}

/// One step of a batch: the remarks of the documents so far, extended by
/// whatever the next document yields. A document that failed to decode
/// (`None`) contributes nothing.
pub open spec fn remarks_step(
    prefix: Seq<RemarkV>,
    doc: Option<RawDocumentV>,
    opts: RemarkLoadOptionsV,
    file_exists: bool,
) -> Seq<RemarkV> {
    match doc {
        Option::Some(d) => match doc_remark(d, opts, file_exists) {
            Option::Some(r) => prefix.push(r),
            Option::None => prefix,
        },
        Option::None => prefix,
    }
}

/// The remarks of a whole batch of decoded documents, in document order.
/// `found` holds, position by position, the outcome of the filesystem
/// probe for each document.
pub open spec fn remarks_of_documents(
    docs: Seq<Option<RawDocumentV>>,
    opts: RemarkLoadOptionsV,
    found: Seq<bool>,
) -> Seq<RemarkV>
    decreases docs.len(),
{
    if docs.len() == 0 {
        Seq::empty()
    } else {
        remarks_step(
            remarks_of_documents(docs.drop_last(), opts, found.drop_last()),
            docs.last(),
            opts,
            if found.len() > 0 {
                found.last()
            } else {
                false
            },
        )
    }
}

/// Extending a batch by one document steps its remark list.
proof fn lemma_remarks_of_documents_snoc(
    docs: Seq<Option<RawDocumentV>>,
    opts: RemarkLoadOptionsV,
    found: Seq<bool>,
    i: int,
)
    requires
        0 <= i < docs.len(),
        docs.len() == found.len(),
    ensures
        remarks_of_documents(docs.take(i + 1), opts, found.take(i + 1)) == remarks_step(
            remarks_of_documents(docs.take(i), opts, found.take(i)),
            docs[i],
            opts,
            found[i],
        ),
{
    assert(docs.take(i + 1).drop_last() =~= docs.take(i));
    assert(found.take(i + 1).drop_last() =~= found.take(i));
    assert(docs.take(i + 1).last() == docs[i]);
    assert(found.take(i + 1).last() == found[i]);
}

/// Turns a batch of decoded documents into the remarks they yield, in
/// document order. `found` reports, position by position, whether the
/// document's probed path (see [`document_probe_path`]) names an existing
/// regular file; a position whose document asks for no probe is ignored.
pub fn parse_remarks(
    documents: Vec<Option<RawDocument>>,
    options: &RemarkLoadOptions,
    found: &Vec<bool>,
) -> (r: Vec<Remark>)
    requires
        documents@.len() == found@.len(),
    ensures
        r.deep_view() == remarks_of_documents(documents.deep_view(), options@, found@),
{
    let ghost docs_v = documents.deep_view();
    let ghost found_v = found@;
    let total: usize = documents.len();
    let mut rest = documents;
    let mut out: Vec<Remark> = Vec::new();
    let mut i: usize = 0;
    proof {
        assert(docs_v.take(0) =~= Seq::<Option<RawDocumentV>>::empty());
        assert(found_v.take(0) =~= Seq::<bool>::empty());
    }
    while rest.len() > 0
        invariant
            i + rest.len() == total,
            total == docs_v.len(),
            docs_v.len() == found_v.len(),
            found_v == found@,
            rest.deep_view() =~= docs_v.skip(i as int),
            out.deep_view() == remarks_of_documents(
                docs_v.take(i as int),
                options@,
                found_v.take(i as int),
            ),
        decreases rest.len(),
    {
        let ghost prev_v = rest@;
        let ghost prev_d = rest.deep_view();
        let doc = rest.remove(0);
        proof {
            assert(doc.deep_view() == prev_d[0]);
            assert(doc.deep_view() == docs_v[i as int]);
            assert(forall|k: int| 0 <= k < rest@.len() ==> rest@[k] == prev_v[k + 1]);
            assert(forall|k: int| 0 <= k < rest@.len() ==> rest.deep_view()[k] == prev_d[k + 1]);
            assert(rest.deep_view() =~= docs_v.skip(i + 1));
            lemma_remarks_of_documents_snoc(docs_v, options@, found_v, i as int);
        }
        match doc {
            Option::Some(d) => {
                let file_exists = found[i];
                match process_document(d, options, file_exists) {
                    Option::Some(remark) => {
                        out.push(remark);
                    },
                    Option::None => {},
                }
            },
            Option::None => {},
        }
        i = i + 1;
    }
    proof {
        assert(docs_v.take(i as int) =~= docs_v);
        assert(found_v.take(i as int) =~= found_v);
    }
    out
}

/// The remarks of a whole load: each file's remark list in the order the
/// files were handed in, a failed file contributing nothing.
pub open spec fn flatten_loaded(results: Seq<Option<Seq<RemarkV>>>) -> Seq<RemarkV>
    decreases results.len(),
{
    if results.len() == 0 {
        Seq::empty()
    } else {
        flatten_loaded(results.drop_last()) + (match results.last() {
            Option::Some(rs) => rs,
            Option::None => Seq::empty(),
        })
    }
}

/// Extending the loaded files by one appends that file's remarks.
proof fn lemma_flatten_loaded_snoc(results: Seq<Option<Seq<RemarkV>>>, i: int)
    requires
        0 <= i < results.len(),
    ensures
        flatten_loaded(results.take(i + 1)) == flatten_loaded(results.take(i)) + (match results[i] {
            Option::Some(rs) => rs,
            Option::None => Seq::empty(),
        }),
{
    assert(results.take(i + 1).drop_last() =~= results.take(i));
    assert(results.take(i + 1).last() == results[i]);
}

/// Flattens per-file results into one remark list, in file order. A file
/// that failed to load (`None`) drops only its own remarks: every loaded
/// file's remarks appear, in order, whatever happened to the files around
/// it.
pub fn collect_file_results(results: Vec<Option<Vec<Remark>>>) -> (r: Vec<Remark>)
    ensures
        r.deep_view() == flatten_loaded(results.deep_view()),
{
    let ghost results_v = results.deep_view();
    let total: usize = results.len();
    let mut rest = results;
    let mut out: Vec<Remark> = Vec::new();
    let mut i: usize = 0;
    proof {
        assert(results_v.take(0) =~= Seq::<Option<Seq<RemarkV>>>::empty());
    }
    while rest.len() > 0
        invariant
            i + rest.len() == total,
            total == results_v.len(),
            rest.deep_view() =~= results_v.skip(i as int),
            out.deep_view() == flatten_loaded(results_v.take(i as int)),
        decreases rest.len(),
    {
        let ghost prev_v = rest@;
        let ghost prev_d = rest.deep_view();
        let head = rest.remove(0);
        proof {
            assert(head.deep_view() == prev_d[0]);
            assert(head.deep_view() == results_v[i as int]);
            assert(forall|k: int| 0 <= k < rest@.len() ==> rest@[k] == prev_v[k + 1]);
            assert(forall|k: int| 0 <= k < rest@.len() ==> rest.deep_view()[k] == prev_d[k + 1]);
            assert(rest.deep_view() =~= results_v.skip(i + 1));
            lemma_flatten_loaded_snoc(results_v, i as int);
        }
        match head {
            Option::Some(mut file_remarks) => {
                let ghost fr = file_remarks.deep_view();
                out.append(&mut file_remarks);
                proof {
                    assert(out.deep_view() =~= flatten_loaded(results_v.take(i as int)) + fr);
                }
            },
            Option::None => {},
        }
        i = i + 1;
    }
    proof {
        assert(results_v.take(i as int) =~= results_v);
    }
    out
}

} // verus!
