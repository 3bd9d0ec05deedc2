//! Decoding of the tag-discriminated document stream.
//!
//! The outside parser turns the byte stream into generic document values.
//! Their content is modelled by [`YamlNodeV`] and named by
//! [`yaml_content_of`] and [`yaml_docs_of`]; each accessor wrapper states
//! what it reads of that content. Everything above the wrappers — the tag
//! dispatch, the required and optional fields of a "Missed" document, the
//! argument vocabulary, the location sub-fields — is verified logic with
//! exact contracts, culminating in [`decode_documents`]. A document that
//! fails to decode yields `None` and is skipped by the caller, never
//! fatal.

use crate::model::DebugLocation;
use crate::model::DebugLocationV;
use crate::model::MissedDoc;
use crate::model::MissedDocV;
use crate::model::OtherEntry;
use crate::model::OtherEntryV;
use crate::model::RawDocument;
use crate::model::RawDocumentV;
use crate::model::RemarkArg;
use crate::model::RemarkArgV;
use crate::strings::str_eq;
use vstd::prelude::*;

verus! {

#[verifier::external_type_specification]
#[verifier::external_body]
pub struct ExYamlValue(serde_yaml::Value);

/// The mathematical content of one parsed document value: nulls, scalars,
/// sequences, mappings (their entries in document order) and tagged
/// values. An integer is carried as parsed (non-negative or strictly
/// negative); a float only as its standard text rendering, which is all
/// the decoder ever reads of one. A tag is carried as rendered: `!`
/// followed by the tag name.
#[verifier::ext_equal]
pub enum YamlNodeV {
    Null,
    Bool(bool),
    PosInt(u64),
    NegInt(i64),
    FloatText(Seq<char>),
    Text(Seq<char>),
    List(Seq<YamlNodeV>),
    Entries(Seq<YamlEntryV>),
    Tagged(Seq<char>, Box<YamlNodeV>),
}

/// One entry of a mapping: its key and value nodes.
#[verifier::ext_equal]
pub struct YamlEntryV {
    pub key: Box<YamlNodeV>,
    pub value: Box<YamlNodeV>,
}

/// The content of a parsed document value. It is a function of the value
/// alone; every accessor wrapper below states its result over it.
pub uninterp spec fn yaml_content_of(v: serde_yaml::Value) -> YamlNodeV;

/// The outside parser's result on `text`: one entry per document, in
/// order, `None` for a document that failed to decode. A function of the
/// input text alone.
pub uninterp spec fn yaml_docs_of(text: Seq<char>) -> Seq<Option<YamlNodeV>>;

/// `n` with every layer of tagging removed, as the outside accessors do
/// before reading a scalar or looking up a key.
pub open spec fn yaml_untag(n: YamlNodeV) -> YamlNodeV
    decreases n,
{
    match n {
        YamlNodeV::Tagged(_, inner) => yaml_untag(*inner),
        other => other,
    }
}

/// The value under the string key `key`, if some entry's key is exactly
/// that string. Keys of a parsed mapping are unique, so the first match
/// is the match.
pub open spec fn entries_lookup(es: Seq<YamlEntryV>, key: Seq<char>) -> Option<YamlNodeV>
    decreases es.len(),
{
    if es.len() == 0 {
        Option::None
    } else if *es[0].key == YamlNodeV::Text(key) {
        Option::Some(*es[0].value)
    } else {
        entries_lookup(es.drop_first(), key)
    }
}

/// The standard text of a boolean.
pub open spec fn bool_text(b: bool) -> Seq<char> {
    if b {
        seq!['t', 'r', 'u', 'e']
    } else {
        seq!['f', 'a', 'l', 's', 'e']
    }
}

/// The decimal digit character of `d`.
pub open spec fn digit_char(d: int) -> char {
    ((48 + d) as u8) as char
}

/// The standard decimal rendering of a non-negative integer.
pub open spec fn decimal_text(n: int) -> Seq<char>
    decreases n,
{
    if n < 10 {
        seq![digit_char(n)]
    } else {
        decimal_text(n / 10).push(digit_char(n % 10))
    }
}

/// The standard decimal rendering of an integer, negative ones with a
/// leading minus sign.
pub open spec fn int_text(i: int) -> Seq<char> {
    if i < 0 {
        seq!['-'] + decimal_text(-i)
    } else {
        decimal_text(i)
    }
}

/// The text a scalar value contributes to an open-vocabulary aggregate:
/// booleans and integers in their standard renderings, a float's carried
/// rendering, a string verbatim; a null, sequence, mapping or tagged
/// value contributes nothing.
pub open spec fn scalar_text(n: YamlNodeV) -> Option<Seq<char>> {
    match n {
        YamlNodeV::Bool(b) => Option::Some(bool_text(b)),
        YamlNodeV::PosInt(u) => Option::Some(decimal_text(u as int)),
        YamlNodeV::NegInt(i) => Option::Some(int_text(i as int)),
        YamlNodeV::FloatText(t) => Option::Some(t),
        YamlNodeV::Text(s) => Option::Some(s),
        _ => Option::None,
    }
}

/// Whether one parsed document matches one entry of [`yaml_docs_of`].
pub open spec fn doc_content_matches(
    v: Option<serde_yaml::Value>,
    n: Option<YamlNodeV>,
) -> bool {
    match (v, n) {
        (Option::Some(v), Option::Some(n)) => yaml_content_of(v) == n,
        (Option::None, Option::None) => true,
        _ => false,
    }
}

/// Whether one handed-out mapping entry matches its model: the key as a
/// string where its untagged node is one, the value by content.
pub open spec fn entry_pair_matches(
    p: (Option<String>, serde_yaml::Value),
    e: YamlEntryV,
) -> bool {
    &&& match yaml_untag(*e.key) {
        YamlNodeV::Text(k) => (p.0 matches Option::Some(s) && s@ == k),
        _ => (p.0 is None),
    }
    &&& yaml_content_of(p.1) == *e.value
}

/// Relies on `serde_yaml::Deserializer::from_str`, its `Iterator` impl
/// and `serde_yaml::Value`'s `Deserialize` impl: the input's documents in
/// order, each as a generic value, or `None` for one that failed to
/// decode.
#[verifier::external_body]
fn yaml_parse_documents(text: &str) -> (r: Vec<Option<serde_yaml::Value>>)
    ensures
        r@.len() == yaml_docs_of(text@).len(),
        forall|i: int|
            0 <= i < r@.len() ==> doc_content_matches(#[trigger] r@[i], yaml_docs_of(text@)[i]),
{
    serde_yaml::Deserializer::from_str(text)
        .map(|doc| <serde_yaml::Value as serde::Deserialize>::deserialize(doc).ok())
        .collect()
}

/// Relies on `serde_yaml::value::Tag`'s `Display` (renders `!` followed
/// by the tag name): a tagged value split into its rendered tag and its
/// body; an untagged value yields nothing.
#[verifier::external_body]
fn yaml_split_tagged(v: serde_yaml::Value) -> (r: Option<(String, serde_yaml::Value)>)
    ensures
        match yaml_content_of(v) {
            YamlNodeV::Tagged(tag, body) => (r matches Option::Some(p) && p.0@ == tag
                && yaml_content_of(p.1) == *body),
            _ => (r is None),
        },
{
    match v {
        serde_yaml::Value::Tagged(t) => Some((t.tag.to_string(), t.value)),
        _ => None,
    }
}

/// Relies on `serde_yaml::Value::get` with a string index (it untags,
/// then looks the key up in a mapping) and `Clone`: the value under
/// `key`, when there is one.
#[verifier::external_body]
fn yaml_get_owned(v: &serde_yaml::Value, key: &str) -> (r: Option<serde_yaml::Value>)
    ensures
        match yaml_untag(yaml_content_of(*v)) {
            YamlNodeV::Entries(es) => match entries_lookup(es, key@) {
                Option::Some(f) => (r matches Option::Some(rv) && yaml_content_of(rv) == f),
                Option::None => (r is None),
            },
            _ => (r is None),
        },
{
    match v.get(key) {
        Some(f) => Some(f.clone()),
        None => None,
    }
}

/// Relies on `serde_yaml::Value::as_str` (it untags): the string a value
/// holds, when it holds one.
#[verifier::external_body]
fn yaml_as_string(v: &serde_yaml::Value) -> (r: Option<String>)
    ensures
        match yaml_untag(yaml_content_of(*v)) {
            YamlNodeV::Text(s) => (r matches Option::Some(x) && x@ == s),
            _ => (r is None),
        },
{
    match v.as_str() {
        Some(s) => Some(s.to_string()),
        None => None,
    }
}

/// Relies on `serde_yaml::Value::as_u64` (it untags; only a non-negative
/// integer is one): the unsigned integer a value holds.
#[verifier::external_body]
fn yaml_as_u64(v: &serde_yaml::Value) -> (r: Option<u64>)
    ensures
        match yaml_untag(yaml_content_of(*v)) {
            YamlNodeV::PosInt(u) => r == Option::Some(u),
            _ => (r is None),
        },
{
    v.as_u64()
}

/// Relies on `serde_yaml::Value::as_i64` (it untags; a non-negative
/// integer only when it fits, a negative one always, a float never): the
/// signed integer a value holds.
#[verifier::external_body]
fn yaml_as_i64(v: &serde_yaml::Value) -> (r: Option<i64>)
    ensures
        match yaml_untag(yaml_content_of(*v)) {
            YamlNodeV::PosInt(u) => r == if u <= 0x7fff_ffff_ffff_ffff {
                Option::Some(u as i64)
            } else {
                Option::<i64>::None
            },
            YamlNodeV::NegInt(i) => r == Option::Some(i),
            _ => (r is None),
        },
{
    v.as_i64()
}

/// Relies on `serde_yaml::Value::is_null` (it untags): whether the value
/// is null.
#[verifier::external_body]
fn yaml_is_null(v: &serde_yaml::Value) -> (r: bool)
    ensures
        r == (yaml_untag(yaml_content_of(*v)) is Null),
{
    v.is_null()
}

/// Relies on `serde_yaml::Value`'s `Sequence` variant (matched directly,
/// no untagging): the elements of a sequence value, in order.
#[verifier::external_body]
fn yaml_into_sequence(v: serde_yaml::Value) -> (r: Option<Vec<serde_yaml::Value>>)
    ensures
        match yaml_content_of(v) {
            YamlNodeV::List(items) => (r matches Option::Some(vs) && vs@.len() == items.len()
                && forall|i: int|
                0 <= i < items.len() ==> yaml_content_of(#[trigger] vs@[i]) == items[i]),
            _ => (r is None),
        },
{
    match v {
        serde_yaml::Value::Sequence(s) => Some(s),
        _ => None,
    }
}

/// Relies on `serde_yaml::Mapping::iter` (document order) and
/// `serde_yaml::Value::as_str` on the keys: the entries of a mapping
/// value (matched directly, no untagging), each key handed out as a
/// string where it is one.
#[verifier::external_body]
fn yaml_mapping_entries(v: &serde_yaml::Value) -> (r: Option<
    Vec<(Option<String>, serde_yaml::Value)>,
>)
    ensures
        match yaml_content_of(*v) {
            YamlNodeV::Entries(es) => (r matches Option::Some(ps) && ps@.len() == es.len()
                && forall|i: int| 0 <= i < es.len() ==> entry_pair_matches(#[trigger] ps@[i], es[i])),
            _ => (r is None),
        },
{
    match v {
        serde_yaml::Value::Mapping(m) => Some(
            m.iter().map(|(k, val)| (k.as_str().map(str::to_string), val.clone())).collect(),
        ),
        _ => None,
    }
}

/// Relies on `serde_yaml::Value`'s scalar variants (matched directly, no
/// untagging) and their `to_string` renderings — the standard forms
/// `true`/`false` for booleans and decimal digits with a possible leading
/// minus for integers; a float renders to the text its content carries:
/// a boolean, number or string value as text, nothing for any other.
#[verifier::external_body]
fn yaml_scalar_string(v: &serde_yaml::Value) -> (r: Option<String>)
    ensures
        match scalar_text(yaml_content_of(*v)) {
            Option::Some(t) => (r matches Option::Some(s) && s@ == t),
            Option::None => (r is None),
        },
{
    match v {
        serde_yaml::Value::Bool(b) => Some(b.to_string()),
        serde_yaml::Value::Number(n) => Some(n.to_string()),
        serde_yaml::Value::String(s) => Some(s.clone()),
        _ => None,
    }
}

/// The value under `key` once `n` is untagged, when `n` is a mapping.
pub open spec fn field_of(n: YamlNodeV, key: Seq<char>) -> Option<YamlNodeV> {
    match yaml_untag(n) {
        YamlNodeV::Entries(es) => entries_lookup(es, key),
        _ => Option::None,
    }
}

/// The string under `key`, when the field is there and holds one.
pub open spec fn string_field(n: YamlNodeV, key: Seq<char>) -> Option<Seq<char>> {
    match field_of(n, key) {
        Option::Some(f) => match yaml_untag(f) {
            YamlNodeV::Text(s) => Option::Some(s),
            _ => Option::None,
        },
        Option::None => Option::None,
    }
}

/// The `u32` under `key`, when the field is there, an integer, and in
/// range.
pub open spec fn u32_field(n: YamlNodeV, key: Seq<char>) -> Option<u32> {
    match field_of(n, key) {
        Option::Some(f) => match yaml_untag(f) {
            YamlNodeV::PosInt(u) => if u <= 0xffff_ffff {
                Option::Some(u as u32)
            } else {
                Option::None
            },
            _ => Option::None,
        },
        Option::None => Option::None,
    }
}

/// The signed integer a node holds, as the outside accessor reads it.
pub open spec fn i64_of(n: YamlNodeV) -> Option<i64> {
    match yaml_untag(n) {
        YamlNodeV::PosInt(u) => if u <= 0x7fff_ffff_ffff_ffff {
            Option::Some(u as i64)
        } else {
            Option::None
        },
        YamlNodeV::NegInt(i) => Option::Some(i),
        _ => Option::None,
    }
}

/// What a location sub-document decodes to: its `File`, `Line` and
/// `Column` fields, all required; anything malformed decodes to nothing.
pub open spec fn location_spec(n: YamlNodeV) -> Option<DebugLocationV> {
    match (string_field(n, "File"@), u32_field(n, "Line"@), u32_field(n, "Column"@)) {
        (Option::Some(file), Option::Some(line), Option::Some(column)) => Option::Some(
            DebugLocationV { file, line, column },
        ),
        _ => Option::None,
    }
}

/// What a callee or caller argument decodes to: the mangled name under
/// `key`, and the optional location sub-field; a malformed location is a
/// decode failure.
pub open spec fn call_arg_spec(n: YamlNodeV, key: Seq<char>) -> Option<
    (Seq<char>, Option<DebugLocationV>),
> {
    match string_field(n, key) {
        Option::Some(name) => match field_of(n, "DebugLoc"@) {
            Option::Some(lv) => match location_spec(lv) {
                Option::Some(l) => Option::Some((name, Option::Some(l))),
                Option::None => Option::None,
            },
            Option::None => Option::Some((name, Option::None)),
        },
        Option::None => Option::None,
    }
}

/// One step of decoding an open-vocabulary mapping, entry by entry in
/// document order: a non-string key fails the argument; a `DebugLoc`
/// entry becomes the location (or drops it when malformed) and never
/// aggregates; a scalar value is kept under its key; any other value
/// contributes nothing.
pub open spec fn other_step(
    st: Option<(Seq<OtherEntryV>, Option<DebugLocationV>)>,
    e: YamlEntryV,
) -> Option<(Seq<OtherEntryV>, Option<DebugLocationV>)> {
    match st {
        Option::Some(acc) => match yaml_untag(*e.key) {
            YamlNodeV::Text(k) => if k == "DebugLoc"@ {
                Option::Some((acc.0, location_spec(*e.value)))
            } else {
                match scalar_text(*e.value) {
                    Option::Some(t) => Option::Some(
                        (acc.0.push(OtherEntryV { key: k, value: t }), acc.1),
                    ),
                    Option::None => Option::Some(acc),
                }
            },
            _ => Option::None,
        },
        Option::None => Option::None,
    }
}

/// What an open-vocabulary mapping decodes to, over all its entries.
pub open spec fn other_fold(es: Seq<YamlEntryV>) -> Option<
    (Seq<OtherEntryV>, Option<DebugLocationV>),
>
    decreases es.len(),
{
    if es.len() == 0 {
        Option::Some((Seq::empty(), Option::None))
    } else {
        other_step(other_fold(es.drop_last()), es.last())
    }
}

/// What one argument decodes to. A bare string (after untagging) is plain
/// text. A mapping is dispatched by its recognized key — `String`,
/// `Callee`, `Caller`, `Reason` — and anything else is the
/// open-vocabulary bucket; a non-mapping is a decode failure.
pub open spec fn argument_spec(n: YamlNodeV) -> Option<RemarkArgV> {
    match yaml_untag(n) {
        YamlNodeV::Text(s) => Option::Some(RemarkArgV::Text(s)),
        _ => {
            if field_of(n, "String"@) is Some {
                match string_field(n, "String"@) {
                    Option::Some(s) => Option::Some(RemarkArgV::Text(s)),
                    Option::None => Option::None,
                }
            } else if field_of(n, "Callee"@) is Some {
                match call_arg_spec(n, "Callee"@) {
                    Option::Some(p) => Option::Some(
                        RemarkArgV::Callee { name: p.0, location: p.1 },
                    ),
                    Option::None => Option::None,
                }
            } else if field_of(n, "Caller"@) is Some {
                match call_arg_spec(n, "Caller"@) {
                    Option::Some(p) => Option::Some(
                        RemarkArgV::Caller { name: p.0, location: p.1 },
                    ),
                    Option::None => Option::None,
                }
            } else if field_of(n, "Reason"@) is Some {
                match string_field(n, "Reason"@) {
                    Option::Some(s) => Option::Some(RemarkArgV::Reason(s)),
                    Option::None => Option::None,
                }
            } else {
                match n {
                    YamlNodeV::Entries(es) => match other_fold(es) {
                        Option::Some(acc) => Option::Some(
                            RemarkArgV::Other { entries: acc.0, location: acc.1 },
                        ),
                        Option::None => Option::None,
                    },
                    _ => Option::None,
                }
            }
        },
    }
}

/// What an argument list decodes to: every element must decode.
pub open spec fn args_spec(items: Seq<YamlNodeV>) -> Option<Seq<RemarkArgV>>
    decreases items.len(),
{
    if items.len() == 0 {
        Option::Some(Seq::empty())
    } else {
        match args_spec(items.drop_last()) {
            Option::Some(prefix) => match argument_spec(items.last()) {
                Option::Some(a) => Option::Some(prefix.push(a)),
                Option::None => Option::None,
            },
            Option::None => Option::None,
        }
    }
}

/// What the optional `DebugLoc` field of a document decodes to: absent is
/// no location; present and malformed fails the document.
pub open spec fn debug_loc_field_spec(body: YamlNodeV) -> Option<Option<DebugLocationV>> {
    match field_of(body, "DebugLoc"@) {
        Option::Some(lv) => match location_spec(lv) {
            Option::Some(l) => Option::Some(Option::Some(l)),
            Option::None => Option::None,
        },
        Option::None => Option::Some(Option::None),
    }
}

/// What the optional `Hotness` field decodes to: absent is none; present
/// it must be an integer that fits the hotness range.
pub open spec fn hotness_field_spec(body: YamlNodeV) -> Option<Option<i32>> {
    match field_of(body, "Hotness"@) {
        Option::Some(hv) => match i64_of(hv) {
            Option::Some(h) => if -0x8000_0000 <= h <= 0x7fff_ffff {
                Option::Some(Option::Some(h as i32))
            } else {
                Option::None
            },
            Option::None => Option::None,
        },
        Option::None => Option::Some(Option::None),
    }
}

/// What the optional `Args` field decodes to: absent or null is an empty
/// list; a sequence decodes element by element; anything else fails the
/// document.
pub open spec fn args_field_spec(body: YamlNodeV) -> Option<Seq<RemarkArgV>> {
    match field_of(body, "Args"@) {
        Option::Some(av) => if yaml_untag(av) is Null {
            Option::Some(Seq::empty())
        } else {
            match av {
                YamlNodeV::List(items) => args_spec(items),
                _ => Option::None,
            }
        },
        Option::None => Option::Some(Seq::empty()),
    }
}

/// What a "Missed" document body decodes to: `Pass`, `Name` and
/// `Function` required, `DebugLoc` and `Hotness` optional, `Args` an
/// optional list whose every element must decode.
pub open spec fn missed_spec(body: YamlNodeV) -> Option<RawDocumentV> {
    match (
        string_field(body, "Pass"@),
        string_field(body, "Name"@),
        string_field(body, "Function"@),
        debug_loc_field_spec(body),
        hotness_field_spec(body),
        args_field_spec(body),
    ) {
        (
            Option::Some(pass),
            Option::Some(name),
            Option::Some(function),
            Option::Some(debug_loc),
            Option::Some(hotness),
            Option::Some(args),
        ) => Option::Some(
            RawDocumentV::Missed(MissedDocV { pass, name, function, debug_loc, args, hotness }),
        ),
        _ => Option::None,
    }
}

/// What one document decodes to, by its tag: a `!Missed` body in full,
/// `!Passed` and `!Analysis` as their classification alone, and an
/// untagged or unknown-tagged document to nothing.
pub open spec fn document_spec(n: YamlNodeV) -> Option<RawDocumentV> {
    match n {
        YamlNodeV::Tagged(tag, body) => if tag == "!Missed"@ {
            missed_spec(*body)
        } else if tag == "!Passed"@ {
            Option::Some(RawDocumentV::Passed)
        } else if tag == "!Analysis"@ {
            Option::Some(RawDocumentV::Analysis)
        } else {
            Option::None
        },
        _ => Option::None,
    }
}

/// What a whole parse result decodes to, document by document; a document
/// the parser already failed stays failed.
pub open spec fn documents_spec(docs: Seq<Option<YamlNodeV>>) -> Seq<Option<RawDocumentV>> {
    docs.map_values(
        |d: Option<YamlNodeV>|
            match d {
                Option::Some(n) => document_spec(n),
                Option::None => Option::<RawDocumentV>::None,
            },
    )
}

/// The string under `key`, when `v` is a mapping and the field a string.
fn yaml_string_field(v: &serde_yaml::Value, key: &str) -> (r: Option<String>)
    ensures
        r.deep_view() == string_field(yaml_content_of(*v), key@),
{
    match yaml_get_owned(v, key) {
        Option::Some(f) => yaml_as_string(&f),
        Option::None => Option::None,
    }
}

/// The `u32` under `key`, when `v` is a mapping and the field an integer
/// in range.
fn yaml_u32_field(v: &serde_yaml::Value, key: &str) -> (r: Option<u32>)
    ensures
        r == u32_field(yaml_content_of(*v), key@),
{
    match yaml_get_owned(v, key) {
        Option::Some(f) => match yaml_as_u64(&f) {
            Option::Some(n) => {
                if n <= 0xffff_ffff {
                    Option::Some(n as u32)
                } else {
                    Option::None
                }
            },
            Option::None => Option::None,
        },
        Option::None => Option::None,
    }
}

/// Decodes a location sub-document, exactly as [`location_spec`] says.
fn extract_location(v: &serde_yaml::Value) -> (r: Option<DebugLocation>)
    ensures
        r.deep_view() == location_spec(yaml_content_of(*v)),
{
    let file = match yaml_string_field(v, "File") {
        Option::Some(s) => s,
        Option::None => {
            return Option::None;
        },
    };
    let line = match yaml_u32_field(v, "Line") {
        Option::Some(n) => n,
        Option::None => {
            return Option::None;
        },
    };
    let column = match yaml_u32_field(v, "Column") {
        Option::Some(n) => n,
        Option::None => {
            return Option::None;
        },
    };
    Option::Some(DebugLocation { file, line, column })
}

/// Decodes a callee or caller argument's parts, exactly as
/// [`call_arg_spec`] says.
fn extract_call_arg(v: &serde_yaml::Value, key: &str) -> (r: Option<
    (String, Option<DebugLocation>),
>)
    ensures
        r.deep_view() == call_arg_spec(yaml_content_of(*v), key@),
{
    let name = match yaml_string_field(v, key) {
        Option::Some(s) => s,
        Option::None => {
            return Option::None;
        },
    };
    let location = match yaml_get_owned(v, "DebugLoc") {
        Option::Some(lv) => match extract_location(&lv) {
            Option::Some(l) => Option::Some(l),
            Option::None => {
                return Option::None;
            },
        },
        Option::None => Option::None,
    };
    Option::Some((name, location))
}

/// Folding one more entry of an open-vocabulary mapping steps the fold of
/// the entries before it.
proof fn lemma_other_fold_snoc(es: Seq<YamlEntryV>, i: int)
    requires
        0 <= i < es.len(),
    ensures
        other_fold(es.take(i + 1)) == other_step(other_fold(es.take(i)), es[i]),
{
    assert(es.take(i + 1).drop_last() =~= es.take(i));
    assert(es.take(i + 1).last() == es[i]);
}

/// A failed prefix fails the whole open-vocabulary fold.
proof fn lemma_other_fold_absorbs_none(es: Seq<YamlEntryV>, j: int)
    requires
        0 <= j <= es.len(),
        (other_fold(es.take(j)) is None),
    ensures
        (other_fold(es) is None),
    decreases es.len() - j,
{
    if j < es.len() {
        lemma_other_fold_snoc(es, j);
        lemma_other_fold_absorbs_none(es, j + 1);
    } else {
        assert(es.take(j) =~= es);
    }
}

/// Decoding one more argument steps the fold of the arguments before it.
proof fn lemma_args_spec_snoc(items: Seq<YamlNodeV>, i: int)
    requires
        0 <= i < items.len(),
    ensures
        args_spec(items.take(i + 1)) == match args_spec(items.take(i)) {
            Option::Some(prefix) => match argument_spec(items[i]) {
                Option::Some(a) => Option::Some(prefix.push(a)),
                Option::None => Option::None,
            },
            Option::None => Option::None,
        },
{
    assert(items.take(i + 1).drop_last() =~= items.take(i));
    assert(items.take(i + 1).last() == items[i]);
}

/// A failed prefix fails the whole argument list.
proof fn lemma_args_spec_absorbs_none(items: Seq<YamlNodeV>, j: int)
    requires
        0 <= j <= items.len(),
        (args_spec(items.take(j)) is None),
    ensures
        (args_spec(items) is None),
    decreases items.len() - j,
{
    if j < items.len() {
        lemma_args_spec_snoc(items, j);
        lemma_args_spec_absorbs_none(items, j + 1);
    } else {
        assert(items.take(j) =~= items);
    }
}

/// Decodes one argument of a document's `Args` list, exactly as
/// [`argument_spec`] says.
#[verifier::loop_isolation(false)]
fn extract_argument(v: serde_yaml::Value) -> (r: Option<RemarkArg>)
    ensures
        r.deep_view() == argument_spec(yaml_content_of(v)),
{
    if let Option::Some(s) = yaml_as_string(&v) {
        return Option::Some(RemarkArg::Text(s));
    }
    if yaml_get_owned(&v, "String").is_some() {
        return match yaml_string_field(&v, "String") {
            Option::Some(s) => Option::Some(RemarkArg::Text(s)),
            Option::None => Option::None,
        };
    }
    if yaml_get_owned(&v, "Callee").is_some() {
        return match extract_call_arg(&v, "Callee") {
            Option::Some((name, location)) => Option::Some(RemarkArg::Callee { name, location }),
            Option::None => Option::None,
        };
    }
    if yaml_get_owned(&v, "Caller").is_some() {
        return match extract_call_arg(&v, "Caller") {
            Option::Some((name, location)) => Option::Some(RemarkArg::Caller { name, location }),
            Option::None => Option::None,
        };
    }
    if yaml_get_owned(&v, "Reason").is_some() {
        return match yaml_string_field(&v, "Reason") {
            Option::Some(s) => Option::Some(RemarkArg::Reason(s)),
            Option::None => Option::None,
        };
    }
    let ghost content = yaml_content_of(v);
    let mut raw_entries = match yaml_mapping_entries(&v) {
        Option::Some(es) => es,
        Option::None => {
            return Option::None;
        },
    };
    let ghost es = content->Entries_0;
    let total: usize = raw_entries.len();
    let mut entries: Vec<OtherEntry> = Vec::new();
    let mut location: Option<DebugLocation> = Option::None;
    let mut i: usize = 0;
    proof {
        assert(es.take(0) =~= Seq::<YamlEntryV>::empty());
    }
    while raw_entries.len() > 0
        invariant
            content == yaml_content_of(v),
            content == YamlNodeV::Entries(es),
            i + raw_entries.len() == total,
            total == es.len(),
            forall|k: int|
                0 <= k < raw_entries@.len() ==> entry_pair_matches(
                    #[trigger] raw_entries@[k],
                    es[i + k],
                ),
            other_fold(es.take(i as int)) == Option::Some(
                (entries.deep_view(), location.deep_view()),
            ),
        decreases raw_entries.len(),
    {
        let ghost prev = raw_entries@;
        let (key_opt, val) = raw_entries.remove(0);
        proof {
            assert(entry_pair_matches(prev[0], es[i as int]));
            assert(forall|k: int| 0 <= k < raw_entries@.len() ==> raw_entries@[k] == prev[k + 1]);
            lemma_other_fold_snoc(es, i as int);
        }
        let key = match key_opt {
            Option::Some(k) => k,
            Option::None => {
                proof {
                    lemma_other_fold_absorbs_none(es, i + 1);
                }
                return Option::None;
            },
        };
        if str_eq(key.as_str(), "DebugLoc") {
            location = extract_location(&val);
        } else {
            match yaml_scalar_string(&val) {
                Option::Some(text) => {
                    let ghost before = entries.deep_view();
                    entries.push(OtherEntry { key, value: text });
                    proof {
                        assert(entries.deep_view() =~= before.push(
                            OtherEntryV { key: key@, value: text@ },
                        ));
                    }
                },
                Option::None => {},
            }
        }
        i = i + 1;
    }
    proof {
        assert(es.take(i as int) =~= es);
    }
    Option::Some(RemarkArg::Other { entries, location })
}

/// Decodes a "Missed" document body, exactly as [`missed_spec`] says.
#[verifier::loop_isolation(false)]
fn extract_missed(body: &serde_yaml::Value) -> (r: Option<RawDocument>)
    ensures
        r.deep_view() == missed_spec(yaml_content_of(*body)),
{
    let pass = match yaml_string_field(body, "Pass") {
        Option::Some(s) => s,
        Option::None => {
            return Option::None;
        },
    };
    let name = match yaml_string_field(body, "Name") {
        Option::Some(s) => s,
        Option::None => {
            return Option::None;
        },
    };
    let function = match yaml_string_field(body, "Function") {
        Option::Some(s) => s,
        Option::None => {
            return Option::None;
        },
    };
    let debug_loc = match yaml_get_owned(body, "DebugLoc") {
        Option::Some(lv) => match extract_location(&lv) {
            Option::Some(l) => Option::Some(l),
            Option::None => {
                return Option::None;
            },
        },
        Option::None => Option::None,
    };
    let hotness = match yaml_get_owned(body, "Hotness") {
        Option::Some(hv) => match yaml_as_i64(&hv) {
            Option::Some(n) => {
                if -0x8000_0000i64 <= n && n <= 0x7fff_ffffi64 {
                    Option::Some(n as i32)
                } else {
                    return Option::None;
                }
            },
            Option::None => {
                return Option::None;
            },
        },
        Option::None => Option::None,
    };
    let mut args: Vec<RemarkArg> = Vec::new();
    match yaml_get_owned(body, "Args") {
        Option::None => {},
        Option::Some(av) => {
            if !yaml_is_null(&av) {
                let ghost av_content = yaml_content_of(av);
                let mut items = match yaml_into_sequence(av) {
                    Option::Some(s) => s,
                    Option::None => {
                        return Option::None;
                    },
                };
                let ghost items_v = av_content->List_0;
                let total: usize = items.len();
                let mut i: usize = 0;
                proof {
                    assert(items_v.take(0) =~= Seq::<YamlNodeV>::empty());
                }
                while items.len() > 0
                    invariant
                        i + items.len() == total,
                        total == items_v.len(),
                        forall|k: int|
                            0 <= k < items@.len() ==> yaml_content_of(#[trigger] items@[k])
                                == items_v[i + k],
                        args_spec(items_v.take(i as int)) == Option::Some(args.deep_view()),
                        args_field_spec(yaml_content_of(*body)) == args_spec(items_v),
                    decreases items.len(),
                {
                    let ghost prev = items@;
                    let item = items.remove(0);
                    proof {
                        assert(yaml_content_of(item) == items_v[i as int]);
                        assert(forall|k: int| 0 <= k < items@.len() ==> items@[k] == prev[k + 1]);
                        lemma_args_spec_snoc(items_v, i as int);
                    }
                    match extract_argument(item) {
                        Option::Some(arg) => {
                            let ghost before = args.deep_view();
                            args.push(arg);
                            proof {
                                assert(args.deep_view() =~= before.push(arg.deep_view()));
                            }
                        },
                        Option::None => {
                            proof {
                                lemma_args_spec_absorbs_none(items_v, i + 1);
                            }
                            return Option::None;
                        },
                    }
                    i = i + 1;
                }
                proof {
                    assert(items_v.take(i as int) =~= items_v);
                }
            }
        },
    }
    Option::Some(
        RawDocument::Missed(MissedDoc { pass, name, function, debug_loc, args, hotness }),
    )
}

/// Decodes one document by its tag, exactly as [`document_spec`] says.
fn extract_document(v: serde_yaml::Value) -> (r: Option<RawDocument>)
    ensures
        r.deep_view() == document_spec(yaml_content_of(v)),
{
    match yaml_split_tagged(v) {
        Option::None => Option::None,
        Option::Some((tag, body)) => {
            if str_eq(tag.as_str(), "!Missed") {
                extract_missed(&body)
            } else if str_eq(tag.as_str(), "!Passed") {
                Option::Some(RawDocument::Passed)
            } else if str_eq(tag.as_str(), "!Analysis") {
                Option::Some(RawDocument::Analysis)
            } else {
                Option::None
            }
        },
    }
}

/// Decodes every document of `input`, in order: one entry per document,
/// `None` where the parse or the decode of that document failed. The
/// result is exactly the decode, as [`documents_spec`] says, of the named
/// parse result of the input.
pub fn decode_documents(input: &str) -> (r: Vec<Option<RawDocument>>)
    ensures
        r.deep_view() == documents_spec(yaml_docs_of(input@)),
{
    let ghost spec_docs = yaml_docs_of(input@);
    let mut raw = yaml_parse_documents(input);
    let total: usize = raw.len();
    let mut out: Vec<Option<RawDocument>> = Vec::new();
    let mut i: usize = 0;
    while raw.len() > 0
        invariant
            spec_docs == yaml_docs_of(input@),
            i + raw.len() == total,
            total == spec_docs.len(),
            forall|k: int|
                0 <= k < raw@.len() ==> doc_content_matches(#[trigger] raw@[k], spec_docs[i + k]),
            out.deep_view().len() == i,
            forall|k: int|
                0 <= k < i ==> out.deep_view()[k] == documents_spec(spec_docs)[k],
        decreases raw.len(),
    {
        let ghost prev = raw@;
        let head = raw.remove(0);
        proof {
            assert(doc_content_matches(prev[0], spec_docs[i as int]));
            assert(forall|k: int| 0 <= k < raw@.len() ==> raw@[k] == prev[k + 1]);
        }
        match head {
            Option::Some(v) => {
                out.push(extract_document(v));
            },
            Option::None => {
                out.push(Option::None);
            },
        }
        i = i + 1;
    }
    proof {
        assert(out.deep_view() =~= documents_spec(spec_docs));
    }
    out
}

} // verus!
