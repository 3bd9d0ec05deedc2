//! The message composer.
//!
//! A remark's message is built from its ordered argument list. Plain text
//! accumulates in a buffer; a located callee, caller or open-vocabulary
//! argument flushes the buffer and contributes a standalone annotated
//! part; everything else contributes inline text. An open-vocabulary
//! argument aggregates its scalar values in ascending key order — a
//! deliberate determinism contract, independent of document order.

use crate::demangle::demangle;
use crate::demangle::demangle_spec;
use crate::model::DebugLocation;
use crate::model::DebugLocationV;
use crate::model::MessagePart;
use crate::model::MessagePartV;
use crate::model::OtherEntry;
use crate::model::OtherEntryV;
use crate::model::RemarkArg;
use crate::model::RemarkArgV;
use crate::model::RemarkLoadOptions;
use crate::model::RemarkLoadOptionsV;
use crate::paths::debug_loc_spec;
use crate::paths::parse_debug_loc;
use crate::strings::lemma_lex_lt_asymmetric;
use crate::strings::lemma_lex_lt_connected;
use crate::strings::lemma_lex_lt_irreflexive;
use crate::strings::lemma_lex_lt_transitive;
use crate::strings::lex_lt;
use crate::strings::str_eq;
use crate::strings::str_lt;
use vstd::prelude::*;

verus! {

/// The values of `entries`, concatenated in order with no separator.
pub open spec fn entry_values_concat(entries: Seq<OtherEntryV>) -> Seq<char>
    decreases entries.len(),
{
    if entries.len() == 0 {
        Seq::empty()
    } else {
        entry_values_concat(entries.drop_last()) + entries.last().value
    }
}

/// `e` placed into `s` by ascending key order; an entry already under the
/// same key gives way to `e`.
pub open spec fn insert_entry(s: Seq<OtherEntryV>, e: OtherEntryV) -> Seq<OtherEntryV>
    decreases s.len(),
{
    if s.len() == 0 {
        seq![e]
    } else if lex_lt(e.key, s[0].key) {
        seq![e] + s
    } else if e.key == s[0].key {
        seq![e] + s.drop_first()
    } else {
        seq![s[0]] + insert_entry(s.drop_first(), e)
    }
}

/// `entries` rearranged into ascending key order, a later entry winning
/// over an earlier one under the same key.
pub open spec fn sort_entries(entries: Seq<OtherEntryV>) -> Seq<OtherEntryV>
    decreases entries.len(),
{
    if entries.len() == 0 {
        Seq::empty()
    } else {
        insert_entry(sort_entries(entries.drop_last()), entries.last())
    }
}

/// The text an open-vocabulary argument aggregates to: its scalar values
/// concatenated in ascending key order.
pub open spec fn other_text(entries: Seq<OtherEntryV>) -> Seq<char> {
    entry_values_concat(sort_entries(entries))
}

/// Whether the keys of `s` are strictly ascending.
pub open spec fn entries_sorted(s: Seq<OtherEntryV>) -> bool {
    forall|i: int, j: int| 0 <= i < j < s.len() ==> lex_lt(#[trigger] s[i].key, #[trigger] s[j].key)
}

/// Every element of `insert_entry(s, e)` is `e` or an element of `s`.
proof fn lemma_insert_entry_elements(s: Seq<OtherEntryV>, e: OtherEntryV)
    ensures
        forall|k: int|
            0 <= k < insert_entry(s, e).len() ==> (#[trigger] insert_entry(s, e)[k] == e
                || s.contains(insert_entry(s, e)[k])),
    decreases s.len(),
{
    if s.len() == 0 {
    } else if lex_lt(e.key, s[0].key) {
    } else if e.key == s[0].key {
        assert forall|k: int| 0 <= k < insert_entry(s, e).len() implies (#[trigger] insert_entry(
            s,
            e,
        )[k] == e || s.contains(insert_entry(s, e)[k])) by {
            if k > 0 {
                assert(insert_entry(s, e)[k] == s.drop_first()[k - 1]);
                assert(insert_entry(s, e)[k] == s[k]);
            }
        }
    } else {
        lemma_insert_entry_elements(s.drop_first(), e);
        assert forall|k: int| 0 <= k < insert_entry(s, e).len() implies (#[trigger] insert_entry(
            s,
            e,
        )[k] == e || s.contains(insert_entry(s, e)[k])) by {
            if k == 0 {
                assert(insert_entry(s, e)[0] == s[0]);
                assert(s.contains(s[0]));
            } else {
                let t = insert_entry(s.drop_first(), e);
                assert(insert_entry(s, e)[k] == t[k - 1]);
                if t[k - 1] != e {
                    assert(s.drop_first().contains(t[k - 1]));
                    let w = choose|w: int|
                        0 <= w < s.drop_first().len() && s.drop_first()[w] == t[k - 1];
                    assert(s[w + 1] == t[k - 1]);
                }
            }
        }
    }
}

/// Inserting into a key-sorted sequence keeps it key-sorted.
proof fn lemma_insert_entry_keeps_sorted(s: Seq<OtherEntryV>, e: OtherEntryV)
    requires
        entries_sorted(s),
    ensures
        entries_sorted(insert_entry(s, e)),
    decreases s.len(),
{
    if s.len() == 0 {
    } else if lex_lt(e.key, s[0].key) {
        let r = seq![e] + s;
        assert forall|i: int, j: int| 0 <= i < j < r.len() implies lex_lt(
            #[trigger] r[i].key,
            #[trigger] r[j].key,
        ) by {
            if i == 0 {
                if j > 1 {
                    lemma_lex_lt_transitive(e.key, s[0].key, s[j - 1].key);
                }
            }
        }
    } else if e.key == s[0].key {
        let r = seq![e] + s.drop_first();
        assert forall|i: int, j: int| 0 <= i < j < r.len() implies lex_lt(
            #[trigger] r[i].key,
            #[trigger] r[j].key,
        ) by {
            assert(r[j] == s[j]);
            if i > 0 {
                assert(r[i] == s[i]);
            }
        }
    } else {
        if !lex_lt(s[0].key, e.key) {
            lemma_lex_lt_connected(s[0].key, e.key);
            assert(false);
        }
        let tail = s.drop_first();
        lemma_insert_entry_keeps_sorted(tail, e);
        lemma_insert_entry_elements(tail, e);
        let t = insert_entry(tail, e);
        let r = seq![s[0]] + t;
        assert forall|i: int, j: int| 0 <= i < j < r.len() implies lex_lt(
            #[trigger] r[i].key,
            #[trigger] r[j].key,
        ) by {
            if i == 0 {
                assert(r[j] == t[j - 1]);
                if t[j - 1] == e {
                } else {
                    assert(tail.contains(t[j - 1]));
                    let w = choose|w: int| 0 <= w < tail.len() && tail[w] == t[j - 1];
                    assert(lex_lt(s[0].key, s[w + 1].key));
                }
            } else {
                assert(r[i] == t[i - 1] && r[j] == t[j - 1]);
            }
        }
    }
}

/// The determinism contract of the open-vocabulary aggregation: the
/// entries are rearranged into strictly ascending key order, whatever
/// order the document gave them in.
pub proof fn lemma_sort_entries_sorted(entries: Seq<OtherEntryV>)
    ensures
        entries_sorted(sort_entries(entries)),
    decreases entries.len(),
{
    if entries.len() > 0 {
        lemma_sort_entries_sorted(entries.drop_last());
        lemma_insert_entry_keeps_sorted(sort_entries(entries.drop_last()), entries.last());
    }
}

/// The composer's running state: the pending plain-text buffer and the
/// parts already emitted.
#[verifier::ext_equal]
pub struct ComposeStateV {
    pub buffer: Seq<char>,
    pub parts: Seq<MessagePartV>,
}

/// The state a composition starts from: nothing buffered, nothing emitted.
pub open spec fn initial_state() -> ComposeStateV {
    ComposeStateV { buffer: Seq::empty(), parts: Seq::empty() }
}

/// The parts of `st` once a non-empty buffer has been emitted as a final
/// plain part.
pub open spec fn flush_state(st: ComposeStateV) -> Seq<MessagePartV> {
    if st.buffer.len() == 0 {
        st.parts
    } else {
        st.parts.push(MessagePartV::Plain(st.buffer))
    }
}

/// One inline contribution: `text` appended to the buffer, no flush.
pub open spec fn buffer_step(st: ComposeStateV, text: Seq<char>) -> ComposeStateV {
    ComposeStateV { buffer: st.buffer + text, parts: st.parts }
}

/// One annotated contribution: the buffer flushed, then a standalone
/// annotated part carrying `text` at the remapped location `loc`.
pub open spec fn annotated_step(
    opts: RemarkLoadOptionsV,
    st: ComposeStateV,
    text: Seq<char>,
    loc: DebugLocationV,
) -> ComposeStateV {
    ComposeStateV {
        buffer: Seq::empty(),
        parts: flush_state(st).push(
            MessagePartV::Annotated { message: text, location: debug_loc_spec(opts, loc) },
        ),
    }
}

/// What one argument does to the composer's state.
pub open spec fn compose_step(
    opts: RemarkLoadOptionsV,
    st: ComposeStateV,
    arg: RemarkArgV,
) -> ComposeStateV {
    match arg {
        RemarkArgV::Text(s) => buffer_step(st, s),
        RemarkArgV::Reason(s) => buffer_step(st, s),
        RemarkArgV::Callee { name, location } => match location {
            Option::Some(l) => annotated_step(opts, st, demangle_spec(name), l),
            Option::None => buffer_step(st, demangle_spec(name)),
        },
        RemarkArgV::Caller { name, location } => match location {
            Option::Some(l) => annotated_step(opts, st, demangle_spec(name), l),
            Option::None => buffer_step(st, demangle_spec(name)),
        },
        RemarkArgV::Other { entries, location } => match location {
            Option::Some(l) => annotated_step(opts, st, other_text(entries), l),
            Option::None => buffer_step(st, other_text(entries)),
        },
    }
}

/// The state after composing every argument of `args` in order.
pub open spec fn compose_fold(opts: RemarkLoadOptionsV, args: Seq<RemarkArgV>) -> ComposeStateV
    decreases args.len(),
{
    if args.len() == 0 {
        initial_state()
    } else {
        compose_step(opts, compose_fold(opts, args.drop_last()), args.last())
    }
}

/// The finished message of an argument list: the fold over all arguments,
/// with any remaining buffered text emitted as a final plain part.
pub open spec fn compose_message(opts: RemarkLoadOptionsV, args: Seq<RemarkArgV>) -> Seq<
    MessagePartV,
> {
    flush_state(compose_fold(opts, args))
}

/// Folding one more argument steps the fold of the prefix before it.
pub proof fn lemma_compose_fold_snoc(opts: RemarkLoadOptionsV, args: Seq<RemarkArgV>, i: int)
    requires
        0 <= i < args.len(),
    ensures
        compose_fold(opts, args.take(i + 1)) == compose_step(
            opts,
            compose_fold(opts, args.take(i)),
            args[i],
        ),
{
    assert(args.take(i + 1).drop_last() =~= args.take(i));
    assert(args.take(i + 1).last() == args[i]);
}

/// Adjacent inline text concatenates: contributing `a` and then `b` to the
/// buffer is contributing `a + b` at once, with no separator and no new
/// part. `Text` and `Reason` arguments, and unlocated callee and caller
/// names, all contribute through `buffer_step`.
pub proof fn lemma_adjacent_text_concatenates(st: ComposeStateV, a: Seq<char>, b: Seq<char>)
    ensures
        buffer_step(buffer_step(st, a), b) == buffer_step(st, a + b),
{
    assert((st.buffer + a) + b =~= st.buffer + (a + b));
    assert(buffer_step(buffer_step(st, a), b) =~= buffer_step(st, a + b));
}

/// In particular, two adjacent `Text` arguments yield what one merged
/// `Text` argument yields.
pub proof fn lemma_adjacent_text_args(
    opts: RemarkLoadOptionsV,
    st: ComposeStateV,
    a: Seq<char>,
    b: Seq<char>,
)
    ensures
        compose_step(opts, compose_step(opts, st, RemarkArgV::Text(a)), RemarkArgV::Text(b))
            == compose_step(opts, st, RemarkArgV::Text(a + b)),
{
    lemma_adjacent_text_concatenates(st, a, b);
}

/// A located callee or caller always yields a standalone annotated part:
/// it first flushes any buffered text as a plain part, then emits the
/// demangled name paired with the remapped location, and leaves the
/// buffer empty.
pub proof fn lemma_located_callee_flushes(
    opts: RemarkLoadOptionsV,
    st: ComposeStateV,
    name: Seq<char>,
    l: DebugLocationV,
)
    ensures
        compose_step(opts, st, RemarkArgV::Callee { name, location: Some(l) })
            == compose_step(opts, st, RemarkArgV::Caller { name, location: Some(l) }),
        compose_step(opts, st, RemarkArgV::Callee { name, location: Some(l) }).buffer
            == Seq::<char>::empty(),
        compose_step(opts, st, RemarkArgV::Callee { name, location: Some(l) }).parts
            == flush_state(st).push(
            MessagePartV::Annotated {
                message: demangle_spec(name),
                location: debug_loc_spec(opts, l),
            },
        ),
        st.buffer.len() > 0 ==> flush_state(st) == st.parts.push(MessagePartV::Plain(st.buffer)),
        st.buffer.len() == 0 ==> flush_state(st) == st.parts,
{
}

/// An unlocated callee or caller contributes its demangled name inline:
/// the buffer grows, and no part is emitted.
pub proof fn lemma_unlocated_callee_inlines(
    opts: RemarkLoadOptionsV,
    st: ComposeStateV,
    name: Seq<char>,
)
    ensures
        compose_step(opts, st, RemarkArgV::Callee { name, location: None }) == (ComposeStateV {
            buffer: st.buffer + demangle_spec(name),
            parts: st.parts,
        }),
        compose_step(opts, st, RemarkArgV::Caller { name, location: None }) == (ComposeStateV {
            buffer: st.buffer + demangle_spec(name),
            parts: st.parts,
        }),
{
}

/// `insert_entry` splits the sequence at the first position whose key does
/// not come before the new entry's key.
proof fn lemma_insert_entry_at(s: Seq<OtherEntryV>, e: OtherEntryV, j: int)
    requires
        0 <= j <= s.len(),
        forall|k: int| 0 <= k < j ==> lex_lt(#[trigger] s[k].key, e.key),
        j < s.len() ==> !lex_lt(s[j].key, e.key),
    ensures
        insert_entry(s, e) == if j < s.len() && s[j].key == e.key {
            s.take(j).push(e) + s.skip(j + 1)
        } else {
            s.take(j).push(e) + s.skip(j)
        },
    decreases s.len(),
{
    if s.len() == 0 {
        assert(s.take(0).push(e) + s.skip(0) =~= seq![e]);
    } else if j == 0 {
        if s[0].key == e.key {
            lemma_lex_lt_irreflexive(e.key);
            assert(insert_entry(s, e) == seq![e] + s.drop_first());
            assert(s.take(0).push(e) + s.skip(1) =~= seq![e] + s.drop_first());
        } else {
            if !lex_lt(e.key, s[0].key) {
                lemma_lex_lt_connected(e.key, s[0].key);
                assert(false);
            }
            assert(insert_entry(s, e) == seq![e] + s);
            assert(s.take(0).push(e) + s.skip(0) =~= seq![e] + s);
        }
    } else {
        lemma_lex_lt_asymmetric(s[0].key, e.key);
        let tail = s.drop_first();
        assert(forall|k: int| 0 <= k < j - 1 ==> lex_lt(#[trigger] tail[k].key, e.key)) by {
            assert(forall|k: int| 0 <= k < j - 1 ==> tail[k] == s[k + 1]);
        }
        assert(j - 1 < tail.len() ==> tail[j - 1] == s[j]);
        lemma_insert_entry_at(tail, e, j - 1);
        assert(insert_entry(s, e) == seq![s[0]] + insert_entry(tail, e));
        if j < s.len() && s[j].key == e.key {
            assert(seq![s[0]] + (tail.take(j - 1).push(e) + tail.skip(j)) =~= s.take(j).push(e)
                + s.skip(j + 1));
        } else {
            assert(seq![s[0]] + (tail.take(j - 1).push(e) + tail.skip(j - 1)) =~= s.take(j).push(e)
                + s.skip(j));
        }
    }
}

/// Places `e` into the already-ordered `v` by ascending key order.
fn insert_entry_exec(v: Vec<OtherEntry>, e: OtherEntry) -> (r: Vec<OtherEntry>)
    ensures
        r.deep_view() == insert_entry(v.deep_view(), e@),
{
    let ghost sv = v.deep_view();
    let mut j: usize = 0;
    while j < v.len() && str_lt(v[j].key.as_str(), e.key.as_str())
        invariant
            j <= v.len(),
            sv == v.deep_view(),
            forall|k: int| 0 <= k < j ==> lex_lt(#[trigger] sv[k].key, e@.key),
        decreases v.len() - j,
    {
        assert(sv[j as int] == v[j as int].deep_view());
        j = j + 1;
    }
    proof {
        if j < v.len() {
            assert(sv[j as int] == v[j as int].deep_view());
        }
        lemma_insert_entry_at(sv, e@, j as int);
    }
    let mut r = v;
    if j < r.len() && str_eq(r[j].key.as_str(), e.key.as_str()) {
        assert(sv[j as int].key == e@.key);
        let _replaced = r.remove(j);
        r.insert(j, e);
        proof {
            assert(r.deep_view() =~= sv.take(j as int).push(e@) + sv.skip(j + 1));
        }
    } else {
        proof {
            if j < r.len() {
                assert(sv[j as int].key != e@.key);
            }
        }
        r.insert(j, e);
        proof {
            assert(r.deep_view() =~= sv.take(j as int).push(e@) + sv.skip(j as int));
        }
    }
    r
}

/// Aggregates an open-vocabulary argument's entries: their values are
/// concatenated with no separator, in ascending key order, a later entry
/// winning over an earlier one under the same key.
pub fn other_entries_text(entries: &Vec<OtherEntry>) -> (r: String)
    ensures
        r@ == other_text(entries.deep_view()),
{
    let ghost sv = entries.deep_view();
    let mut sorted: Vec<OtherEntry> = Vec::new();
    let mut i: usize = 0;
    while i < entries.len()
        invariant
            i <= entries.len(),
            sv == entries.deep_view(),
            sorted.deep_view() == sort_entries(sv.take(i as int)),
        decreases entries.len() - i,
    {
        let e = OtherEntry {
            key: entries[i].key.clone(),
            value: entries[i].value.clone(),
        };
        assert(e@ == sv[i as int]);
        sorted = insert_entry_exec(sorted, e);
        proof {
            assert(sv.take(i + 1).drop_last() =~= sv.take(i as int));
            assert(sv.take(i + 1).last() == sv[i as int]);
        }
        i = i + 1;
    }
    proof {
        assert(sv.take(entries.len() as int) =~= sv);
    }
    let ghost ss = sorted.deep_view();
    let mut r = String::new();
    let mut k: usize = 0;
    while k < sorted.len()
        invariant
            k <= sorted.len(),
            ss == sorted.deep_view(),
            r@ == entry_values_concat(ss.take(k as int)),
        decreases sorted.len() - k,
    {
        assert(ss[k as int] == sorted[k as int].deep_view());
        r.append(sorted[k].value.as_str());
        proof {
            assert(ss.take(k + 1).drop_last() =~= ss.take(k as int));
            assert(ss.take(k + 1).last() == ss[k as int]);
        }
        k = k + 1;
    }
    proof {
        assert(ss.take(sorted.len() as int) =~= ss);
    }
    r
}

/// Emits any buffered text as a plain part and leaves the buffer empty.
fn flush_buffer(buffer: &mut String, parts: &mut Vec<MessagePart>)
    ensures
        final(buffer)@ == Seq::<char>::empty(),
        final(parts).deep_view() == flush_state(
            ComposeStateV { buffer: old(buffer)@, parts: old(parts).deep_view() },
        ),
{
    let ghost st = ComposeStateV { buffer: buffer@, parts: parts.deep_view() };
    if !buffer.as_str().is_empty() {
        let b = buffer.clone();
        parts.push(MessagePart::String(b));
        *buffer = String::new();
        proof {
            assert(parts.deep_view() =~= flush_state(st));
        }
    } else {
        *buffer = String::new();
    }
}

/// Converts an ordered argument list into an ordered message of plain and
/// annotated parts, exactly as `compose_message` describes.
pub fn construct_message(options: &RemarkLoadOptions, arguments: Vec<RemarkArg>) -> (r: Vec<
    MessagePart,
>)
    ensures
        r.deep_view() == compose_message(options@, arguments.deep_view()),
{
    let ghost args_v = arguments.deep_view();
    let mut parts: Vec<MessagePart> = Vec::new();
    let mut buffer: String = String::new();
    let mut i: usize = 0;
    while i < arguments.len()
        invariant
            i <= arguments.len(),
            args_v == arguments.deep_view(),
            buffer@ == compose_fold(options@, args_v.take(i as int)).buffer,
            parts.deep_view() == compose_fold(options@, args_v.take(i as int)).parts,
        decreases arguments.len() - i,
    {
        let ghost st = ComposeStateV { buffer: buffer@, parts: parts.deep_view() };
        proof {
            assert(args_v[i as int] == arguments[i as int].deep_view());
            lemma_compose_fold_snoc(options@, args_v, i as int);
            assert(st =~= compose_fold(options@, args_v.take(i as int)));
        }
        match &arguments[i] {
            RemarkArg::Text(s) => {
                buffer.append(s.as_str());
            },
            RemarkArg::Reason(s) => {
                buffer.append(s.as_str());
            },
            RemarkArg::Callee { name, location: Option::Some(l) } => {
                let d = demangle(name.as_str());
                let loc = parse_debug_loc(
                    options,
                    DebugLocation { file: l.file.clone(), line: l.line, column: l.column },
                );
                flush_buffer(&mut buffer, &mut parts);
                parts.push(MessagePart::AnnotatedString { message: d, location: loc });
                proof {
                    assert(parts.deep_view() =~= compose_step(options@, st, args_v[i as int]).parts);
                }
            },
            RemarkArg::Caller { name, location: Option::Some(l) } => {
                let d = demangle(name.as_str());
                let loc = parse_debug_loc(
                    options,
                    DebugLocation { file: l.file.clone(), line: l.line, column: l.column },
                );
                flush_buffer(&mut buffer, &mut parts);
                parts.push(MessagePart::AnnotatedString { message: d, location: loc });
                proof {
                    assert(parts.deep_view() =~= compose_step(options@, st, args_v[i as int]).parts);
                }
            },
            RemarkArg::Callee { name, location: Option::None } => {
                let d = demangle(name.as_str());
                buffer.append(d.as_str());
            },
            RemarkArg::Caller { name, location: Option::None } => {
                let d = demangle(name.as_str());
                buffer.append(d.as_str());
            },
            RemarkArg::Other { entries, location: Option::Some(l) } => {
                let text = other_entries_text(entries);
                let loc = parse_debug_loc(
                    options,
                    DebugLocation { file: l.file.clone(), line: l.line, column: l.column },
                );
                flush_buffer(&mut buffer, &mut parts);
                parts.push(MessagePart::AnnotatedString { message: text, location: loc });
                proof {
                    assert(parts.deep_view() =~= compose_step(options@, st, args_v[i as int]).parts);
                }
            },
            RemarkArg::Other { entries, location: Option::None } => {
                let text = other_entries_text(entries);
                buffer.append(text.as_str());
            },
        }
        i = i + 1;
    }
    proof {
        assert(args_v.take(arguments.len() as int) =~= args_v);
    }
    flush_buffer(&mut buffer, &mut parts);
    parts
}

} // verus!
