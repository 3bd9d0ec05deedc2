use opt_remarks::decode::decode_documents;
use opt_remarks::demangle::demangle;
use opt_remarks::demangle::strip_legacy_hash;
use opt_remarks::message::construct_message;
use opt_remarks::message::other_entries_text;
use opt_remarks::paths::normalize_path;
use opt_remarks::policy::accept_candidate;
use opt_remarks::process::collect_file_results;
use opt_remarks::process::document_probe_path;
use opt_remarks::process::parse_remarks;
use opt_remarks::process::process_document;
use opt_remarks::DebugLocation;
use opt_remarks::Function;
use opt_remarks::Location;
use opt_remarks::MessagePart;
use opt_remarks::MissedDoc;
use opt_remarks::OtherEntry;
use opt_remarks::RawDocument;
use opt_remarks::Remark;
use opt_remarks::RemarkArg;
use opt_remarks::RemarkLoadOptions;

fn default_options() -> RemarkLoadOptions {
    RemarkLoadOptions {
        external: true,
        source_dir: "/tmp".to_string(),
        filter_kind: vec![],
        rustc_source_root: None,
    }
}

fn sample_remark(tag: &str) -> Remark {
    Remark {
        pass: "inline".to_string(),
        name: tag.to_string(),
        function: Function {
            name: "f".to_string(),
            location: None,
        },
        message: vec![],
        hotness: None,
    }
}

#[test]
fn strip_removes_exact_hash_suffix() {
    let stripped = strip_legacy_hash("std::rt::lang_start::h9096f6f84fb08eb2".to_string());
    assert_eq!(stripped, "std::rt::lang_start");
}

#[test]
fn strip_leaves_other_names_alone() {
    // No separator+hash suffix at all.
    assert_eq!(strip_legacy_hash("__rust_alloc".to_string()), "__rust_alloc");
    // Hash of 16 characters, one too few.
    assert_eq!(
        strip_legacy_hash("a::h9096f6f84fb08eb".to_string()),
        "a::h9096f6f84fb08eb"
    );
    // An uppercase character breaks the pattern.
    assert_eq!(
        strip_legacy_hash("a::H9096f6f84fb08eb2".to_string()),
        "a::H9096f6f84fb08eb2"
    );
    // Only one separator colon before the 17 characters.
    assert_eq!(
        strip_legacy_hash("ab:h9096f6f84fb08eb2".to_string()),
        "ab:h9096f6f84fb08eb2"
    );
    // Too short to hold the suffix.
    assert_eq!(strip_legacy_hash("::abc".to_string()), "::abc");
}

#[test]
fn strip_applies_at_most_once() {
    let once = strip_legacy_hash("std::rt::lang_start::h9096f6f84fb08eb2".to_string());
    let twice = strip_legacy_hash(once.clone());
    // "lang_start" does not match the pattern, so a second pass changes nothing.
    assert_eq!(once, twice);
}

#[test]
fn demangle_legacy_symbol() {
    assert_eq!(
        demangle("_ZN3std2rt10lang_start17h9096f6f84fb08eb2E"),
        "std::rt::lang_start"
    );
}

#[test]
fn demangle_passthrough() {
    assert_eq!(demangle("__rust_alloc"), "__rust_alloc");
}

#[test]
fn normalize_remaps_toolchain_path() {
    let options = RemarkLoadOptions {
        rustc_source_root: Some("/foo/bar".to_string()),
        ..default_options()
    };
    assert_eq!(
        normalize_path(
            &options,
            "/rustc/08d00b40aef2017fe6dba3ff7d6476efa0c10888/library/std/src/rt.rs".to_string()
        ),
        "/foo/bar/library/std/src/rt.rs"
    );
}

#[test]
fn normalize_keeps_path_without_marker() {
    let options = RemarkLoadOptions {
        rustc_source_root: Some("/foo/bar".to_string()),
        ..default_options()
    };
    assert_eq!(
        normalize_path(&options, "src/main.rs".to_string()),
        "src/main.rs"
    );
    // The marker alone, with no separator closing an identifier segment.
    assert_eq!(
        normalize_path(&options, "/rustc/abcdef".to_string()),
        "/rustc/abcdef"
    );
}

#[test]
fn normalize_keeps_path_without_root() {
    let options = default_options();
    assert_eq!(
        normalize_path(
            &options,
            "/rustc/08d00b40aef2017fe6dba3ff7d6476efa0c10888/library/std/src/rt.rs".to_string()
        ),
        "/rustc/08d00b40aef2017fe6dba3ff7d6476efa0c10888/library/std/src/rt.rs"
    );
}

#[test]
fn normalize_forces_forward_slashes() {
    let options = RemarkLoadOptions {
        rustc_source_root: Some("C:\\checkout".to_string()),
        ..default_options()
    };
    assert_eq!(
        normalize_path(&options, "/rustc/abc/lib\\io\\mod.rs".to_string()),
        "C:/checkout/lib/io/mod.rs"
    );
}

#[test]
fn policy_rejects_absolute_when_not_external() {
    let options = RemarkLoadOptions {
        external: false,
        ..default_options()
    };
    let name = "NoDefinition".to_string();
    let absolute = "/std/src/rt.rs".to_string();
    // Absolute path: rejected no matter what the probe said.
    assert!(!accept_candidate(&options, &name, &absolute, true));
    // Relative path: the probe's outcome decides.
    let relative = "src/main.rs".to_string();
    assert!(!accept_candidate(&options, &name, &relative, false));
    assert!(accept_candidate(&options, &name, &relative, true));
}

#[test]
fn policy_accepts_everything_external() {
    let options = default_options();
    let name = "NoDefinition".to_string();
    let absolute = "/std/src/rt.rs".to_string();
    let relative = "src/main.rs".to_string();
    assert!(accept_candidate(&options, &name, &absolute, false));
    assert!(accept_candidate(&options, &name, &relative, false));
}

#[test]
fn policy_excluded_name_always_suppresses() {
    let options = RemarkLoadOptions {
        filter_kind: vec!["Foo".to_string(), "Bar".to_string()],
        ..default_options()
    };
    let file = "src/main.rs".to_string();
    assert!(!accept_candidate(&options, &"Foo".to_string(), &file, true));
    assert!(!accept_candidate(&options, &"Bar".to_string(), &file, true));
    assert!(accept_candidate(&options, &"Baz".to_string(), &file, true));
}

#[test]
fn probe_path_resolves_under_source_dir() {
    let options = RemarkLoadOptions {
        external: false,
        source_dir: "/work/project".to_string(),
        ..default_options()
    };
    let document = RawDocument::Missed(MissedDoc {
        pass: "inline".to_string(),
        name: "NoDefinition".to_string(),
        function: "f".to_string(),
        debug_loc: Some(DebugLocation {
            file: "src/main.rs".to_string(),
            line: 1,
            column: 1,
        }),
        args: vec![],
        hotness: None,
    });
    assert_eq!(
        document_probe_path(&document, &options),
        Some("/work/project/src/main.rs".to_string())
    );
    // An external load never probes.
    assert_eq!(document_probe_path(&document, &default_options()), None);
}

#[test]
fn message_adjacent_text_merges() {
    let options = default_options();
    let message = construct_message(
        &options,
        vec![
            RemarkArg::Text("a".to_string()),
            RemarkArg::Text("b".to_string()),
        ],
    );
    assert_eq!(message, vec![MessagePart::String("ab".to_string())]);
}

#[test]
fn message_reason_joins_buffer() {
    let options = default_options();
    let message = construct_message(
        &options,
        vec![
            RemarkArg::Text("failed".to_string()),
            RemarkArg::Reason(": out of budget".to_string()),
        ],
    );
    assert_eq!(
        message,
        vec![MessagePart::String("failed: out of budget".to_string())]
    );
}

#[test]
fn message_located_callee_flushes_buffer() {
    let options = default_options();
    let location = DebugLocation {
        file: "src/main.rs".to_string(),
        line: 6,
        column: 0,
    };
    let message = construct_message(
        &options,
        vec![
            RemarkArg::Text("x ".to_string()),
            RemarkArg::Callee {
                name: "_ZN3std2rt10lang_start17h9096f6f84fb08eb2E".to_string(),
                location: Some(location),
            },
            RemarkArg::Text(" y".to_string()),
        ],
    );
    assert_eq!(
        message,
        vec![
            MessagePart::String("x ".to_string()),
            MessagePart::AnnotatedString {
                message: "std::rt::lang_start".to_string(),
                location: Location {
                    file: "src/main.rs".to_string(),
                    line: 6,
                    column: 0,
                },
            },
            MessagePart::String(" y".to_string()),
        ]
    );
}

#[test]
fn message_unlocated_callee_stays_inline() {
    let options = default_options();
    let message = construct_message(
        &options,
        vec![
            RemarkArg::Callee {
                name: "_ZN3std2rt10lang_start17h9096f6f84fb08eb2E".to_string(),
                location: None,
            },
            RemarkArg::Text(" stays inline".to_string()),
        ],
    );
    assert_eq!(
        message,
        vec![MessagePart::String(
            "std::rt::lang_start stays inline".to_string()
        )]
    );
}

#[test]
fn message_other_aggregates_by_ascending_key() {
    let options = default_options();
    // Keys arrive as Line, Column; Column orders first alphabetically,
    // so the values aggregate to "18" + "4".
    let message = construct_message(
        &options,
        vec![RemarkArg::Other {
            entries: vec![
                OtherEntry {
                    key: "Line".to_string(),
                    value: "4".to_string(),
                },
                OtherEntry {
                    key: "Column".to_string(),
                    value: "18".to_string(),
                },
            ],
            location: None,
        }],
    );
    assert_eq!(message, vec![MessagePart::String("184".to_string())]);
}

#[test]
fn other_entries_concatenate_sorted() {
    let entries = vec![
        OtherEntry {
            key: "Threshold".to_string(),
            value: "487".to_string(),
        },
        OtherEntry {
            key: "Cost".to_string(),
            value: "-15030".to_string(),
        },
    ];
    assert_eq!(other_entries_text(&entries), "-15030487");
}

#[test]
fn message_located_other_becomes_annotated() {
    let options = default_options();
    let message = construct_message(
        &options,
        vec![
            RemarkArg::Text("clobbered by ".to_string()),
            RemarkArg::Other {
                entries: vec![OtherEntry {
                    key: "ClobberedBy".to_string(),
                    value: "call".to_string(),
                }],
                location: Some(DebugLocation {
                    file: "lib/raw_vec.rs".to_string(),
                    line: 404,
                    column: 19,
                }),
            },
        ],
    );
    assert_eq!(
        message,
        vec![
            MessagePart::String("clobbered by ".to_string()),
            MessagePart::AnnotatedString {
                message: "call".to_string(),
                location: Location {
                    file: "lib/raw_vec.rs".to_string(),
                    line: 404,
                    column: 19,
                },
            },
        ]
    );
}

#[test]
fn process_document_ignores_probe_when_external() {
    let options = default_options();
    let document = RawDocument::Missed(MissedDoc {
        pass: "gvn".to_string(),
        name: "LoadClobbered".to_string(),
        function: "__rust_alloc".to_string(),
        debug_loc: Some(DebugLocation {
            file: "/elsewhere/result.rs".to_string(),
            line: 1948,
            column: 15,
        }),
        args: vec![],
        hotness: None,
    });
    let remark = process_document(document, &options, false).unwrap();
    assert_eq!(remark.pass, "gvn");
    assert_eq!(remark.name, "LoadClobbered");
    assert_eq!(remark.hotness, None);
}

#[test]
fn corrupt_document_is_skipped_not_fatal() {
    let input = r#"--- !Missed
Pass:            inline
Name:            First
Function:        f
DebugLoc:        { File: 'a.rs', Line: 1, Column: 2 }
Args:
...
--- "an untagged scalar document"
...
--- !Missed
Pass:            inline
Name:            Second
Function:        g
DebugLoc:        { File: 'b.rs', Line: 3, Column: 4 }
Args:
..."#;
    let options = default_options();
    let documents = decode_documents(input);
    let found = vec![true; documents.len()];
    let remarks = parse_remarks(documents, &options, &found);
    assert_eq!(remarks.len(), 2);
    assert_eq!(remarks[0].name, "First");
    assert_eq!(remarks[1].name, "Second");
}

#[test]
fn other_scalars_render_standard_forms() {
    // Bare (unquoted) YAML scalars in the open-vocabulary bucket: numbers
    // and booleans render via their standard text, a nested sequence
    // contributes nothing.
    let input = r#"--- !Missed
Pass:            inline
Name:            Scalars
Function:        f
DebugLoc:        { File: 'a.rs', Line: 1, Column: 2 }
Args:
  - Cost:            -4
  - Flag:            true
  - Nested:          [1, 2]
  - Count:           12
..."#;
    let options = default_options();
    let documents = decode_documents(input);
    let found = vec![true; documents.len()];
    let remarks = parse_remarks(documents, &options, &found);
    assert_eq!(remarks.len(), 1);
    assert_eq!(
        remarks[0].message,
        vec![MessagePart::String("-4true12".to_string())]
    );
}

#[test]
fn empty_input_yields_no_remarks() {
    let options = default_options();
    let documents = decode_documents("");
    let found = vec![true; documents.len()];
    assert_eq!(parse_remarks(documents, &options, &found), vec![]);
}

#[test]
fn collect_keeps_loaded_files_in_order() {
    let results = vec![
        Some(vec![sample_remark("first")]),
        None,
        Some(vec![sample_remark("second"), sample_remark("third")]),
    ];
    let collected = collect_file_results(results);
    let names: Vec<&str> = collected.iter().map(|r| r.name.as_str()).collect();
    assert_eq!(names, vec!["first", "second", "third"]);
}
