use opt_remarks::decode::decode_documents;
use opt_remarks::process::parse_remarks;
use opt_remarks::Function;
use opt_remarks::Location;
use opt_remarks::MessagePart;
use opt_remarks::Remark;
use opt_remarks::RemarkLoadOptions;

struct Options {
    external: bool,
    filter_kind: Vec<String>,
    source_dir: String,
    rustc_source_root: Option<String>,
}

impl Options {
    fn filter(mut self, kind: &str) -> Self {
        self.filter_kind.push(kind.to_string());
        self
    }

    fn rustc_source_root(mut self, path: &str) -> Self {
        self.rustc_source_root = Some(path.to_string());
        self
    }

    fn external(mut self, external: bool) -> Self {
        self.external = external;
        self
    }
}

impl Default for Options {
    fn default() -> Self {
        Self {
            external: true,
            filter_kind: vec![],
            source_dir: "/tmp".to_string(),
            rustc_source_root: None,
        }
    }
}

impl From<Options> for RemarkLoadOptions {
    fn from(value: Options) -> Self {
        let Options {
            external,
            filter_kind,
            source_dir,
            rustc_source_root,
        } = value;
        Self {
            external,
            source_dir,
            filter_kind,
            rustc_source_root,
        }
    }
}

fn parse(input: &str, opts: Options) -> Vec<Remark> {
    let options: RemarkLoadOptions = opts.into();
    let documents = decode_documents(input);
    let found = vec![true; documents.len()];
    parse_remarks(documents, &options, &found)
}

#[test]
fn parse_single() {
    let input = r#"--- !Missed
Pass:            sdagisel
Name:            FastISelFailure
Function:        __rust_alloc
DebugLoc:        { File: '/std/src/sys_common/backtrace.rs',
                   Line: 131, Column: 0 }
Args:
  - String:          FastISel missed call
  - String:          ': '
  - String:          '  %3 = tail call ptr @__rdl_alloc(i64 %0, i64 %1)'
  - String:          ' (in function: __rust_alloc)'
..."#;
    let expected = vec![Remark {
        pass: "sdagisel".to_string(),
        name: "FastISelFailure".to_string(),
        function: Function {
            name: "__rust_alloc".to_string(),
            location: Some(Location {
                file: "/std/src/sys_common/backtrace.rs".to_string(),
                line: 131,
                column: 0,
            }),
        },
        message: vec![MessagePart::String(
            "FastISel missed call:   %3 = tail call ptr @__rdl_alloc(i64 %0, i64 %1) (in function: __rust_alloc)"
                .to_string(),
        )],
        hotness: None,
    }];
    assert_eq!(parse(input, Options::default()), expected);
}

#[test]
fn parse_multiple() {
    let input = r#"--- !Missed
Pass:            inline
Name:            NoDefinition
DebugLoc:        { File: '/foo/rust/rust/library/std/src/rt.rs',
                   Line: 165, Column: 17 }
Function:        _ZN3std2rt10lang_start17h9096f6f84fb08eb2E
Args:
  - Callee:          _ZN3std2rt19lang_start_internal17had90330d479f72f8E
  - String:          ' will not be inlined into '
  - Caller:          _ZN3std2rt10lang_start17h9096f6f84fb08eb2E
    DebugLoc:        { File: '/foo/rust/rust/library/std/src/rt.rs',
                       Line: 159, Column: 0 }
  - String:          ' because its definition is unavailable'
...
--- !Missed
Pass:            inline
Name:            NoDefinition
DebugLoc:        { File: 'src/main.rs', Line: 7, Column: 5 }
Function:        _ZN7remarks4main17hc92ae132ef1efa8eE
Args:
  - Callee:          _ZN3std2io5stdio6_print17hdb04fec352560b87E
  - String:          ' will not be inlined into '
  - Caller:          _ZN7remarks4main17hc92ae132ef1efa8eE
    DebugLoc:        { File: 'src/main.rs', Line: 6, Column: 0 }
  - String:          ' because its definition is unavailable'
..."#;
    let expected = vec![
        Remark {
            pass: "inline".to_string(),
            name: "NoDefinition".to_string(),
            function: Function {
                name: "std::rt::lang_start".to_string(),
                location: Some(Location {
                    file: "/foo/rust/rust/library/std/src/rt.rs".to_string(),
                    line: 165,
                    column: 17,
                }),
            },
            message: vec![
                MessagePart::String(
                    "std::rt::lang_start_internal will not be inlined into ".to_string(),
                ),
                MessagePart::AnnotatedString {
                    message: "std::rt::lang_start".to_string(),
                    location: Location {
                        file: "/foo/rust/rust/library/std/src/rt.rs".to_string(),
                        line: 159,
                        column: 0,
                    },
                },
                MessagePart::String(" because its definition is unavailable".to_string()),
            ],
            hotness: None,
        },
        Remark {
            pass: "inline".to_string(),
            name: "NoDefinition".to_string(),
            function: Function {
                name: "remarks::main".to_string(),
                location: Some(Location {
                    file: "src/main.rs".to_string(),
                    line: 7,
                    column: 5,
                }),
            },
            message: vec![
                MessagePart::String(
                    "std::io::stdio::_print will not be inlined into ".to_string(),
                ),
                MessagePart::AnnotatedString {
                    message: "remarks::main".to_string(),
                    location: Location {
                        file: "src/main.rs".to_string(),
                        line: 6,
                        column: 0,
                    },
                },
                MessagePart::String(" because its definition is unavailable".to_string()),
            ],
            hotness: None,
        },
    ];
    assert_eq!(parse(input, Options::default()), expected);
}

#[test]
fn parse_no_location() {
    let input = r#"--- !Missed
Pass:            sdagisel
Name:            FastISelFailure
Function:        __rust_alloc
Args:
  - String:          FastISel missed call
  - String:          ': '
  - String:          '  %3 = tail call ptr @__rdl_alloc(i64 %0, i64 %1)'
  - String:          ' (in function: __rust_alloc)'
..."#;
    assert_eq!(parse(input, Options::default()), vec![]);
}

#[test]
fn parse_ignored_type() {
    let input = r#"--- !Passed
Pass:            inline
Name:            Inlined
DebugLoc:        { File: '/projects/personal/rust/rust/library/std/src/sys_common/backtrace.rs',
                   Line: 135, Column: 18 }
Function:        _ZN3std10sys_common9backtrace28__rust_begin_short_backtrace17h7208ef7aa68440d8E
Args:
  - String:          ''''
  - Callee:          _ZN4core3ops8function6FnOnce9call_once17hde3380935eb1addfE
  - String:          ''' inlined into '''
  - Caller:          _ZN3std10sys_common9backtrace28__rust_begin_short_backtrace17h7208ef7aa68440d8E
    DebugLoc:        { File: '/projects/personal/rust/rust/library/std/src/sys_common/backtrace.rs',
                       Line: 131, Column: 0 }
  - String:          ''''
  - String:          ' with '
  - String:          '(cost='
  - Cost:            '-15030'
  - String:          ', threshold='
  - Threshold:       '487'
  - String:          ')'
  - String:          ' at callsite '
  - String:          _ZN3std10sys_common9backtrace28__rust_begin_short_backtrace17h7208ef7aa68440d8E
  - String:          ':'
  - Line:            '4'
  - String:          ':'
  - Column:          '18'
  - String:          ';'
...
--- !Analysis
Pass:            size-info
Name:            FunctionMISizeChange
Function:        __rust_alloc
Args:
  - Pass:            Fast Register Allocator
  - String:          ': Function: '
  - Function:        __rust_alloc
  - String:          ': '
  - String:          'MI Instruction count changed from '
  - MIInstrsBefore:  '7'
  - String:          ' to '
  - MIInstrsAfter:   '1'
  - String:          '; Delta: '
  - Delta:           '-6'
..."#;
    assert!(parse(input, Options::default()).is_empty());
}

#[test]
fn parse_gvn() {
    let input = r#"--- !Missed
Pass:            gvn
Name:            LoadClobbered
DebugLoc:        { File: '/projects/personal/rust/rust/library/core/src/result.rs',
                   Line: 1948, Column: 15 }
Function:        '_ZN5alloc7raw_vec19RawVec$LT$T$C$A$GT$14grow_amortized17ha53db71e3f649c60E'
Args:
  - String:          'load of type '
  - Type:            i64
  - String:          ' not eliminated'
  - String:          ' because it is clobbered by '
  - ClobberedBy:     call
    DebugLoc:        { File: '/projects/personal/rust/rust/library/alloc/src/raw_vec.rs',
                       Line: 404, Column: 19 }
..."#;

    assert_eq!(parse(input, Options::default()).len(), 1);
}

#[test]
fn parse_filter() {
    let input = r#"--- !Missed
Pass:            gvn
Name:            Foo
DebugLoc:        { File: '/projects/personal/rust/rust/library/core/src/result.rs',
                   Line: 1948, Column: 15 }
Function:        '_ZN5alloc7raw_vec19RawVec$LT$T$C$A$GT$14grow_amortized17ha53db71e3f649c60E'
Args:
  - String:          'load of type '
  - Type:            i64
  - String:          ' not eliminated'
  - String:          ' because it is clobbered by '
  - ClobberedBy:     call
    DebugLoc:        { File: '/projects/personal/rust/rust/library/alloc/src/raw_vec.rs',
                       Line: 404, Column: 19 }
..."#;

    assert!(parse(input, Options::default().filter("Foo")).is_empty());
}

#[test]
fn parse_hotness() {
    let input = r#"--- !Missed
Pass:            regalloc
Name:            LoopSpillReloadCopies
DebugLoc:        { File: '/rustc/08d00b40aef2017fe6dba3ff7d6476efa0c10888/library/std/src/io/buffered/bufreader/buffer.rs',
                   Line: 114, Column: 13 }
Function:        _ZN3std2io16append_to_string17hcf3f6e91099a64a2E
Hotness:         2
Args:
  - NumReloads:      '3'
  - String:          ' reloads '
  - TotalReloadsCost: '4.607052e-10'
  - String:          ' total reloads cost '
  - NumVRCopies:     '2'
  - String:          ' virtual registers copies '
  - TotalCopiesCost: '5.000000e-01'
  - String:          ' total copies cost '
  - String:          generated in loop
..."#;

    let expected = vec![Remark {
        pass: "regalloc".to_string(),
        name: "LoopSpillReloadCopies".to_string(),
        function: Function {
            name: "std::io::append_to_string".to_string(),
            location: Some(Location {
                file: "/rustc/08d00b40aef2017fe6dba3ff7d6476efa0c10888/library/std/src/io/buffered/bufreader/buffer.rs"
                    .to_string(),
                line: 114,
                column: 13,
            }),
        },
        message: vec![MessagePart::String(
            "3 reloads 4.607052e-10 total reloads cost 2 virtual registers copies 5.000000e-01 total copies cost generated in loop"
                .to_string(),
        )],
        hotness: Some(2),
    }];
    assert_eq!(parse(input, Options::default()), expected);
}

#[test]
fn parse_remap_rust_source() {
    let input = r#"--- !Missed
Pass:            regalloc
Name:            LoopSpillReloadCopies
DebugLoc:        { File: '/rustc/08d00b40aef2017fe6dba3ff7d6476efa0c10888/library/std/src/io/buffered/bufreader/buffer.rs',
                   Line: 114, Column: 13 }
Function:        _ZN3std2io16append_to_string17hcf3f6e91099a64a2E
Args:
..."#;

    let expected = vec![Remark {
        pass: "regalloc".to_string(),
        name: "LoopSpillReloadCopies".to_string(),
        function: Function {
            name: "std::io::append_to_string".to_string(),
            location: Some(Location {
                file: "/foo/bar/library/std/src/io/buffered/bufreader/buffer.rs".to_string(),
                line: 114,
                column: 13,
            }),
        },
        message: vec![],
        hotness: None,
    }];
    assert_eq!(
        parse(
            input,
            Options::default().external(true).rustc_source_root("/foo/bar")
        ),
        expected
    );
}
