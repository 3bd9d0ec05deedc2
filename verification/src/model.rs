use vstd::prelude::*;

verus! {

/// A source position a remark is anchored to.
#[derive(Debug, PartialEq)]
pub struct Location {
    pub file: String,
    pub line: u32,
    pub column: u32,
}

/// Mathematical image of a [`Location`].
#[verifier::ext_equal]
pub struct LocationV {
    pub file: Seq<char>,
    pub line: u32,
    pub column: u32,
}

impl View for Location {
    type V = LocationV;

    open spec fn view(&self) -> LocationV {
        LocationV { file: self.file@, line: self.line, column: self.column }
    }
}

impl DeepView for Location {
    type V = LocationV;

    open spec fn deep_view(&self) -> LocationV {
        self.view()
    }
}

/// The function a remark was reported against: its demangled name and,
/// when known, where it is defined.
#[derive(Debug, PartialEq)]
pub struct Function {
    pub name: String,
    pub location: Option<Location>,
}

/// Mathematical image of a [`Function`].
#[verifier::ext_equal]
pub struct FunctionV {
    pub name: Seq<char>,
    pub location: Option<LocationV>,
}

impl View for Function {
    type V = FunctionV;

    open spec fn view(&self) -> FunctionV {
        FunctionV { name: self.name@, location: self.location.deep_view() }
    }
}

impl DeepView for Function {
    type V = FunctionV;

    open spec fn deep_view(&self) -> FunctionV {
        self.view()
    }
}

/// One piece of a composed remark message: either a run of plain text or a
/// span of text annotated with a source location.
#[derive(Debug, PartialEq)]
pub enum MessagePart {
    String(String),
    AnnotatedString { message: String, location: Location },
}

/// Mathematical image of a [`MessagePart`].
#[verifier::ext_equal]
pub enum MessagePartV {
    Plain(Seq<char>),
    Annotated { message: Seq<char>, location: LocationV },
}

impl View for MessagePart {
    type V = MessagePartV;

    open spec fn view(&self) -> MessagePartV {
        match self {
            MessagePart::String(s) => MessagePartV::Plain(s@),
            MessagePart::AnnotatedString { message, location } => MessagePartV::Annotated {
                message: message@,
                location: location@,
            },
        }
    }
}

impl DeepView for MessagePart {
    type V = MessagePartV;

    open spec fn deep_view(&self) -> MessagePartV {
        self.view()
    }
}

/// One accepted optimization remark.
#[derive(Debug, PartialEq)]
pub struct Remark {
    pub pass: String,
    pub name: String,
    pub function: Function,
    pub message: Vec<MessagePart>,
    pub hotness: Option<i32>,
}

/// Mathematical image of a [`Remark`].
#[verifier::ext_equal]
pub struct RemarkV {
    pub pass: Seq<char>,
    pub name: Seq<char>,
    pub function: FunctionV,
    pub message: Seq<MessagePartV>,
    pub hotness: Option<i32>,
}

impl View for Remark {
    type V = RemarkV;

    open spec fn view(&self) -> RemarkV {
        RemarkV {
            pass: self.pass@,
            name: self.name@,
            function: self.function@,
            message: self.message.deep_view(),
            hotness: self.hotness,
        }
    }
}

impl DeepView for Remark {
    type V = RemarkV;

    open spec fn deep_view(&self) -> RemarkV {
        self.view()
    }
}

/// Configuration for one load: whether remarks anchored outside the local
/// tree are kept, where the local tree lies, which remark names are
/// suppressed, and where a prebuilt toolchain's sources were checked out.
#[derive(Debug, PartialEq, Default)]
pub struct RemarkLoadOptions {
    /// Load remarks from external crates
    pub external: bool,
    /// Source directory
    pub source_dir: String,
    /// Remark kinds that should be ignored
    pub filter_kind: Vec<String>,
    /// Root path of rustc toolchain sources
    pub rustc_source_root: Option<String>,
}

/// Mathematical image of [`RemarkLoadOptions`].
#[verifier::ext_equal]
pub struct RemarkLoadOptionsV {
    pub external: bool,
    pub source_dir: Seq<char>,
    pub filter_kind: Seq<Seq<char>>,
    pub rustc_source_root: Option<Seq<char>>,
}

impl View for RemarkLoadOptions {
    type V = RemarkLoadOptionsV;

    open spec fn view(&self) -> RemarkLoadOptionsV {
        RemarkLoadOptionsV {
            external: self.external,
            source_dir: self.source_dir@,
            filter_kind: self.filter_kind.deep_view(),
            rustc_source_root: self.rustc_source_root.deep_view(),
        }
    }
}

impl DeepView for RemarkLoadOptions {
    type V = RemarkLoadOptionsV;

    open spec fn deep_view(&self) -> RemarkLoadOptionsV {
        self.view()
    }
}

/// A source position as it stands in a decoded document, before the
/// toolchain-root remapping is applied to its file path.
#[derive(Debug, PartialEq)]
pub struct DebugLocation {
    pub file: String,
    pub line: u32,
    pub column: u32,
}

/// Mathematical image of a [`DebugLocation`].
#[verifier::ext_equal]
pub struct DebugLocationV {
    pub file: Seq<char>,
    pub line: u32,
    pub column: u32,
}

impl View for DebugLocation {
    type V = DebugLocationV;

    open spec fn view(&self) -> DebugLocationV {
        DebugLocationV { file: self.file@, line: self.line, column: self.column }
    }
}

impl DeepView for DebugLocation {
    type V = DebugLocationV;

    open spec fn deep_view(&self) -> DebugLocationV {
        self.view()
    }
}

/// One key/value pair of an open-vocabulary argument whose value is a
/// scalar, rendered as text.
#[derive(Debug, PartialEq)]
pub struct OtherEntry {
    pub key: String,
    pub value: String,
}

/// Mathematical image of an [`OtherEntry`].
#[verifier::ext_equal]
pub struct OtherEntryV {
    pub key: Seq<char>,
    pub value: Seq<char>,
}

impl View for OtherEntry {
    type V = OtherEntryV;

    open spec fn view(&self) -> OtherEntryV {
        OtherEntryV { key: self.key@, value: self.value@ }
    }
}

impl DeepView for OtherEntry {
    type V = OtherEntryV;

    open spec fn deep_view(&self) -> OtherEntryV {
        self.view()
    }
}

/// One decoded argument of a remark document, in document order.
///
/// `Text` and `Reason` carry literal message text. `Callee` and `Caller`
/// carry a mangled function name and, when the document gave one, a source
/// position. `Other` carries the scalar entries of an open-vocabulary
/// argument (the location sub-field, when present and well-formed, is
/// split off into `location` and does not appear among the entries).
#[derive(Debug, PartialEq)]
pub enum RemarkArg {
    Text(String),
    Reason(String),
    Callee { name: String, location: Option<DebugLocation> },
    Caller { name: String, location: Option<DebugLocation> },
    Other { entries: Vec<OtherEntry>, location: Option<DebugLocation> },
}

/// Mathematical image of a [`RemarkArg`].
#[verifier::ext_equal]
pub enum RemarkArgV {
    Text(Seq<char>),
    Reason(Seq<char>),
    Callee { name: Seq<char>, location: Option<DebugLocationV> },
    Caller { name: Seq<char>, location: Option<DebugLocationV> },
    Other { entries: Seq<OtherEntryV>, location: Option<DebugLocationV> },
}

impl View for RemarkArg {
    type V = RemarkArgV;

    open spec fn view(&self) -> RemarkArgV {
        match self {
            RemarkArg::Text(s) => RemarkArgV::Text(s@),
            RemarkArg::Reason(s) => RemarkArgV::Reason(s@),
            RemarkArg::Callee { name, location } => RemarkArgV::Callee {
                name: name@,
                location: location.deep_view(),
            },
            RemarkArg::Caller { name, location } => RemarkArgV::Caller {
                name: name@,
                location: location.deep_view(),
            },
            RemarkArg::Other { entries, location } => RemarkArgV::Other {
                entries: entries.deep_view(),
                location: location.deep_view(),
            },
        }
    }
}

impl DeepView for RemarkArg {
    type V = RemarkArgV;

    open spec fn deep_view(&self) -> RemarkArgV {
        self.view()
    }
}

/// The fields of a decoded "Missed" document.
#[derive(Debug, PartialEq)]
pub struct MissedDoc {
    pub pass: String,
    pub name: String,
    pub function: String,
    pub debug_loc: Option<DebugLocation>,
    pub args: Vec<RemarkArg>,
    pub hotness: Option<i32>,
}

/// Mathematical image of a [`MissedDoc`].
#[verifier::ext_equal]
pub struct MissedDocV {
    pub pass: Seq<char>,
    pub name: Seq<char>,
    pub function: Seq<char>,
    pub debug_loc: Option<DebugLocationV>,
    pub args: Seq<RemarkArgV>,
    pub hotness: Option<i32>,
}

impl View for MissedDoc {
    type V = MissedDocV;

    open spec fn view(&self) -> MissedDocV {
        MissedDocV {
            pass: self.pass@,
            name: self.name@,
            function: self.function@,
            debug_loc: self.debug_loc.deep_view(),
            args: self.args.deep_view(),
            hotness: self.hotness,
        }
    }
}

impl DeepView for MissedDoc {
    type V = MissedDocV;

    open spec fn deep_view(&self) -> MissedDocV {
        self.view()
    }
}

/// One decoded document, classified by its tag.
#[derive(Debug, PartialEq)]
pub enum RawDocument {
    Missed(MissedDoc),
    Passed,
    Analysis,
}

/// Mathematical image of a [`RawDocument`].
#[verifier::ext_equal]
pub enum RawDocumentV {
    Missed(MissedDocV),
    Passed,
    Analysis,
}

impl View for RawDocument {
    type V = RawDocumentV;

    open spec fn view(&self) -> RawDocumentV {
        match self {
            RawDocument::Missed(m) => RawDocumentV::Missed(m@),
            RawDocument::Passed => RawDocumentV::Passed,
            RawDocument::Analysis => RawDocumentV::Analysis,
        }
    }
}

impl DeepView for RawDocument {
    type V = RawDocumentV;

    open spec fn deep_view(&self) -> RawDocumentV {
        self.view()
    }
}

} // verus!
