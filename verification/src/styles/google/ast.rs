//! Google-style docstring AST.
use vstd::prelude::*;
use vstd::string::StringSliceAdditionalSpecFns;
use crate::lexical::{lower_seq, name_is};
use crate::text::TextRange;

verus! {

/// Google-style section kinds (a recognised name or group of aliases), or
/// `Unknown`.
#[derive(Debug, Clone, Copy, PartialEq, Eq, Hash)]
pub enum GoogleSectionKind {
    Args,
    KeywordArgs,
    OtherParameters,
    Receives,
    Returns,
    Yields,
    Raises,
    Warns,
    Attributes,
    Methods,
    SeeAlso,
    Notes,
    Examples,
    Todo,
    References,
    Warnings,
    Attention,
    Caution,
    Danger,
    Error,
    Hint,
    Important,
    Tip,
    Unknown,
}

/// The section kind named by the (already lowercased) name bytes `n`.
pub open spec fn google_kind(n: Seq<u8>) -> GoogleSectionKind {
    if n == "args".spec_bytes() || n == "arguments".spec_bytes() || n == "params".spec_bytes() || n
        == "parameters".spec_bytes() {
        GoogleSectionKind::Args
    } else if n == "keyword args".spec_bytes() || n == "keyword arguments".spec_bytes() || n
        == "keyword params".spec_bytes() || n == "keyword parameters".spec_bytes() {
        GoogleSectionKind::KeywordArgs
    } else if n == "other args".spec_bytes() || n == "other arguments".spec_bytes() || n
        == "other params".spec_bytes() || n == "other parameters".spec_bytes() {
        GoogleSectionKind::OtherParameters
    } else if n == "receives".spec_bytes() || n == "receive".spec_bytes() {
        GoogleSectionKind::Receives
    } else if n == "returns".spec_bytes() || n == "return".spec_bytes() {
        GoogleSectionKind::Returns
    } else if n == "yields".spec_bytes() || n == "yield".spec_bytes() {
        GoogleSectionKind::Yields
    } else if n == "raises".spec_bytes() || n == "raise".spec_bytes() {
        GoogleSectionKind::Raises
    } else if n == "warns".spec_bytes() || n == "warn".spec_bytes() {
        GoogleSectionKind::Warns
    } else if n == "see also".spec_bytes() {
        GoogleSectionKind::SeeAlso
    } else if n == "attributes".spec_bytes() || n == "attribute".spec_bytes() {
        GoogleSectionKind::Attributes
    } else if n == "methods".spec_bytes() {
        GoogleSectionKind::Methods
    } else if n == "notes".spec_bytes() || n == "note".spec_bytes() {
        GoogleSectionKind::Notes
    } else if n == "examples".spec_bytes() || n == "example".spec_bytes() {
        GoogleSectionKind::Examples
    } else if n == "todo".spec_bytes() {
        GoogleSectionKind::Todo
    } else if n == "references".spec_bytes() {
        GoogleSectionKind::References
    } else if n == "warnings".spec_bytes() || n == "warning".spec_bytes() {
        GoogleSectionKind::Warnings
    } else if n == "attention".spec_bytes() {
        GoogleSectionKind::Attention
    } else if n == "caution".spec_bytes() {
        GoogleSectionKind::Caution
    } else if n == "danger".spec_bytes() {
        GoogleSectionKind::Danger
    } else if n == "error".spec_bytes() {
        GoogleSectionKind::Error
    } else if n == "hint".spec_bytes() {
        GoogleSectionKind::Hint
    } else if n == "important".spec_bytes() {
        GoogleSectionKind::Important
    } else if n == "tip".spec_bytes() {
        GoogleSectionKind::Tip
    } else {
        GoogleSectionKind::Unknown
    }
}

/// The section kind named by `[s, e)` of `b`, lowercased first when `fold`.
pub fn google_kind_of(b: &[u8], s: usize, e: usize, fold: bool) -> (r: GoogleSectionKind)
    requires
        s <= e <= b@.len(),
    ensures
        fold ==> r == google_kind(lower_seq(b@.subrange(s as int, e as int))),
        !fold ==> r == google_kind(b@.subrange(s as int, e as int)),
{
    if name_is(b, s, e, fold, "args") || name_is(b, s, e, fold, "arguments") || name_is(
        b,
        s,
        e,
        fold,
        "params",
    ) || name_is(b, s, e, fold, "parameters") {
        GoogleSectionKind::Args
    } else if name_is(b, s, e, fold, "keyword args") || name_is(b, s, e, fold, "keyword arguments")
        || name_is(b, s, e, fold, "keyword params") || name_is(
        b,
        s,
        e,
        fold,
        "keyword parameters",
    ) {
        GoogleSectionKind::KeywordArgs
    } else if name_is(b, s, e, fold, "other args") || name_is(b, s, e, fold, "other arguments")
        || name_is(b, s, e, fold, "other params") || name_is(b, s, e, fold, "other parameters") {
        GoogleSectionKind::OtherParameters
    } else if name_is(b, s, e, fold, "receives") || name_is(b, s, e, fold, "receive") {
        GoogleSectionKind::Receives
    } else if name_is(b, s, e, fold, "returns") || name_is(b, s, e, fold, "return") {
        GoogleSectionKind::Returns
    } else if name_is(b, s, e, fold, "yields") || name_is(b, s, e, fold, "yield") {
        GoogleSectionKind::Yields
    } else if name_is(b, s, e, fold, "raises") || name_is(b, s, e, fold, "raise") {
        GoogleSectionKind::Raises
    } else if name_is(b, s, e, fold, "warns") || name_is(b, s, e, fold, "warn") {
        GoogleSectionKind::Warns
    } else if name_is(b, s, e, fold, "see also") {
        GoogleSectionKind::SeeAlso
    } else if name_is(b, s, e, fold, "attributes") || name_is(b, s, e, fold, "attribute") {
        GoogleSectionKind::Attributes
    } else if name_is(b, s, e, fold, "methods") {
        GoogleSectionKind::Methods
    } else if name_is(b, s, e, fold, "notes") || name_is(b, s, e, fold, "note") {
        GoogleSectionKind::Notes
    } else if name_is(b, s, e, fold, "examples") || name_is(b, s, e, fold, "example") {
        GoogleSectionKind::Examples
    } else if name_is(b, s, e, fold, "todo") {
        GoogleSectionKind::Todo
    } else if name_is(b, s, e, fold, "references") {
        GoogleSectionKind::References
    } else if name_is(b, s, e, fold, "warnings") || name_is(b, s, e, fold, "warning") {
        GoogleSectionKind::Warnings
    } else if name_is(b, s, e, fold, "attention") {
        GoogleSectionKind::Attention
    } else if name_is(b, s, e, fold, "caution") {
        GoogleSectionKind::Caution
    } else if name_is(b, s, e, fold, "danger") {
        GoogleSectionKind::Danger
    } else if name_is(b, s, e, fold, "error") {
        GoogleSectionKind::Error
    } else if name_is(b, s, e, fold, "hint") {
        GoogleSectionKind::Hint
    } else if name_is(b, s, e, fold, "important") {
        GoogleSectionKind::Important
    } else if name_is(b, s, e, fold, "tip") {
        GoogleSectionKind::Tip
    } else {
        GoogleSectionKind::Unknown
    }
}

impl GoogleSectionKind {
    /// Convert a **lowercased** section name to its kind (`Unknown` if not
    /// recognised).
    pub fn from_name(name: &str) -> (r: Self)
        ensures
            r == google_kind(name.spec_bytes()),
    {
        let b = name.as_bytes();
        let r = google_kind_of(b, 0, b.len(), false);
        assert(b@.subrange(0, b@.len() as int) =~= b@);
        r
    }

    /// Whether a lowercased name is a known section name.
    pub fn is_known(name: &str) -> (r: bool)
        ensures
            r == (google_kind(name.spec_bytes()) != GoogleSectionKind::Unknown),
    {
        !matches!(Self::from_name(name), GoogleSectionKind::Unknown)
    }

    /// Every known section kind (all but `Unknown`).
    pub fn all() -> (r: Vec<GoogleSectionKind>)
        ensures
            r@ == google_known_kinds(),
    {
        let mut v: Vec<GoogleSectionKind> = Vec::new();
        v.push(GoogleSectionKind::Args);
        v.push(GoogleSectionKind::KeywordArgs);
        v.push(GoogleSectionKind::OtherParameters);
        v.push(GoogleSectionKind::Receives);
        v.push(GoogleSectionKind::Returns);
        v.push(GoogleSectionKind::Yields);
        v.push(GoogleSectionKind::Raises);
        v.push(GoogleSectionKind::Warns);
        v.push(GoogleSectionKind::Attributes);
        v.push(GoogleSectionKind::Methods);
        v.push(GoogleSectionKind::SeeAlso);
        v.push(GoogleSectionKind::Notes);
        v.push(GoogleSectionKind::Examples);
        v.push(GoogleSectionKind::Todo);
        v.push(GoogleSectionKind::References);
        v.push(GoogleSectionKind::Warnings);
        v.push(GoogleSectionKind::Attention);
        v.push(GoogleSectionKind::Caution);
        v.push(GoogleSectionKind::Danger);
        v.push(GoogleSectionKind::Error);
        v.push(GoogleSectionKind::Hint);
        v.push(GoogleSectionKind::Important);
        v.push(GoogleSectionKind::Tip);
        assert(v@ =~= google_known_kinds());
        v
    }

    /// The canonical display name of the kind.
    pub fn display_name(&self) -> (r: &'static str)
        ensures
            r@ == google_kind_display(*self)@,
    {
        match self {
            GoogleSectionKind::Args => "Args",
            GoogleSectionKind::KeywordArgs => "Keyword Args",
            GoogleSectionKind::OtherParameters => "Other Parameters",
            GoogleSectionKind::Receives => "Receives",
            GoogleSectionKind::Returns => "Returns",
            GoogleSectionKind::Yields => "Yields",
            GoogleSectionKind::Raises => "Raises",
            GoogleSectionKind::Warns => "Warns",
            GoogleSectionKind::SeeAlso => "See Also",
            GoogleSectionKind::Attributes => "Attributes",
            GoogleSectionKind::Methods => "Methods",
            GoogleSectionKind::Notes => "Notes",
            GoogleSectionKind::Examples => "Examples",
            GoogleSectionKind::Todo => "Todo",
            GoogleSectionKind::References => "References",
            GoogleSectionKind::Warnings => "Warnings",
            GoogleSectionKind::Attention => "Attention",
            GoogleSectionKind::Caution => "Caution",
            GoogleSectionKind::Danger => "Danger",
            GoogleSectionKind::Error => "Error",
            GoogleSectionKind::Hint => "Hint",
            GoogleSectionKind::Important => "Important",
            GoogleSectionKind::Tip => "Tip",
            GoogleSectionKind::Unknown => "Unknown",
        }
    }
}

/// The known section kinds, in the order of [`GoogleSectionKind::all`].
pub open spec fn google_known_kinds() -> Seq<GoogleSectionKind> {
    seq![
        GoogleSectionKind::Args,
        GoogleSectionKind::KeywordArgs,
        GoogleSectionKind::OtherParameters,
        GoogleSectionKind::Receives,
        GoogleSectionKind::Returns,
        GoogleSectionKind::Yields,
        GoogleSectionKind::Raises,
        GoogleSectionKind::Warns,
        GoogleSectionKind::Attributes,
        GoogleSectionKind::Methods,
        GoogleSectionKind::SeeAlso,
        GoogleSectionKind::Notes,
        GoogleSectionKind::Examples,
        GoogleSectionKind::Todo,
        GoogleSectionKind::References,
        GoogleSectionKind::Warnings,
        GoogleSectionKind::Attention,
        GoogleSectionKind::Caution,
        GoogleSectionKind::Danger,
        GoogleSectionKind::Error,
        GoogleSectionKind::Hint,
        GoogleSectionKind::Important,
        GoogleSectionKind::Tip,
    ]
}

/// Display names of the section kinds.
pub open spec fn google_kind_display(k: GoogleSectionKind) -> &'static str {
    match k {
        GoogleSectionKind::Args => "Args",
        GoogleSectionKind::KeywordArgs => "Keyword Args",
        GoogleSectionKind::OtherParameters => "Other Parameters",
        GoogleSectionKind::Receives => "Receives",
        GoogleSectionKind::Returns => "Returns",
        GoogleSectionKind::Yields => "Yields",
        GoogleSectionKind::Raises => "Raises",
        GoogleSectionKind::Warns => "Warns",
        GoogleSectionKind::SeeAlso => "See Also",
        GoogleSectionKind::Attributes => "Attributes",
        GoogleSectionKind::Methods => "Methods",
        GoogleSectionKind::Notes => "Notes",
        GoogleSectionKind::Examples => "Examples",
        GoogleSectionKind::Todo => "Todo",
        GoogleSectionKind::References => "References",
        GoogleSectionKind::Warnings => "Warnings",
        GoogleSectionKind::Attention => "Attention",
        GoogleSectionKind::Caution => "Caution",
        GoogleSectionKind::Danger => "Danger",
        GoogleSectionKind::Error => "Error",
        GoogleSectionKind::Hint => "Hint",
        GoogleSectionKind::Important => "Important",
        GoogleSectionKind::Tip => "Tip",
        GoogleSectionKind::Unknown => "Unknown",
    }
}


/// A Google-style argument (`name (type, optional): description`).
#[derive(Debug, Clone, Copy, PartialEq, Eq)]
pub struct GoogleArg {
    pub range: TextRange,
    pub name: TextRange,
    pub open_bracket: Option<TextRange>,
    pub ty: Option<TextRange>,
    pub close_bracket: Option<TextRange>,
    pub colon: Option<TextRange>,
    pub description: TextRange,
    pub optional: Option<TextRange>,
}

/// A Google-style return or yield value (`type: description`).
#[derive(Debug, Clone, Copy, PartialEq, Eq)]
pub struct GoogleReturns {
    pub range: TextRange,
    pub return_type: Option<TextRange>,
    pub colon: Option<TextRange>,
    pub description: TextRange,
}

/// A Google-style exception (`Type: description`).
#[derive(Debug, Clone, Copy, PartialEq, Eq)]
pub struct GoogleException {
    pub range: TextRange,
    pub ty: TextRange,
    pub colon: Option<TextRange>,
    pub description: TextRange,
}

/// A Google-style warning from a `Warns` section.
#[derive(Debug, Clone, Copy, PartialEq, Eq)]
pub struct GoogleWarning {
    pub range: TextRange,
    pub warning_type: TextRange,
    pub colon: Option<TextRange>,
    pub description: TextRange,
}

/// A `See Also` item: one or more names and an optional description.
#[derive(Debug, Clone, PartialEq, Eq)]
pub struct GoogleSeeAlsoItem {
    pub range: TextRange,
    pub names: Vec<TextRange>,
    pub colon: Option<TextRange>,
    pub description: Option<TextRange>,
}

/// A Google-style attribute.
#[derive(Debug, Clone, Copy, PartialEq, Eq)]
pub struct GoogleAttribute {
    pub range: TextRange,
    pub name: TextRange,
    pub open_bracket: Option<TextRange>,
    pub ty: Option<TextRange>,
    pub close_bracket: Option<TextRange>,
    pub colon: Option<TextRange>,
    pub description: TextRange,
}

/// A Google-style method entry.
#[derive(Debug, Clone, Copy, PartialEq, Eq)]
pub struct GoogleMethod {
    pub range: TextRange,
    pub name: TextRange,
    pub open_bracket: Option<TextRange>,
    pub ty: Option<TextRange>,
    pub close_bracket: Option<TextRange>,
    pub colon: Option<TextRange>,
    pub description: TextRange,
}

/// Section header (`Args:`): its line, kind, name (without colon) and colon.
#[derive(Debug, Clone, Copy, PartialEq, Eq)]
pub struct GoogleSectionHeader {
    pub range: TextRange,
    pub kind: GoogleSectionKind,
    pub name: TextRange,
    pub colon: Option<TextRange>,
}

/// Body of a Google-style section, by section kind.
#[derive(Debug, Clone, PartialEq, Eq)]
pub enum GoogleSectionBody {
    Args(Vec<GoogleArg>),
    KeywordArgs(Vec<GoogleArg>),
    OtherParameters(Vec<GoogleArg>),
    Receives(Vec<GoogleArg>),
    Returns(GoogleReturns),
    Yields(GoogleReturns),
    Raises(Vec<GoogleException>),
    Warns(Vec<GoogleWarning>),
    SeeAlso(Vec<GoogleSeeAlsoItem>),
    Attributes(Vec<GoogleAttribute>),
    Methods(Vec<GoogleMethod>),
    Notes(TextRange),
    Examples(TextRange),
    Todo(TextRange),
    References(TextRange),
    Warnings(TextRange),
    Attention(TextRange),
    Caution(TextRange),
    Danger(TextRange),
    Error(TextRange),
    Hint(TextRange),
    Important(TextRange),
    Tip(TextRange),
    Unknown(TextRange),
}

/// A section: header plus body, with the range covering both.
#[derive(Debug, Clone, PartialEq, Eq)]
pub struct GoogleSection {
    pub range: TextRange,
    pub header: GoogleSectionHeader,
    pub body: GoogleSectionBody,
}

/// An item after the summary: a section, or a stray non-blank line that is
/// outside any section.
#[derive(Debug, Clone, PartialEq, Eq)]
pub enum GoogleDocstringItem {
    Section(GoogleSection),
    StrayLine(TextRange),
}

/// A parsed Google-style docstring.
#[derive(Debug, Clone, PartialEq, Eq)]
pub struct GoogleDocstring {
    /// Source text of the docstring.
    pub source: String,
    /// Range of the whole docstring.
    pub range: TextRange,
    /// Brief summary (first paragraph).
    pub summary: Option<TextRange>,
    /// Extended summary (text before the first section header).
    pub extended_summary: Option<TextRange>,
    /// Sections and stray lines in document order.
    pub items: Vec<GoogleDocstringItem>,
}

// ---------------------------------------------------------------------------
// Mathematical views
// ---------------------------------------------------------------------------

pub struct GoogleSeeAlsoItemV {
    pub range: TextRange,
    pub names: Seq<TextRange>,
    pub colon: Option<TextRange>,
    pub description: Option<TextRange>,
}

impl View for GoogleSeeAlsoItem {
    type V = GoogleSeeAlsoItemV;

    open spec fn view(&self) -> GoogleSeeAlsoItemV {
        GoogleSeeAlsoItemV {
            range: self.range,
            names: self.names@,
            colon: self.colon,
            description: self.description,
        }
    }
}

pub enum GoogleSectionBodyV {
    Args(Seq<GoogleArg>),
    KeywordArgs(Seq<GoogleArg>),
    OtherParameters(Seq<GoogleArg>),
    Receives(Seq<GoogleArg>),
    Returns(GoogleReturns),
    Yields(GoogleReturns),
    Raises(Seq<GoogleException>),
    Warns(Seq<GoogleWarning>),
    SeeAlso(Seq<GoogleSeeAlsoItemV>),
    Attributes(Seq<GoogleAttribute>),
    Methods(Seq<GoogleMethod>),
    Notes(TextRange),
    Examples(TextRange),
    Todo(TextRange),
    References(TextRange),
    Warnings(TextRange),
    Attention(TextRange),
    Caution(TextRange),
    Danger(TextRange),
    Error(TextRange),
    Hint(TextRange),
    Important(TextRange),
    Tip(TextRange),
    Unknown(TextRange),
}

impl View for GoogleSectionBody {
    type V = GoogleSectionBodyV;

    open spec fn view(&self) -> GoogleSectionBodyV {
        match self {
            GoogleSectionBody::Args(v) => GoogleSectionBodyV::Args(v@),
            GoogleSectionBody::KeywordArgs(v) => GoogleSectionBodyV::KeywordArgs(v@),
            GoogleSectionBody::OtherParameters(v) => GoogleSectionBodyV::OtherParameters(v@),
            GoogleSectionBody::Receives(v) => GoogleSectionBodyV::Receives(v@),
            GoogleSectionBody::Returns(r) => GoogleSectionBodyV::Returns(*r),
            GoogleSectionBody::Yields(r) => GoogleSectionBodyV::Yields(*r),
            GoogleSectionBody::Raises(v) => GoogleSectionBodyV::Raises(v@),
            GoogleSectionBody::Warns(v) => GoogleSectionBodyV::Warns(v@),
            GoogleSectionBody::SeeAlso(v) => GoogleSectionBodyV::SeeAlso(v@.map_values(|i: GoogleSeeAlsoItem| i@)),
            GoogleSectionBody::Attributes(v) => GoogleSectionBodyV::Attributes(v@),
            GoogleSectionBody::Methods(v) => GoogleSectionBodyV::Methods(v@),
            GoogleSectionBody::Notes(r) => GoogleSectionBodyV::Notes(*r),
            GoogleSectionBody::Examples(r) => GoogleSectionBodyV::Examples(*r),
            GoogleSectionBody::Todo(r) => GoogleSectionBodyV::Todo(*r),
            GoogleSectionBody::References(r) => GoogleSectionBodyV::References(*r),
            GoogleSectionBody::Warnings(r) => GoogleSectionBodyV::Warnings(*r),
            GoogleSectionBody::Attention(r) => GoogleSectionBodyV::Attention(*r),
            GoogleSectionBody::Caution(r) => GoogleSectionBodyV::Caution(*r),
            GoogleSectionBody::Danger(r) => GoogleSectionBodyV::Danger(*r),
            GoogleSectionBody::Error(r) => GoogleSectionBodyV::Error(*r),
            GoogleSectionBody::Hint(r) => GoogleSectionBodyV::Hint(*r),
            GoogleSectionBody::Important(r) => GoogleSectionBodyV::Important(*r),
            GoogleSectionBody::Tip(r) => GoogleSectionBodyV::Tip(*r),
            GoogleSectionBody::Unknown(r) => GoogleSectionBodyV::Unknown(*r),
        }
    }
}

pub struct GoogleSectionV {
    pub range: TextRange,
    pub header: GoogleSectionHeader,
    pub body: GoogleSectionBodyV,
}

impl View for GoogleSection {
    type V = GoogleSectionV;

    open spec fn view(&self) -> GoogleSectionV {
        GoogleSectionV { range: self.range, header: self.header, body: self.body@ }
    }
}

pub enum GoogleDocstringItemV {
    Section(GoogleSectionV),
    StrayLine(TextRange),
}

impl View for GoogleDocstringItem {
    type V = GoogleDocstringItemV;

    open spec fn view(&self) -> GoogleDocstringItemV {
        match self {
            GoogleDocstringItem::Section(s) => GoogleDocstringItemV::Section(s@),
            GoogleDocstringItem::StrayLine(r) => GoogleDocstringItemV::StrayLine(*r),
        }
    }
}

pub struct GoogleDocstringV {
    pub source: Seq<char>,
    pub range: TextRange,
    pub summary: Option<TextRange>,
    pub extended_summary: Option<TextRange>,
    pub items: Seq<GoogleDocstringItemV>,
}

impl View for GoogleDocstring {
    type V = GoogleDocstringV;

    open spec fn view(&self) -> GoogleDocstringV {
        GoogleDocstringV {
            source: self.source@,
            range: self.range,
            summary: self.summary,
            extended_summary: self.extended_summary,
            items: self.items@.map_values(|i: GoogleDocstringItem| i@),
        }
    }
}

/// The empty `GoogleReturns` a Returns/Yields section starts with.
pub open spec fn empty_returns() -> GoogleReturns {
    GoogleReturns {
        range: TextRange::spec_empty(),
        return_type: None,
        colon: None,
        description: TextRange::spec_empty(),
    }
}

/// The empty body a section of kind `k` starts with.
pub open spec fn empty_body(k: GoogleSectionKind) -> GoogleSectionBodyV {
    match k {
        GoogleSectionKind::Args => GoogleSectionBodyV::Args(seq![]),
        GoogleSectionKind::KeywordArgs => GoogleSectionBodyV::KeywordArgs(seq![]),
        GoogleSectionKind::OtherParameters => GoogleSectionBodyV::OtherParameters(seq![]),
        GoogleSectionKind::Receives => GoogleSectionBodyV::Receives(seq![]),
        GoogleSectionKind::Returns => GoogleSectionBodyV::Returns(empty_returns()),
        GoogleSectionKind::Yields => GoogleSectionBodyV::Yields(empty_returns()),
        GoogleSectionKind::Raises => GoogleSectionBodyV::Raises(seq![]),
        GoogleSectionKind::Warns => GoogleSectionBodyV::Warns(seq![]),
        GoogleSectionKind::SeeAlso => GoogleSectionBodyV::SeeAlso(seq![]),
        GoogleSectionKind::Attributes => GoogleSectionBodyV::Attributes(seq![]),
        GoogleSectionKind::Methods => GoogleSectionBodyV::Methods(seq![]),
        GoogleSectionKind::Notes => GoogleSectionBodyV::Notes(TextRange::spec_empty()),
        GoogleSectionKind::Examples => GoogleSectionBodyV::Examples(TextRange::spec_empty()),
        GoogleSectionKind::Todo => GoogleSectionBodyV::Todo(TextRange::spec_empty()),
        GoogleSectionKind::References => GoogleSectionBodyV::References(TextRange::spec_empty()),
        GoogleSectionKind::Warnings => GoogleSectionBodyV::Warnings(TextRange::spec_empty()),
        GoogleSectionKind::Attention => GoogleSectionBodyV::Attention(TextRange::spec_empty()),
        GoogleSectionKind::Caution => GoogleSectionBodyV::Caution(TextRange::spec_empty()),
        GoogleSectionKind::Danger => GoogleSectionBodyV::Danger(TextRange::spec_empty()),
        GoogleSectionKind::Error => GoogleSectionBodyV::Error(TextRange::spec_empty()),
        GoogleSectionKind::Hint => GoogleSectionBodyV::Hint(TextRange::spec_empty()),
        GoogleSectionKind::Important => GoogleSectionBodyV::Important(TextRange::spec_empty()),
        GoogleSectionKind::Tip => GoogleSectionBodyV::Tip(TextRange::spec_empty()),
        GoogleSectionKind::Unknown => GoogleSectionBodyV::Unknown(TextRange::spec_empty()),
    }
}

impl GoogleSectionBody {
    /// The empty body for a section of kind `kind`.
    pub fn new(kind: GoogleSectionKind) -> (r: Self)
        ensures
            r@ == empty_body(kind),
    {
        let e = TextRange::empty();
        let er = GoogleReturns { range: e, return_type: None, colon: None, description: e };
        let r = match kind {
            GoogleSectionKind::Args => GoogleSectionBody::Args(Vec::new()),
            GoogleSectionKind::KeywordArgs => GoogleSectionBody::KeywordArgs(Vec::new()),
            GoogleSectionKind::OtherParameters => GoogleSectionBody::OtherParameters(Vec::new()),
            GoogleSectionKind::Receives => GoogleSectionBody::Receives(Vec::new()),
            GoogleSectionKind::Returns => GoogleSectionBody::Returns(er),
            GoogleSectionKind::Yields => GoogleSectionBody::Yields(er),
            GoogleSectionKind::Raises => GoogleSectionBody::Raises(Vec::new()),
            GoogleSectionKind::Warns => GoogleSectionBody::Warns(Vec::new()),
            GoogleSectionKind::SeeAlso => GoogleSectionBody::SeeAlso(Vec::new()),
            GoogleSectionKind::Attributes => GoogleSectionBody::Attributes(Vec::new()),
            GoogleSectionKind::Methods => GoogleSectionBody::Methods(Vec::new()),
            GoogleSectionKind::Notes => GoogleSectionBody::Notes(e),
            GoogleSectionKind::Examples => GoogleSectionBody::Examples(e),
            GoogleSectionKind::Todo => GoogleSectionBody::Todo(e),
            GoogleSectionKind::References => GoogleSectionBody::References(e),
            GoogleSectionKind::Warnings => GoogleSectionBody::Warnings(e),
            GoogleSectionKind::Attention => GoogleSectionBody::Attention(e),
            GoogleSectionKind::Caution => GoogleSectionBody::Caution(e),
            GoogleSectionKind::Danger => GoogleSectionBody::Danger(e),
            GoogleSectionKind::Error => GoogleSectionBody::Error(e),
            GoogleSectionKind::Hint => GoogleSectionBody::Hint(e),
            GoogleSectionKind::Important => GoogleSectionBody::Important(e),
            GoogleSectionKind::Tip => GoogleSectionBody::Tip(e),
            GoogleSectionKind::Unknown => GoogleSectionBody::Unknown(e),
        };
        proof {
            if let GoogleSectionBody::SeeAlso(v) = &r {
                assert(v@.map_values(|i: GoogleSeeAlsoItem| i@) =~= seq![]);
            }
        }
        r
    }
}

impl GoogleDocstring {
    /// A docstring over `input` with no summary and no items.
    pub fn new(input: &str) -> (r: Self)
        ensures
            r@.source == input@,
            r@.range == TextRange::spec_empty(),
            r@.summary is None,
            r@.extended_summary is None,
            r@.items.len() == 0,
    {
        GoogleDocstring {
            source: input.to_owned(),
            range: TextRange::empty(),
            summary: None,
            extended_summary: None,
            items: Vec::new(),
        }
    }
}

/// Law: the display name of every section kind, lowercased, is a name that
/// `from_name` maps back to that kind.
pub proof fn law_google_kind_name_round_trip(k: GoogleSectionKind)
    ensures
        google_kind(lower_seq(google_kind_display(k).spec_bytes())) == k,
{
    broadcast use vstd::string::is_ascii_spec_bytes;
    reveal_strlit("args");
    assert(vstd::string::is_ascii("args"));
    reveal_strlit("arguments");
    assert(vstd::string::is_ascii("arguments"));
    reveal_strlit("params");
    assert(vstd::string::is_ascii("params"));
    reveal_strlit("parameters");
    assert(vstd::string::is_ascii("parameters"));
    reveal_strlit("keyword args");
    assert(vstd::string::is_ascii("keyword args"));
    reveal_strlit("keyword arguments");
    assert(vstd::string::is_ascii("keyword arguments"));
    reveal_strlit("keyword params");
    assert(vstd::string::is_ascii("keyword params"));
    reveal_strlit("keyword parameters");
    assert(vstd::string::is_ascii("keyword parameters"));
    reveal_strlit("other args");
    assert(vstd::string::is_ascii("other args"));
    reveal_strlit("other arguments");
    assert(vstd::string::is_ascii("other arguments"));
    reveal_strlit("other params");
    assert(vstd::string::is_ascii("other params"));
    reveal_strlit("other parameters");
    assert(vstd::string::is_ascii("other parameters"));
    reveal_strlit("receives");
    assert(vstd::string::is_ascii("receives"));
    reveal_strlit("receive");
    assert(vstd::string::is_ascii("receive"));
    reveal_strlit("returns");
    assert(vstd::string::is_ascii("returns"));
    reveal_strlit("return");
    assert(vstd::string::is_ascii("return"));
    reveal_strlit("yields");
    assert(vstd::string::is_ascii("yields"));
    reveal_strlit("yield");
    assert(vstd::string::is_ascii("yield"));
    reveal_strlit("raises");
    assert(vstd::string::is_ascii("raises"));
    reveal_strlit("raise");
    assert(vstd::string::is_ascii("raise"));
    reveal_strlit("warns");
    assert(vstd::string::is_ascii("warns"));
    reveal_strlit("warn");
    assert(vstd::string::is_ascii("warn"));
    reveal_strlit("see also");
    assert(vstd::string::is_ascii("see also"));
    reveal_strlit("attributes");
    assert(vstd::string::is_ascii("attributes"));
    reveal_strlit("attribute");
    assert(vstd::string::is_ascii("attribute"));
    reveal_strlit("methods");
    assert(vstd::string::is_ascii("methods"));
    reveal_strlit("notes");
    assert(vstd::string::is_ascii("notes"));
    reveal_strlit("note");
    assert(vstd::string::is_ascii("note"));
    reveal_strlit("examples");
    assert(vstd::string::is_ascii("examples"));
    reveal_strlit("example");
    assert(vstd::string::is_ascii("example"));
    reveal_strlit("todo");
    assert(vstd::string::is_ascii("todo"));
    reveal_strlit("references");
    assert(vstd::string::is_ascii("references"));
    reveal_strlit("warnings");
    assert(vstd::string::is_ascii("warnings"));
    reveal_strlit("warning");
    assert(vstd::string::is_ascii("warning"));
    reveal_strlit("attention");
    assert(vstd::string::is_ascii("attention"));
    reveal_strlit("caution");
    assert(vstd::string::is_ascii("caution"));
    reveal_strlit("danger");
    assert(vstd::string::is_ascii("danger"));
    reveal_strlit("error");
    assert(vstd::string::is_ascii("error"));
    reveal_strlit("hint");
    assert(vstd::string::is_ascii("hint"));
    reveal_strlit("important");
    assert(vstd::string::is_ascii("important"));
    reveal_strlit("tip");
    assert(vstd::string::is_ascii("tip"));
    match k {
        GoogleSectionKind::Args => {
            reveal_strlit("Args");
            reveal_strlit("args");
            assert(vstd::string::is_ascii("Args"));
            assert(vstd::string::is_ascii("args"));
            let n = lower_seq("Args".spec_bytes());
            assert(n =~= "args".spec_bytes());
            assert(n[0] == 97 && n[1] == 114 && n[2] == 103);
        },
        GoogleSectionKind::KeywordArgs => {
            reveal_strlit("Keyword Args");
            reveal_strlit("keyword args");
            assert(vstd::string::is_ascii("Keyword Args"));
            assert(vstd::string::is_ascii("keyword args"));
            let n = lower_seq("Keyword Args".spec_bytes());
            assert(n =~= "keyword args".spec_bytes());
            assert(n[0] == 107 && n[1] == 101 && n[2] == 121);
        },
        GoogleSectionKind::OtherParameters => {
            reveal_strlit("Other Parameters");
            reveal_strlit("other parameters");
            assert(vstd::string::is_ascii("Other Parameters"));
            assert(vstd::string::is_ascii("other parameters"));
            let n = lower_seq("Other Parameters".spec_bytes());
            assert(n =~= "other parameters".spec_bytes());
            assert(n[0] == 111 && n[1] == 116 && n[2] == 104);
        },
        GoogleSectionKind::Receives => {
            reveal_strlit("Receives");
            reveal_strlit("receives");
            assert(vstd::string::is_ascii("Receives"));
            assert(vstd::string::is_ascii("receives"));
            let n = lower_seq("Receives".spec_bytes());
            assert(n =~= "receives".spec_bytes());
            assert(n[0] == 114 && n[1] == 101 && n[2] == 99);
        },
        GoogleSectionKind::Returns => {
            reveal_strlit("Returns");
            reveal_strlit("returns");
            assert(vstd::string::is_ascii("Returns"));
            assert(vstd::string::is_ascii("returns"));
            let n = lower_seq("Returns".spec_bytes());
            assert(n =~= "returns".spec_bytes());
            assert(n[0] == 114 && n[1] == 101 && n[2] == 116);
        },
        GoogleSectionKind::Yields => {
            reveal_strlit("Yields");
            reveal_strlit("yields");
            assert(vstd::string::is_ascii("Yields"));
            assert(vstd::string::is_ascii("yields"));
            let n = lower_seq("Yields".spec_bytes());
            assert(n =~= "yields".spec_bytes());
            assert(n[0] == 121 && n[1] == 105 && n[2] == 101);
        },
        GoogleSectionKind::Raises => {
            reveal_strlit("Raises");
            reveal_strlit("raises");
            assert(vstd::string::is_ascii("Raises"));
            assert(vstd::string::is_ascii("raises"));
            let n = lower_seq("Raises".spec_bytes());
            assert(n =~= "raises".spec_bytes());
            assert(n[0] == 114 && n[1] == 97 && n[2] == 105);
        },
        GoogleSectionKind::Warns => {
            reveal_strlit("Warns");
            reveal_strlit("warns");
            assert(vstd::string::is_ascii("Warns"));
            assert(vstd::string::is_ascii("warns"));
            let n = lower_seq("Warns".spec_bytes());
            assert(n =~= "warns".spec_bytes());
            assert(n[0] == 119 && n[1] == 97 && n[2] == 114);
        },
        GoogleSectionKind::SeeAlso => {
            reveal_strlit("See Also");
            reveal_strlit("see also");
            assert(vstd::string::is_ascii("See Also"));
            assert(vstd::string::is_ascii("see also"));
            let n = lower_seq("See Also".spec_bytes());
            assert(n =~= "see also".spec_bytes());
            assert(n[0] == 115 && n[1] == 101 && n[2] == 101);
        },
        GoogleSectionKind::Attributes => {
            reveal_strlit("Attributes");
            reveal_strlit("attributes");
            assert(vstd::string::is_ascii("Attributes"));
            assert(vstd::string::is_ascii("attributes"));
            let n = lower_seq("Attributes".spec_bytes());
            assert(n =~= "attributes".spec_bytes());
            assert(n[0] == 97 && n[1] == 116 && n[2] == 116);
        },
        GoogleSectionKind::Methods => {
            reveal_strlit("Methods");
            reveal_strlit("methods");
            assert(vstd::string::is_ascii("Methods"));
            assert(vstd::string::is_ascii("methods"));
            let n = lower_seq("Methods".spec_bytes());
            assert(n =~= "methods".spec_bytes());
            assert(n[0] == 109 && n[1] == 101 && n[2] == 116);
        },
        GoogleSectionKind::Notes => {
            reveal_strlit("Notes");
            reveal_strlit("notes");
            assert(vstd::string::is_ascii("Notes"));
            assert(vstd::string::is_ascii("notes"));
            let n = lower_seq("Notes".spec_bytes());
            assert(n =~= "notes".spec_bytes());
            assert(n[0] == 110 && n[1] == 111 && n[2] == 116);
        },
        GoogleSectionKind::Examples => {
            reveal_strlit("Examples");
            reveal_strlit("examples");
            assert(vstd::string::is_ascii("Examples"));
            assert(vstd::string::is_ascii("examples"));
            let n = lower_seq("Examples".spec_bytes());
            assert(n =~= "examples".spec_bytes());
            assert(n[0] == 101 && n[1] == 120 && n[2] == 97);
        },
        GoogleSectionKind::Todo => {
            reveal_strlit("Todo");
            reveal_strlit("todo");
            assert(vstd::string::is_ascii("Todo"));
            assert(vstd::string::is_ascii("todo"));
            let n = lower_seq("Todo".spec_bytes());
            assert(n =~= "todo".spec_bytes());
            assert(n[0] == 116 && n[1] == 111 && n[2] == 100);
        },
        GoogleSectionKind::References => {
            reveal_strlit("References");
            reveal_strlit("references");
            assert(vstd::string::is_ascii("References"));
            assert(vstd::string::is_ascii("references"));
            let n = lower_seq("References".spec_bytes());
            assert(n =~= "references".spec_bytes());
            assert(n[0] == 114 && n[1] == 101 && n[2] == 102);
        },
        GoogleSectionKind::Warnings => {
            reveal_strlit("Warnings");
            reveal_strlit("warnings");
            assert(vstd::string::is_ascii("Warnings"));
            assert(vstd::string::is_ascii("warnings"));
            let n = lower_seq("Warnings".spec_bytes());
            assert(n =~= "warnings".spec_bytes());
            assert(n[0] == 119 && n[1] == 97 && n[2] == 114);
        },
        GoogleSectionKind::Attention => {
            reveal_strlit("Attention");
            reveal_strlit("attention");
            assert(vstd::string::is_ascii("Attention"));
            assert(vstd::string::is_ascii("attention"));
            let n = lower_seq("Attention".spec_bytes());
            assert(n =~= "attention".spec_bytes());
            assert(n[0] == 97 && n[1] == 116 && n[2] == 116 && n[3] == 101);
        },
        GoogleSectionKind::Caution => {
            reveal_strlit("Caution");
            reveal_strlit("caution");
            assert(vstd::string::is_ascii("Caution"));
            assert(vstd::string::is_ascii("caution"));
            let n = lower_seq("Caution".spec_bytes());
            assert(n =~= "caution".spec_bytes());
            assert(n[0] == 99 && n[1] == 97 && n[2] == 117);
        },
        GoogleSectionKind::Danger => {
            reveal_strlit("Danger");
            reveal_strlit("danger");
            assert(vstd::string::is_ascii("Danger"));
            assert(vstd::string::is_ascii("danger"));
            let n = lower_seq("Danger".spec_bytes());
            assert(n =~= "danger".spec_bytes());
            assert(n[0] == 100 && n[1] == 97 && n[2] == 110);
        },
        GoogleSectionKind::Error => {
            reveal_strlit("Error");
            reveal_strlit("error");
            assert(vstd::string::is_ascii("Error"));
            assert(vstd::string::is_ascii("error"));
            let n = lower_seq("Error".spec_bytes());
            assert(n =~= "error".spec_bytes());
            assert(n[0] == 101 && n[1] == 114 && n[2] == 114);
        },
        GoogleSectionKind::Hint => {
            reveal_strlit("Hint");
            reveal_strlit("hint");
            assert(vstd::string::is_ascii("Hint"));
            assert(vstd::string::is_ascii("hint"));
            let n = lower_seq("Hint".spec_bytes());
            assert(n =~= "hint".spec_bytes());
            assert(n[0] == 104 && n[1] == 105 && n[2] == 110);
        },
        GoogleSectionKind::Important => {
            reveal_strlit("Important");
            reveal_strlit("important");
            assert(vstd::string::is_ascii("Important"));
            assert(vstd::string::is_ascii("important"));
            let n = lower_seq("Important".spec_bytes());
            assert(n =~= "important".spec_bytes());
            assert(n[0] == 105 && n[1] == 109 && n[2] == 112);
        },
        GoogleSectionKind::Tip => {
            reveal_strlit("Tip");
            reveal_strlit("tip");
            assert(vstd::string::is_ascii("Tip"));
            assert(vstd::string::is_ascii("tip"));
            let n = lower_seq("Tip".spec_bytes());
            assert(n =~= "tip".spec_bytes());
            assert(n[0] == 116 && n[1] == 105 && n[2] == 112);
        },
        GoogleSectionKind::Unknown => {
            reveal_strlit("Unknown");
            reveal_strlit("unknown");
            assert(vstd::string::is_ascii("Unknown"));
            assert(vstd::string::is_ascii("unknown"));
            let n = lower_seq("Unknown".spec_bytes());
            assert(n =~= "unknown".spec_bytes());
            assert(n[0] == 117 && n[1] == 110 && n[2] == 107);
        },
    }
}

/// The number of Google-style section names.
pub open spec fn google_section_name_count() -> int {
    41
}

/// The Google-style section name `i` (lowercased), with the kind it names.
pub open spec fn google_section_name(i: int) -> (Seq<u8>, GoogleSectionKind) {
    if i == 0 {
        ("args".spec_bytes(), GoogleSectionKind::Args)
    } else if i == 1 {
        ("arguments".spec_bytes(), GoogleSectionKind::Args)
    } else if i == 2 {
        ("params".spec_bytes(), GoogleSectionKind::Args)
    } else if i == 3 {
        ("parameters".spec_bytes(), GoogleSectionKind::Args)
    } else if i == 4 {
        ("keyword args".spec_bytes(), GoogleSectionKind::KeywordArgs)
    } else if i == 5 {
        ("keyword arguments".spec_bytes(), GoogleSectionKind::KeywordArgs)
    } else if i == 6 {
        ("keyword params".spec_bytes(), GoogleSectionKind::KeywordArgs)
    } else if i == 7 {
        ("keyword parameters".spec_bytes(), GoogleSectionKind::KeywordArgs)
    } else if i == 8 {
        ("other args".spec_bytes(), GoogleSectionKind::OtherParameters)
    } else if i == 9 {
        ("other arguments".spec_bytes(), GoogleSectionKind::OtherParameters)
    } else if i == 10 {
        ("other params".spec_bytes(), GoogleSectionKind::OtherParameters)
    } else if i == 11 {
        ("other parameters".spec_bytes(), GoogleSectionKind::OtherParameters)
    } else if i == 12 {
        ("receives".spec_bytes(), GoogleSectionKind::Receives)
    } else if i == 13 {
        ("receive".spec_bytes(), GoogleSectionKind::Receives)
    } else if i == 14 {
        ("returns".spec_bytes(), GoogleSectionKind::Returns)
    } else if i == 15 {
        ("return".spec_bytes(), GoogleSectionKind::Returns)
    } else if i == 16 {
        ("yields".spec_bytes(), GoogleSectionKind::Yields)
    } else if i == 17 {
        ("yield".spec_bytes(), GoogleSectionKind::Yields)
    } else if i == 18 {
        ("raises".spec_bytes(), GoogleSectionKind::Raises)
    } else if i == 19 {
        ("raise".spec_bytes(), GoogleSectionKind::Raises)
    } else if i == 20 {
        ("warns".spec_bytes(), GoogleSectionKind::Warns)
    } else if i == 21 {
        ("warn".spec_bytes(), GoogleSectionKind::Warns)
    } else if i == 22 {
        ("see also".spec_bytes(), GoogleSectionKind::SeeAlso)
    } else if i == 23 {
        ("attributes".spec_bytes(), GoogleSectionKind::Attributes)
    } else if i == 24 {
        ("attribute".spec_bytes(), GoogleSectionKind::Attributes)
    } else if i == 25 {
        ("methods".spec_bytes(), GoogleSectionKind::Methods)
    } else if i == 26 {
        ("notes".spec_bytes(), GoogleSectionKind::Notes)
    } else if i == 27 {
        ("note".spec_bytes(), GoogleSectionKind::Notes)
    } else if i == 28 {
        ("examples".spec_bytes(), GoogleSectionKind::Examples)
    } else if i == 29 {
        ("example".spec_bytes(), GoogleSectionKind::Examples)
    } else if i == 30 {
        ("todo".spec_bytes(), GoogleSectionKind::Todo)
    } else if i == 31 {
        ("references".spec_bytes(), GoogleSectionKind::References)
    } else if i == 32 {
        ("warnings".spec_bytes(), GoogleSectionKind::Warnings)
    } else if i == 33 {
        ("warning".spec_bytes(), GoogleSectionKind::Warnings)
    } else if i == 34 {
        ("attention".spec_bytes(), GoogleSectionKind::Attention)
    } else if i == 35 {
        ("caution".spec_bytes(), GoogleSectionKind::Caution)
    } else if i == 36 {
        ("danger".spec_bytes(), GoogleSectionKind::Danger)
    } else if i == 37 {
        ("error".spec_bytes(), GoogleSectionKind::Error)
    } else if i == 38 {
        ("hint".spec_bytes(), GoogleSectionKind::Hint)
    } else if i == 39 {
        ("important".spec_bytes(), GoogleSectionKind::Important)
    } else if i == 40 {
        ("tip".spec_bytes(), GoogleSectionKind::Tip)
    } else {
        (Seq::empty(), GoogleSectionKind::Unknown)
    }
}

/// Names 0 to 3 of the Google-style name table name their kinds.
proof fn lemma_google_section_names_0()
    ensures
        google_kind("args".spec_bytes()) == GoogleSectionKind::Args,
        google_kind("arguments".spec_bytes()) == GoogleSectionKind::Args,
        google_kind("params".spec_bytes()) == GoogleSectionKind::Args,
        google_kind("parameters".spec_bytes()) == GoogleSectionKind::Args,
{
    broadcast use vstd::string::is_ascii_spec_bytes;
    reveal_strlit("args");
    assert(vstd::string::is_ascii("args"));
    reveal_strlit("arguments");
    assert(vstd::string::is_ascii("arguments"));
    reveal_strlit("params");
    assert(vstd::string::is_ascii("params"));
    reveal_strlit("parameters");
    assert(vstd::string::is_ascii("parameters"));
    reveal_strlit("keyword args");
    assert(vstd::string::is_ascii("keyword args"));
    reveal_strlit("keyword arguments");
    assert(vstd::string::is_ascii("keyword arguments"));
    reveal_strlit("keyword params");
    assert(vstd::string::is_ascii("keyword params"));
    reveal_strlit("keyword parameters");
    assert(vstd::string::is_ascii("keyword parameters"));
    reveal_strlit("other args");
    assert(vstd::string::is_ascii("other args"));
    reveal_strlit("other arguments");
    assert(vstd::string::is_ascii("other arguments"));
    reveal_strlit("other params");
    assert(vstd::string::is_ascii("other params"));
    reveal_strlit("other parameters");
    assert(vstd::string::is_ascii("other parameters"));
    reveal_strlit("receives");
    assert(vstd::string::is_ascii("receives"));
    reveal_strlit("receive");
    assert(vstd::string::is_ascii("receive"));
    reveal_strlit("returns");
    assert(vstd::string::is_ascii("returns"));
    reveal_strlit("return");
    assert(vstd::string::is_ascii("return"));
    reveal_strlit("yields");
    assert(vstd::string::is_ascii("yields"));
    reveal_strlit("yield");
    assert(vstd::string::is_ascii("yield"));
    reveal_strlit("raises");
    assert(vstd::string::is_ascii("raises"));
    reveal_strlit("raise");
    assert(vstd::string::is_ascii("raise"));
    reveal_strlit("warns");
    assert(vstd::string::is_ascii("warns"));
    reveal_strlit("warn");
    assert(vstd::string::is_ascii("warn"));
    reveal_strlit("see also");
    assert(vstd::string::is_ascii("see also"));
    reveal_strlit("attributes");
    assert(vstd::string::is_ascii("attributes"));
    reveal_strlit("attribute");
    assert(vstd::string::is_ascii("attribute"));
    reveal_strlit("methods");
    assert(vstd::string::is_ascii("methods"));
    reveal_strlit("notes");
    assert(vstd::string::is_ascii("notes"));
    reveal_strlit("note");
    assert(vstd::string::is_ascii("note"));
    reveal_strlit("examples");
    assert(vstd::string::is_ascii("examples"));
    reveal_strlit("example");
    assert(vstd::string::is_ascii("example"));
    reveal_strlit("todo");
    assert(vstd::string::is_ascii("todo"));
    reveal_strlit("references");
    assert(vstd::string::is_ascii("references"));
    reveal_strlit("warnings");
    assert(vstd::string::is_ascii("warnings"));
    reveal_strlit("warning");
    assert(vstd::string::is_ascii("warning"));
    reveal_strlit("attention");
    assert(vstd::string::is_ascii("attention"));
    reveal_strlit("caution");
    assert(vstd::string::is_ascii("caution"));
    reveal_strlit("danger");
    assert(vstd::string::is_ascii("danger"));
    reveal_strlit("error");
    assert(vstd::string::is_ascii("error"));
    reveal_strlit("hint");
    assert(vstd::string::is_ascii("hint"));
    reveal_strlit("important");
    assert(vstd::string::is_ascii("important"));
    reveal_strlit("tip");
    assert(vstd::string::is_ascii("tip"));
    assert(google_kind("args".spec_bytes()) == GoogleSectionKind::Args) by {
        let n = "args".spec_bytes();
        assert(n[0] == 97 && n[1] == 114 && n[2] == 103 && n[3] == 115);
    }
    assert(google_kind("arguments".spec_bytes()) == GoogleSectionKind::Args) by {
        let n = "arguments".spec_bytes();
        assert(n[0] == 97 && n[1] == 114 && n[2] == 103 && n[3] == 117 && n[4] == 109);
    }
    assert(google_kind("params".spec_bytes()) == GoogleSectionKind::Args) by {
        let n = "params".spec_bytes();
        assert(n[0] == 112 && n[1] == 97 && n[2] == 114 && n[3] == 97 && n[4] == 109);
    }
    assert(google_kind("parameters".spec_bytes()) == GoogleSectionKind::Args) by {
        let n = "parameters".spec_bytes();
        assert(n[0] == 112 && n[1] == 97 && n[2] == 114 && n[3] == 97 && n[4] == 109);
    }
}

/// Names 4 to 7 of the Google-style name table name their kinds.
proof fn lemma_google_section_names_1()
    ensures
        google_kind("keyword args".spec_bytes()) == GoogleSectionKind::KeywordArgs,
        google_kind("keyword arguments".spec_bytes()) == GoogleSectionKind::KeywordArgs,
        google_kind("keyword params".spec_bytes()) == GoogleSectionKind::KeywordArgs,
        google_kind("keyword parameters".spec_bytes()) == GoogleSectionKind::KeywordArgs,
{
    broadcast use vstd::string::is_ascii_spec_bytes;
    reveal_strlit("args");
    assert(vstd::string::is_ascii("args"));
    reveal_strlit("arguments");
    assert(vstd::string::is_ascii("arguments"));
    reveal_strlit("params");
    assert(vstd::string::is_ascii("params"));
    reveal_strlit("parameters");
    assert(vstd::string::is_ascii("parameters"));
    reveal_strlit("keyword args");
    assert(vstd::string::is_ascii("keyword args"));
    reveal_strlit("keyword arguments");
    assert(vstd::string::is_ascii("keyword arguments"));
    reveal_strlit("keyword params");
    assert(vstd::string::is_ascii("keyword params"));
    reveal_strlit("keyword parameters");
    assert(vstd::string::is_ascii("keyword parameters"));
    reveal_strlit("other args");
    assert(vstd::string::is_ascii("other args"));
    reveal_strlit("other arguments");
    assert(vstd::string::is_ascii("other arguments"));
    reveal_strlit("other params");
    assert(vstd::string::is_ascii("other params"));
    reveal_strlit("other parameters");
    assert(vstd::string::is_ascii("other parameters"));
    reveal_strlit("receives");
    assert(vstd::string::is_ascii("receives"));
    reveal_strlit("receive");
    assert(vstd::string::is_ascii("receive"));
    reveal_strlit("returns");
    assert(vstd::string::is_ascii("returns"));
    reveal_strlit("return");
    assert(vstd::string::is_ascii("return"));
    reveal_strlit("yields");
    assert(vstd::string::is_ascii("yields"));
    reveal_strlit("yield");
    assert(vstd::string::is_ascii("yield"));
    reveal_strlit("raises");
    assert(vstd::string::is_ascii("raises"));
    reveal_strlit("raise");
    assert(vstd::string::is_ascii("raise"));
    reveal_strlit("warns");
    assert(vstd::string::is_ascii("warns"));
    reveal_strlit("warn");
    assert(vstd::string::is_ascii("warn"));
    reveal_strlit("see also");
    assert(vstd::string::is_ascii("see also"));
    reveal_strlit("attributes");
    assert(vstd::string::is_ascii("attributes"));
    reveal_strlit("attribute");
    assert(vstd::string::is_ascii("attribute"));
    reveal_strlit("methods");
    assert(vstd::string::is_ascii("methods"));
    reveal_strlit("notes");
    assert(vstd::string::is_ascii("notes"));
    reveal_strlit("note");
    assert(vstd::string::is_ascii("note"));
    reveal_strlit("examples");
    assert(vstd::string::is_ascii("examples"));
    reveal_strlit("example");
    assert(vstd::string::is_ascii("example"));
    reveal_strlit("todo");
    assert(vstd::string::is_ascii("todo"));
    reveal_strlit("references");
    assert(vstd::string::is_ascii("references"));
    reveal_strlit("warnings");
    assert(vstd::string::is_ascii("warnings"));
    reveal_strlit("warning");
    assert(vstd::string::is_ascii("warning"));
    reveal_strlit("attention");
    assert(vstd::string::is_ascii("attention"));
    reveal_strlit("caution");
    assert(vstd::string::is_ascii("caution"));
    reveal_strlit("danger");
    assert(vstd::string::is_ascii("danger"));
    reveal_strlit("error");
    assert(vstd::string::is_ascii("error"));
    reveal_strlit("hint");
    assert(vstd::string::is_ascii("hint"));
    reveal_strlit("important");
    assert(vstd::string::is_ascii("important"));
    reveal_strlit("tip");
    assert(vstd::string::is_ascii("tip"));
    assert(google_kind("keyword args".spec_bytes()) == GoogleSectionKind::KeywordArgs) by {
        let n = "keyword args".spec_bytes();
        assert(n[0] == 107 && n[1] == 101 && n[2] == 121 && n[3] == 119 && n[4] == 111);
    }
    assert(google_kind("keyword arguments".spec_bytes()) == GoogleSectionKind::KeywordArgs) by {
        let n = "keyword arguments".spec_bytes();
        assert(n[0] == 107 && n[1] == 101 && n[2] == 121 && n[3] == 119 && n[4] == 111);
    }
    assert(google_kind("keyword params".spec_bytes()) == GoogleSectionKind::KeywordArgs) by {
        let n = "keyword params".spec_bytes();
        assert(n[0] == 107 && n[1] == 101 && n[2] == 121 && n[3] == 119 && n[4] == 111);
    }
    assert(google_kind("keyword parameters".spec_bytes()) == GoogleSectionKind::KeywordArgs) by {
        let n = "keyword parameters".spec_bytes();
        assert(n[0] == 107 && n[1] == 101 && n[2] == 121 && n[3] == 119 && n[4] == 111);
    }
}

/// Names 8 to 11 of the Google-style name table name their kinds.
proof fn lemma_google_section_names_2()
    ensures
        google_kind("other args".spec_bytes()) == GoogleSectionKind::OtherParameters,
        google_kind("other arguments".spec_bytes()) == GoogleSectionKind::OtherParameters,
        google_kind("other params".spec_bytes()) == GoogleSectionKind::OtherParameters,
        google_kind("other parameters".spec_bytes()) == GoogleSectionKind::OtherParameters,
{
    broadcast use vstd::string::is_ascii_spec_bytes;
    reveal_strlit("args");
    assert(vstd::string::is_ascii("args"));
    reveal_strlit("arguments");
    assert(vstd::string::is_ascii("arguments"));
    reveal_strlit("params");
    assert(vstd::string::is_ascii("params"));
    reveal_strlit("parameters");
    assert(vstd::string::is_ascii("parameters"));
    reveal_strlit("keyword args");
    assert(vstd::string::is_ascii("keyword args"));
    reveal_strlit("keyword arguments");
    assert(vstd::string::is_ascii("keyword arguments"));
    reveal_strlit("keyword params");
    assert(vstd::string::is_ascii("keyword params"));
    reveal_strlit("keyword parameters");
    assert(vstd::string::is_ascii("keyword parameters"));
    reveal_strlit("other args");
    assert(vstd::string::is_ascii("other args"));
    reveal_strlit("other arguments");
    assert(vstd::string::is_ascii("other arguments"));
    reveal_strlit("other params");
    assert(vstd::string::is_ascii("other params"));
    reveal_strlit("other parameters");
    assert(vstd::string::is_ascii("other parameters"));
    reveal_strlit("receives");
    assert(vstd::string::is_ascii("receives"));
    reveal_strlit("receive");
    assert(vstd::string::is_ascii("receive"));
    reveal_strlit("returns");
    assert(vstd::string::is_ascii("returns"));
    reveal_strlit("return");
    assert(vstd::string::is_ascii("return"));
    reveal_strlit("yields");
    assert(vstd::string::is_ascii("yields"));
    reveal_strlit("yield");
    assert(vstd::string::is_ascii("yield"));
    reveal_strlit("raises");
    assert(vstd::string::is_ascii("raises"));
    reveal_strlit("raise");
    assert(vstd::string::is_ascii("raise"));
    reveal_strlit("warns");
    assert(vstd::string::is_ascii("warns"));
    reveal_strlit("warn");
    assert(vstd::string::is_ascii("warn"));
    reveal_strlit("see also");
    assert(vstd::string::is_ascii("see also"));
    reveal_strlit("attributes");
    assert(vstd::string::is_ascii("attributes"));
    reveal_strlit("attribute");
    assert(vstd::string::is_ascii("attribute"));
    reveal_strlit("methods");
    assert(vstd::string::is_ascii("methods"));
    reveal_strlit("notes");
    assert(vstd::string::is_ascii("notes"));
    reveal_strlit("note");
    assert(vstd::string::is_ascii("note"));
    reveal_strlit("examples");
    assert(vstd::string::is_ascii("examples"));
    reveal_strlit("example");
    assert(vstd::string::is_ascii("example"));
    reveal_strlit("todo");
    assert(vstd::string::is_ascii("todo"));
    reveal_strlit("references");
    assert(vstd::string::is_ascii("references"));
    reveal_strlit("warnings");
    assert(vstd::string::is_ascii("warnings"));
    reveal_strlit("warning");
    assert(vstd::string::is_ascii("warning"));
    reveal_strlit("attention");
    assert(vstd::string::is_ascii("attention"));
    reveal_strlit("caution");
    assert(vstd::string::is_ascii("caution"));
    reveal_strlit("danger");
    assert(vstd::string::is_ascii("danger"));
    reveal_strlit("error");
    assert(vstd::string::is_ascii("error"));
    reveal_strlit("hint");
    assert(vstd::string::is_ascii("hint"));
    reveal_strlit("important");
    assert(vstd::string::is_ascii("important"));
    reveal_strlit("tip");
    assert(vstd::string::is_ascii("tip"));
    assert(google_kind("other args".spec_bytes()) == GoogleSectionKind::OtherParameters) by {
        let n = "other args".spec_bytes();
        assert(n[0] == 111 && n[1] == 116 && n[2] == 104 && n[3] == 101 && n[4] == 114);
    }
    assert(google_kind("other arguments".spec_bytes()) == GoogleSectionKind::OtherParameters) by {
        let n = "other arguments".spec_bytes();
        assert(n[0] == 111 && n[1] == 116 && n[2] == 104 && n[3] == 101 && n[4] == 114);
    }
    assert(google_kind("other params".spec_bytes()) == GoogleSectionKind::OtherParameters) by {
        let n = "other params".spec_bytes();
        assert(n[0] == 111 && n[1] == 116 && n[2] == 104 && n[3] == 101 && n[4] == 114);
    }
    assert(google_kind("other parameters".spec_bytes()) == GoogleSectionKind::OtherParameters) by {
        let n = "other parameters".spec_bytes();
        assert(n[0] == 111 && n[1] == 116 && n[2] == 104 && n[3] == 101 && n[4] == 114);
    }
}

/// Names 12 to 15 of the Google-style name table name their kinds.
proof fn lemma_google_section_names_3()
    ensures
        google_kind("receives".spec_bytes()) == GoogleSectionKind::Receives,
        google_kind("receive".spec_bytes()) == GoogleSectionKind::Receives,
        google_kind("returns".spec_bytes()) == GoogleSectionKind::Returns,
        google_kind("return".spec_bytes()) == GoogleSectionKind::Returns,
{
    broadcast use vstd::string::is_ascii_spec_bytes;
    reveal_strlit("args");
    assert(vstd::string::is_ascii("args"));
    reveal_strlit("arguments");
    assert(vstd::string::is_ascii("arguments"));
    reveal_strlit("params");
    assert(vstd::string::is_ascii("params"));
    reveal_strlit("parameters");
    assert(vstd::string::is_ascii("parameters"));
    reveal_strlit("keyword args");
    assert(vstd::string::is_ascii("keyword args"));
    reveal_strlit("keyword arguments");
    assert(vstd::string::is_ascii("keyword arguments"));
    reveal_strlit("keyword params");
    assert(vstd::string::is_ascii("keyword params"));
    reveal_strlit("keyword parameters");
    assert(vstd::string::is_ascii("keyword parameters"));
    reveal_strlit("other args");
    assert(vstd::string::is_ascii("other args"));
    reveal_strlit("other arguments");
    assert(vstd::string::is_ascii("other arguments"));
    reveal_strlit("other params");
    assert(vstd::string::is_ascii("other params"));
    reveal_strlit("other parameters");
    assert(vstd::string::is_ascii("other parameters"));
    reveal_strlit("receives");
    assert(vstd::string::is_ascii("receives"));
    reveal_strlit("receive");
    assert(vstd::string::is_ascii("receive"));
    reveal_strlit("returns");
    assert(vstd::string::is_ascii("returns"));
    reveal_strlit("return");
    assert(vstd::string::is_ascii("return"));
    reveal_strlit("yields");
    assert(vstd::string::is_ascii("yields"));
    reveal_strlit("yield");
    assert(vstd::string::is_ascii("yield"));
    reveal_strlit("raises");
    assert(vstd::string::is_ascii("raises"));
    reveal_strlit("raise");
    assert(vstd::string::is_ascii("raise"));
    reveal_strlit("warns");
    assert(vstd::string::is_ascii("warns"));
    reveal_strlit("warn");
    assert(vstd::string::is_ascii("warn"));
    reveal_strlit("see also");
    assert(vstd::string::is_ascii("see also"));
    reveal_strlit("attributes");
    assert(vstd::string::is_ascii("attributes"));
    reveal_strlit("attribute");
    assert(vstd::string::is_ascii("attribute"));
    reveal_strlit("methods");
    assert(vstd::string::is_ascii("methods"));
    reveal_strlit("notes");
    assert(vstd::string::is_ascii("notes"));
    reveal_strlit("note");
    assert(vstd::string::is_ascii("note"));
    reveal_strlit("examples");
    assert(vstd::string::is_ascii("examples"));
    reveal_strlit("example");
    assert(vstd::string::is_ascii("example"));
    reveal_strlit("todo");
    assert(vstd::string::is_ascii("todo"));
    reveal_strlit("references");
    assert(vstd::string::is_ascii("references"));
    reveal_strlit("warnings");
    assert(vstd::string::is_ascii("warnings"));
    reveal_strlit("warning");
    assert(vstd::string::is_ascii("warning"));
    reveal_strlit("attention");
    assert(vstd::string::is_ascii("attention"));
    reveal_strlit("caution");
    assert(vstd::string::is_ascii("caution"));
    reveal_strlit("danger");
    assert(vstd::string::is_ascii("danger"));
    reveal_strlit("error");
    assert(vstd::string::is_ascii("error"));
    reveal_strlit("hint");
    assert(vstd::string::is_ascii("hint"));
    reveal_strlit("important");
    assert(vstd::string::is_ascii("important"));
    reveal_strlit("tip");
    assert(vstd::string::is_ascii("tip"));
    assert(google_kind("receives".spec_bytes()) == GoogleSectionKind::Receives) by {
        let n = "receives".spec_bytes();
        assert(n[0] == 114 && n[1] == 101 && n[2] == 99 && n[3] == 101 && n[4] == 105);
    }
    assert(google_kind("receive".spec_bytes()) == GoogleSectionKind::Receives) by {
        let n = "receive".spec_bytes();
        assert(n[0] == 114 && n[1] == 101 && n[2] == 99 && n[3] == 101 && n[4] == 105);
    }
    assert(google_kind("returns".spec_bytes()) == GoogleSectionKind::Returns) by {
        let n = "returns".spec_bytes();
        assert(n[0] == 114 && n[1] == 101 && n[2] == 116 && n[3] == 117 && n[4] == 114);
    }
    assert(google_kind("return".spec_bytes()) == GoogleSectionKind::Returns) by {
        let n = "return".spec_bytes();
        assert(n[0] == 114 && n[1] == 101 && n[2] == 116 && n[3] == 117 && n[4] == 114);
    }
}

/// Names 16 to 19 of the Google-style name table name their kinds.
proof fn lemma_google_section_names_4()
    ensures
        google_kind("yields".spec_bytes()) == GoogleSectionKind::Yields,
        google_kind("yield".spec_bytes()) == GoogleSectionKind::Yields,
        google_kind("raises".spec_bytes()) == GoogleSectionKind::Raises,
        google_kind("raise".spec_bytes()) == GoogleSectionKind::Raises,
{
    broadcast use vstd::string::is_ascii_spec_bytes;
    reveal_strlit("args");
    assert(vstd::string::is_ascii("args"));
    reveal_strlit("arguments");
    assert(vstd::string::is_ascii("arguments"));
    reveal_strlit("params");
    assert(vstd::string::is_ascii("params"));
    reveal_strlit("parameters");
    assert(vstd::string::is_ascii("parameters"));
    reveal_strlit("keyword args");
    assert(vstd::string::is_ascii("keyword args"));
    reveal_strlit("keyword arguments");
    assert(vstd::string::is_ascii("keyword arguments"));
    reveal_strlit("keyword params");
    assert(vstd::string::is_ascii("keyword params"));
    reveal_strlit("keyword parameters");
    assert(vstd::string::is_ascii("keyword parameters"));
    reveal_strlit("other args");
    assert(vstd::string::is_ascii("other args"));
    reveal_strlit("other arguments");
    assert(vstd::string::is_ascii("other arguments"));
    reveal_strlit("other params");
    assert(vstd::string::is_ascii("other params"));
    reveal_strlit("other parameters");
    assert(vstd::string::is_ascii("other parameters"));
    reveal_strlit("receives");
    assert(vstd::string::is_ascii("receives"));
    reveal_strlit("receive");
    assert(vstd::string::is_ascii("receive"));
    reveal_strlit("returns");
    assert(vstd::string::is_ascii("returns"));
    reveal_strlit("return");
    assert(vstd::string::is_ascii("return"));
    reveal_strlit("yields");
    assert(vstd::string::is_ascii("yields"));
    reveal_strlit("yield");
    assert(vstd::string::is_ascii("yield"));
    reveal_strlit("raises");
    assert(vstd::string::is_ascii("raises"));
    reveal_strlit("raise");
    assert(vstd::string::is_ascii("raise"));
    reveal_strlit("warns");
    assert(vstd::string::is_ascii("warns"));
    reveal_strlit("warn");
    assert(vstd::string::is_ascii("warn"));
    reveal_strlit("see also");
    assert(vstd::string::is_ascii("see also"));
    reveal_strlit("attributes");
    assert(vstd::string::is_ascii("attributes"));
    reveal_strlit("attribute");
    assert(vstd::string::is_ascii("attribute"));
    reveal_strlit("methods");
    assert(vstd::string::is_ascii("methods"));
    reveal_strlit("notes");
    assert(vstd::string::is_ascii("notes"));
    reveal_strlit("note");
    assert(vstd::string::is_ascii("note"));
    reveal_strlit("examples");
    assert(vstd::string::is_ascii("examples"));
    reveal_strlit("example");
    assert(vstd::string::is_ascii("example"));
    reveal_strlit("todo");
    assert(vstd::string::is_ascii("todo"));
    reveal_strlit("references");
    assert(vstd::string::is_ascii("references"));
    reveal_strlit("warnings");
    assert(vstd::string::is_ascii("warnings"));
    reveal_strlit("warning");
    assert(vstd::string::is_ascii("warning"));
    reveal_strlit("attention");
    assert(vstd::string::is_ascii("attention"));
    reveal_strlit("caution");
    assert(vstd::string::is_ascii("caution"));
    reveal_strlit("danger");
    assert(vstd::string::is_ascii("danger"));
    reveal_strlit("error");
    assert(vstd::string::is_ascii("error"));
    reveal_strlit("hint");
    assert(vstd::string::is_ascii("hint"));
    reveal_strlit("important");
    assert(vstd::string::is_ascii("important"));
    reveal_strlit("tip");
    assert(vstd::string::is_ascii("tip"));
    assert(google_kind("yields".spec_bytes()) == GoogleSectionKind::Yields) by {
        let n = "yields".spec_bytes();
        assert(n[0] == 121 && n[1] == 105 && n[2] == 101 && n[3] == 108 && n[4] == 100);
    }
    assert(google_kind("yield".spec_bytes()) == GoogleSectionKind::Yields) by {
        let n = "yield".spec_bytes();
        assert(n[0] == 121 && n[1] == 105 && n[2] == 101 && n[3] == 108 && n[4] == 100);
    }
    assert(google_kind("raises".spec_bytes()) == GoogleSectionKind::Raises) by {
        let n = "raises".spec_bytes();
        assert(n[0] == 114 && n[1] == 97 && n[2] == 105 && n[3] == 115 && n[4] == 101);
    }
    assert(google_kind("raise".spec_bytes()) == GoogleSectionKind::Raises) by {
        let n = "raise".spec_bytes();
        assert(n[0] == 114 && n[1] == 97 && n[2] == 105 && n[3] == 115 && n[4] == 101);
    }
}

/// Names 20 to 23 of the Google-style name table name their kinds.
proof fn lemma_google_section_names_5()
    ensures
        google_kind("warns".spec_bytes()) == GoogleSectionKind::Warns,
        google_kind("warn".spec_bytes()) == GoogleSectionKind::Warns,
        google_kind("see also".spec_bytes()) == GoogleSectionKind::SeeAlso,
        google_kind("attributes".spec_bytes()) == GoogleSectionKind::Attributes,
{
    broadcast use vstd::string::is_ascii_spec_bytes;
    reveal_strlit("args");
    assert(vstd::string::is_ascii("args"));
    reveal_strlit("arguments");
    assert(vstd::string::is_ascii("arguments"));
    reveal_strlit("params");
    assert(vstd::string::is_ascii("params"));
    reveal_strlit("parameters");
    assert(vstd::string::is_ascii("parameters"));
    reveal_strlit("keyword args");
    assert(vstd::string::is_ascii("keyword args"));
    reveal_strlit("keyword arguments");
    assert(vstd::string::is_ascii("keyword arguments"));
    reveal_strlit("keyword params");
    assert(vstd::string::is_ascii("keyword params"));
    reveal_strlit("keyword parameters");
    assert(vstd::string::is_ascii("keyword parameters"));
    reveal_strlit("other args");
    assert(vstd::string::is_ascii("other args"));
    reveal_strlit("other arguments");
    assert(vstd::string::is_ascii("other arguments"));
    reveal_strlit("other params");
    assert(vstd::string::is_ascii("other params"));
    reveal_strlit("other parameters");
    assert(vstd::string::is_ascii("other parameters"));
    reveal_strlit("receives");
    assert(vstd::string::is_ascii("receives"));
    reveal_strlit("receive");
    assert(vstd::string::is_ascii("receive"));
    reveal_strlit("returns");
    assert(vstd::string::is_ascii("returns"));
    reveal_strlit("return");
    assert(vstd::string::is_ascii("return"));
    reveal_strlit("yields");
    assert(vstd::string::is_ascii("yields"));
    reveal_strlit("yield");
    assert(vstd::string::is_ascii("yield"));
    reveal_strlit("raises");
    assert(vstd::string::is_ascii("raises"));
    reveal_strlit("raise");
    assert(vstd::string::is_ascii("raise"));
    reveal_strlit("warns");
    assert(vstd::string::is_ascii("warns"));
    reveal_strlit("warn");
    assert(vstd::string::is_ascii("warn"));
    reveal_strlit("see also");
    assert(vstd::string::is_ascii("see also"));
    reveal_strlit("attributes");
    assert(vstd::string::is_ascii("attributes"));
    reveal_strlit("attribute");
    assert(vstd::string::is_ascii("attribute"));
    reveal_strlit("methods");
    assert(vstd::string::is_ascii("methods"));
    reveal_strlit("notes");
    assert(vstd::string::is_ascii("notes"));
    reveal_strlit("note");
    assert(vstd::string::is_ascii("note"));
    reveal_strlit("examples");
    assert(vstd::string::is_ascii("examples"));
    reveal_strlit("example");
    assert(vstd::string::is_ascii("example"));
    reveal_strlit("todo");
    assert(vstd::string::is_ascii("todo"));
    reveal_strlit("references");
    assert(vstd::string::is_ascii("references"));
    reveal_strlit("warnings");
    assert(vstd::string::is_ascii("warnings"));
    reveal_strlit("warning");
    assert(vstd::string::is_ascii("warning"));
    reveal_strlit("attention");
    assert(vstd::string::is_ascii("attention"));
    reveal_strlit("caution");
    assert(vstd::string::is_ascii("caution"));
    reveal_strlit("danger");
    assert(vstd::string::is_ascii("danger"));
    reveal_strlit("error");
    assert(vstd::string::is_ascii("error"));
    reveal_strlit("hint");
    assert(vstd::string::is_ascii("hint"));
    reveal_strlit("important");
    assert(vstd::string::is_ascii("important"));
    reveal_strlit("tip");
    assert(vstd::string::is_ascii("tip"));
    assert(google_kind("warns".spec_bytes()) == GoogleSectionKind::Warns) by {
        let n = "warns".spec_bytes();
        assert(n[0] == 119 && n[1] == 97 && n[2] == 114 && n[3] == 110 && n[4] == 115);
    }
    assert(google_kind("warn".spec_bytes()) == GoogleSectionKind::Warns) by {
        let n = "warn".spec_bytes();
        assert(n[0] == 119 && n[1] == 97 && n[2] == 114 && n[3] == 110);
    }
    assert(google_kind("see also".spec_bytes()) == GoogleSectionKind::SeeAlso) by {
        let n = "see also".spec_bytes();
        assert(n[0] == 115 && n[1] == 101 && n[2] == 101 && n[3] == 32 && n[4] == 97);
    }
    assert(google_kind("attributes".spec_bytes()) == GoogleSectionKind::Attributes) by {
        let n = "attributes".spec_bytes();
        assert(n[0] == 97 && n[1] == 116 && n[2] == 116 && n[3] == 114 && n[4] == 105);
    }
}

/// Names 24 to 27 of the Google-style name table name their kinds.
proof fn lemma_google_section_names_6()
    ensures
        google_kind("attribute".spec_bytes()) == GoogleSectionKind::Attributes,
        google_kind("methods".spec_bytes()) == GoogleSectionKind::Methods,
        google_kind("notes".spec_bytes()) == GoogleSectionKind::Notes,
        google_kind("note".spec_bytes()) == GoogleSectionKind::Notes,
{
    broadcast use vstd::string::is_ascii_spec_bytes;
    reveal_strlit("args");
    assert(vstd::string::is_ascii("args"));
    reveal_strlit("arguments");
    assert(vstd::string::is_ascii("arguments"));
    reveal_strlit("params");
    assert(vstd::string::is_ascii("params"));
    reveal_strlit("parameters");
    assert(vstd::string::is_ascii("parameters"));
    reveal_strlit("keyword args");
    assert(vstd::string::is_ascii("keyword args"));
    reveal_strlit("keyword arguments");
    assert(vstd::string::is_ascii("keyword arguments"));
    reveal_strlit("keyword params");
    assert(vstd::string::is_ascii("keyword params"));
    reveal_strlit("keyword parameters");
    assert(vstd::string::is_ascii("keyword parameters"));
    reveal_strlit("other args");
    assert(vstd::string::is_ascii("other args"));
    reveal_strlit("other arguments");
    assert(vstd::string::is_ascii("other arguments"));
    reveal_strlit("other params");
    assert(vstd::string::is_ascii("other params"));
    reveal_strlit("other parameters");
    assert(vstd::string::is_ascii("other parameters"));
    reveal_strlit("receives");
    assert(vstd::string::is_ascii("receives"));
    reveal_strlit("receive");
    assert(vstd::string::is_ascii("receive"));
    reveal_strlit("returns");
    assert(vstd::string::is_ascii("returns"));
    reveal_strlit("return");
    assert(vstd::string::is_ascii("return"));
    reveal_strlit("yields");
    assert(vstd::string::is_ascii("yields"));
    reveal_strlit("yield");
    assert(vstd::string::is_ascii("yield"));
    reveal_strlit("raises");
    assert(vstd::string::is_ascii("raises"));
    reveal_strlit("raise");
    assert(vstd::string::is_ascii("raise"));
    reveal_strlit("warns");
    assert(vstd::string::is_ascii("warns"));
    reveal_strlit("warn");
    assert(vstd::string::is_ascii("warn"));
    reveal_strlit("see also");
    assert(vstd::string::is_ascii("see also"));
    reveal_strlit("attributes");
    assert(vstd::string::is_ascii("attributes"));
    reveal_strlit("attribute");
    assert(vstd::string::is_ascii("attribute"));
    reveal_strlit("methods");
    assert(vstd::string::is_ascii("methods"));
    reveal_strlit("notes");
    assert(vstd::string::is_ascii("notes"));
    reveal_strlit("note");
    assert(vstd::string::is_ascii("note"));
    reveal_strlit("examples");
    assert(vstd::string::is_ascii("examples"));
    reveal_strlit("example");
    assert(vstd::string::is_ascii("example"));
    reveal_strlit("todo");
    assert(vstd::string::is_ascii("todo"));
    reveal_strlit("references");
    assert(vstd::string::is_ascii("references"));
    reveal_strlit("warnings");
    assert(vstd::string::is_ascii("warnings"));
    reveal_strlit("warning");
    assert(vstd::string::is_ascii("warning"));
    reveal_strlit("attention");
    assert(vstd::string::is_ascii("attention"));
    reveal_strlit("caution");
    assert(vstd::string::is_ascii("caution"));
    reveal_strlit("danger");
    assert(vstd::string::is_ascii("danger"));
    reveal_strlit("error");
    assert(vstd::string::is_ascii("error"));
    reveal_strlit("hint");
    assert(vstd::string::is_ascii("hint"));
    reveal_strlit("important");
    assert(vstd::string::is_ascii("important"));
    reveal_strlit("tip");
    assert(vstd::string::is_ascii("tip"));
    assert(google_kind("attribute".spec_bytes()) == GoogleSectionKind::Attributes) by {
        let n = "attribute".spec_bytes();
        assert(n[0] == 97 && n[1] == 116 && n[2] == 116 && n[3] == 114 && n[4] == 105);
    }
    assert(google_kind("methods".spec_bytes()) == GoogleSectionKind::Methods) by {
        let n = "methods".spec_bytes();
        assert(n[0] == 109 && n[1] == 101 && n[2] == 116 && n[3] == 104 && n[4] == 111);
    }
    assert(google_kind("notes".spec_bytes()) == GoogleSectionKind::Notes) by {
        let n = "notes".spec_bytes();
        assert(n[0] == 110 && n[1] == 111 && n[2] == 116 && n[3] == 101 && n[4] == 115);
    }
    assert(google_kind("note".spec_bytes()) == GoogleSectionKind::Notes) by {
        let n = "note".spec_bytes();
        assert(n[0] == 110 && n[1] == 111 && n[2] == 116 && n[3] == 101);
    }
}

/// Names 28 to 31 of the Google-style name table name their kinds.
proof fn lemma_google_section_names_7()
    ensures
        google_kind("examples".spec_bytes()) == GoogleSectionKind::Examples,
        google_kind("example".spec_bytes()) == GoogleSectionKind::Examples,
        google_kind("todo".spec_bytes()) == GoogleSectionKind::Todo,
        google_kind("references".spec_bytes()) == GoogleSectionKind::References,
{
    broadcast use vstd::string::is_ascii_spec_bytes;
    reveal_strlit("args");
    assert(vstd::string::is_ascii("args"));
    reveal_strlit("arguments");
    assert(vstd::string::is_ascii("arguments"));
    reveal_strlit("params");
    assert(vstd::string::is_ascii("params"));
    reveal_strlit("parameters");
    assert(vstd::string::is_ascii("parameters"));
    reveal_strlit("keyword args");
    assert(vstd::string::is_ascii("keyword args"));
    reveal_strlit("keyword arguments");
    assert(vstd::string::is_ascii("keyword arguments"));
    reveal_strlit("keyword params");
    assert(vstd::string::is_ascii("keyword params"));
    reveal_strlit("keyword parameters");
    assert(vstd::string::is_ascii("keyword parameters"));
    reveal_strlit("other args");
    assert(vstd::string::is_ascii("other args"));
    reveal_strlit("other arguments");
    assert(vstd::string::is_ascii("other arguments"));
    reveal_strlit("other params");
    assert(vstd::string::is_ascii("other params"));
    reveal_strlit("other parameters");
    assert(vstd::string::is_ascii("other parameters"));
    reveal_strlit("receives");
    assert(vstd::string::is_ascii("receives"));
    reveal_strlit("receive");
    assert(vstd::string::is_ascii("receive"));
    reveal_strlit("returns");
    assert(vstd::string::is_ascii("returns"));
    reveal_strlit("return");
    assert(vstd::string::is_ascii("return"));
    reveal_strlit("yields");
    assert(vstd::string::is_ascii("yields"));
    reveal_strlit("yield");
    assert(vstd::string::is_ascii("yield"));
    reveal_strlit("raises");
    assert(vstd::string::is_ascii("raises"));
    reveal_strlit("raise");
    assert(vstd::string::is_ascii("raise"));
    reveal_strlit("warns");
    assert(vstd::string::is_ascii("warns"));
    reveal_strlit("warn");
    assert(vstd::string::is_ascii("warn"));
    reveal_strlit("see also");
    assert(vstd::string::is_ascii("see also"));
    reveal_strlit("attributes");
    assert(vstd::string::is_ascii("attributes"));
    reveal_strlit("attribute");
    assert(vstd::string::is_ascii("attribute"));
    reveal_strlit("methods");
    assert(vstd::string::is_ascii("methods"));
    reveal_strlit("notes");
    assert(vstd::string::is_ascii("notes"));
    reveal_strlit("note");
    assert(vstd::string::is_ascii("note"));
    reveal_strlit("examples");
    assert(vstd::string::is_ascii("examples"));
    reveal_strlit("example");
    assert(vstd::string::is_ascii("example"));
    reveal_strlit("todo");
    assert(vstd::string::is_ascii("todo"));
    reveal_strlit("references");
    assert(vstd::string::is_ascii("references"));
    reveal_strlit("warnings");
    assert(vstd::string::is_ascii("warnings"));
    reveal_strlit("warning");
    assert(vstd::string::is_ascii("warning"));
    reveal_strlit("attention");
    assert(vstd::string::is_ascii("attention"));
    reveal_strlit("caution");
    assert(vstd::string::is_ascii("caution"));
    reveal_strlit("danger");
    assert(vstd::string::is_ascii("danger"));
    reveal_strlit("error");
    assert(vstd::string::is_ascii("error"));
    reveal_strlit("hint");
    assert(vstd::string::is_ascii("hint"));
    reveal_strlit("important");
    assert(vstd::string::is_ascii("important"));
    reveal_strlit("tip");
    assert(vstd::string::is_ascii("tip"));
    assert(google_kind("examples".spec_bytes()) == GoogleSectionKind::Examples) by {
        let n = "examples".spec_bytes();
        assert(n[0] == 101 && n[1] == 120 && n[2] == 97 && n[3] == 109 && n[4] == 112);
    }
    assert(google_kind("example".spec_bytes()) == GoogleSectionKind::Examples) by {
        let n = "example".spec_bytes();
        assert(n[0] == 101 && n[1] == 120 && n[2] == 97 && n[3] == 109 && n[4] == 112);
    }
    assert(google_kind("todo".spec_bytes()) == GoogleSectionKind::Todo) by {
        let n = "todo".spec_bytes();
        assert(n[0] == 116 && n[1] == 111 && n[2] == 100 && n[3] == 111);
    }
    assert(google_kind("references".spec_bytes()) == GoogleSectionKind::References) by {
        let n = "references".spec_bytes();
        assert(n[0] == 114 && n[1] == 101 && n[2] == 102 && n[3] == 101 && n[4] == 114);
    }
}

/// Names 32 to 35 of the Google-style name table name their kinds.
proof fn lemma_google_section_names_8()
    ensures
        google_kind("warnings".spec_bytes()) == GoogleSectionKind::Warnings,
        google_kind("warning".spec_bytes()) == GoogleSectionKind::Warnings,
        google_kind("attention".spec_bytes()) == GoogleSectionKind::Attention,
        google_kind("caution".spec_bytes()) == GoogleSectionKind::Caution,
{
    broadcast use vstd::string::is_ascii_spec_bytes;
    reveal_strlit("args");
    assert(vstd::string::is_ascii("args"));
    reveal_strlit("arguments");
    assert(vstd::string::is_ascii("arguments"));
    reveal_strlit("params");
    assert(vstd::string::is_ascii("params"));
    reveal_strlit("parameters");
    assert(vstd::string::is_ascii("parameters"));
    reveal_strlit("keyword args");
    assert(vstd::string::is_ascii("keyword args"));
    reveal_strlit("keyword arguments");
    assert(vstd::string::is_ascii("keyword arguments"));
    reveal_strlit("keyword params");
    assert(vstd::string::is_ascii("keyword params"));
    reveal_strlit("keyword parameters");
    assert(vstd::string::is_ascii("keyword parameters"));
    reveal_strlit("other args");
    assert(vstd::string::is_ascii("other args"));
    reveal_strlit("other arguments");
    assert(vstd::string::is_ascii("other arguments"));
    reveal_strlit("other params");
    assert(vstd::string::is_ascii("other params"));
    reveal_strlit("other parameters");
    assert(vstd::string::is_ascii("other parameters"));
    reveal_strlit("receives");
    assert(vstd::string::is_ascii("receives"));
    reveal_strlit("receive");
    assert(vstd::string::is_ascii("receive"));
    reveal_strlit("returns");
    assert(vstd::string::is_ascii("returns"));
    reveal_strlit("return");
    assert(vstd::string::is_ascii("return"));
    reveal_strlit("yields");
    assert(vstd::string::is_ascii("yields"));
    reveal_strlit("yield");
    assert(vstd::string::is_ascii("yield"));
    reveal_strlit("raises");
    assert(vstd::string::is_ascii("raises"));
    reveal_strlit("raise");
    assert(vstd::string::is_ascii("raise"));
    reveal_strlit("warns");
    assert(vstd::string::is_ascii("warns"));
    reveal_strlit("warn");
    assert(vstd::string::is_ascii("warn"));
    reveal_strlit("see also");
    assert(vstd::string::is_ascii("see also"));
    reveal_strlit("attributes");
    assert(vstd::string::is_ascii("attributes"));
    reveal_strlit("attribute");
    assert(vstd::string::is_ascii("attribute"));
    reveal_strlit("methods");
    assert(vstd::string::is_ascii("methods"));
    reveal_strlit("notes");
    assert(vstd::string::is_ascii("notes"));
    reveal_strlit("note");
    assert(vstd::string::is_ascii("note"));
    reveal_strlit("examples");
    assert(vstd::string::is_ascii("examples"));
    reveal_strlit("example");
    assert(vstd::string::is_ascii("example"));
    reveal_strlit("todo");
    assert(vstd::string::is_ascii("todo"));
    reveal_strlit("references");
    assert(vstd::string::is_ascii("references"));
    reveal_strlit("warnings");
    assert(vstd::string::is_ascii("warnings"));
    reveal_strlit("warning");
    assert(vstd::string::is_ascii("warning"));
    reveal_strlit("attention");
    assert(vstd::string::is_ascii("attention"));
    reveal_strlit("caution");
    assert(vstd::string::is_ascii("caution"));
    reveal_strlit("danger");
    assert(vstd::string::is_ascii("danger"));
    reveal_strlit("error");
    assert(vstd::string::is_ascii("error"));
    reveal_strlit("hint");
    assert(vstd::string::is_ascii("hint"));
    reveal_strlit("important");
    assert(vstd::string::is_ascii("important"));
    reveal_strlit("tip");
    assert(vstd::string::is_ascii("tip"));
    assert(google_kind("warnings".spec_bytes()) == GoogleSectionKind::Warnings) by {
        let n = "warnings".spec_bytes();
        assert(n[0] == 119 && n[1] == 97 && n[2] == 114 && n[3] == 110 && n[4] == 105);
    }
    assert(google_kind("warning".spec_bytes()) == GoogleSectionKind::Warnings) by {
        let n = "warning".spec_bytes();
        assert(n[0] == 119 && n[1] == 97 && n[2] == 114 && n[3] == 110 && n[4] == 105);
    }
    assert(google_kind("attention".spec_bytes()) == GoogleSectionKind::Attention) by {
        let n = "attention".spec_bytes();
        assert(n[0] == 97 && n[1] == 116 && n[2] == 116 && n[3] == 101 && n[4] == 110);
    }
    assert(google_kind("caution".spec_bytes()) == GoogleSectionKind::Caution) by {
        let n = "caution".spec_bytes();
        assert(n[0] == 99 && n[1] == 97 && n[2] == 117 && n[3] == 116 && n[4] == 105);
    }
}

/// Names 36 to 39 of the Google-style name table name their kinds.
proof fn lemma_google_section_names_9()
    ensures
        google_kind("danger".spec_bytes()) == GoogleSectionKind::Danger,
        google_kind("error".spec_bytes()) == GoogleSectionKind::Error,
        google_kind("hint".spec_bytes()) == GoogleSectionKind::Hint,
        google_kind("important".spec_bytes()) == GoogleSectionKind::Important,
{
    broadcast use vstd::string::is_ascii_spec_bytes;
    reveal_strlit("args");
    assert(vstd::string::is_ascii("args"));
    reveal_strlit("arguments");
    assert(vstd::string::is_ascii("arguments"));
    reveal_strlit("params");
    assert(vstd::string::is_ascii("params"));
    reveal_strlit("parameters");
    assert(vstd::string::is_ascii("parameters"));
    reveal_strlit("keyword args");
    assert(vstd::string::is_ascii("keyword args"));
    reveal_strlit("keyword arguments");
    assert(vstd::string::is_ascii("keyword arguments"));
    reveal_strlit("keyword params");
    assert(vstd::string::is_ascii("keyword params"));
    reveal_strlit("keyword parameters");
    assert(vstd::string::is_ascii("keyword parameters"));
    reveal_strlit("other args");
    assert(vstd::string::is_ascii("other args"));
    reveal_strlit("other arguments");
    assert(vstd::string::is_ascii("other arguments"));
    reveal_strlit("other params");
    assert(vstd::string::is_ascii("other params"));
    reveal_strlit("other parameters");
    assert(vstd::string::is_ascii("other parameters"));
    reveal_strlit("receives");
    assert(vstd::string::is_ascii("receives"));
    reveal_strlit("receive");
    assert(vstd::string::is_ascii("receive"));
    reveal_strlit("returns");
    assert(vstd::string::is_ascii("returns"));
    reveal_strlit("return");
    assert(vstd::string::is_ascii("return"));
    reveal_strlit("yields");
    assert(vstd::string::is_ascii("yields"));
    reveal_strlit("yield");
    assert(vstd::string::is_ascii("yield"));
    reveal_strlit("raises");
    assert(vstd::string::is_ascii("raises"));
    reveal_strlit("raise");
    assert(vstd::string::is_ascii("raise"));
    reveal_strlit("warns");
    assert(vstd::string::is_ascii("warns"));
    reveal_strlit("warn");
    assert(vstd::string::is_ascii("warn"));
    reveal_strlit("see also");
    assert(vstd::string::is_ascii("see also"));
    reveal_strlit("attributes");
    assert(vstd::string::is_ascii("attributes"));
    reveal_strlit("attribute");
    assert(vstd::string::is_ascii("attribute"));
    reveal_strlit("methods");
    assert(vstd::string::is_ascii("methods"));
    reveal_strlit("notes");
    assert(vstd::string::is_ascii("notes"));
    reveal_strlit("note");
    assert(vstd::string::is_ascii("note"));
    reveal_strlit("examples");
    assert(vstd::string::is_ascii("examples"));
    reveal_strlit("example");
    assert(vstd::string::is_ascii("example"));
    reveal_strlit("todo");
    assert(vstd::string::is_ascii("todo"));
    reveal_strlit("references");
    assert(vstd::string::is_ascii("references"));
    reveal_strlit("warnings");
    assert(vstd::string::is_ascii("warnings"));
    reveal_strlit("warning");
    assert(vstd::string::is_ascii("warning"));
    reveal_strlit("attention");
    assert(vstd::string::is_ascii("attention"));
    reveal_strlit("caution");
    assert(vstd::string::is_ascii("caution"));
    reveal_strlit("danger");
    assert(vstd::string::is_ascii("danger"));
    reveal_strlit("error");
    assert(vstd::string::is_ascii("error"));
    reveal_strlit("hint");
    assert(vstd::string::is_ascii("hint"));
    reveal_strlit("important");
    assert(vstd::string::is_ascii("important"));
    reveal_strlit("tip");
    assert(vstd::string::is_ascii("tip"));
    assert(google_kind("danger".spec_bytes()) == GoogleSectionKind::Danger) by {
        let n = "danger".spec_bytes();
        assert(n[0] == 100 && n[1] == 97 && n[2] == 110 && n[3] == 103 && n[4] == 101);
    }
    assert(google_kind("error".spec_bytes()) == GoogleSectionKind::Error) by {
        let n = "error".spec_bytes();
        assert(n[0] == 101 && n[1] == 114 && n[2] == 114 && n[3] == 111 && n[4] == 114);
    }
    assert(google_kind("hint".spec_bytes()) == GoogleSectionKind::Hint) by {
        let n = "hint".spec_bytes();
        assert(n[0] == 104 && n[1] == 105 && n[2] == 110 && n[3] == 116);
    }
    assert(google_kind("important".spec_bytes()) == GoogleSectionKind::Important) by {
        let n = "important".spec_bytes();
        assert(n[0] == 105 && n[1] == 109 && n[2] == 112 && n[3] == 111 && n[4] == 114);
    }
}

/// Names 40 to 40 of the Google-style name table name their kinds.
proof fn lemma_google_section_names_10()
    ensures
        google_kind("tip".spec_bytes()) == GoogleSectionKind::Tip,
{
    broadcast use vstd::string::is_ascii_spec_bytes;
    reveal_strlit("args");
    assert(vstd::string::is_ascii("args"));
    reveal_strlit("arguments");
    assert(vstd::string::is_ascii("arguments"));
    reveal_strlit("params");
    assert(vstd::string::is_ascii("params"));
    reveal_strlit("parameters");
    assert(vstd::string::is_ascii("parameters"));
    reveal_strlit("keyword args");
    assert(vstd::string::is_ascii("keyword args"));
    reveal_strlit("keyword arguments");
    assert(vstd::string::is_ascii("keyword arguments"));
    reveal_strlit("keyword params");
    assert(vstd::string::is_ascii("keyword params"));
    reveal_strlit("keyword parameters");
    assert(vstd::string::is_ascii("keyword parameters"));
    reveal_strlit("other args");
    assert(vstd::string::is_ascii("other args"));
    reveal_strlit("other arguments");
    assert(vstd::string::is_ascii("other arguments"));
    reveal_strlit("other params");
    assert(vstd::string::is_ascii("other params"));
    reveal_strlit("other parameters");
    assert(vstd::string::is_ascii("other parameters"));
    reveal_strlit("receives");
    assert(vstd::string::is_ascii("receives"));
    reveal_strlit("receive");
    assert(vstd::string::is_ascii("receive"));
    reveal_strlit("returns");
    assert(vstd::string::is_ascii("returns"));
    reveal_strlit("return");
    assert(vstd::string::is_ascii("return"));
    reveal_strlit("yields");
    assert(vstd::string::is_ascii("yields"));
    reveal_strlit("yield");
    assert(vstd::string::is_ascii("yield"));
    reveal_strlit("raises");
    assert(vstd::string::is_ascii("raises"));
    reveal_strlit("raise");
    assert(vstd::string::is_ascii("raise"));
    reveal_strlit("warns");
    assert(vstd::string::is_ascii("warns"));
    reveal_strlit("warn");
    assert(vstd::string::is_ascii("warn"));
    reveal_strlit("see also");
    assert(vstd::string::is_ascii("see also"));
    reveal_strlit("attributes");
    assert(vstd::string::is_ascii("attributes"));
    reveal_strlit("attribute");
    assert(vstd::string::is_ascii("attribute"));
    reveal_strlit("methods");
    assert(vstd::string::is_ascii("methods"));
    reveal_strlit("notes");
    assert(vstd::string::is_ascii("notes"));
    reveal_strlit("note");
    assert(vstd::string::is_ascii("note"));
    reveal_strlit("examples");
    assert(vstd::string::is_ascii("examples"));
    reveal_strlit("example");
    assert(vstd::string::is_ascii("example"));
    reveal_strlit("todo");
    assert(vstd::string::is_ascii("todo"));
    reveal_strlit("references");
    assert(vstd::string::is_ascii("references"));
    reveal_strlit("warnings");
    assert(vstd::string::is_ascii("warnings"));
    reveal_strlit("warning");
    assert(vstd::string::is_ascii("warning"));
    reveal_strlit("attention");
    assert(vstd::string::is_ascii("attention"));
    reveal_strlit("caution");
    assert(vstd::string::is_ascii("caution"));
    reveal_strlit("danger");
    assert(vstd::string::is_ascii("danger"));
    reveal_strlit("error");
    assert(vstd::string::is_ascii("error"));
    reveal_strlit("hint");
    assert(vstd::string::is_ascii("hint"));
    reveal_strlit("important");
    assert(vstd::string::is_ascii("important"));
    reveal_strlit("tip");
    assert(vstd::string::is_ascii("tip"));
    assert(google_kind("tip".spec_bytes()) == GoogleSectionKind::Tip) by {
        let n = "tip".spec_bytes();
        assert(n[0] == 116 && n[1] == 105 && n[2] == 112);
    }
}

/// Law: `from_name` (and so the parser, on a lowercased header name) maps
/// each of the Google-style section names to its kind, and every other name to
/// `Unknown`.
pub proof fn law_google_section_names(n: Seq<u8>)
    ensures
        forall|i: int|
            0 <= i < google_section_name_count() ==> google_kind(#[trigger] google_section_name(i).0)
                == google_section_name(i).1,
        google_kind(n) != GoogleSectionKind::Unknown ==> exists|i: int|
            0 <= i < google_section_name_count() && #[trigger] google_section_name(i).0 == n,
{
    lemma_google_section_names_0();
    lemma_google_section_names_1();
    lemma_google_section_names_2();
    lemma_google_section_names_3();
    lemma_google_section_names_4();
    lemma_google_section_names_5();
    lemma_google_section_names_6();
    lemma_google_section_names_7();
    lemma_google_section_names_8();
    lemma_google_section_names_9();
    lemma_google_section_names_10();
    assert forall|i: int| 0 <= i < google_section_name_count() implies google_kind(
        #[trigger] google_section_name(i).0,
    ) == google_section_name(i).1 by {
        if i == 0 {
        } else if i == 1 {
        } else if i == 2 {
        } else if i == 3 {
        } else if i == 4 {
        } else if i == 5 {
        } else if i == 6 {
        } else if i == 7 {
        } else if i == 8 {
        } else if i == 9 {
        } else if i == 10 {
        } else if i == 11 {
        } else if i == 12 {
        } else if i == 13 {
        } else if i == 14 {
        } else if i == 15 {
        } else if i == 16 {
        } else if i == 17 {
        } else if i == 18 {
        } else if i == 19 {
        } else if i == 20 {
        } else if i == 21 {
        } else if i == 22 {
        } else if i == 23 {
        } else if i == 24 {
        } else if i == 25 {
        } else if i == 26 {
        } else if i == 27 {
        } else if i == 28 {
        } else if i == 29 {
        } else if i == 30 {
        } else if i == 31 {
        } else if i == 32 {
        } else if i == 33 {
        } else if i == 34 {
        } else if i == 35 {
        } else if i == 36 {
        } else if i == 37 {
        } else if i == 38 {
        } else if i == 39 {
        } else if i == 40 {
        }
    }
    if google_kind(n) != GoogleSectionKind::Unknown {
        if n == "args".spec_bytes() {
            assert(google_section_name(0).0 == n);
        } else if n == "arguments".spec_bytes() {
            assert(google_section_name(1).0 == n);
        } else if n == "params".spec_bytes() {
            assert(google_section_name(2).0 == n);
        } else if n == "parameters".spec_bytes() {
            assert(google_section_name(3).0 == n);
        } else if n == "keyword args".spec_bytes() {
            assert(google_section_name(4).0 == n);
        } else if n == "keyword arguments".spec_bytes() {
            assert(google_section_name(5).0 == n);
        } else if n == "keyword params".spec_bytes() {
            assert(google_section_name(6).0 == n);
        } else if n == "keyword parameters".spec_bytes() {
            assert(google_section_name(7).0 == n);
        } else if n == "other args".spec_bytes() {
            assert(google_section_name(8).0 == n);
        } else if n == "other arguments".spec_bytes() {
            assert(google_section_name(9).0 == n);
        } else if n == "other params".spec_bytes() {
            assert(google_section_name(10).0 == n);
        } else if n == "other parameters".spec_bytes() {
            assert(google_section_name(11).0 == n);
        } else if n == "receives".spec_bytes() {
            assert(google_section_name(12).0 == n);
        } else if n == "receive".spec_bytes() {
            assert(google_section_name(13).0 == n);
        } else if n == "returns".spec_bytes() {
            assert(google_section_name(14).0 == n);
        } else if n == "return".spec_bytes() {
            assert(google_section_name(15).0 == n);
        } else if n == "yields".spec_bytes() {
            assert(google_section_name(16).0 == n);
        } else if n == "yield".spec_bytes() {
            assert(google_section_name(17).0 == n);
        } else if n == "raises".spec_bytes() {
            assert(google_section_name(18).0 == n);
        } else if n == "raise".spec_bytes() {
            assert(google_section_name(19).0 == n);
        } else if n == "warns".spec_bytes() {
            assert(google_section_name(20).0 == n);
        } else if n == "warn".spec_bytes() {
            assert(google_section_name(21).0 == n);
        } else if n == "see also".spec_bytes() {
            assert(google_section_name(22).0 == n);
        } else if n == "attributes".spec_bytes() {
            assert(google_section_name(23).0 == n);
        } else if n == "attribute".spec_bytes() {
            assert(google_section_name(24).0 == n);
        } else if n == "methods".spec_bytes() {
            assert(google_section_name(25).0 == n);
        } else if n == "notes".spec_bytes() {
            assert(google_section_name(26).0 == n);
        } else if n == "note".spec_bytes() {
            assert(google_section_name(27).0 == n);
        } else if n == "examples".spec_bytes() {
            assert(google_section_name(28).0 == n);
        } else if n == "example".spec_bytes() {
            assert(google_section_name(29).0 == n);
        } else if n == "todo".spec_bytes() {
            assert(google_section_name(30).0 == n);
        } else if n == "references".spec_bytes() {
            assert(google_section_name(31).0 == n);
        } else if n == "warnings".spec_bytes() {
            assert(google_section_name(32).0 == n);
        } else if n == "warning".spec_bytes() {
            assert(google_section_name(33).0 == n);
        } else if n == "attention".spec_bytes() {
            assert(google_section_name(34).0 == n);
        } else if n == "caution".spec_bytes() {
            assert(google_section_name(35).0 == n);
        } else if n == "danger".spec_bytes() {
            assert(google_section_name(36).0 == n);
        } else if n == "error".spec_bytes() {
            assert(google_section_name(37).0 == n);
        } else if n == "hint".spec_bytes() {
            assert(google_section_name(38).0 == n);
        } else if n == "important".spec_bytes() {
            assert(google_section_name(39).0 == n);
        } else if n == "tip".spec_bytes() {
            assert(google_section_name(40).0 == n);
        }
    }
}

} // verus!
