//! NumPy-style docstring AST.
use vstd::prelude::*;
use vstd::string::StringSliceAdditionalSpecFns;
use crate::lexical::{lower_seq, name_is};
use crate::text::TextRange;

verus! {

/// NumPy-style section kinds (a recognised name or group of aliases), or
/// `Unknown`.
#[derive(Debug, Clone, Copy, PartialEq, Eq, Hash)]
pub enum NumPySectionKind {
    Parameters,
    Returns,
    Yields,
    Receives,
    OtherParameters,
    Raises,
    Warns,
    Warnings,
    SeeAlso,
    Notes,
    References,
    Examples,
    Attributes,
    Methods,
    Unknown,
}

/// The section kind named by the (already lowercased) name bytes `n`.
pub open spec fn numpy_kind(n: Seq<u8>) -> NumPySectionKind {
    if n == "parameters".spec_bytes() || n == "parameter".spec_bytes() || n == "params".spec_bytes() || n == "param".spec_bytes() {
        NumPySectionKind::Parameters
    } else if n == "returns".spec_bytes() || n == "return".spec_bytes() {
        NumPySectionKind::Returns
    } else if n == "yields".spec_bytes() || n == "yield".spec_bytes() {
        NumPySectionKind::Yields
    } else if n == "receives".spec_bytes() || n == "receive".spec_bytes() {
        NumPySectionKind::Receives
    } else if n == "other parameters".spec_bytes() || n == "other parameter".spec_bytes() || n == "other params".spec_bytes() || n == "other param".spec_bytes() {
        NumPySectionKind::OtherParameters
    } else if n == "raises".spec_bytes() || n == "raise".spec_bytes() {
        NumPySectionKind::Raises
    } else if n == "warns".spec_bytes() || n == "warn".spec_bytes() {
        NumPySectionKind::Warns
    } else if n == "warnings".spec_bytes() || n == "warning".spec_bytes() {
        NumPySectionKind::Warnings
    } else if n == "see also".spec_bytes() {
        NumPySectionKind::SeeAlso
    } else if n == "notes".spec_bytes() || n == "note".spec_bytes() {
        NumPySectionKind::Notes
    } else if n == "references".spec_bytes() {
        NumPySectionKind::References
    } else if n == "examples".spec_bytes() || n == "example".spec_bytes() {
        NumPySectionKind::Examples
    } else if n == "attributes".spec_bytes() {
        NumPySectionKind::Attributes
    } else if n == "methods".spec_bytes() {
        NumPySectionKind::Methods
    } else {
        NumPySectionKind::Unknown
    }
}

/// The section kind named by `[s, e)` of `b`, lowercased first when `fold`.
pub fn numpy_kind_of(b: &[u8], s: usize, e: usize, fold: bool) -> (r: NumPySectionKind)
    requires
        s <= e <= b@.len(),
    ensures
        fold ==> r == numpy_kind(lower_seq(b@.subrange(s as int, e as int))),
        !fold ==> r == numpy_kind(b@.subrange(s as int, e as int)),
{
    if name_is(b, s, e, fold, "parameters") || name_is(b, s, e, fold, "parameter") || name_is(b, s, e, fold, "params") || name_is(b, s, e, fold, "param") {
        NumPySectionKind::Parameters
    } else if name_is(b, s, e, fold, "returns") || name_is(b, s, e, fold, "return") {
        NumPySectionKind::Returns
    } else if name_is(b, s, e, fold, "yields") || name_is(b, s, e, fold, "yield") {
        NumPySectionKind::Yields
    } else if name_is(b, s, e, fold, "receives") || name_is(b, s, e, fold, "receive") {
        NumPySectionKind::Receives
    } else if name_is(b, s, e, fold, "other parameters") || name_is(b, s, e, fold, "other parameter") || name_is(b, s, e, fold, "other params") || name_is(b, s, e, fold, "other param") {
        NumPySectionKind::OtherParameters
    } else if name_is(b, s, e, fold, "raises") || name_is(b, s, e, fold, "raise") {
        NumPySectionKind::Raises
    } else if name_is(b, s, e, fold, "warns") || name_is(b, s, e, fold, "warn") {
        NumPySectionKind::Warns
    } else if name_is(b, s, e, fold, "warnings") || name_is(b, s, e, fold, "warning") {
        NumPySectionKind::Warnings
    } else if name_is(b, s, e, fold, "see also") {
        NumPySectionKind::SeeAlso
    } else if name_is(b, s, e, fold, "notes") || name_is(b, s, e, fold, "note") {
        NumPySectionKind::Notes
    } else if name_is(b, s, e, fold, "references") {
        NumPySectionKind::References
    } else if name_is(b, s, e, fold, "examples") || name_is(b, s, e, fold, "example") {
        NumPySectionKind::Examples
    } else if name_is(b, s, e, fold, "attributes") {
        NumPySectionKind::Attributes
    } else if name_is(b, s, e, fold, "methods") {
        NumPySectionKind::Methods
    } else {
        NumPySectionKind::Unknown
    }
}

impl NumPySectionKind {
    /// Convert a **lowercased** section name to its kind (`Unknown` if not
    /// recognised).
    pub fn from_name(name: &str) -> (r: Self)
        ensures
            r == numpy_kind(name.spec_bytes()),
    {
        let b = name.as_bytes();
        let r = numpy_kind_of(b, 0, b.len(), false);
        assert(b@.subrange(0, b@.len() as int) =~= b@);
        r
    }

    /// Whether a lowercased name is a known section name.
    pub fn is_known(name: &str) -> (r: bool)
        ensures
            r == (numpy_kind(name.spec_bytes()) != NumPySectionKind::Unknown),
    {
        !matches!(Self::from_name(name), NumPySectionKind::Unknown)
    }

    /// Every known section kind, in declaration order.
    pub fn all() -> (r: Vec<NumPySectionKind>)
        ensures
            r@ == numpy_known_kinds(),
    {
        let mut v: Vec<NumPySectionKind> = Vec::new();
        v.push(NumPySectionKind::Parameters);
        v.push(NumPySectionKind::Returns);
        v.push(NumPySectionKind::Yields);
        v.push(NumPySectionKind::Receives);
        v.push(NumPySectionKind::OtherParameters);
        v.push(NumPySectionKind::Raises);
        v.push(NumPySectionKind::Warns);
        v.push(NumPySectionKind::Warnings);
        v.push(NumPySectionKind::SeeAlso);
        v.push(NumPySectionKind::Notes);
        v.push(NumPySectionKind::References);
        v.push(NumPySectionKind::Examples);
        v.push(NumPySectionKind::Attributes);
        v.push(NumPySectionKind::Methods);
        assert(v@ =~= numpy_known_kinds());
        v
    }

    /// The canonical display name of the kind.
    pub fn display_name(&self) -> (r: &'static str)
        ensures
            r@ == numpy_kind_display(*self)@,
    {
        match self {
            NumPySectionKind::Parameters => "Parameters",
            NumPySectionKind::Returns => "Returns",
            NumPySectionKind::Yields => "Yields",
            NumPySectionKind::Receives => "Receives",
            NumPySectionKind::OtherParameters => "Other Parameters",
            NumPySectionKind::Raises => "Raises",
            NumPySectionKind::Warns => "Warns",
            NumPySectionKind::Warnings => "Warnings",
            NumPySectionKind::SeeAlso => "See Also",
            NumPySectionKind::Notes => "Notes",
            NumPySectionKind::References => "References",
            NumPySectionKind::Examples => "Examples",
            NumPySectionKind::Attributes => "Attributes",
            NumPySectionKind::Methods => "Methods",
            NumPySectionKind::Unknown => "Unknown",
        }
    }
}

/// The known section kinds, in declaration order.
pub open spec fn numpy_known_kinds() -> Seq<NumPySectionKind> {
    seq![
        NumPySectionKind::Parameters,
        NumPySectionKind::Returns,
        NumPySectionKind::Yields,
        NumPySectionKind::Receives,
        NumPySectionKind::OtherParameters,
        NumPySectionKind::Raises,
        NumPySectionKind::Warns,
        NumPySectionKind::Warnings,
        NumPySectionKind::SeeAlso,
        NumPySectionKind::Notes,
        NumPySectionKind::References,
        NumPySectionKind::Examples,
        NumPySectionKind::Attributes,
        NumPySectionKind::Methods,
    ]
}

/// Display names of the section kinds.
pub open spec fn numpy_kind_display(k: NumPySectionKind) -> &'static str {
    match k {
        NumPySectionKind::Parameters => "Parameters",
        NumPySectionKind::Returns => "Returns",
        NumPySectionKind::Yields => "Yields",
        NumPySectionKind::Receives => "Receives",
        NumPySectionKind::OtherParameters => "Other Parameters",
        NumPySectionKind::Raises => "Raises",
        NumPySectionKind::Warns => "Warns",
        NumPySectionKind::Warnings => "Warnings",
        NumPySectionKind::SeeAlso => "See Also",
        NumPySectionKind::Notes => "Notes",
        NumPySectionKind::References => "References",
        NumPySectionKind::Examples => "Examples",
        NumPySectionKind::Attributes => "Attributes",
        NumPySectionKind::Methods => "Methods",
        NumPySectionKind::Unknown => "Unknown",
    }
}

/// A NumPy-style section header: the name line and its dashed underline.
#[derive(Debug, Clone, Copy, PartialEq, Eq)]
pub struct NumPySectionHeader {
    /// Span from the name to the end of the underline.
    pub range: TextRange,
    pub kind: NumPySectionKind,
    pub name: TextRange,
    pub underline: TextRange,
}

/// A `.. deprecated:: version` directive with its description.
#[derive(Debug, Clone, Copy, PartialEq, Eq)]
pub struct NumPyDeprecation {
    pub range: TextRange,
    pub directive_marker: Option<TextRange>,
    pub keyword: Option<TextRange>,
    pub double_colon: Option<TextRange>,
    pub version: TextRange,
    pub description: TextRange,
}

/// A parameter entry `x1, x2 : type, optional, default=value`.
#[derive(Debug, Clone, PartialEq, Eq)]
pub struct NumPyParameter {
    pub range: TextRange,
    pub names: Vec<TextRange>,
    pub colon: Option<TextRange>,
    pub ty: Option<TextRange>,
    pub description: Option<TextRange>,
    pub optional: Option<TextRange>,
    pub default_keyword: Option<TextRange>,
    pub default_separator: Option<TextRange>,
    pub default_value: Option<TextRange>,
}

/// A return (or yield) entry `name : type` or just `type`.
#[derive(Debug, Clone, Copy, PartialEq, Eq)]
pub struct NumPyReturns {
    pub range: TextRange,
    pub name: Option<TextRange>,
    pub colon: Option<TextRange>,
    pub return_type: Option<TextRange>,
    pub description: Option<TextRange>,
}

/// An exception entry of a Raises section.
#[derive(Debug, Clone, Copy, PartialEq, Eq)]
pub struct NumPyException {
    pub range: TextRange,
    pub ty: TextRange,
    pub colon: Option<TextRange>,
    pub description: Option<TextRange>,
}

/// A warning entry of a Warns section.
#[derive(Debug, Clone, Copy, PartialEq, Eq)]
pub struct NumPyWarning {
    pub range: TextRange,
    pub ty: TextRange,
    pub colon: Option<TextRange>,
    pub description: Option<TextRange>,
}

/// A See Also entry: one or more names and an optional description.
#[derive(Debug, Clone, PartialEq, Eq)]
pub struct SeeAlsoItem {
    pub range: TextRange,
    pub names: Vec<TextRange>,
    pub colon: Option<TextRange>,
    pub description: Option<TextRange>,
}

/// A reference entry: an RST citation `.. [N] content`, or plain text.
#[derive(Debug, Clone, Copy, PartialEq, Eq)]
pub struct NumPyReference {
    pub range: TextRange,
    pub directive_marker: Option<TextRange>,
    pub open_bracket: Option<TextRange>,
    pub number: Option<TextRange>,
    pub close_bracket: Option<TextRange>,
    pub content: Option<TextRange>,
}

/// An attribute entry `name : type`.
#[derive(Debug, Clone, Copy, PartialEq, Eq)]
pub struct NumPyAttribute {
    pub range: TextRange,
    pub name: TextRange,
    pub colon: Option<TextRange>,
    pub ty: Option<TextRange>,
    pub description: Option<TextRange>,
}

/// A method entry `name` or `name : description`.
#[derive(Debug, Clone, Copy, PartialEq, Eq)]
pub struct NumPyMethod {
    pub range: TextRange,
    pub name: TextRange,
    pub colon: Option<TextRange>,
    pub description: Option<TextRange>,
}

/// Body of a NumPy-style section, by section kind.
#[derive(Debug, Clone, PartialEq, Eq)]
pub enum NumPySectionBody {
    Parameters(Vec<NumPyParameter>),
    Returns(Vec<NumPyReturns>),
    Yields(Vec<NumPyReturns>),
    Receives(Vec<NumPyParameter>),
    OtherParameters(Vec<NumPyParameter>),
    Raises(Vec<NumPyException>),
    Warns(Vec<NumPyWarning>),
    Warnings(Option<TextRange>),
    SeeAlso(Vec<SeeAlsoItem>),
    Notes(Option<TextRange>),
    References(Vec<NumPyReference>),
    Examples(Option<TextRange>),
    Attributes(Vec<NumPyAttribute>),
    Methods(Vec<NumPyMethod>),
    Unknown(Option<TextRange>),
}

/// A section: header plus body, with the range covering both.
#[derive(Debug, Clone, PartialEq, Eq)]
pub struct NumPySection {
    pub range: TextRange,
    pub header: NumPySectionHeader,
    pub body: NumPySectionBody,
}

/// An item after the summary parts: a section, or a stray non-blank line
/// outside any section.
#[derive(Debug, Clone, PartialEq, Eq)]
pub enum NumPyDocstringItem {
    Section(NumPySection),
    StrayLine(TextRange),
}

/// A parsed NumPy-style docstring.
#[derive(Debug, Clone, PartialEq, Eq)]
pub struct NumPyDocstring {
    /// Source text of the docstring.
    pub source: String,
    /// Range of the whole docstring.
    pub range: TextRange,
    /// Brief summary (first paragraph).
    pub summary: Option<TextRange>,
    /// Deprecation notice, if any.
    pub deprecation: Option<NumPyDeprecation>,
    /// Extended summary (text before the first section header).
    pub extended_summary: Option<TextRange>,
    /// Sections and stray lines in document order.
    pub items: Vec<NumPyDocstringItem>,
}

// ---------------------------------------------------------------------------
// Mathematical views
// ---------------------------------------------------------------------------

pub struct NumPyParameterV {
    pub range: TextRange,
    pub names: Seq<TextRange>,
    pub colon: Option<TextRange>,
    pub ty: Option<TextRange>,
    pub description: Option<TextRange>,
    pub optional: Option<TextRange>,
    pub default_keyword: Option<TextRange>,
    pub default_separator: Option<TextRange>,
    pub default_value: Option<TextRange>,
}

impl View for NumPyParameter {
    type V = NumPyParameterV;

    open spec fn view(&self) -> NumPyParameterV {
        NumPyParameterV {
            range: self.range,
            names: self.names@,
            colon: self.colon,
            ty: self.ty,
            description: self.description,
            optional: self.optional,
            default_keyword: self.default_keyword,
            default_separator: self.default_separator,
            default_value: self.default_value,
        }
    }
}

pub struct SeeAlsoItemV {
    pub range: TextRange,
    pub names: Seq<TextRange>,
    pub colon: Option<TextRange>,
    pub description: Option<TextRange>,
}

impl View for SeeAlsoItem {
    type V = SeeAlsoItemV;

    open spec fn view(&self) -> SeeAlsoItemV {
        SeeAlsoItemV {
            range: self.range,
            names: self.names@,
            colon: self.colon,
            description: self.description,
        }
    }
}

pub enum NumPySectionBodyV {
    Parameters(Seq<NumPyParameterV>),
    Returns(Seq<NumPyReturns>),
    Yields(Seq<NumPyReturns>),
    Receives(Seq<NumPyParameterV>),
    OtherParameters(Seq<NumPyParameterV>),
    Raises(Seq<NumPyException>),
    Warns(Seq<NumPyWarning>),
    Warnings(Option<TextRange>),
    SeeAlso(Seq<SeeAlsoItemV>),
    Notes(Option<TextRange>),
    References(Seq<NumPyReference>),
    Examples(Option<TextRange>),
    Attributes(Seq<NumPyAttribute>),
    Methods(Seq<NumPyMethod>),
    Unknown(Option<TextRange>),
}

/// The views of a vector of parameters.
pub open spec fn params_view(v: Seq<NumPyParameter>) -> Seq<NumPyParameterV> {
    v.map_values(|p: NumPyParameter| p@)
}

/// The views of a vector of See Also items.
pub open spec fn see_also_view(v: Seq<SeeAlsoItem>) -> Seq<SeeAlsoItemV> {
    v.map_values(|i: SeeAlsoItem| i@)
}

impl View for NumPySectionBody {
    type V = NumPySectionBodyV;

    open spec fn view(&self) -> NumPySectionBodyV {
        match self {
            NumPySectionBody::Parameters(v) => NumPySectionBodyV::Parameters(params_view(v@)),
            NumPySectionBody::Returns(v) => NumPySectionBodyV::Returns(v@),
            NumPySectionBody::Yields(v) => NumPySectionBodyV::Yields(v@),
            NumPySectionBody::Receives(v) => NumPySectionBodyV::Receives(params_view(v@)),
            NumPySectionBody::OtherParameters(v) => NumPySectionBodyV::OtherParameters(params_view(v@)),
            NumPySectionBody::Raises(v) => NumPySectionBodyV::Raises(v@),
            NumPySectionBody::Warns(v) => NumPySectionBodyV::Warns(v@),
            NumPySectionBody::Warnings(t) => NumPySectionBodyV::Warnings(*t),
            NumPySectionBody::SeeAlso(v) => NumPySectionBodyV::SeeAlso(see_also_view(v@)),
            NumPySectionBody::Notes(t) => NumPySectionBodyV::Notes(*t),
            NumPySectionBody::References(v) => NumPySectionBodyV::References(v@),
            NumPySectionBody::Examples(t) => NumPySectionBodyV::Examples(*t),
            NumPySectionBody::Attributes(v) => NumPySectionBodyV::Attributes(v@),
            NumPySectionBody::Methods(v) => NumPySectionBodyV::Methods(v@),
            NumPySectionBody::Unknown(t) => NumPySectionBodyV::Unknown(*t),
        }
    }
}

pub struct NumPySectionV {
    pub range: TextRange,
    pub header: NumPySectionHeader,
    pub body: NumPySectionBodyV,
}

impl View for NumPySection {
    type V = NumPySectionV;

    open spec fn view(&self) -> NumPySectionV {
        NumPySectionV { range: self.range, header: self.header, body: self.body@ }
    }
}

pub enum NumPyDocstringItemV {
    Section(NumPySectionV),
    StrayLine(TextRange),
}

impl View for NumPyDocstringItem {
    type V = NumPyDocstringItemV;

    open spec fn view(&self) -> NumPyDocstringItemV {
        match self {
            NumPyDocstringItem::Section(s) => NumPyDocstringItemV::Section(s@),
            NumPyDocstringItem::StrayLine(r) => NumPyDocstringItemV::StrayLine(*r),
        }
    }
}

/// The views of a vector of docstring items.
pub open spec fn items_view(v: Seq<NumPyDocstringItem>) -> Seq<NumPyDocstringItemV> {
    v.map_values(|i: NumPyDocstringItem| i@)
}

pub struct NumPyDocstringV {
    pub source: Seq<char>,
    pub range: TextRange,
    pub summary: Option<TextRange>,
    pub deprecation: Option<NumPyDeprecation>,
    pub extended_summary: Option<TextRange>,
    pub items: Seq<NumPyDocstringItemV>,
}

impl View for NumPyDocstring {
    type V = NumPyDocstringV;

    open spec fn view(&self) -> NumPyDocstringV {
        NumPyDocstringV {
            source: self.source@,
            range: self.range,
            summary: self.summary,
            deprecation: self.deprecation,
            extended_summary: self.extended_summary,
            items: items_view(self.items@),
        }
    }
}

/// The empty body a section of kind `k` starts with.
pub open spec fn numpy_empty_body(k: NumPySectionKind) -> NumPySectionBodyV {
    match k {
        NumPySectionKind::Parameters => NumPySectionBodyV::Parameters(seq![]),
        NumPySectionKind::Returns => NumPySectionBodyV::Returns(seq![]),
        NumPySectionKind::Yields => NumPySectionBodyV::Yields(seq![]),
        NumPySectionKind::Receives => NumPySectionBodyV::Receives(seq![]),
        NumPySectionKind::OtherParameters => NumPySectionBodyV::OtherParameters(seq![]),
        NumPySectionKind::Raises => NumPySectionBodyV::Raises(seq![]),
        NumPySectionKind::Warns => NumPySectionBodyV::Warns(seq![]),
        NumPySectionKind::Warnings => NumPySectionBodyV::Warnings(None),
        NumPySectionKind::SeeAlso => NumPySectionBodyV::SeeAlso(seq![]),
        NumPySectionKind::Notes => NumPySectionBodyV::Notes(None),
        NumPySectionKind::References => NumPySectionBodyV::References(seq![]),
        NumPySectionKind::Examples => NumPySectionBodyV::Examples(None),
        NumPySectionKind::Attributes => NumPySectionBodyV::Attributes(seq![]),
        NumPySectionKind::Methods => NumPySectionBodyV::Methods(seq![]),
        NumPySectionKind::Unknown => NumPySectionBodyV::Unknown(None),
    }
}

impl NumPySectionBody {
    /// The empty body for a section of kind `kind`.
    pub fn new(kind: NumPySectionKind) -> (r: Self)
        ensures
            r@ == numpy_empty_body(kind),
    {
        let r = match kind {
            NumPySectionKind::Parameters => NumPySectionBody::Parameters(Vec::new()),
            NumPySectionKind::Returns => NumPySectionBody::Returns(Vec::new()),
            NumPySectionKind::Yields => NumPySectionBody::Yields(Vec::new()),
            NumPySectionKind::Receives => NumPySectionBody::Receives(Vec::new()),
            NumPySectionKind::OtherParameters => NumPySectionBody::OtherParameters(Vec::new()),
            NumPySectionKind::Raises => NumPySectionBody::Raises(Vec::new()),
            NumPySectionKind::Warns => NumPySectionBody::Warns(Vec::new()),
            NumPySectionKind::Warnings => NumPySectionBody::Warnings(None),
            NumPySectionKind::SeeAlso => NumPySectionBody::SeeAlso(Vec::new()),
            NumPySectionKind::Notes => NumPySectionBody::Notes(None),
            NumPySectionKind::References => NumPySectionBody::References(Vec::new()),
            NumPySectionKind::Examples => NumPySectionBody::Examples(None),
            NumPySectionKind::Attributes => NumPySectionBody::Attributes(Vec::new()),
            NumPySectionKind::Methods => NumPySectionBody::Methods(Vec::new()),
            NumPySectionKind::Unknown => NumPySectionBody::Unknown(None),
        };
        proof {
            match &r {
                NumPySectionBody::Parameters(v) => assert(params_view(v@) =~= seq![]),
                NumPySectionBody::Receives(v) => assert(params_view(v@) =~= seq![]),
                NumPySectionBody::OtherParameters(v) => assert(params_view(v@) =~= seq![]),
                NumPySectionBody::SeeAlso(v) => assert(see_also_view(v@) =~= seq![]),
                _ => {},
            }
        }
        r
    }
}

impl NumPyDocstring {
    /// A docstring over `input` with no summary and no items.
    pub fn new(input: &str) -> (r: Self)
        ensures
            r@.source == input@,
            r@.range == TextRange::spec_empty(),
            r@.summary is None,
            r@.deprecation is None,
            r@.extended_summary is None,
            r@.items.len() == 0,
    {
        NumPyDocstring {
            source: input.to_owned(),
            range: TextRange::empty(),
            summary: None,
            deprecation: None,
            extended_summary: None,
            items: Vec::new(),
        }
    }
}

/// A See Also entry (the name used by the accessor API).
pub type NumPySeeAlsoItem = SeeAlsoItem;

impl NumPyDocstring {
    /// The source text.
    pub fn source(&self) -> (r: &str)
        ensures
            r@ == self.source@,
    {
        self.source.as_str()
    }

    /// The summary.
    pub fn summary(&self) -> (r: Option<TextRange>)
        ensures
            r == self.summary,
    {
        self.summary
    }

    /// The extended summary.
    pub fn extended_summary(&self) -> (r: Option<TextRange>)
        ensures
            r == self.extended_summary,
    {
        self.extended_summary
    }

    /// The deprecation notice.
    pub fn deprecation(&self) -> (r: Option<NumPyDeprecation>)
        ensures
            r == self.deprecation,
    {
        self.deprecation
    }

    /// The sections, in document order.
    pub fn sections(&self) -> (r: Vec<&NumPySection>)
        ensures
            r@.map_values(|s: &NumPySection| *s) == self.items@.filter(
                |i: NumPyDocstringItem| i is Section,
            ).map_values(|i: NumPyDocstringItem| i->Section_0),
    {
        let mut out: Vec<&NumPySection> = Vec::new();
        let mut i: usize = 0;
        while i < self.items.len()
            invariant
                i <= self.items@.len(),
                out@.map_values(|s: &NumPySection| *s) == self.items@.subrange(0, i as int).filter(
                    |i: NumPyDocstringItem| i is Section,
                ).map_values(|i: NumPyDocstringItem| i->Section_0),
            decreases self.items@.len() - i,
        {
            let ghost before = out@;
            let ghost pre = self.items@.subrange(0, i as int);
            proof {
                reveal(Seq::filter);
                assert(self.items@.subrange(0, i + 1).drop_last() =~= pre);
            }
            match &self.items[i] {
                NumPyDocstringItem::Section(sec) => {
                    out.push(sec);
                    assert(out@.map_values(|s: &NumPySection| *s) =~= before.map_values(
                        |s: &NumPySection| *s,
                    ).push(*sec));
                    assert(self.items@.subrange(0, i + 1).filter(|i: NumPyDocstringItem| i is Section)
                        =~= pre.filter(|i: NumPyDocstringItem| i is Section).push(self.items@[i as int]));
                },
                _ => {
                    assert(self.items@.subrange(0, i + 1).filter(|i: NumPyDocstringItem| i is Section)
                        =~= pre.filter(|i: NumPyDocstringItem| i is Section));
                },
            }
            i = i + 1;
        }
        assert(self.items@.subrange(0, i as int) =~= self.items@);
        out
    }

    /// The stray lines, in document order.
    pub fn stray_lines(&self) -> (r: Vec<TextRange>)
        ensures
            r@ == self.items@.filter(|i: NumPyDocstringItem| i is StrayLine).map_values(
                |i: NumPyDocstringItem| i->StrayLine_0,
            ),
    {
        let mut out: Vec<TextRange> = Vec::new();
        let mut i: usize = 0;
        while i < self.items.len()
            invariant
                i <= self.items@.len(),
                out@ == self.items@.subrange(0, i as int).filter(
                    |i: NumPyDocstringItem| i is StrayLine,
                ).map_values(|i: NumPyDocstringItem| i->StrayLine_0),
            decreases self.items@.len() - i,
        {
            let ghost before = out@;
            let ghost pre = self.items@.subrange(0, i as int);
            proof {
                reveal(Seq::filter);
                assert(self.items@.subrange(0, i + 1).drop_last() =~= pre);
            }
            match &self.items[i] {
                NumPyDocstringItem::StrayLine(r) => {
                    out.push(*r);
                    assert(self.items@.subrange(0, i + 1).filter(|i: NumPyDocstringItem| i is StrayLine)
                        =~= pre.filter(|i: NumPyDocstringItem| i is StrayLine).push(self.items@[i as int]));
                    assert(out@ =~= before.push(*r));
                },
                _ => {
                    assert(self.items@.subrange(0, i + 1).filter(|i: NumPyDocstringItem| i is StrayLine)
                        =~= pre.filter(|i: NumPyDocstringItem| i is StrayLine));
                },
            }
            i = i + 1;
        }
        assert(self.items@.subrange(0, i as int) =~= self.items@);
        out
    }
}

impl NumPySection {
    /// The section header.
    pub fn header(&self) -> (r: NumPySectionHeader)
        ensures
            r == self.header,
    {
        self.header
    }

    /// The section kind named by the header's text in `source`, matched
    /// ASCII case-insensitively.
    pub fn section_kind(&self, source: &str) -> (r: NumPySectionKind)
        requires
            self.header.name.lo() <= self.header.name.hi() <= source.spec_bytes().len(),
        ensures
            r == numpy_kind(
                lower_seq(
                    source.spec_bytes().subrange(self.header.name.lo(), self.header.name.hi()),
                ),
            ),
    {
        numpy_kind_of(
            source.as_bytes(),
            self.header.name.start.0 as usize,
            self.header.name.end.0 as usize,
            true,
        )
    }

    /// The parameter entries (Parameters, Other Parameters and Receives).
    pub fn parameters(&self) -> (r: &[NumPyParameter])
        ensures
            r@ == (match &self.body {
                NumPySectionBody::Parameters(v) | NumPySectionBody::OtherParameters(v) | NumPySectionBody::Receives(v) => v@,
                _ => Seq::empty(),
            }),
    {
        match &self.body {
            NumPySectionBody::Parameters(v) | NumPySectionBody::OtherParameters(v) | NumPySectionBody::Receives(v) => v.as_slice(),
            _ => &[],
        }
    }

    /// The return entries (Returns and Yields).
    pub fn return_entries(&self) -> (r: &[NumPyReturns])
        ensures
            r@ == (match &self.body {
                NumPySectionBody::Returns(v) | NumPySectionBody::Yields(v) => v@,
                _ => Seq::empty(),
            }),
    {
        match &self.body {
            NumPySectionBody::Returns(v) | NumPySectionBody::Yields(v) => v.as_slice(),
            _ => &[],
        }
    }

    /// The exception entries (Raises).
    pub fn exceptions(&self) -> (r: &[NumPyException])
        ensures
            r@ == (match &self.body {
                NumPySectionBody::Raises(v) => v@,
                _ => Seq::empty(),
            }),
    {
        match &self.body {
            NumPySectionBody::Raises(v) => v.as_slice(),
            _ => &[],
        }
    }

    /// The warning entries (Warns).
    pub fn warnings(&self) -> (r: &[NumPyWarning])
        ensures
            r@ == (match &self.body {
                NumPySectionBody::Warns(v) => v@,
                _ => Seq::empty(),
            }),
    {
        match &self.body {
            NumPySectionBody::Warns(v) => v.as_slice(),
            _ => &[],
        }
    }

    /// The See Also entries.
    pub fn see_also_items(&self) -> (r: &[SeeAlsoItem])
        ensures
            r@ == (match &self.body {
                NumPySectionBody::SeeAlso(v) => v@,
                _ => Seq::empty(),
            }),
    {
        match &self.body {
            NumPySectionBody::SeeAlso(v) => v.as_slice(),
            _ => &[],
        }
    }

    /// The reference entries.
    pub fn references(&self) -> (r: &[NumPyReference])
        ensures
            r@ == (match &self.body {
                NumPySectionBody::References(v) => v@,
                _ => Seq::empty(),
            }),
    {
        match &self.body {
            NumPySectionBody::References(v) => v.as_slice(),
            _ => &[],
        }
    }

    /// The attribute entries.
    pub fn attributes(&self) -> (r: &[NumPyAttribute])
        ensures
            r@ == (match &self.body {
                NumPySectionBody::Attributes(v) => v@,
                _ => Seq::empty(),
            }),
    {
        match &self.body {
            NumPySectionBody::Attributes(v) => v.as_slice(),
            _ => &[],
        }
    }

    /// The method entries.
    pub fn methods(&self) -> (r: &[NumPyMethod])
        ensures
            r@ == (match &self.body {
                NumPySectionBody::Methods(v) => v@,
                _ => Seq::empty(),
            }),
    {
        match &self.body {
            NumPySectionBody::Methods(v) => v.as_slice(),
            _ => &[],
        }
    }

    /// The free text of a Notes, Examples, Warnings or unknown section.
    pub fn body_text(&self) -> (r: Option<TextRange>)
        ensures
            r == (match self.body {
                NumPySectionBody::Warnings(t) | NumPySectionBody::Notes(t)
                | NumPySectionBody::Examples(t) | NumPySectionBody::Unknown(t) => t,
                _ => None,
            }),
    {
        match self.body {
            NumPySectionBody::Warnings(t) | NumPySectionBody::Notes(t)
            | NumPySectionBody::Examples(t) | NumPySectionBody::Unknown(t) => t,
            _ => None,
        }
    }
}

impl NumPySectionHeader {
    /// The section name as written.
    pub fn name(&self) -> (r: TextRange)
        ensures
            r == self.name,
    {
        self.name
    }

    /// The dashed underline.
    pub fn underline(&self) -> (r: TextRange)
        ensures
            r == self.underline,
    {
        self.underline
    }

}

/// The range if it is not empty.
pub open spec fn non_empty(r: TextRange) -> Option<TextRange> {
    if r.lo() == r.hi() {
        None
    } else {
        Some(r)
    }
}

impl NumPyDeprecation {
    /// The `..` marker.
    pub fn directive_marker(&self) -> (r: Option<TextRange>)
        ensures
            r == self.directive_marker,
    {
        self.directive_marker
    }

    /// The `deprecated` keyword.
    pub fn keyword(&self) -> (r: Option<TextRange>)
        ensures
            r == self.keyword,
    {
        self.keyword
    }

    /// The `::` separator.
    pub fn double_colon(&self) -> (r: Option<TextRange>)
        ensures
            r == self.double_colon,
    {
        self.double_colon
    }

    /// The version.
    pub fn version(&self) -> (r: TextRange)
        ensures
            r == self.version,
    {
        self.version
    }

    /// The description, if there is one.
    pub fn description(&self) -> (r: Option<TextRange>)
        ensures
            r == non_empty(self.description),
    {
        if self.description.is_empty() {
            None
        } else {
            Some(self.description)
        }
    }
}

impl NumPyParameter {
    /// The names.
    pub fn names(&self) -> (r: &[TextRange])
        ensures
            r@ == self.names@,
    {
        self.names.as_slice()
    }

    /// The colon after the names.
    pub fn colon(&self) -> (r: Option<TextRange>)
        ensures
            r == self.colon,
    {
        self.colon
    }

    /// The type.
    pub fn ty(&self) -> (r: Option<TextRange>)
        ensures
            r == self.ty,
    {
        self.ty
    }

    /// The description.
    pub fn description(&self) -> (r: Option<TextRange>)
        ensures
            r == self.description,
    {
        self.description
    }

    /// The `optional` marker.
    pub fn optional(&self) -> (r: Option<TextRange>)
        ensures
            r == self.optional,
    {
        self.optional
    }

    /// The `default` keyword.
    pub fn default_keyword(&self) -> (r: Option<TextRange>)
        ensures
            r == self.default_keyword,
    {
        self.default_keyword
    }

    /// The `=` or `:` after `default`.
    pub fn default_separator(&self) -> (r: Option<TextRange>)
        ensures
            r == self.default_separator,
    {
        self.default_separator
    }

    /// The default value.
    pub fn default_value(&self) -> (r: Option<TextRange>)
        ensures
            r == self.default_value,
    {
        self.default_value
    }

}

impl NumPyReturns {
    /// The name.
    pub fn name(&self) -> (r: Option<TextRange>)
        ensures
            r == self.name,
    {
        self.name
    }

    /// The colon after the name.
    pub fn colon(&self) -> (r: Option<TextRange>)
        ensures
            r == self.colon,
    {
        self.colon
    }

    /// The type.
    pub fn return_type(&self) -> (r: Option<TextRange>)
        ensures
            r == self.return_type,
    {
        self.return_type
    }

    /// The description.
    pub fn description(&self) -> (r: Option<TextRange>)
        ensures
            r == self.description,
    {
        self.description
    }

}

impl NumPyException {
    /// The exception type.
    pub fn ty(&self) -> (r: TextRange)
        ensures
            r == self.ty,
    {
        self.ty
    }

    /// The colon after the type.
    pub fn colon(&self) -> (r: Option<TextRange>)
        ensures
            r == self.colon,
    {
        self.colon
    }

    /// The description.
    pub fn description(&self) -> (r: Option<TextRange>)
        ensures
            r == self.description,
    {
        self.description
    }

}

impl NumPyWarning {
    /// The warning type.
    pub fn ty(&self) -> (r: TextRange)
        ensures
            r == self.ty,
    {
        self.ty
    }

    /// The colon after the type.
    pub fn colon(&self) -> (r: Option<TextRange>)
        ensures
            r == self.colon,
    {
        self.colon
    }

    /// The description.
    pub fn description(&self) -> (r: Option<TextRange>)
        ensures
            r == self.description,
    {
        self.description
    }

}

impl SeeAlsoItem {
    /// The names.
    pub fn names(&self) -> (r: &[TextRange])
        ensures
            r@ == self.names@,
    {
        self.names.as_slice()
    }

    /// The colon after the names.
    pub fn colon(&self) -> (r: Option<TextRange>)
        ensures
            r == self.colon,
    {
        self.colon
    }

    /// The description.
    pub fn description(&self) -> (r: Option<TextRange>)
        ensures
            r == self.description,
    {
        self.description
    }

}

impl NumPyReference {
    /// The `..` marker.
    pub fn directive_marker(&self) -> (r: Option<TextRange>)
        ensures
            r == self.directive_marker,
    {
        self.directive_marker
    }

    /// The `[`.
    pub fn open_bracket(&self) -> (r: Option<TextRange>)
        ensures
            r == self.open_bracket,
    {
        self.open_bracket
    }

    /// The citation number.
    pub fn number(&self) -> (r: Option<TextRange>)
        ensures
            r == self.number,
    {
        self.number
    }

    /// The `]`.
    pub fn close_bracket(&self) -> (r: Option<TextRange>)
        ensures
            r == self.close_bracket,
    {
        self.close_bracket
    }

    /// The content.
    pub fn content(&self) -> (r: Option<TextRange>)
        ensures
            r == self.content,
    {
        self.content
    }

}

impl NumPyAttribute {
    /// The name.
    pub fn name(&self) -> (r: TextRange)
        ensures
            r == self.name,
    {
        self.name
    }

    /// The colon after the name.
    pub fn colon(&self) -> (r: Option<TextRange>)
        ensures
            r == self.colon,
    {
        self.colon
    }

    /// The type.
    pub fn ty(&self) -> (r: Option<TextRange>)
        ensures
            r == self.ty,
    {
        self.ty
    }

    /// The description.
    pub fn description(&self) -> (r: Option<TextRange>)
        ensures
            r == self.description,
    {
        self.description
    }

}

impl NumPyMethod {
    /// The name.
    pub fn name(&self) -> (r: TextRange)
        ensures
            r == self.name,
    {
        self.name
    }

    /// The colon after the name.
    pub fn colon(&self) -> (r: Option<TextRange>)
        ensures
            r == self.colon,
    {
        self.colon
    }

    /// The description.
    pub fn description(&self) -> (r: Option<TextRange>)
        ensures
            r == self.description,
    {
        self.description
    }

}

/// Law: the display name of every section kind, lowercased, is a name that
/// `from_name` maps back to that kind.
pub proof fn law_numpy_kind_name_round_trip(k: NumPySectionKind)
    ensures
        numpy_kind(lower_seq(numpy_kind_display(k).spec_bytes())) == k,
{
    broadcast use vstd::string::is_ascii_spec_bytes;
    reveal_strlit("parameters");
    assert(vstd::string::is_ascii("parameters"));
    reveal_strlit("parameter");
    assert(vstd::string::is_ascii("parameter"));
    reveal_strlit("params");
    assert(vstd::string::is_ascii("params"));
    reveal_strlit("param");
    assert(vstd::string::is_ascii("param"));
    reveal_strlit("returns");
    assert(vstd::string::is_ascii("returns"));
    reveal_strlit("return");
    assert(vstd::string::is_ascii("return"));
    reveal_strlit("yields");
    assert(vstd::string::is_ascii("yields"));
    reveal_strlit("yield");
    assert(vstd::string::is_ascii("yield"));
    reveal_strlit("receives");
    assert(vstd::string::is_ascii("receives"));
    reveal_strlit("receive");
    assert(vstd::string::is_ascii("receive"));
    reveal_strlit("other parameters");
    assert(vstd::string::is_ascii("other parameters"));
    reveal_strlit("other parameter");
    assert(vstd::string::is_ascii("other parameter"));
    reveal_strlit("other params");
    assert(vstd::string::is_ascii("other params"));
    reveal_strlit("other param");
    assert(vstd::string::is_ascii("other param"));
    reveal_strlit("raises");
    assert(vstd::string::is_ascii("raises"));
    reveal_strlit("raise");
    assert(vstd::string::is_ascii("raise"));
    reveal_strlit("warns");
    assert(vstd::string::is_ascii("warns"));
    reveal_strlit("warn");
    assert(vstd::string::is_ascii("warn"));
    reveal_strlit("warnings");
    assert(vstd::string::is_ascii("warnings"));
    reveal_strlit("warning");
    assert(vstd::string::is_ascii("warning"));
    reveal_strlit("see also");
    assert(vstd::string::is_ascii("see also"));
    reveal_strlit("notes");
    assert(vstd::string::is_ascii("notes"));
    reveal_strlit("note");
    assert(vstd::string::is_ascii("note"));
    reveal_strlit("references");
    assert(vstd::string::is_ascii("references"));
    reveal_strlit("examples");
    assert(vstd::string::is_ascii("examples"));
    reveal_strlit("example");
    assert(vstd::string::is_ascii("example"));
    reveal_strlit("attributes");
    assert(vstd::string::is_ascii("attributes"));
    reveal_strlit("methods");
    assert(vstd::string::is_ascii("methods"));
    match k {
        NumPySectionKind::Parameters => {
            reveal_strlit("Parameters");
            reveal_strlit("parameters");
            assert(vstd::string::is_ascii("Parameters"));
            assert(vstd::string::is_ascii("parameters"));
            let n = lower_seq("Parameters".spec_bytes());
            assert(n =~= "parameters".spec_bytes());
            assert(n[0] == 112 && n[1] == 97 && n[2] == 114);
        },
        NumPySectionKind::Returns => {
            reveal_strlit("Returns");
            reveal_strlit("returns");
            assert(vstd::string::is_ascii("Returns"));
            assert(vstd::string::is_ascii("returns"));
            let n = lower_seq("Returns".spec_bytes());
            assert(n =~= "returns".spec_bytes());
            assert(n[0] == 114 && n[1] == 101 && n[2] == 116);
        },
        NumPySectionKind::Yields => {
            reveal_strlit("Yields");
            reveal_strlit("yields");
            assert(vstd::string::is_ascii("Yields"));
            assert(vstd::string::is_ascii("yields"));
            let n = lower_seq("Yields".spec_bytes());
            assert(n =~= "yields".spec_bytes());
            assert(n[0] == 121 && n[1] == 105 && n[2] == 101);
        },
        NumPySectionKind::Receives => {
            reveal_strlit("Receives");
            reveal_strlit("receives");
            assert(vstd::string::is_ascii("Receives"));
            assert(vstd::string::is_ascii("receives"));
            let n = lower_seq("Receives".spec_bytes());
            assert(n =~= "receives".spec_bytes());
            assert(n[0] == 114 && n[1] == 101 && n[2] == 99);
        },
        NumPySectionKind::OtherParameters => {
            reveal_strlit("Other Parameters");
            reveal_strlit("other parameters");
            assert(vstd::string::is_ascii("Other Parameters"));
            assert(vstd::string::is_ascii("other parameters"));
            let n = lower_seq("Other Parameters".spec_bytes());
            assert(n =~= "other parameters".spec_bytes());
            assert(n[0] == 111 && n[1] == 116 && n[2] == 104);
        },
        NumPySectionKind::Raises => {
            reveal_strlit("Raises");
            reveal_strlit("raises");
            assert(vstd::string::is_ascii("Raises"));
            assert(vstd::string::is_ascii("raises"));
            let n = lower_seq("Raises".spec_bytes());
            assert(n =~= "raises".spec_bytes());
            assert(n[0] == 114 && n[1] == 97 && n[2] == 105);
        },
        NumPySectionKind::Warns => {
            reveal_strlit("Warns");
            reveal_strlit("warns");
            assert(vstd::string::is_ascii("Warns"));
            assert(vstd::string::is_ascii("warns"));
            let n = lower_seq("Warns".spec_bytes());
            assert(n =~= "warns".spec_bytes());
            assert(n[0] == 119 && n[1] == 97 && n[2] == 114);
        },
        NumPySectionKind::Warnings => {
            reveal_strlit("Warnings");
            reveal_strlit("warnings");
            assert(vstd::string::is_ascii("Warnings"));
            assert(vstd::string::is_ascii("warnings"));
            let n = lower_seq("Warnings".spec_bytes());
            assert(n =~= "warnings".spec_bytes());
            assert(n[0] == 119 && n[1] == 97 && n[2] == 114);
        },
        NumPySectionKind::SeeAlso => {
            reveal_strlit("See Also");
            reveal_strlit("see also");
            assert(vstd::string::is_ascii("See Also"));
            assert(vstd::string::is_ascii("see also"));
            let n = lower_seq("See Also".spec_bytes());
            assert(n =~= "see also".spec_bytes());
            assert(n[0] == 115 && n[1] == 101 && n[2] == 101);
        },
        NumPySectionKind::Notes => {
            reveal_strlit("Notes");
            reveal_strlit("notes");
            assert(vstd::string::is_ascii("Notes"));
            assert(vstd::string::is_ascii("notes"));
            let n = lower_seq("Notes".spec_bytes());
            assert(n =~= "notes".spec_bytes());
            assert(n[0] == 110 && n[1] == 111 && n[2] == 116);
        },
        NumPySectionKind::References => {
            reveal_strlit("References");
            reveal_strlit("references");
            assert(vstd::string::is_ascii("References"));
            assert(vstd::string::is_ascii("references"));
            let n = lower_seq("References".spec_bytes());
            assert(n =~= "references".spec_bytes());
            assert(n[0] == 114 && n[1] == 101 && n[2] == 102);
        },
        NumPySectionKind::Examples => {
            reveal_strlit("Examples");
            reveal_strlit("examples");
            assert(vstd::string::is_ascii("Examples"));
            assert(vstd::string::is_ascii("examples"));
            let n = lower_seq("Examples".spec_bytes());
            assert(n =~= "examples".spec_bytes());
            assert(n[0] == 101 && n[1] == 120 && n[2] == 97);
        },
        NumPySectionKind::Attributes => {
            reveal_strlit("Attributes");
            reveal_strlit("attributes");
            assert(vstd::string::is_ascii("Attributes"));
            assert(vstd::string::is_ascii("attributes"));
            let n = lower_seq("Attributes".spec_bytes());
            assert(n =~= "attributes".spec_bytes());
            assert(n[0] == 97 && n[1] == 116 && n[2] == 116);
        },
        NumPySectionKind::Methods => {
            reveal_strlit("Methods");
            reveal_strlit("methods");
            assert(vstd::string::is_ascii("Methods"));
            assert(vstd::string::is_ascii("methods"));
            let n = lower_seq("Methods".spec_bytes());
            assert(n =~= "methods".spec_bytes());
            assert(n[0] == 109 && n[1] == 101 && n[2] == 116);
        },
        NumPySectionKind::Unknown => {
            reveal_strlit("Unknown");
            reveal_strlit("unknown");
            assert(vstd::string::is_ascii("Unknown"));
            assert(vstd::string::is_ascii("unknown"));
            let n = lower_seq("Unknown".spec_bytes());
            assert(n =~= "unknown".spec_bytes());
            assert(n[0] == 117 && n[1] == 110 && n[2] == 107);
        },
    }
}

/// The number of NumPy-style section names.
pub open spec fn numpy_section_name_count() -> int {
    28
}

/// The NumPy-style section name `i` (lowercased), with the kind it names.
pub open spec fn numpy_section_name(i: int) -> (Seq<u8>, NumPySectionKind) {
    if i == 0 {
        ("parameters".spec_bytes(), NumPySectionKind::Parameters)
    } else if i == 1 {
        ("parameter".spec_bytes(), NumPySectionKind::Parameters)
    } else if i == 2 {
        ("params".spec_bytes(), NumPySectionKind::Parameters)
    } else if i == 3 {
        ("param".spec_bytes(), NumPySectionKind::Parameters)
    } else if i == 4 {
        ("returns".spec_bytes(), NumPySectionKind::Returns)
    } else if i == 5 {
        ("return".spec_bytes(), NumPySectionKind::Returns)
    } else if i == 6 {
        ("yields".spec_bytes(), NumPySectionKind::Yields)
    } else if i == 7 {
        ("yield".spec_bytes(), NumPySectionKind::Yields)
    } else if i == 8 {
        ("receives".spec_bytes(), NumPySectionKind::Receives)
    } else if i == 9 {
        ("receive".spec_bytes(), NumPySectionKind::Receives)
    } else if i == 10 {
        ("other parameters".spec_bytes(), NumPySectionKind::OtherParameters)
    } else if i == 11 {
        ("other parameter".spec_bytes(), NumPySectionKind::OtherParameters)
    } else if i == 12 {
        ("other params".spec_bytes(), NumPySectionKind::OtherParameters)
    } else if i == 13 {
        ("other param".spec_bytes(), NumPySectionKind::OtherParameters)
    } else if i == 14 {
        ("raises".spec_bytes(), NumPySectionKind::Raises)
    } else if i == 15 {
        ("raise".spec_bytes(), NumPySectionKind::Raises)
    } else if i == 16 {
        ("warns".spec_bytes(), NumPySectionKind::Warns)
    } else if i == 17 {
        ("warn".spec_bytes(), NumPySectionKind::Warns)
    } else if i == 18 {
        ("warnings".spec_bytes(), NumPySectionKind::Warnings)
    } else if i == 19 {
        ("warning".spec_bytes(), NumPySectionKind::Warnings)
    } else if i == 20 {
        ("see also".spec_bytes(), NumPySectionKind::SeeAlso)
    } else if i == 21 {
        ("notes".spec_bytes(), NumPySectionKind::Notes)
    } else if i == 22 {
        ("note".spec_bytes(), NumPySectionKind::Notes)
    } else if i == 23 {
        ("references".spec_bytes(), NumPySectionKind::References)
    } else if i == 24 {
        ("examples".spec_bytes(), NumPySectionKind::Examples)
    } else if i == 25 {
        ("example".spec_bytes(), NumPySectionKind::Examples)
    } else if i == 26 {
        ("attributes".spec_bytes(), NumPySectionKind::Attributes)
    } else if i == 27 {
        ("methods".spec_bytes(), NumPySectionKind::Methods)
    } else {
        (Seq::empty(), NumPySectionKind::Unknown)
    }
}

/// Names 0 to 3 of the NumPy-style name table name their kinds.
proof fn lemma_numpy_section_names_0()
    ensures
        numpy_kind("parameters".spec_bytes()) == NumPySectionKind::Parameters,
        numpy_kind("parameter".spec_bytes()) == NumPySectionKind::Parameters,
        numpy_kind("params".spec_bytes()) == NumPySectionKind::Parameters,
        numpy_kind("param".spec_bytes()) == NumPySectionKind::Parameters,
{
    broadcast use vstd::string::is_ascii_spec_bytes;
    reveal_strlit("parameters");
    assert(vstd::string::is_ascii("parameters"));
    reveal_strlit("parameter");
    assert(vstd::string::is_ascii("parameter"));
    reveal_strlit("params");
    assert(vstd::string::is_ascii("params"));
    reveal_strlit("param");
    assert(vstd::string::is_ascii("param"));
    reveal_strlit("returns");
    assert(vstd::string::is_ascii("returns"));
    reveal_strlit("return");
    assert(vstd::string::is_ascii("return"));
    reveal_strlit("yields");
    assert(vstd::string::is_ascii("yields"));
    reveal_strlit("yield");
    assert(vstd::string::is_ascii("yield"));
    reveal_strlit("receives");
    assert(vstd::string::is_ascii("receives"));
    reveal_strlit("receive");
    assert(vstd::string::is_ascii("receive"));
    reveal_strlit("other parameters");
    assert(vstd::string::is_ascii("other parameters"));
    reveal_strlit("other parameter");
    assert(vstd::string::is_ascii("other parameter"));
    reveal_strlit("other params");
    assert(vstd::string::is_ascii("other params"));
    reveal_strlit("other param");
    assert(vstd::string::is_ascii("other param"));
    reveal_strlit("raises");
    assert(vstd::string::is_ascii("raises"));
    reveal_strlit("raise");
    assert(vstd::string::is_ascii("raise"));
    reveal_strlit("warns");
    assert(vstd::string::is_ascii("warns"));
    reveal_strlit("warn");
    assert(vstd::string::is_ascii("warn"));
    reveal_strlit("warnings");
    assert(vstd::string::is_ascii("warnings"));
    reveal_strlit("warning");
    assert(vstd::string::is_ascii("warning"));
    reveal_strlit("see also");
    assert(vstd::string::is_ascii("see also"));
    reveal_strlit("notes");
    assert(vstd::string::is_ascii("notes"));
    reveal_strlit("note");
    assert(vstd::string::is_ascii("note"));
    reveal_strlit("references");
    assert(vstd::string::is_ascii("references"));
    reveal_strlit("examples");
    assert(vstd::string::is_ascii("examples"));
    reveal_strlit("example");
    assert(vstd::string::is_ascii("example"));
    reveal_strlit("attributes");
    assert(vstd::string::is_ascii("attributes"));
    reveal_strlit("methods");
    assert(vstd::string::is_ascii("methods"));
    assert(numpy_kind("parameters".spec_bytes()) == NumPySectionKind::Parameters) by {
        let n = "parameters".spec_bytes();
        assert(n[0] == 112 && n[1] == 97 && n[2] == 114 && n[3] == 97 && n[4] == 109);
    }
    assert(numpy_kind("parameter".spec_bytes()) == NumPySectionKind::Parameters) by {
        let n = "parameter".spec_bytes();
        assert(n[0] == 112 && n[1] == 97 && n[2] == 114 && n[3] == 97 && n[4] == 109);
    }
    assert(numpy_kind("params".spec_bytes()) == NumPySectionKind::Parameters) by {
        let n = "params".spec_bytes();
        assert(n[0] == 112 && n[1] == 97 && n[2] == 114 && n[3] == 97 && n[4] == 109);
    }
    assert(numpy_kind("param".spec_bytes()) == NumPySectionKind::Parameters) by {
        let n = "param".spec_bytes();
        assert(n[0] == 112 && n[1] == 97 && n[2] == 114 && n[3] == 97 && n[4] == 109);
    }
}

/// Names 4 to 7 of the NumPy-style name table name their kinds.
proof fn lemma_numpy_section_names_1()
    ensures
        numpy_kind("returns".spec_bytes()) == NumPySectionKind::Returns,
        numpy_kind("return".spec_bytes()) == NumPySectionKind::Returns,
        numpy_kind("yields".spec_bytes()) == NumPySectionKind::Yields,
        numpy_kind("yield".spec_bytes()) == NumPySectionKind::Yields,
{
    broadcast use vstd::string::is_ascii_spec_bytes;
    reveal_strlit("parameters");
    assert(vstd::string::is_ascii("parameters"));
    reveal_strlit("parameter");
    assert(vstd::string::is_ascii("parameter"));
    reveal_strlit("params");
    assert(vstd::string::is_ascii("params"));
    reveal_strlit("param");
    assert(vstd::string::is_ascii("param"));
    reveal_strlit("returns");
    assert(vstd::string::is_ascii("returns"));
    reveal_strlit("return");
    assert(vstd::string::is_ascii("return"));
    reveal_strlit("yields");
    assert(vstd::string::is_ascii("yields"));
    reveal_strlit("yield");
    assert(vstd::string::is_ascii("yield"));
    reveal_strlit("receives");
    assert(vstd::string::is_ascii("receives"));
    reveal_strlit("receive");
    assert(vstd::string::is_ascii("receive"));
    reveal_strlit("other parameters");
    assert(vstd::string::is_ascii("other parameters"));
    reveal_strlit("other parameter");
    assert(vstd::string::is_ascii("other parameter"));
    reveal_strlit("other params");
    assert(vstd::string::is_ascii("other params"));
    reveal_strlit("other param");
    assert(vstd::string::is_ascii("other param"));
    reveal_strlit("raises");
    assert(vstd::string::is_ascii("raises"));
    reveal_strlit("raise");
    assert(vstd::string::is_ascii("raise"));
    reveal_strlit("warns");
    assert(vstd::string::is_ascii("warns"));
    reveal_strlit("warn");
    assert(vstd::string::is_ascii("warn"));
    reveal_strlit("warnings");
    assert(vstd::string::is_ascii("warnings"));
    reveal_strlit("warning");
    assert(vstd::string::is_ascii("warning"));
    reveal_strlit("see also");
    assert(vstd::string::is_ascii("see also"));
    reveal_strlit("notes");
    assert(vstd::string::is_ascii("notes"));
    reveal_strlit("note");
    assert(vstd::string::is_ascii("note"));
    reveal_strlit("references");
    assert(vstd::string::is_ascii("references"));
    reveal_strlit("examples");
    assert(vstd::string::is_ascii("examples"));
    reveal_strlit("example");
    assert(vstd::string::is_ascii("example"));
    reveal_strlit("attributes");
    assert(vstd::string::is_ascii("attributes"));
    reveal_strlit("methods");
    assert(vstd::string::is_ascii("methods"));
    assert(numpy_kind("returns".spec_bytes()) == NumPySectionKind::Returns) by {
        let n = "returns".spec_bytes();
        assert(n[0] == 114 && n[1] == 101 && n[2] == 116 && n[3] == 117 && n[4] == 114);
    }
    assert(numpy_kind("return".spec_bytes()) == NumPySectionKind::Returns) by {
        let n = "return".spec_bytes();
        assert(n[0] == 114 && n[1] == 101 && n[2] == 116 && n[3] == 117 && n[4] == 114);
    }
    assert(numpy_kind("yields".spec_bytes()) == NumPySectionKind::Yields) by {
        let n = "yields".spec_bytes();
        assert(n[0] == 121 && n[1] == 105 && n[2] == 101 && n[3] == 108 && n[4] == 100);
    }
    assert(numpy_kind("yield".spec_bytes()) == NumPySectionKind::Yields) by {
        let n = "yield".spec_bytes();
        assert(n[0] == 121 && n[1] == 105 && n[2] == 101 && n[3] == 108 && n[4] == 100);
    }
}

/// Names 8 to 11 of the NumPy-style name table name their kinds.
proof fn lemma_numpy_section_names_2()
    ensures
        numpy_kind("receives".spec_bytes()) == NumPySectionKind::Receives,
        numpy_kind("receive".spec_bytes()) == NumPySectionKind::Receives,
        numpy_kind("other parameters".spec_bytes()) == NumPySectionKind::OtherParameters,
        numpy_kind("other parameter".spec_bytes()) == NumPySectionKind::OtherParameters,
{
    broadcast use vstd::string::is_ascii_spec_bytes;
    reveal_strlit("parameters");
    assert(vstd::string::is_ascii("parameters"));
    reveal_strlit("parameter");
    assert(vstd::string::is_ascii("parameter"));
    reveal_strlit("params");
    assert(vstd::string::is_ascii("params"));
    reveal_strlit("param");
    assert(vstd::string::is_ascii("param"));
    reveal_strlit("returns");
    assert(vstd::string::is_ascii("returns"));
    reveal_strlit("return");
    assert(vstd::string::is_ascii("return"));
    reveal_strlit("yields");
    assert(vstd::string::is_ascii("yields"));
    reveal_strlit("yield");
    assert(vstd::string::is_ascii("yield"));
    reveal_strlit("receives");
    assert(vstd::string::is_ascii("receives"));
    reveal_strlit("receive");
    assert(vstd::string::is_ascii("receive"));
    reveal_strlit("other parameters");
    assert(vstd::string::is_ascii("other parameters"));
    reveal_strlit("other parameter");
    assert(vstd::string::is_ascii("other parameter"));
    reveal_strlit("other params");
    assert(vstd::string::is_ascii("other params"));
    reveal_strlit("other param");
    assert(vstd::string::is_ascii("other param"));
    reveal_strlit("raises");
    assert(vstd::string::is_ascii("raises"));
    reveal_strlit("raise");
    assert(vstd::string::is_ascii("raise"));
    reveal_strlit("warns");
    assert(vstd::string::is_ascii("warns"));
    reveal_strlit("warn");
    assert(vstd::string::is_ascii("warn"));
    reveal_strlit("warnings");
    assert(vstd::string::is_ascii("warnings"));
    reveal_strlit("warning");
    assert(vstd::string::is_ascii("warning"));
    reveal_strlit("see also");
    assert(vstd::string::is_ascii("see also"));
    reveal_strlit("notes");
    assert(vstd::string::is_ascii("notes"));
    reveal_strlit("note");
    assert(vstd::string::is_ascii("note"));
    reveal_strlit("references");
    assert(vstd::string::is_ascii("references"));
    reveal_strlit("examples");
    assert(vstd::string::is_ascii("examples"));
    reveal_strlit("example");
    assert(vstd::string::is_ascii("example"));
    reveal_strlit("attributes");
    assert(vstd::string::is_ascii("attributes"));
    reveal_strlit("methods");
    assert(vstd::string::is_ascii("methods"));
    assert(numpy_kind("receives".spec_bytes()) == NumPySectionKind::Receives) by {
        let n = "receives".spec_bytes();
        assert(n[0] == 114 && n[1] == 101 && n[2] == 99 && n[3] == 101 && n[4] == 105);
    }
    assert(numpy_kind("receive".spec_bytes()) == NumPySectionKind::Receives) by {
        let n = "receive".spec_bytes();
        assert(n[0] == 114 && n[1] == 101 && n[2] == 99 && n[3] == 101 && n[4] == 105);
    }
    assert(numpy_kind("other parameters".spec_bytes()) == NumPySectionKind::OtherParameters) by {
        let n = "other parameters".spec_bytes();
        assert(n[0] == 111 && n[1] == 116 && n[2] == 104 && n[3] == 101 && n[4] == 114);
    }
    assert(numpy_kind("other parameter".spec_bytes()) == NumPySectionKind::OtherParameters) by {
        let n = "other parameter".spec_bytes();
        assert(n[0] == 111 && n[1] == 116 && n[2] == 104 && n[3] == 101 && n[4] == 114);
    }
}

/// Names 12 to 15 of the NumPy-style name table name their kinds.
proof fn lemma_numpy_section_names_3()
    ensures
        numpy_kind("other params".spec_bytes()) == NumPySectionKind::OtherParameters,
        numpy_kind("other param".spec_bytes()) == NumPySectionKind::OtherParameters,
        numpy_kind("raises".spec_bytes()) == NumPySectionKind::Raises,
        numpy_kind("raise".spec_bytes()) == NumPySectionKind::Raises,
{
    broadcast use vstd::string::is_ascii_spec_bytes;
    reveal_strlit("parameters");
    assert(vstd::string::is_ascii("parameters"));
    reveal_strlit("parameter");
    assert(vstd::string::is_ascii("parameter"));
    reveal_strlit("params");
    assert(vstd::string::is_ascii("params"));
    reveal_strlit("param");
    assert(vstd::string::is_ascii("param"));
    reveal_strlit("returns");
    assert(vstd::string::is_ascii("returns"));
    reveal_strlit("return");
    assert(vstd::string::is_ascii("return"));
    reveal_strlit("yields");
    assert(vstd::string::is_ascii("yields"));
    reveal_strlit("yield");
    assert(vstd::string::is_ascii("yield"));
    reveal_strlit("receives");
    assert(vstd::string::is_ascii("receives"));
    reveal_strlit("receive");
    assert(vstd::string::is_ascii("receive"));
    reveal_strlit("other parameters");
    assert(vstd::string::is_ascii("other parameters"));
    reveal_strlit("other parameter");
    assert(vstd::string::is_ascii("other parameter"));
    reveal_strlit("other params");
    assert(vstd::string::is_ascii("other params"));
    reveal_strlit("other param");
    assert(vstd::string::is_ascii("other param"));
    reveal_strlit("raises");
    assert(vstd::string::is_ascii("raises"));
    reveal_strlit("raise");
    assert(vstd::string::is_ascii("raise"));
    reveal_strlit("warns");
    assert(vstd::string::is_ascii("warns"));
    reveal_strlit("warn");
    assert(vstd::string::is_ascii("warn"));
    reveal_strlit("warnings");
    assert(vstd::string::is_ascii("warnings"));
    reveal_strlit("warning");
    assert(vstd::string::is_ascii("warning"));
    reveal_strlit("see also");
    assert(vstd::string::is_ascii("see also"));
    reveal_strlit("notes");
    assert(vstd::string::is_ascii("notes"));
    reveal_strlit("note");
    assert(vstd::string::is_ascii("note"));
    reveal_strlit("references");
    assert(vstd::string::is_ascii("references"));
    reveal_strlit("examples");
    assert(vstd::string::is_ascii("examples"));
    reveal_strlit("example");
    assert(vstd::string::is_ascii("example"));
    reveal_strlit("attributes");
    assert(vstd::string::is_ascii("attributes"));
    reveal_strlit("methods");
    assert(vstd::string::is_ascii("methods"));
    assert(numpy_kind("other params".spec_bytes()) == NumPySectionKind::OtherParameters) by {
        let n = "other params".spec_bytes();
        assert(n[0] == 111 && n[1] == 116 && n[2] == 104 && n[3] == 101 && n[4] == 114);
    }
    assert(numpy_kind("other param".spec_bytes()) == NumPySectionKind::OtherParameters) by {
        let n = "other param".spec_bytes();
        assert(n[0] == 111 && n[1] == 116 && n[2] == 104 && n[3] == 101 && n[4] == 114);
    }
    assert(numpy_kind("raises".spec_bytes()) == NumPySectionKind::Raises) by {
        let n = "raises".spec_bytes();
        assert(n[0] == 114 && n[1] == 97 && n[2] == 105 && n[3] == 115 && n[4] == 101);
    }
    assert(numpy_kind("raise".spec_bytes()) == NumPySectionKind::Raises) by {
        let n = "raise".spec_bytes();
        assert(n[0] == 114 && n[1] == 97 && n[2] == 105 && n[3] == 115 && n[4] == 101);
    }
}

/// Names 16 to 19 of the NumPy-style name table name their kinds.
proof fn lemma_numpy_section_names_4()
    ensures
        numpy_kind("warns".spec_bytes()) == NumPySectionKind::Warns,
        numpy_kind("warn".spec_bytes()) == NumPySectionKind::Warns,
        numpy_kind("warnings".spec_bytes()) == NumPySectionKind::Warnings,
        numpy_kind("warning".spec_bytes()) == NumPySectionKind::Warnings,
{
    broadcast use vstd::string::is_ascii_spec_bytes;
    reveal_strlit("parameters");
    assert(vstd::string::is_ascii("parameters"));
    reveal_strlit("parameter");
    assert(vstd::string::is_ascii("parameter"));
    reveal_strlit("params");
    assert(vstd::string::is_ascii("params"));
    reveal_strlit("param");
    assert(vstd::string::is_ascii("param"));
    reveal_strlit("returns");
    assert(vstd::string::is_ascii("returns"));
    reveal_strlit("return");
    assert(vstd::string::is_ascii("return"));
    reveal_strlit("yields");
    assert(vstd::string::is_ascii("yields"));
    reveal_strlit("yield");
    assert(vstd::string::is_ascii("yield"));
    reveal_strlit("receives");
    assert(vstd::string::is_ascii("receives"));
    reveal_strlit("receive");
    assert(vstd::string::is_ascii("receive"));
    reveal_strlit("other parameters");
    assert(vstd::string::is_ascii("other parameters"));
    reveal_strlit("other parameter");
    assert(vstd::string::is_ascii("other parameter"));
    reveal_strlit("other params");
    assert(vstd::string::is_ascii("other params"));
    reveal_strlit("other param");
    assert(vstd::string::is_ascii("other param"));
    reveal_strlit("raises");
    assert(vstd::string::is_ascii("raises"));
    reveal_strlit("raise");
    assert(vstd::string::is_ascii("raise"));
    reveal_strlit("warns");
    assert(vstd::string::is_ascii("warns"));
    reveal_strlit("warn");
    assert(vstd::string::is_ascii("warn"));
    reveal_strlit("warnings");
    assert(vstd::string::is_ascii("warnings"));
    reveal_strlit("warning");
    assert(vstd::string::is_ascii("warning"));
    reveal_strlit("see also");
    assert(vstd::string::is_ascii("see also"));
    reveal_strlit("notes");
    assert(vstd::string::is_ascii("notes"));
    reveal_strlit("note");
    assert(vstd::string::is_ascii("note"));
    reveal_strlit("references");
    assert(vstd::string::is_ascii("references"));
    reveal_strlit("examples");
    assert(vstd::string::is_ascii("examples"));
    reveal_strlit("example");
    assert(vstd::string::is_ascii("example"));
    reveal_strlit("attributes");
    assert(vstd::string::is_ascii("attributes"));
    reveal_strlit("methods");
    assert(vstd::string::is_ascii("methods"));
    assert(numpy_kind("warns".spec_bytes()) == NumPySectionKind::Warns) by {
        let n = "warns".spec_bytes();
        assert(n[0] == 119 && n[1] == 97 && n[2] == 114 && n[3] == 110 && n[4] == 115);
    }
    assert(numpy_kind("warn".spec_bytes()) == NumPySectionKind::Warns) by {
        let n = "warn".spec_bytes();
        assert(n[0] == 119 && n[1] == 97 && n[2] == 114 && n[3] == 110);
    }
    assert(numpy_kind("warnings".spec_bytes()) == NumPySectionKind::Warnings) by {
        let n = "warnings".spec_bytes();
        assert(n[0] == 119 && n[1] == 97 && n[2] == 114 && n[3] == 110 && n[4] == 105);
    }
    assert(numpy_kind("warning".spec_bytes()) == NumPySectionKind::Warnings) by {
        let n = "warning".spec_bytes();
        assert(n[0] == 119 && n[1] == 97 && n[2] == 114 && n[3] == 110 && n[4] == 105);
    }
}

/// Names 20 to 23 of the NumPy-style name table name their kinds.
proof fn lemma_numpy_section_names_5()
    ensures
        numpy_kind("see also".spec_bytes()) == NumPySectionKind::SeeAlso,
        numpy_kind("notes".spec_bytes()) == NumPySectionKind::Notes,
        numpy_kind("note".spec_bytes()) == NumPySectionKind::Notes,
        numpy_kind("references".spec_bytes()) == NumPySectionKind::References,
{
    broadcast use vstd::string::is_ascii_spec_bytes;
    reveal_strlit("parameters");
    assert(vstd::string::is_ascii("parameters"));
    reveal_strlit("parameter");
    assert(vstd::string::is_ascii("parameter"));
    reveal_strlit("params");
    assert(vstd::string::is_ascii("params"));
    reveal_strlit("param");
    assert(vstd::string::is_ascii("param"));
    reveal_strlit("returns");
    assert(vstd::string::is_ascii("returns"));
    reveal_strlit("return");
    assert(vstd::string::is_ascii("return"));
    reveal_strlit("yields");
    assert(vstd::string::is_ascii("yields"));
    reveal_strlit("yield");
    assert(vstd::string::is_ascii("yield"));
    reveal_strlit("receives");
    assert(vstd::string::is_ascii("receives"));
    reveal_strlit("receive");
    assert(vstd::string::is_ascii("receive"));
    reveal_strlit("other parameters");
    assert(vstd::string::is_ascii("other parameters"));
    reveal_strlit("other parameter");
    assert(vstd::string::is_ascii("other parameter"));
    reveal_strlit("other params");
    assert(vstd::string::is_ascii("other params"));
    reveal_strlit("other param");
    assert(vstd::string::is_ascii("other param"));
    reveal_strlit("raises");
    assert(vstd::string::is_ascii("raises"));
    reveal_strlit("raise");
    assert(vstd::string::is_ascii("raise"));
    reveal_strlit("warns");
    assert(vstd::string::is_ascii("warns"));
    reveal_strlit("warn");
    assert(vstd::string::is_ascii("warn"));
    reveal_strlit("warnings");
    assert(vstd::string::is_ascii("warnings"));
    reveal_strlit("warning");
    assert(vstd::string::is_ascii("warning"));
    reveal_strlit("see also");
    assert(vstd::string::is_ascii("see also"));
    reveal_strlit("notes");
    assert(vstd::string::is_ascii("notes"));
    reveal_strlit("note");
    assert(vstd::string::is_ascii("note"));
    reveal_strlit("references");
    assert(vstd::string::is_ascii("references"));
    reveal_strlit("examples");
    assert(vstd::string::is_ascii("examples"));
    reveal_strlit("example");
    assert(vstd::string::is_ascii("example"));
    reveal_strlit("attributes");
    assert(vstd::string::is_ascii("attributes"));
    reveal_strlit("methods");
    assert(vstd::string::is_ascii("methods"));
    assert(numpy_kind("see also".spec_bytes()) == NumPySectionKind::SeeAlso) by {
        let n = "see also".spec_bytes();
        assert(n[0] == 115 && n[1] == 101 && n[2] == 101 && n[3] == 32 && n[4] == 97);
    }
    assert(numpy_kind("notes".spec_bytes()) == NumPySectionKind::Notes) by {
        let n = "notes".spec_bytes();
        assert(n[0] == 110 && n[1] == 111 && n[2] == 116 && n[3] == 101 && n[4] == 115);
    }
    assert(numpy_kind("note".spec_bytes()) == NumPySectionKind::Notes) by {
        let n = "note".spec_bytes();
        assert(n[0] == 110 && n[1] == 111 && n[2] == 116 && n[3] == 101);
    }
    assert(numpy_kind("references".spec_bytes()) == NumPySectionKind::References) by {
        let n = "references".spec_bytes();
        assert(n[0] == 114 && n[1] == 101 && n[2] == 102 && n[3] == 101 && n[4] == 114);
    }
}

/// Names 24 to 27 of the NumPy-style name table name their kinds.
proof fn lemma_numpy_section_names_6()
    ensures
        numpy_kind("examples".spec_bytes()) == NumPySectionKind::Examples,
        numpy_kind("example".spec_bytes()) == NumPySectionKind::Examples,
        numpy_kind("attributes".spec_bytes()) == NumPySectionKind::Attributes,
        numpy_kind("methods".spec_bytes()) == NumPySectionKind::Methods,
{
    broadcast use vstd::string::is_ascii_spec_bytes;
    reveal_strlit("parameters");
    assert(vstd::string::is_ascii("parameters"));
    reveal_strlit("parameter");
    assert(vstd::string::is_ascii("parameter"));
    reveal_strlit("params");
    assert(vstd::string::is_ascii("params"));
    reveal_strlit("param");
    assert(vstd::string::is_ascii("param"));
    reveal_strlit("returns");
    assert(vstd::string::is_ascii("returns"));
    reveal_strlit("return");
    assert(vstd::string::is_ascii("return"));
    reveal_strlit("yields");
    assert(vstd::string::is_ascii("yields"));
    reveal_strlit("yield");
    assert(vstd::string::is_ascii("yield"));
    reveal_strlit("receives");
    assert(vstd::string::is_ascii("receives"));
    reveal_strlit("receive");
    assert(vstd::string::is_ascii("receive"));
    reveal_strlit("other parameters");
    assert(vstd::string::is_ascii("other parameters"));
    reveal_strlit("other parameter");
    assert(vstd::string::is_ascii("other parameter"));
    reveal_strlit("other params");
    assert(vstd::string::is_ascii("other params"));
    reveal_strlit("other param");
    assert(vstd::string::is_ascii("other param"));
    reveal_strlit("raises");
    assert(vstd::string::is_ascii("raises"));
    reveal_strlit("raise");
    assert(vstd::string::is_ascii("raise"));
    reveal_strlit("warns");
    assert(vstd::string::is_ascii("warns"));
    reveal_strlit("warn");
    assert(vstd::string::is_ascii("warn"));
    reveal_strlit("warnings");
    assert(vstd::string::is_ascii("warnings"));
    reveal_strlit("warning");
    assert(vstd::string::is_ascii("warning"));
    reveal_strlit("see also");
    assert(vstd::string::is_ascii("see also"));
    reveal_strlit("notes");
    assert(vstd::string::is_ascii("notes"));
    reveal_strlit("note");
    assert(vstd::string::is_ascii("note"));
    reveal_strlit("references");
    assert(vstd::string::is_ascii("references"));
    reveal_strlit("examples");
    assert(vstd::string::is_ascii("examples"));
    reveal_strlit("example");
    assert(vstd::string::is_ascii("example"));
    reveal_strlit("attributes");
    assert(vstd::string::is_ascii("attributes"));
    reveal_strlit("methods");
    assert(vstd::string::is_ascii("methods"));
    assert(numpy_kind("examples".spec_bytes()) == NumPySectionKind::Examples) by {
        let n = "examples".spec_bytes();
        assert(n[0] == 101 && n[1] == 120 && n[2] == 97 && n[3] == 109 && n[4] == 112);
    }
    assert(numpy_kind("example".spec_bytes()) == NumPySectionKind::Examples) by {
        let n = "example".spec_bytes();
        assert(n[0] == 101 && n[1] == 120 && n[2] == 97 && n[3] == 109 && n[4] == 112);
    }
    assert(numpy_kind("attributes".spec_bytes()) == NumPySectionKind::Attributes) by {
        let n = "attributes".spec_bytes();
        assert(n[0] == 97 && n[1] == 116 && n[2] == 116 && n[3] == 114 && n[4] == 105);
    }
    assert(numpy_kind("methods".spec_bytes()) == NumPySectionKind::Methods) by {
        let n = "methods".spec_bytes();
        assert(n[0] == 109 && n[1] == 101 && n[2] == 116 && n[3] == 104 && n[4] == 111);
    }
}

/// Law: `from_name` (and so the parser, on a lowercased header name) maps
/// each of the NumPy-style section names to its kind, and every other name to
/// `Unknown`.
pub proof fn law_numpy_section_names(n: Seq<u8>)
    ensures
        forall|i: int|
            0 <= i < numpy_section_name_count() ==> numpy_kind(#[trigger] numpy_section_name(i).0)
                == numpy_section_name(i).1,
        numpy_kind(n) != NumPySectionKind::Unknown ==> exists|i: int|
            0 <= i < numpy_section_name_count() && #[trigger] numpy_section_name(i).0 == n,
{
    lemma_numpy_section_names_0();
    lemma_numpy_section_names_1();
    lemma_numpy_section_names_2();
    lemma_numpy_section_names_3();
    lemma_numpy_section_names_4();
    lemma_numpy_section_names_5();
    lemma_numpy_section_names_6();
    assert forall|i: int| 0 <= i < numpy_section_name_count() implies numpy_kind(
        #[trigger] numpy_section_name(i).0,
    ) == numpy_section_name(i).1 by {
        if i == 0 {
        } else if i == 1 {
        } else if i == 2 {
        } else if i == 3 {
        } else if i == 4 {
        } else if i == 5 {
        } else if i == 6 {
        } else if i == 7 {
        } else if i == 8 {
        } else if i == 9 {
        } else if i == 10 {
        } else if i == 11 {
        } else if i == 12 {
        } else if i == 13 {
        } else if i == 14 {
        } else if i == 15 {
        } else if i == 16 {
        } else if i == 17 {
        } else if i == 18 {
        } else if i == 19 {
        } else if i == 20 {
        } else if i == 21 {
        } else if i == 22 {
        } else if i == 23 {
        } else if i == 24 {
        } else if i == 25 {
        } else if i == 26 {
        } else if i == 27 {
        }
    }
    if numpy_kind(n) != NumPySectionKind::Unknown {
        if n == "parameters".spec_bytes() {
            assert(numpy_section_name(0).0 == n);
        } else if n == "parameter".spec_bytes() {
            assert(numpy_section_name(1).0 == n);
        } else if n == "params".spec_bytes() {
            assert(numpy_section_name(2).0 == n);
        } else if n == "param".spec_bytes() {
            assert(numpy_section_name(3).0 == n);
        } else if n == "returns".spec_bytes() {
            assert(numpy_section_name(4).0 == n);
        } else if n == "return".spec_bytes() {
            assert(numpy_section_name(5).0 == n);
        } else if n == "yields".spec_bytes() {
            assert(numpy_section_name(6).0 == n);
        } else if n == "yield".spec_bytes() {
            assert(numpy_section_name(7).0 == n);
        } else if n == "receives".spec_bytes() {
            assert(numpy_section_name(8).0 == n);
        } else if n == "receive".spec_bytes() {
            assert(numpy_section_name(9).0 == n);
        } else if n == "other parameters".spec_bytes() {
            assert(numpy_section_name(10).0 == n);
        } else if n == "other parameter".spec_bytes() {
            assert(numpy_section_name(11).0 == n);
        } else if n == "other params".spec_bytes() {
            assert(numpy_section_name(12).0 == n);
        } else if n == "other param".spec_bytes() {
            assert(numpy_section_name(13).0 == n);
        } else if n == "raises".spec_bytes() {
            assert(numpy_section_name(14).0 == n);
        } else if n == "raise".spec_bytes() {
            assert(numpy_section_name(15).0 == n);
        } else if n == "warns".spec_bytes() {
            assert(numpy_section_name(16).0 == n);
        } else if n == "warn".spec_bytes() {
            assert(numpy_section_name(17).0 == n);
        } else if n == "warnings".spec_bytes() {
            assert(numpy_section_name(18).0 == n);
        } else if n == "warning".spec_bytes() {
            assert(numpy_section_name(19).0 == n);
        } else if n == "see also".spec_bytes() {
            assert(numpy_section_name(20).0 == n);
        } else if n == "notes".spec_bytes() {
            assert(numpy_section_name(21).0 == n);
        } else if n == "note".spec_bytes() {
            assert(numpy_section_name(22).0 == n);
        } else if n == "references".spec_bytes() {
            assert(numpy_section_name(23).0 == n);
        } else if n == "examples".spec_bytes() {
            assert(numpy_section_name(24).0 == n);
        } else if n == "example".spec_bytes() {
            assert(numpy_section_name(25).0 == n);
        } else if n == "attributes".spec_bytes() {
            assert(numpy_section_name(26).0 == n);
        } else if n == "methods".spec_bytes() {
            assert(numpy_section_name(27).0 == n);
        }
    }
}

} // verus!
