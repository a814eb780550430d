//! A parsed docstring of any style.
use vstd::prelude::*;
use vstd::string::StringExecFns;
use vstd::string::StringSliceAdditionalSpecFns;
use vstd::utf8::{is_char_boundary, encode_utf8, decode_utf8};
use crate::ast::Style;
use crate::styles::google::ast::GoogleDocstring;
use crate::styles::numpy::ast::NumPyDocstring;
use crate::styles::sphinx::ast::{SphinxDocstring, is_empty_sphinx};
use crate::text::TextRange;

verus! {

/// A parsed docstring of any style.
#[derive(Debug, Clone, PartialEq, Eq)]
pub enum Docstring {
    NumPy(NumPyDocstring),
    Google(GoogleDocstring),
    Sphinx(SphinxDocstring),
}

/// The bytes of `r` in the source bytes `b`, when `r` can be sliced out;
/// empty otherwise.
pub open spec fn range_bytes(b: Seq<u8>, r: TextRange) -> Seq<u8> {
    if r.lo() <= r.hi() <= b.len() && is_char_boundary(b, r.lo()) && is_char_boundary(b, r.hi()) {
        b.subrange(r.lo(), r.hi())
    } else {
        Seq::empty()
    }
}

/// The text of `r` in `source`, or the empty string when `r` cannot be
/// sliced out of it.
fn text_of<'a>(source: &'a str, r: TextRange) -> (t: &'a str)
    ensures
        t.spec_bytes() == range_bytes(source.spec_bytes(), r),
{
    proof {
        vstd::utf8::encode_utf8_valid_utf8(source@);
    }
    let lo = r.start.0 as usize;
    let hi = r.end.0 as usize;
    let len = source.as_bytes().len();
    if lo <= hi && hi <= len && source.is_char_boundary(lo) && source.is_char_boundary(hi) {
        proof {
            crate::utf8::lemma_boundary_in_prefix(source.spec_bytes(), lo as int, hi as int);
        }
        let (prefix, _) = source.split_at(hi);
        assert(prefix.spec_bytes() =~= source.spec_bytes().subrange(0, hi as int));
        let (_, mid) = prefix.split_at(lo);
        assert(mid.spec_bytes() =~= source.spec_bytes().subrange(lo as int, hi as int));
        mid
    } else {
        let (empty, _) = source.split_at(0);
        assert(empty.spec_bytes() =~= Seq::<u8>::empty());
        empty
    }
}

/// The style of a parsed docstring.
pub open spec fn docstring_style(d: Docstring) -> Style {
    match d {
        Docstring::NumPy(_) => Style::NumPy,
        Docstring::Google(_) => Style::Google,
        Docstring::Sphinx(_) => Style::Sphinx,
    }
}

/// The text `a`, `b` and `c` joined.
fn concat3(a: &str, b: &str, c: &str) -> (r: String)
    ensures
        r@ == a@ + b@ + c@,
{
    let mut s = String::from_str(a);
    s.append(b);
    s.append(c);
    s
}

/// The characters of the optional range `r` of `source`: those of the
/// slice when `r` is present and can be sliced out, none otherwise.
pub open spec fn opt_text(source: Seq<char>, r: Option<TextRange>) -> Seq<char> {
    match r {
        Some(s) => decode_utf8(range_bytes(encode_utf8(source), s)),
        None => Seq::empty(),
    }
}

/// The text of the optional range `r` of `source`, or `""`.
fn opt_text_of<'a>(source: &'a str, r: Option<TextRange>) -> (t: &'a str)
    ensures
        t@ == opt_text(source@, r),
{
    proof {
        reveal_strlit("");
    }
    match r {
        Some(s) => {
            let t = text_of(source, s);
            proof {
                vstd::utf8::encode_utf8_decode_utf8(t@);
            }
            t
        },
        None => "",
    }
}

impl NumPyDocstring {
    /// The one-line rendering `NumPyDocstring(summary: ...)` with the
    /// summary text (empty when there is none).
    pub fn display_text(&self) -> (r: String)
        ensures
            r@ == "NumPyDocstring(summary: "@ + opt_text(self.source@, self.summary) + ")"@,
    {
        concat3("NumPyDocstring(summary: ", opt_text_of(self.source.as_str(), self.summary), ")")
    }
}

impl GoogleDocstring {
    /// The one-line rendering `GoogleDocstring(summary: ...)` with the
    /// summary text (empty when there is none).
    pub fn display_text(&self) -> (r: String)
        ensures
            r@ == "GoogleDocstring(summary: "@ + opt_text(self.source@, self.summary) + ")"@,
    {
        concat3("GoogleDocstring(summary: ", opt_text_of(self.source.as_str(), self.summary), ")")
    }
}

impl SphinxDocstring {
    /// The one-line rendering `SphinxDocstring(summary: ...)`.
    pub fn display_text(&self) -> (r: String)
        ensures
            r@ == "SphinxDocstring(summary: "@ + self.summary.value@ + ")"@,
    {
        concat3("SphinxDocstring(summary: ", self.summary.value.as_str(), ")")
    }
}

impl Default for NumPyDocstring {
    /// The docstring over the empty source, with no summary and no items.
    fn default() -> (r: Self)
        ensures
            r@.source == Seq::<char>::empty(),
            r@.range == TextRange::spec_empty(),
            r@.summary is None,
            r@.deprecation is None,
            r@.extended_summary is None,
            r@.items.len() == 0,
    {
        proof {
            reveal_strlit("");
        }
        NumPyDocstring::new("")
    }
}

impl Default for GoogleDocstring {
    /// The docstring over the empty source, with no summary and no items.
    fn default() -> (r: Self)
        ensures
            r@.source == Seq::<char>::empty(),
            r@.range == TextRange::spec_empty(),
            r@.summary is None,
            r@.extended_summary is None,
            r@.items.len() == 0,
    {
        proof {
            reveal_strlit("");
        }
        GoogleDocstring::new("")
    }
}

impl Default for SphinxDocstring {
    /// The empty docstring.
    fn default() -> (r: Self)
        ensures
            is_empty_sphinx(r),
    {
        SphinxDocstring::new()
    }
}

impl Docstring {
    /// The style of the docstring.
    pub fn style(&self) -> (r: Style)
        ensures
            r == docstring_style(*self),
    {
        match self {
            Docstring::NumPy(_) => Style::NumPy,
            Docstring::Google(_) => Style::Google,
            Docstring::Sphinx(_) => Style::Sphinx,
        }
    }

    /// The NumPy-style docstring, if it is one.
    pub fn as_numpy(&self) -> (r: Option<&NumPyDocstring>)
        ensures
            r == (match self {
                Docstring::NumPy(d) => Some(d),
                _ => None,
            }),
    {
        match self {
            Docstring::NumPy(d) => Some(d),
            _ => None,
        }
    }

    /// The Google-style docstring, if it is one.
    pub fn as_google(&self) -> (r: Option<&GoogleDocstring>)
        ensures
            r == (match self {
                Docstring::Google(d) => Some(d),
                _ => None,
            }),
    {
        match self {
            Docstring::Google(d) => Some(d),
            _ => None,
        }
    }

    /// The Sphinx-style docstring, if it is one.
    pub fn as_sphinx(&self) -> (r: Option<&SphinxDocstring>)
        ensures
            r == (match self {
                Docstring::Sphinx(d) => Some(d),
                _ => None,
            }),
    {
        match self {
            Docstring::Sphinx(d) => Some(d),
            _ => None,
        }
    }

    /// The summary text ("" when there is none).
    pub fn summary(&self) -> (r: &str)
        ensures
            match self {
                Docstring::NumPy(d) => r.spec_bytes() == (match d.summary {
                    Some(s) => range_bytes(encode_utf8(d.source@), s),
                    None => Seq::empty(),
                }),
                Docstring::Google(d) => r.spec_bytes() == (match d.summary {
                    Some(s) => range_bytes(encode_utf8(d.source@), s),
                    None => Seq::empty(),
                }),
                Docstring::Sphinx(d) => r@ == d.summary.value@,
            },
    {
        proof {
            reveal_strlit("");
            vstd::string::is_ascii_spec_bytes("");
            assert(vstd::string::is_ascii(""));
        }
        match self {
            Docstring::NumPy(d) => match d.summary {
                Some(s) => text_of(d.source.as_str(), s),
                None => "",
            },
            Docstring::Google(d) => match d.summary {
                Some(s) => text_of(d.source.as_str(), s),
                None => "",
            },
            Docstring::Sphinx(d) => d.summary.value.as_str(),
        }
    }
}

} // verus!
