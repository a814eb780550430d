//! Style-agnostic access to the parameters of a parsed docstring.
use vstd::prelude::*;
use crate::styles::google::ast::{
    GoogleArg, GoogleDocstring, GoogleDocstringItem, GoogleDocstringItemV, GoogleSectionBody,
    GoogleSectionBodyV,
};
use crate::styles::numpy::ast::{
    NumPyDocstring, NumPyDocstringItem, NumPyDocstringItemV, NumPyParameter, NumPyParameterV,
    NumPySectionBody, NumPySectionBodyV,
};
use crate::styles::sphinx::ast::{SphinxDocstring, SphinxParameter};
use crate::text::TextRange;
use crate::types::Docstring;

verus! {

broadcast use vstd::seq::group_seq_axioms;

/// A documented parameter of any style, by the source ranges of its parts.
#[derive(Debug, Clone, Copy, PartialEq, Eq)]
pub struct ParameterView {
    /// The parameter's name.
    pub name: TextRange,
    /// Its type annotation, if any.
    pub param_type: Option<TextRange>,
    /// Its description, if any.
    pub description: Option<TextRange>,
    /// The `optional` marker, if any.
    pub optional: Option<TextRange>,
    /// The whole parameter entry.
    pub range: TextRange,
}

// ---------------------------------------------------------------------------
// Google style: the entries of the Args sections
// ---------------------------------------------------------------------------

/// The view of a Google-style argument.
pub open spec fn google_arg_view(a: GoogleArg) -> ParameterView {
    ParameterView {
        name: a.name,
        param_type: a.ty,
        description: Some(a.description),
        optional: a.optional,
        range: a.range,
    }
}

/// The parameters of one item: the entries of an Args section, in order.
pub open spec fn google_item_params(it: GoogleDocstringItemV) -> Seq<ParameterView> {
    match it {
        GoogleDocstringItemV::Section(s) => match s.body {
            GoogleSectionBodyV::Args(v) => v.map_values(|a: GoogleArg| google_arg_view(a)),
            _ => Seq::empty(),
        },
        GoogleDocstringItemV::StrayLine(_) => Seq::empty(),
    }
}

/// The parameters of the items, in document order.
pub open spec fn google_params(items: Seq<GoogleDocstringItemV>) -> Seq<ParameterView>
    decreases items.len(),
{
    if items.len() == 0 {
        Seq::empty()
    } else {
        google_params(items.drop_last()) + google_item_params(items.last())
    }
}

// ---------------------------------------------------------------------------
// NumPy style: the names of the Parameters sections' entries
// ---------------------------------------------------------------------------

/// One view per name of a NumPy-style parameter (`x, y : int` documents
/// two parameters), sharing its type, description and range.
pub open spec fn numpy_param_views(p: NumPyParameterV) -> Seq<ParameterView> {
    p.names.map_values(
        |n: TextRange|
            ParameterView {
                name: n,
                param_type: p.ty,
                description: p.description,
                optional: p.optional,
                range: p.range,
            },
    )
}

/// The views of a list of NumPy-style parameters, in order.
pub open spec fn numpy_params_flat(ps: Seq<NumPyParameterV>) -> Seq<ParameterView>
    decreases ps.len(),
{
    if ps.len() == 0 {
        Seq::empty()
    } else {
        numpy_params_flat(ps.drop_last()) + numpy_param_views(ps.last())
    }
}

/// The parameters of one item: those of a Parameters section.
pub open spec fn numpy_item_params(it: NumPyDocstringItemV) -> Seq<ParameterView> {
    match it {
        NumPyDocstringItemV::Section(s) => match s.body {
            NumPySectionBodyV::Parameters(v) => numpy_params_flat(v),
            _ => Seq::empty(),
        },
        NumPyDocstringItemV::StrayLine(_) => Seq::empty(),
    }
}

/// The parameters of the items, in document order.
pub open spec fn numpy_params(items: Seq<NumPyDocstringItemV>) -> Seq<ParameterView>
    decreases items.len(),
{
    if items.len() == 0 {
        Seq::empty()
    } else {
        numpy_params(items.drop_last()) + numpy_item_params(items.last())
    }
}

// ---------------------------------------------------------------------------
// Sphinx style: the `:param:` fields
// ---------------------------------------------------------------------------

/// The view of a Sphinx-style parameter.
pub open spec fn sphinx_param_view(p: SphinxParameter) -> ParameterView {
    ParameterView {
        name: p.name.range,
        param_type: match p.param_type {
            Some(t) => Some(t.range),
            None => None,
        },
        description: Some(p.description.range),
        optional: None,
        range: p.range,
    }
}

/// The parameters of a docstring of any style.
pub open spec fn docstring_params(d: Docstring) -> Seq<ParameterView> {
    match d {
        Docstring::NumPy(n) => numpy_params(n@.items),
        Docstring::Google(g) => google_params(g@.items),
        Docstring::Sphinx(s) => s.parameters@.map_values(|p: SphinxParameter| sphinx_param_view(p)),
    }
}

// ---------------------------------------------------------------------------
// What the NumPy-style parameter list holds
// ---------------------------------------------------------------------------

/// The view `v` documents name `m` of the NumPy-style parameter entry `p`:
/// it has that name and the entry's type, description, optional marker and
/// range, unchanged.
pub open spec fn documents_name(v: ParameterView, p: NumPyParameterV, m: int) -> bool {
    &&& 0 <= m < p.names.len()
    &&& v.name == p.names[m]
    &&& v.param_type == p.ty
    &&& v.description == p.description
    &&& v.optional == p.optional
    &&& v.range == p.range
}

/// The entries of a Parameters section item (none for other items).
pub open spec fn parameters_entries(it: NumPyDocstringItemV) -> Seq<NumPyParameterV> {
    match it {
        NumPyDocstringItemV::Section(s) => match s.body {
            NumPySectionBodyV::Parameters(v) => v,
            _ => Seq::empty(),
        },
        NumPyDocstringItemV::StrayLine(_) => Seq::empty(),
    }
}

/// Law: the views of one NumPy-style entry are one per name, in the order of
/// the names, each carrying the entry's type, description, optional marker
/// and range unchanged, however many names the entry has.
pub proof fn law_numpy_param_views(p: NumPyParameterV)
    ensures
        numpy_param_views(p).len() == p.names.len(),
        forall|m: int| 0 <= m < p.names.len() ==> documents_name(#[trigger] numpy_param_views(p)[m], p, m),
{
}

proof fn lemma_flat_has(ps: Seq<NumPyParameterV>, j: int, m: int)
    requires
        0 <= j < ps.len(),
        0 <= m < ps[j].names.len(),
    ensures
        exists|x: int| 0 <= x < numpy_params_flat(ps).len() && #[trigger] documents_name(numpy_params_flat(ps)[x], ps[j], m),
    decreases ps.len(),
{
    let pre = numpy_params_flat(ps.drop_last());
    let last = numpy_param_views(ps.last());
    law_numpy_param_views(ps.last());
    if j == ps.len() - 1 {
        let x = pre.len() + m;
        assert(numpy_params_flat(ps)[x] == last[m]);
        assert(documents_name(numpy_params_flat(ps)[x], ps[j], m));
    } else {
        assert(ps.drop_last()[j] == ps[j]);
        lemma_flat_has(ps.drop_last(), j, m);
        let x = choose|x: int| 0 <= x < pre.len() && #[trigger] documents_name(pre[x], ps[j], m);
        assert(numpy_params_flat(ps)[x] == pre[x]);
    }
}

proof fn lemma_flat_from(ps: Seq<NumPyParameterV>, x: int)
    requires
        0 <= x < numpy_params_flat(ps).len(),
    ensures
        exists|j: int, m: int| 0 <= j < ps.len() && #[trigger] documents_name(numpy_params_flat(ps)[x], ps[j], m),
    decreases ps.len(),
{
    let pre = numpy_params_flat(ps.drop_last());
    law_numpy_param_views(ps.last());
    if x < pre.len() {
        lemma_flat_from(ps.drop_last(), x);
        let (j, m) = choose|j: int, m: int| 0 <= j < ps.drop_last().len() && #[trigger] documents_name(pre[x], ps.drop_last()[j], m);
        assert(ps.drop_last()[j] == ps[j]);
        assert(documents_name(numpy_params_flat(ps)[x], ps[j], m));
    } else {
        let m = x - pre.len();
        assert(documents_name(numpy_params_flat(ps)[x], ps[ps.len() - 1], m));
    }
}

proof fn lemma_items_have(items: Seq<NumPyDocstringItemV>, i: int, j: int, m: int)
    requires
        0 <= i < items.len(),
        0 <= j < parameters_entries(items[i]).len(),
        0 <= m < parameters_entries(items[i])[j].names.len(),
    ensures
        exists|x: int| 0 <= x < numpy_params(items).len() && #[trigger] documents_name(numpy_params(items)[x], parameters_entries(items[i])[j], m),
    decreases items.len(),
{
    let pre = numpy_params(items.drop_last());
    let p = parameters_entries(items[i])[j];
    if i == items.len() - 1 {
        assert(numpy_item_params(items.last()) == numpy_params_flat(parameters_entries(items.last())));
        lemma_flat_has(parameters_entries(items[i]), j, m);
        let x = choose|x: int| 0 <= x < numpy_params_flat(parameters_entries(items[i])).len() && #[trigger] documents_name(numpy_params_flat(parameters_entries(items[i]))[x], p, m);
        assert(numpy_params(items)[pre.len() + x] == numpy_params_flat(parameters_entries(items[i]))[x]);
        assert(documents_name(numpy_params(items)[pre.len() + x], p, m));
    } else {
        assert(items.drop_last()[i] == items[i]);
        lemma_items_have(items.drop_last(), i, j, m);
        let x = choose|x: int| 0 <= x < pre.len() && #[trigger] documents_name(pre[x], p, m);
        assert(numpy_params(items)[x] == pre[x]);
    }
}

proof fn lemma_items_from(items: Seq<NumPyDocstringItemV>, x: int)
    requires
        0 <= x < numpy_params(items).len(),
    ensures
        exists|i: int, j: int, m: int| 0 <= i < items.len() && 0 <= j < parameters_entries(items[i]).len() && #[trigger] documents_name(numpy_params(items)[x], parameters_entries(items[i])[j], m),
    decreases items.len(),
{
    let pre = numpy_params(items.drop_last());
    if x < pre.len() {
        lemma_items_from(items.drop_last(), x);
        let (i, j, m) = choose|i: int, j: int, m: int| 0 <= i < items.drop_last().len() && 0 <= j < parameters_entries(items.drop_last()[i]).len() && #[trigger] documents_name(pre[x], parameters_entries(items.drop_last()[i])[j], m);
        assert(items.drop_last()[i] == items[i]);
        assert(documents_name(numpy_params(items)[x], parameters_entries(items[i])[j], m));
    } else {
        let i = items.len() - 1;
        assert(numpy_item_params(items.last()) == numpy_params_flat(parameters_entries(items.last())));
        lemma_flat_from(parameters_entries(items[i]), x - pre.len());
        let (j, m) = choose|j: int, m: int| 0 <= j < parameters_entries(items[i]).len() && #[trigger] documents_name(numpy_params_flat(parameters_entries(items[i]))[x - pre.len()], parameters_entries(items[i])[j], m);
        assert(documents_name(numpy_params(items)[x], parameters_entries(items[i])[j], m));
    }
}

/// Some view of `views` documents name `m` of entry `p`.
pub open spec fn name_listed(views: Seq<ParameterView>, p: NumPyParameterV, m: int) -> bool {
    exists|x: int| 0 <= x < views.len() && #[trigger] documents_name(views[x], p, m)
}

/// The view `v` documents some name of some entry of the Parameters
/// sections among `items`.
pub open spec fn from_some_entry(items: Seq<NumPyDocstringItemV>, v: ParameterView) -> bool {
    exists|i: int, j: int, m: int|
        0 <= i < items.len() && 0 <= j < parameters_entries(items[i]).len()
            && #[trigger] documents_name(v, parameters_entries(items[i])[j], m)
}

/// Law: the parameter list of a NumPy-style docstring documents every name of
/// every entry of its Parameters sections, with the entry's type,
/// description, optional marker and range unchanged; and every view in it
/// documents some name of some such entry.
pub proof fn law_numpy_parameters(items: Seq<NumPyDocstringItemV>)
    ensures
        forall|i: int, j: int, m: int|
            0 <= i < items.len() && 0 <= j < parameters_entries(items[i]).len() && 0 <= m
                < parameters_entries(items[i])[j].names.len() ==> #[trigger] name_listed(
                numpy_params(items),
                parameters_entries(items[i])[j],
                m,
            ),
        forall|x: int|
            0 <= x < numpy_params(items).len() ==> #[trigger] from_some_entry(items, numpy_params(items)[x]),
{
    assert forall|i: int, j: int, m: int|
        0 <= i < items.len() && 0 <= j < parameters_entries(items[i]).len() && 0 <= m
            < parameters_entries(items[i])[j].names.len() implies #[trigger] name_listed(
            numpy_params(items),
            parameters_entries(items[i])[j],
            m,
        ) by {
        lemma_items_have(items, i, j, m);
    }
    assert forall|x: int| 0 <= x < numpy_params(items).len() implies #[trigger] from_some_entry(
        items,
        numpy_params(items)[x],
    ) by {
        lemma_items_from(items, x);
    }
}

// ---------------------------------------------------------------------------
// What the Google- and Sphinx-style parameter lists hold
// ---------------------------------------------------------------------------

/// The view `v` documents the Google-style argument `a`: same name, type,
/// description, optional marker and range.
pub open spec fn documents_arg(v: ParameterView, a: GoogleArg) -> bool {
    &&& v.name == a.name
    &&& v.param_type == a.ty
    &&& v.description == Some(a.description)
    &&& v.optional == a.optional
    &&& v.range == a.range
}

/// The entries of an Args section item (none for other items).
pub open spec fn args_entries(it: GoogleDocstringItemV) -> Seq<GoogleArg> {
    match it {
        GoogleDocstringItemV::Section(s) => match s.body {
            GoogleSectionBodyV::Args(v) => v,
            _ => Seq::empty(),
        },
        GoogleDocstringItemV::StrayLine(_) => Seq::empty(),
    }
}

/// Some view of `views` documents the argument `a`.
pub open spec fn arg_listed(views: Seq<ParameterView>, a: GoogleArg) -> bool {
    exists|x: int| 0 <= x < views.len() && #[trigger] documents_arg(views[x], a)
}

/// The view `v` documents some entry of the Args sections among `items`.
pub open spec fn from_some_arg(items: Seq<GoogleDocstringItemV>, v: ParameterView) -> bool {
    exists|i: int, j: int|
        0 <= i < items.len() && 0 <= j < args_entries(items[i]).len()
            && #[trigger] documents_arg(v, args_entries(items[i])[j])
}

proof fn lemma_args_have(items: Seq<GoogleDocstringItemV>, i: int, j: int)
    requires
        0 <= i < items.len(),
        0 <= j < args_entries(items[i]).len(),
    ensures
        arg_listed(google_params(items), args_entries(items[i])[j]),
    decreases items.len(),
{
    let pre = google_params(items.drop_last());
    let a = args_entries(items[i])[j];
    if i == items.len() - 1 {
        assert(google_item_params(items.last()) =~= args_entries(items.last()).map_values(
            |a: GoogleArg| google_arg_view(a),
        ));
        assert(documents_arg(google_params(items)[pre.len() + j], a));
    } else {
        assert(items.drop_last()[i] == items[i]);
        lemma_args_have(items.drop_last(), i, j);
        let x = choose|x: int| 0 <= x < pre.len() && #[trigger] documents_arg(pre[x], a);
        assert(google_params(items)[x] == pre[x]);
    }
}

proof fn lemma_args_from(items: Seq<GoogleDocstringItemV>, x: int)
    requires
        0 <= x < google_params(items).len(),
    ensures
        from_some_arg(items, google_params(items)[x]),
    decreases items.len(),
{
    let pre = google_params(items.drop_last());
    if x < pre.len() {
        lemma_args_from(items.drop_last(), x);
        let (i, j) = choose|i: int, j: int|
            0 <= i < items.drop_last().len() && 0 <= j < args_entries(items.drop_last()[i]).len()
                && #[trigger] documents_arg(pre[x], args_entries(items.drop_last()[i])[j]);
        assert(items.drop_last()[i] == items[i]);
        assert(documents_arg(google_params(items)[x], args_entries(items[i])[j]));
    } else {
        let i = items.len() - 1;
        assert(google_item_params(items.last()) =~= args_entries(items.last()).map_values(
            |a: GoogleArg| google_arg_view(a),
        ));
        assert(documents_arg(google_params(items)[x], args_entries(items[i])[x - pre.len()]));
    }
}

/// Law: the parameter list of a Google-style docstring documents every entry
/// of its Args sections, with the entry's name, type, description, optional
/// marker and range unchanged; and every view in it documents some such
/// entry.
pub proof fn law_google_parameters(items: Seq<GoogleDocstringItemV>)
    ensures
        forall|i: int, j: int|
            0 <= i < items.len() && 0 <= j < args_entries(items[i]).len() ==> #[trigger] arg_listed(
                google_params(items),
                args_entries(items[i])[j],
            ),
        forall|x: int|
            0 <= x < google_params(items).len() ==> #[trigger] from_some_arg(items, google_params(items)[x]),
{
    assert forall|i: int, j: int|
        0 <= i < items.len() && 0 <= j < args_entries(items[i]).len() implies #[trigger] arg_listed(
            google_params(items),
            args_entries(items[i])[j],
        ) by {
        lemma_args_have(items, i, j);
    }
    assert forall|x: int| 0 <= x < google_params(items).len() implies #[trigger] from_some_arg(
        items,
        google_params(items)[x],
    ) by {
        lemma_args_from(items, x);
    }
}

/// Law: the parameter list of a Sphinx-style docstring has one view per
/// `:param:` field, in order, with the field's name, type, description and
/// range, and no optional marker.
pub proof fn law_sphinx_parameters(d: SphinxDocstring)
    ensures
        docstring_params(Docstring::Sphinx(d)).len() == d.parameters@.len(),
        forall|i: int|
            0 <= i < d.parameters@.len() ==> {
                let v = #[trigger] docstring_params(Docstring::Sphinx(d))[i];
                let p = d.parameters@[i];
                &&& v.name == p.name.range
                &&& v.param_type == (match p.param_type {
                    Some(t) => Some(t.range),
                    None => None,
                })
                &&& v.description == Some(p.description.range)
                &&& v.optional is None
                &&& v.range == p.range
            },
{
}

impl GoogleDocstring {
    /// The documented parameters: the entries of the Args sections, in
    /// document order.
    pub fn parameters(&self) -> (r: Vec<ParameterView>)
        ensures
            r@ == google_params(self@.items),
    {
        let ghost items = self@.items;
        let mut out: Vec<ParameterView> = Vec::new();
        let mut i: usize = 0;
        while i < self.items.len()
            invariant
                i <= self.items.len(),
                items == self@.items,
                out@ == google_params(items.take(i as int)),
            decreases self.items.len() - i,
        {
            assert(items.take(i + 1).drop_last() =~= items.take(i as int));
            assert(items.take(i + 1).last() == self.items[i as int]@);
            let ghost before = out@;
            match &self.items[i] {
                GoogleDocstringItem::Section(s) => match &s.body {
                    GoogleSectionBody::Args(v) => {
                        let mut j: usize = 0;
                        while j < v.len()
                            invariant
                                j <= v.len(),
                                out@ == before + v@.take(j as int).map_values(
                                    |a: GoogleArg| google_arg_view(a),
                                ),
                            decreases v.len() - j,
                        {
                            let a = &v[j];
                            out.push(
                                ParameterView {
                                    name: a.name,
                                    param_type: a.ty,
                                    description: Some(a.description),
                                    optional: a.optional,
                                    range: a.range,
                                },
                            );
                            assert(v@.take(j + 1).map_values(|a: GoogleArg| google_arg_view(a))
                                =~= v@.take(j as int).map_values(|a: GoogleArg| google_arg_view(a)).push(
                                google_arg_view(v@[j as int]),
                            ));
                            j += 1;
                        }
                        assert(v@.take(v.len() as int) =~= v@);
                    },
                    _ => {
                        assert(out@ =~= before + Seq::<ParameterView>::empty());
                    },
                },
                GoogleDocstringItem::StrayLine(_) => {
                    assert(out@ =~= before + Seq::<ParameterView>::empty());
                },
            }
            i += 1;
        }
        assert(items.take(self.items.len() as int) =~= items);
        out
    }
}

/// Appends one view per name of `p` to `out`.
fn push_numpy_param(out: &mut Vec<ParameterView>, p: &NumPyParameter)
    ensures
        final(out)@ == old(out)@ + numpy_param_views(p@),
{
    let ghost before = out@;
    let mut j: usize = 0;
    while j < p.names.len()
        invariant
            j <= p.names.len(),
            out@ == before + numpy_param_views(p@).take(j as int),
        decreases p.names.len() - j,
    {
        out.push(
            ParameterView {
                name: p.names[j],
                param_type: p.ty,
                description: p.description,
                optional: p.optional,
                range: p.range,
            },
        );
        assert(numpy_param_views(p@).take(j + 1) =~= numpy_param_views(p@).take(j as int).push(
            numpy_param_views(p@)[j as int],
        ));
        j += 1;
    }
    assert(numpy_param_views(p@).take(p.names.len() as int) =~= numpy_param_views(p@));
}

impl NumPyDocstring {
    /// The documented parameters: one per name of each entry of the
    /// Parameters sections, in document order.
    pub fn parameters(&self) -> (r: Vec<ParameterView>)
        ensures
            r@ == numpy_params(self@.items),
    {
        let ghost items = self@.items;
        let mut out: Vec<ParameterView> = Vec::new();
        let mut i: usize = 0;
        while i < self.items.len()
            invariant
                i <= self.items.len(),
                items == self@.items,
                out@ == numpy_params(items.take(i as int)),
            decreases self.items.len() - i,
        {
            assert(items.take(i + 1).drop_last() =~= items.take(i as int));
            assert(items.take(i + 1).last() == self.items[i as int]@);
            let ghost before = out@;
            match &self.items[i] {
                NumPyDocstringItem::Section(s) => match &s.body {
                    NumPySectionBody::Parameters(v) => {
                        let ghost ps = v@.map_values(|p: NumPyParameter| p@);
                        let mut j: usize = 0;
                        while j < v.len()
                            invariant
                                j <= v.len(),
                                ps == v@.map_values(|p: NumPyParameter| p@),
                                out@ == before + numpy_params_flat(ps.take(j as int)),
                            decreases v.len() - j,
                        {
                            assert(ps.take(j + 1).drop_last() =~= ps.take(j as int));
                            push_numpy_param(&mut out, &v[j]);
                            assert(out@ =~= before + numpy_params_flat(ps.take(j + 1)));
                            j += 1;
                        }
                        assert(ps.take(v.len() as int) =~= ps);
                    },
                    _ => {
                        assert(out@ =~= before + Seq::<ParameterView>::empty());
                    },
                },
                NumPyDocstringItem::StrayLine(_) => {
                    assert(out@ =~= before + Seq::<ParameterView>::empty());
                },
            }
            i += 1;
        }
        assert(items.take(self.items.len() as int) =~= items);
        out
    }
}

impl SphinxDocstring {
    /// The documented parameters: the `:param:` fields, in order.
    pub fn parameters(&self) -> (r: Vec<ParameterView>)
        ensures
            r@ == self.parameters@.map_values(|p: SphinxParameter| sphinx_param_view(p)),
    {
        let mut out: Vec<ParameterView> = Vec::new();
        let mut i: usize = 0;
        while i < self.parameters.len()
            invariant
                i <= self.parameters.len(),
                out@ == self.parameters@.take(i as int).map_values(
                    |p: SphinxParameter| sphinx_param_view(p),
                ),
            decreases self.parameters.len() - i,
        {
            let p = &self.parameters[i];
            let param_type = match &p.param_type {
                Some(t) => Some(t.range),
                None => None,
            };
            out.push(
                ParameterView {
                    name: p.name.range,
                    param_type,
                    description: Some(p.description.range),
                    optional: None,
                    range: p.range,
                },
            );
            assert(self.parameters@.take(i + 1).map_values(|p: SphinxParameter| sphinx_param_view(p))
                =~= self.parameters@.take(i as int).map_values(
                |p: SphinxParameter| sphinx_param_view(p),
            ).push(sphinx_param_view(self.parameters@[i as int])));
            i += 1;
        }
        assert(self.parameters@.take(self.parameters.len() as int) =~= self.parameters@);
        out
    }
}

impl Docstring {
    /// The documented parameters, whatever the style: Args entries for
    /// Google, one per name of each Parameters entry for NumPy, `:param:`
    /// fields for Sphinx.
    pub fn parameters(&self) -> (r: Vec<ParameterView>)
        ensures
            r@ == docstring_params(*self),
    {
        match self {
            Docstring::NumPy(d) => d.parameters(),
            Docstring::Google(d) => d.parameters(),
            Docstring::Sphinx(d) => d.parameters(),
        }
    }
}

} // verus!
