//! The CSS cascade among the declarations of the `<style>` rules whose
//! selectors match an element: `!important` wins, then the more specific
//! selector, then the later rule, then the later declaration.

use vstd::prelude::*;
use crate::svg_syntax::{chars_eq, spec_style_lookup, style_lookup, trim, trim_bounds};
use crate::xml_doc::{attr_lookup, opt_view, XmlNode, XmlNodeModel};
use crate::text_util::{chars_of, string_of};

verus! {

broadcast use vstd::string::group_string_axioms;

/// One declaration of a rule whose selector matches the element, in the
/// order the rules and their declarations are written.
#[derive(Debug, Clone, PartialEq, Eq)]
pub struct CssDecl {
    pub name: String,
    pub value: String,
    pub important: bool,
    /// The selector's specificity: its ids, its classes and attributes,
    /// its types.
    pub ids: u8,
    pub classes: u8,
    pub types: u8,
    /// The rule's position in the style sheet.
    pub order: usize,
}

/// Whether `a` ranks at most as high as `b`: not important before
/// important, then by specificity, then by rule position.
pub open spec fn rank_le(a: CssDecl, b: CssDecl) -> bool {
    if a.important != b.important {
        !a.important
    } else if a.ids != b.ids {
        a.ids < b.ids
    } else if a.classes != b.classes {
        a.classes < b.classes
    } else if a.types != b.types {
        a.types < b.types
    } else {
        a.order <= b.order
    }
}

proof fn lemma_rank_total(a: CssDecl, b: CssDecl)
    ensures
        rank_le(a, b) || rank_le(b, a),
{
}

proof fn lemma_rank_trans(a: CssDecl, b: CssDecl, c: CssDecl)
    requires
        rank_le(a, b),
        rank_le(b, c),
    ensures
        rank_le(a, c),
{
}

/// Among the first `n` declarations, declaration `i` decides property
/// `name`: it names it and ranks above every other one that does, a later
/// declaration winning a tie.
pub open spec fn decides_among(ds: Seq<CssDecl>, name: Seq<char>, i: int, n: int) -> bool {
    &&& 0 <= i < n <= ds.len()
    &&& ds[i].name@ == name
    &&& forall|j: int|
        0 <= j < n && j != i && #[trigger] ds[j].name@ == name ==> if j < i {
            rank_le(ds[j], ds[i])
        } else {
            !rank_le(ds[i], ds[j])
        }
}

/// Declaration `i` decides property `name` among all of `ds`.
pub open spec fn decides(ds: Seq<CssDecl>, name: Seq<char>, i: int) -> bool {
    decides_among(ds, name, i, ds.len() as int)
}

/// How two declarations rank: an `!important` one outranks one that is
/// not; among equally important ones the selector specificity decides,
/// compared as (ids, classes, types) lexicographically, so one id more
/// outranks any number of classes or types; at equal specificity the later
/// rule ranks higher.
pub proof fn lemma_rank_order(a: CssDecl, b: CssDecl)
    ensures
        !a.important && b.important ==> rank_le(a, b) && !rank_le(b, a),
        a.important == b.important && a.ids < b.ids ==> rank_le(a, b) && !rank_le(b, a),
        a.important == b.important && a.ids == b.ids && a.classes < b.classes ==> rank_le(a, b)
            && !rank_le(b, a),
        a.important == b.important && a.ids == b.ids && a.classes == b.classes && a.types
            < b.types ==> rank_le(a, b) && !rank_le(b, a),
        a.important == b.important && a.ids == b.ids && a.classes == b.classes && a.types
            == b.types ==> (rank_le(a, b) <==> a.order <= b.order),
{
}

/// The declaration that decides a property is not outranked by any other
/// declaration of it: none is important where it is not; none of equal
/// importance has more ids; none with as many ids has more classes; none
/// with as many classes has more types; and none of equal specificity
/// comes from a later rule.
pub proof fn lemma_decider_outranks(ds: Seq<CssDecl>, name: Seq<char>, i: int, j: int)
    requires
        decides(ds, name, i),
        0 <= j < ds.len(),
        ds[j].name@ == name,
    ensures
        ds[j].important ==> ds[i].important,
        ds[j].important == ds[i].important ==> ds[j].ids <= ds[i].ids,
        ds[j].important == ds[i].important && ds[j].ids == ds[i].ids ==> ds[j].classes
            <= ds[i].classes,
        ds[j].important == ds[i].important && ds[j].ids == ds[i].ids && ds[j].classes
            == ds[i].classes ==> ds[j].types <= ds[i].types,
        ds[j].important == ds[i].important && ds[j].ids == ds[i].ids && ds[j].classes
            == ds[i].classes && ds[j].types == ds[i].types ==> ds[j].order <= ds[i].order,
{
    if j != i {
        assert(if j < i {
            rank_le(ds[j], ds[i])
        } else {
            !rank_le(ds[i], ds[j])
        });
    }
}

/// At most one declaration decides a property.
pub proof fn lemma_decider_unique(ds: Seq<CssDecl>, name: Seq<char>, i: int, k: int)
    requires
        decides(ds, name, i),
        decides(ds, name, k),
    ensures
        i == k,
{
    if i < k {
        assert(ds[k].name@ == name);
        assert(ds[i].name@ == name);
    } else if k < i {
        assert(ds[k].name@ == name);
        assert(ds[i].name@ == name);
    }
}

fn ranks_le(a: &CssDecl, b: &CssDecl) -> (r: bool)
    ensures
        r == rank_le(*a, *b),
{
    if a.important != b.important {
        !a.important
    } else if a.ids != b.ids {
        a.ids < b.ids
    } else if a.classes != b.classes {
        a.classes < b.classes
    } else if a.types != b.types {
        a.types < b.types
    } else {
        a.order <= b.order
    }
}

/// The cascaded value of property `name`: the deciding declaration's value,
/// trimmed; `None` when no declaration names it.
pub fn cascade_value(ds: &[CssDecl], name: &str) -> (r: Option<String>)
    ensures
        match r {
            Some(v) => exists|i: int| decides(ds@, name@, i) && v@ == trim(#[trigger] ds@[i].value@),
            None => forall|i: int| 0 <= i < ds@.len() ==> #[trigger] ds@[i].name@ != name@,
        },
{
    let n = ds.len();
    let want = chars_of(name);
    let mut best: Option<usize> = None;
    let mut j: usize = 0;
    while j < n
        invariant
            n == ds@.len(),
            j <= n,
            want@ == name@,
            match best {
                Some(b) => decides_among(ds@, name@, b as int, j as int),
                None => forall|k: int| 0 <= k < j ==> #[trigger] ds@[k].name@ != name@,
            },
        decreases n - j,
    {
        let d = &ds[j];
        let nm = chars_of(d.name.as_str());
        if chars_eq(nm.as_slice(), want.as_slice()) {
            match best {
                None => {
                    best = Some(j);
                },
                Some(b) => {
                    if ranks_le(&ds[b], d) {
                        proof {
                            assert forall|k: int|
                                0 <= k < j + 1 && k != j && #[trigger] ds@[k].name@ == name@ implies rank_le(
                                ds@[k],
                                ds@[j as int],
                            ) by {
                                if k < b {
                                    lemma_rank_trans(ds@[k], ds@[b as int], ds@[j as int]);
                                } else if k > b {
                                    lemma_rank_total(ds@[k], ds@[b as int]);
                                    lemma_rank_trans(ds@[k], ds@[b as int], ds@[j as int]);
                                }
                            }
                        }
                        best = Some(j);
                    }
                },
            }
        }
        j = j + 1;
    }
    match best {
        Some(b) => {
            let vc = chars_of(ds[b].value.as_str());
            let vn = vc.len();
            let (x, y) = trim_bounds(vc.as_slice(), 0, vn);
            assert(vc@.subrange(0, vn as int) =~= vc@);
            let v = string_of(&vc, x, y);
            assert(decides(ds@, name@, b as int) && v@ == trim(ds@[b as int].value@));
            Some(v)
        },
        None => None,
    }
}

/// What the cascade gives for `name`: the trimmed value of a deciding
/// declaration, or nothing where no declaration names the property.
pub open spec fn cascade_gives(ds: Seq<CssDecl>, name: Seq<char>, r: Option<Seq<char>>) -> bool {
    match r {
        Some(v) => exists|i: int| decides(ds, name, i) && v == trim(#[trigger] ds[i].value@),
        None => forall|i: int| 0 <= i < ds.len() ==> #[trigger] ds[i].name@ != name,
    }
}

/// The text of an element's `style` attribute (empty where it has none).
pub open spec fn inline_style(n: XmlNodeModel) -> Seq<char> {
    match attr_lookup(n.attrs, None, seq!['s', 't', 'y', 'l', 'e']) {
        Some(s) => s,
        None => Seq::empty(),
    }
}

/// A presentation property of an element: a declaration in its `style`
/// attribute wins over its presentation attribute of that name, which wins
/// over the style sheets' cascade (`css`, the declarations that match it).
pub fn property_value(node: &XmlNode, css: &[CssDecl], name: &str) -> (r: Option<String>)
    ensures
        match spec_style_lookup(inline_style(node@), name@) {
            Some(v) => r matches Some(s) && s@ == v,
            None => match attr_lookup(node@.attrs, None, name@) {
                Some(a) => r matches Some(s) && s@ == a,
                None => cascade_gives(css@, name@, opt_view(r)),
            },
        },
{
    proof {
        reveal_strlit("style");
        assert("style"@ =~= seq!['s', 't', 'y', 'l', 'e']);
    }
    let inline = match node.attribute("style") {
        Some(s) => s,
        None => String::new(),
    };
    match style_lookup(inline.as_str(), name) {
        Some(v) => Some(v),
        None => match node.attribute(name) {
            Some(a) => Some(a),
            None => cascade_value(css, name),
        },
    }
}

} // verus!
