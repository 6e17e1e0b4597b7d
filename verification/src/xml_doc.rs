//! An SVG document as a flat list of XML nodes in document order, parsed by
//! `roxmltree`, and the checks made on it before conversion: that it is
//! well-formed XML and that its root element is `<svg>`. Attribute lookup,
//! child lists and `id` search work on the list.

use vstd::prelude::*;
use crate::svg_syntax::chars_eq;
use crate::text_util::chars_of;

verus! {

broadcast use vstd::string::group_string_axioms;

/// One attribute: its namespace URI (`None` for an unprefixed attribute),
/// local name and value.
#[derive(Debug, Clone)]
pub struct XmlAttr {
    pub namespace: Option<String>,
    pub name: String,
    pub value: String,
}

/// One node of a parsed document. The list starts with the document node
/// (index 0, neither element nor text); `parent` is the index of the parent
/// node (0 for the document node itself). `text` is what `roxmltree` gives as
/// the node's text: a text node's content, a comment's content, or an
/// element's first child when that child is text.
#[derive(Debug, Clone)]
pub struct XmlNode {
    pub is_element: bool,
    pub is_text: bool,
    pub tag: String,
    pub attrs: Vec<XmlAttr>,
    pub text: Option<String>,
    pub parent: usize,
}

pub struct XmlAttrModel {
    pub namespace: Option<Seq<char>>,
    pub name: Seq<char>,
    pub value: Seq<char>,
}

pub struct XmlNodeModel {
    pub is_element: bool,
    pub is_text: bool,
    pub tag: Seq<char>,
    pub attrs: Seq<XmlAttrModel>,
    pub text: Option<Seq<char>>,
    pub parent: int,
}

pub open spec fn opt_view(s: Option<String>) -> Option<Seq<char>> {
    match s {
        Some(t) => Some(t@),
        None => None,
    }
}

impl View for XmlAttr {
    type V = XmlAttrModel;

    open spec fn view(&self) -> XmlAttrModel {
        XmlAttrModel { namespace: opt_view(self.namespace), name: self.name@, value: self.value@ }
    }
}

impl View for XmlNode {
    type V = XmlNodeModel;

    open spec fn view(&self) -> XmlNodeModel {
        XmlNodeModel {
            is_element: self.is_element,
            is_text: self.is_text,
            tag: self.tag@,
            attrs: self.attrs@.map_values(|a: XmlAttr| a@),
            text: opt_view(self.text),
            parent: self.parent as int,
        }
    }
}

/// The model of a whole node list.
pub open spec fn doc_model(v: Seq<XmlNode>) -> Seq<XmlNodeModel> {
    v.map_values(|n: XmlNode| n@)
}

/// What `roxmltree` makes of a text: the node list of the document, or the
/// text of its parse error.
pub uninterp spec fn xml_document(text: Seq<char>) -> Result<Seq<XmlNodeModel>, Seq<char>>;

/// `roxmltree::Document::parse`, its nodes listed in document order
/// (`Document::descendants`) and each converted field by field; an error is
/// given by its message. The contract claims only that the result is a
/// function of the text, named `xml_document`.
#[verifier::external_body]
pub fn parse_xml(text: &str) -> (r: Result<Vec<XmlNode>, String>)
    ensures
        match r {
            Ok(v) => xml_document(text@) == Ok::<Seq<XmlNodeModel>, Seq<char>>(doc_model(v@)),
            Err(m) => xml_document(text@) == Err::<Seq<XmlNodeModel>, Seq<char>>(m@),
        },
{
    let doc = roxmltree::Document::parse(text).map_err(|e| e.to_string())?;
    Ok(doc.descendants().map(|n| XmlNode {
        is_element: n.is_element(),
        is_text: n.is_text(),
        tag: n.tag_name().name().to_string(),
        attrs: n.attributes().map(|a| XmlAttr {
            namespace: a.namespace().map(String::from),
            name: a.name().to_string(),
            value: a.value().to_string(),
        }).collect(),
        text: n.text().map(String::from),
        parent: n.parent().map_or(0, |p| p.id().get_usize()),
    }).collect())
}

/// Whether `i` is the first element of the list: the root element.
pub open spec fn is_root_element(doc: Seq<XmlNodeModel>, i: int) -> bool {
    &&& 0 <= i < doc.len()
    &&& doc[i].is_element
    &&& forall|j: int| 0 <= j < i ==> !(#[trigger] doc[j]).is_element
}

/// Whether the root element of the list is tagged `svg` (by local name).
pub open spec fn has_svg_root(doc: Seq<XmlNodeModel>) -> bool {
    exists|i: int| is_root_element(doc, i) && doc[i].tag == seq!['s', 'v', 'g']
}

/// Why a text is not an SVG document.
#[derive(Debug, Clone, PartialEq, Eq)]
pub enum SvgError {
    /// The text is not well-formed XML; the parser's message.
    Xml(String),
    /// The root element is not `<svg>`.
    NoRoot,
}

/// The index of the first element of `doc`, if any.
fn first_element(doc: &[XmlNode]) -> (r: Option<usize>)
    ensures
        match r {
            Some(i) => is_root_element(doc_model(doc@), i as int),
            None => forall|j: int| 0 <= j < doc@.len() ==> !(#[trigger] doc@[j]).is_element,
        },
{
    let mut i: usize = 0;
    while i < doc.len()
        invariant
            i <= doc@.len(),
            forall|j: int| 0 <= j < i ==> !(#[trigger] doc@[j]).is_element,
        decreases doc@.len() - i,
    {
        if doc[i].is_element {
            proof {
                assert forall|j: int| 0 <= j < i implies !(#[trigger] doc_model(doc@)[j]).is_element by {
                    assert(!doc@[j].is_element);
                }
            }
            return Some(i);
        }
        i = i + 1;
    }
    None
}

/// Parse `svg` as XML and check that its root element is `<svg>`: the node
/// list, `Xml` with the parser's message where the text is not well-formed,
/// or `NoRoot` where the root element has another name.
pub fn svg_document(svg: &str) -> (r: Result<Vec<XmlNode>, SvgError>)
    ensures
        match xml_document(svg@) {
            Err(m) => r matches Err(SvgError::Xml(m2)) && m2@ == m,
            Ok(doc) => if has_svg_root(doc) {
                r matches Ok(v) && doc_model(v@) == doc
            } else {
                r matches Err(SvgError::NoRoot)
            },
        },
{
    match parse_xml(svg) {
        Err(m) => Err(SvgError::Xml(m)),
        Ok(v) => {
            let ghost doc = doc_model(v@);
            match first_element(v.as_slice()) {
                None => {
                    proof {
                        assert forall|i: int| !is_root_element(doc, i) by {
                            if 0 <= i < doc.len() {
                                assert(!v@[i].is_element);
                            }
                        }
                    }
                    Err(SvgError::NoRoot)
                },
                Some(i) => {
                    let tag = chars_of(v[i].tag.as_str());
                    let svg_word = chars_of("svg");
                    proof {
                        reveal_strlit("svg");
                    }
                    let is_svg = chars_eq(tag.as_slice(), svg_word.as_slice());
                    proof {
                        assert("svg"@ =~= seq!['s', 'v', 'g']);
                        assert forall|k: int| #[trigger] is_root_element(doc, k) implies k == i by {
                            if k < i {
                                assert(!doc[k].is_element);
                            } else if k > i {
                                assert(!doc[i as int].is_element);
                            }
                        }
                        assert(doc[i as int].tag == v@[i as int].tag@);
                        assert(is_root_element(doc, i as int));
                    }
                    if is_svg {
                        proof {
                            assert(doc[i as int].tag == seq!['s', 'v', 'g']);
                        }
                        Ok(v)
                    } else {
                        proof {
                            assert(!has_svg_root(doc)) by {
                                if has_svg_root(doc) {
                                    let k = choose|k: int| is_root_element(doc, k) && doc[k].tag == seq!['s', 'v', 'g'];
                                    assert(k == i);
                                }
                            }
                        }
                        Err(SvgError::NoRoot)
                    }
                },
            }
        },
    }
}

/// The value of the first attribute of `attrs` in namespace `ns` with local
/// name `name`.
pub open spec fn attr_lookup(attrs: Seq<XmlAttrModel>, ns: Option<Seq<char>>, name: Seq<char>) -> Option<Seq<char>>
    decreases attrs.len(),
{
    if attrs.len() == 0 {
        None
    } else if attrs[0].namespace == ns && attrs[0].name == name {
        Some(attrs[0].value)
    } else {
        attr_lookup(attrs.drop_first(), ns, name)
    }
}

fn opt_str_eq(a: &Option<String>, b: Option<&str>) -> (r: bool)
    ensures
        r == (opt_view(*a) == match b { Some(s) => Some(s@), None => None::<Seq<char>> }),
{
    match (a, b) {
        (Some(x), Some(y)) => {
            let xs = chars_of(x.as_str());
            let ys = chars_of(y);
            chars_eq(xs.as_slice(), ys.as_slice())
        },
        (None, None) => true,
        _ => false,
    }
}

impl XmlNode {
    /// The value of the attribute in namespace `ns` (`None`: unprefixed)
    /// with local name `name`.
    pub fn attribute_ns(&self, ns: Option<&str>, name: &str) -> (r: Option<String>)
        ensures
            opt_view(r) == attr_lookup(
                self@.attrs,
                match ns { Some(s) => Some(s@), None => None::<Seq<char>> },
                name@,
            ),
    {
        let ghost m = self@.attrs;
        let ghost nsv = match ns { Some(s) => Some(s@), None => None::<Seq<char>> };
        let want = chars_of(name);
        let mut i: usize = 0;
        assert(m.subrange(0, m.len() as int) =~= m);
        while i < self.attrs.len()
            invariant
                i <= self.attrs@.len(),
                m == self.attrs@.map_values(|a: XmlAttr| a@),
                want@ == name@,
                nsv == match ns { Some(s) => Some(s@), None => None::<Seq<char>> },
                attr_lookup(m, nsv, name@) == attr_lookup(m.subrange(i as int, m.len() as int), nsv, name@),
            decreases self.attrs@.len() - i,
        {
            let a = &self.attrs[i];
            let ghost rest = m.subrange(i as int, m.len() as int);
            assert(rest.len() > 0);
            assert(rest[0] == a@);
            assert(rest.drop_first() =~= m.subrange(i + 1, m.len() as int));
            let same_ns = opt_str_eq(&a.namespace, ns);
            let an = chars_of(a.name.as_str());
            let same_name = chars_eq(an.as_slice(), want.as_slice());
            if same_ns && same_name {
                let out = a.value.clone();
                assert(attr_lookup(rest, nsv, name@) == Some(a@.value));
                return Some(out);
            }
            assert(attr_lookup(rest, nsv, name@) == attr_lookup(rest.drop_first(), nsv, name@));
            i = i + 1;
        }
        None
    }

    /// The value of the unprefixed attribute `name`.
    pub fn attribute(&self, name: &str) -> (r: Option<String>)
        ensures
            opt_view(r) == attr_lookup(self@.attrs, None, name@),
    {
        self.attribute_ns(None, name)
    }
}

/// The indices of the children of node `i`, in document order.
pub open spec fn is_child_list(doc: Seq<XmlNodeModel>, i: int, r: Seq<usize>) -> bool {
    &&& forall|k: int| 0 <= k < r.len() ==> 0 < #[trigger] r[k] < doc.len() && doc[r[k] as int].parent == i
    &&& forall|k: int, l: int| 0 <= k < l < r.len() ==> r[k] < r[l]
    &&& forall|j: int| 0 < j < doc.len() && #[trigger] doc[j].parent == i ==> r.contains(j as usize)
}

/// The children of node `i`: every other node whose parent is `i`, in
/// document order.
pub fn children(doc: &[XmlNode], i: usize) -> (r: Vec<usize>)
    ensures
        is_child_list(doc_model(doc@), i as int, r@),
{
    let ghost d = doc_model(doc@);
    let mut r: Vec<usize> = Vec::new();
    let mut j: usize = 1;
    if doc.len() == 0 {
        return r;
    }
    while j < doc.len()
        invariant
            1 <= j <= doc@.len(),
            d == doc_model(doc@),
            forall|k: int| 0 <= k < r@.len() ==> 0 < #[trigger] r@[k] < j && d[r@[k] as int].parent == i,
            forall|k: int, l: int| 0 <= k < l < r@.len() ==> r@[k] < r@[l],
            forall|q: int| 0 < q < j && #[trigger] d[q].parent == i ==> r@.contains(q as usize),
        decreases doc@.len() - j,
    {
        let ghost old_r = r@;
        if doc[j].parent == i {
            r.push(j);
            assert forall|q: int| 0 < q < j + 1 && #[trigger] d[q].parent == i implies r@.contains(q as usize) by {
                if q < j {
                    let w = choose|w: int| 0 <= w < old_r.len() && old_r[w] == q as usize;
                    assert(r@[w] == q as usize);
                } else {
                    assert(r@[old_r.len() as int] == j);
                }
            }
        } else {
            assert forall|q: int| 0 < q < j + 1 && #[trigger] d[q].parent == i implies r@.contains(q as usize) by {
                if q == j {
                    assert(d[q].parent == doc@[q].parent);
                }
            }
        }
        j = j + 1;
    }
    r
}

/// The first element whose `id` attribute is `id`.
pub open spec fn is_first_with_id(doc: Seq<XmlNodeModel>, id: Seq<char>, i: int) -> bool {
    &&& 0 <= i < doc.len()
    &&& doc[i].is_element && attr_lookup(doc[i].attrs, None, seq!['i', 'd']) == Some(id)
    &&& forall|j: int| 0 <= j < i ==> !((#[trigger] doc[j]).is_element && attr_lookup(doc[j].attrs, None, seq!['i', 'd']) == Some(id))
}

/// The index of the first element whose `id` is `id`, the target of an
/// in-document reference.
pub fn element_by_id(doc: &[XmlNode], id: &str) -> (r: Option<usize>)
    ensures
        match r {
            Some(i) => is_first_with_id(doc_model(doc@), id@, i as int),
            None => forall|j: int| !is_first_with_id(doc_model(doc@), id@, j),
        },
{
    let ghost d = doc_model(doc@);
    let ghost idw = seq!['i', 'd'];
    let want = chars_of(id);
    proof {
        reveal_strlit("id");
        assert("id"@ == idw);
    }
    let mut i: usize = 0;
    while i < doc.len()
        invariant
            i <= doc@.len(),
            d == doc_model(doc@),
            want@ == id@,
            "id"@ == idw,
            idw == seq!['i', 'd'],
            forall|j: int| 0 <= j < i ==> !((#[trigger] d[j]).is_element && attr_lookup(d[j].attrs, None, idw) == Some(id@)),
        decreases doc@.len() - i,
    {
        if doc[i].is_element {
            let v = doc[i].attribute("id");
            assert(d[i as int] == doc@[i as int]@);
            match v {
                Some(s) => {
                    let sc = chars_of(s.as_str());
                    if chars_eq(sc.as_slice(), want.as_slice()) {
                        assert(attr_lookup(d[i as int].attrs, None, idw) == Some(id@));
                        assert(is_first_with_id(d, id@, i as int));
                        return Some(i);
                    }
                },
                None => {},
            }
        }
        assert(d[i as int] == doc@[i as int]@);
        i = i + 1;
    }
    proof {
        assert forall|j: int| !is_first_with_id(d, id@, j) by {
            if 0 <= j < d.len() {
                assert(!(d[j].is_element && attr_lookup(d[j].attrs, None, idw) == Some(id@)));
            }
        }
    }
    None
}

} // verus!
