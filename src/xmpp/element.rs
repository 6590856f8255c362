//! A plain model of an XML element: name, namespace, attributes in the
//! order they were set, child elements, and the element's own text.

use vstd::prelude::*;
use vstd::string::*;

use crate::text::str_eq;

verus! {

/// One attribute.
#[derive(Debug, Clone)]
pub struct Attr {
    pub name: String,
    pub value: String,
}

/// An XML element.
#[derive(Debug)]
pub struct Element {
    pub name: String,
    pub ns: String,
    pub attrs: Vec<Attr>,
    pub children: Vec<Element>,
    pub text: String,
}

/// Builds an element one part at a time.
pub struct ElementBuilder {
    pub element: Element,
}

pub open spec fn attrs_view(a: Seq<Attr>) -> Seq<(Seq<char>, Seq<char>)> {
    a.map_values(|x: Attr| (x.name@, x.value@))
}

/// The value of attribute `name`; when it was set more than once, the last
/// setting counts.
pub open spec fn attr_value(attrs: Seq<(Seq<char>, Seq<char>)>, name: Seq<char>) -> Option<Seq<char>>
    decreases attrs.len(),
{
    if attrs.len() == 0 {
        None
    } else if attrs.last().0 == name {
        Some(attrs.last().1)
    } else {
        attr_value(attrs.drop_last(), name)
    }
}

pub open spec fn named(c: Element, name: Seq<char>, ns: Seq<char>) -> bool {
    c.name@ == name && c.ns@ == ns
}

/// Whether `i` is the first child with this name and namespace.
pub open spec fn is_first_named(children: Seq<Element>, name: Seq<char>, ns: Seq<char>, i: int) -> bool {
    &&& 0 <= i < children.len()
    &&& named(children[i], name, ns)
    &&& forall|j: int| 0 <= j < i ==> !named(#[trigger] children[j], name, ns)
}

/// The first child with this name and namespace.
pub open spec fn first_child(children: Seq<Element>, name: Seq<char>, ns: Seq<char>) -> Option<Element> {
    if exists|i: int| is_first_named(children, name, ns, i) {
        Some(children[choose|i: int| is_first_named(children, name, ns, i)])
    } else {
        None
    }
}

/// An element has this shape: name, namespace, attributes, number of
/// children and text.
pub open spec fn shaped(
    e: Element,
    name: Seq<char>,
    ns: Seq<char>,
    attrs: Seq<(Seq<char>, Seq<char>)>,
    n_children: nat,
    text: Seq<char>,
) -> bool {
    &&& e.name@ == name
    &&& e.ns@ == ns
    &&& attrs_view(e.attrs@) == attrs
    &&& e.children.len() == n_children
    &&& e.text@ == text
}

impl Element {
    /// Start an element with no attributes, children or text.
    pub fn builder(name: &str, ns: &str) -> (r: ElementBuilder)
        ensures
            shaped(r.element, name@, ns@, seq![], 0, seq![]),
    {
        let e = Element {
            name: String::from_str(name),
            ns: String::from_str(ns),
            attrs: Vec::new(),
            children: Vec::new(),
            text: String::new(),
        };
        assert(attrs_view(e.attrs@) =~= seq![]);
        ElementBuilder { element: e }
    }

    pub fn name(&self) -> (r: &str)
        ensures
            r@ == self.name@,
    {
        self.name.as_str()
    }

    pub fn ns(&self) -> (r: &str)
        ensures
            r@ == self.ns@,
    {
        self.ns.as_str()
    }

    /// The element's text.
    pub fn text(&self) -> (r: String)
        ensures
            r@ == self.text@,
    {
        self.text.clone()
    }

    /// The child elements, in order.
    pub fn children(&self) -> (r: &Vec<Element>)
        ensures
            r@ == self.children@,
    {
        &self.children
    }

    /// The value of attribute `name`.
    pub fn attr(&self, name: &str) -> (r: Option<&str>)
        ensures
            match r {
                Some(v) => attr_value(attrs_view(self.attrs@), name@) == Some(v@),
                None => attr_value(attrs_view(self.attrs@), name@) is None,
            },
    {
        let ghost all = attrs_view(self.attrs@);
        let mut n: usize = self.attrs.len();
        assert(all.take(n as int) =~= all);
        while n > 0
            invariant
                n <= self.attrs.len(),
                all == attrs_view(self.attrs@),
                attr_value(all, name@) == attr_value(all.take(n as int), name@),
            decreases n,
        {
            let ghost pre = all.take(n as int);
            assert(pre.drop_last() =~= all.take(n as int - 1));
            assert(pre.last() == (self.attrs@[n as int - 1].name@, self.attrs@[n as int - 1].value@));
            if str_eq(self.attrs[n - 1].name.as_str(), name) {
                return Some(self.attrs[n - 1].value.as_str());
            }
            n = n - 1;
        }
        None
    }

    /// The first child with this name and namespace.
    pub fn get_child(&self, name: &str, ns: &str) -> (r: Option<&Element>)
        ensures
            match r {
                Some(c) => first_child(self.children@, name@, ns@) == Some(*c),
                None => first_child(self.children@, name@, ns@) is None,
            },
    {
        let mut i: usize = 0;
        while i < self.children.len()
            invariant
                i <= self.children.len(),
                forall|j: int| 0 <= j < i ==> !named(#[trigger] self.children@[j], name@, ns@),
            decreases self.children.len() - i,
        {
            if str_eq(self.children[i].name.as_str(), name) && str_eq(self.children[i].ns.as_str(), ns) {
                proof {
                    lemma_first_unique(self.children@, name@, ns@, i as int);
                }
                return Some(&self.children[i]);
            }
            i = i + 1;
        }
        None
    }
}

/// The first child with a name is the one a search in order meets.
pub proof fn lemma_first_unique(children: Seq<Element>, name: Seq<char>, ns: Seq<char>, i: int)
    requires
        is_first_named(children, name, ns, i),
    ensures
        first_child(children, name, ns) == Some(children[i]),
{
    let k = choose|k: int| is_first_named(children, name, ns, k);
    if k < i {
        assert(!named(children[k], name, ns));
    } else if k > i {
        assert(!named(children[i], name, ns));
    }
}

impl ElementBuilder {
    /// Set an attribute.
    pub fn attr(self, name: &str, value: &str) -> (r: ElementBuilder)
        ensures
            r.element.name == self.element.name,
            r.element.ns == self.element.ns,
            attrs_view(r.element.attrs@) == attrs_view(self.element.attrs@).push((name@, value@)),
            r.element.children == self.element.children,
            r.element.text == self.element.text,
    {
        let mut e = self.element;
        let ghost before = e.attrs@;
        e.attrs.push(Attr { name: String::from_str(name), value: String::from_str(value) });
        assert(attrs_view(e.attrs@) =~= attrs_view(before).push((name@, value@)));
        ElementBuilder { element: e }
    }

    /// Append a child element.
    pub fn append(self, child: Element) -> (r: ElementBuilder)
        ensures
            r.element.name == self.element.name,
            r.element.ns == self.element.ns,
            r.element.attrs == self.element.attrs,
            r.element.children@ == self.element.children@.push(child),
            r.element.text == self.element.text,
    {
        let mut e = self.element;
        e.children.push(child);
        ElementBuilder { element: e }
    }

    /// Append text.
    pub fn append_text(self, text: &str) -> (r: ElementBuilder)
        ensures
            r.element.name == self.element.name,
            r.element.ns == self.element.ns,
            r.element.attrs == self.element.attrs,
            r.element.children == self.element.children,
            r.element.text@ == self.element.text@ + text@,
    {
        let mut e = self.element;
        e.text.append(text);
        ElementBuilder { element: e }
    }

    pub fn build(self) -> (r: Element)
        ensures
            r == self.element,
    {
        self.element
    }
}

} // verus!
