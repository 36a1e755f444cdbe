//! The syntax tree that parsing produces, with its abstract views.

use vstd::prelude::*;
use vstd::string::*;

verus! {

/// Heading levels, from `<h1>` to `<h6>`.
#[derive(Clone, Copy, Debug, PartialEq, Eq, Structural)]
pub enum HeadingLevel {
    One,
    Two,
    Three,
    Four,
    Five,
    Six,
}

pub open spec fn heading_number(h: HeadingLevel) -> int {
    match h {
        HeadingLevel::One => 1,
        HeadingLevel::Two => 2,
        HeadingLevel::Three => 3,
        HeadingLevel::Four => 4,
        HeadingLevel::Five => 5,
        HeadingLevel::Six => 6,
    }
}

impl HeadingLevel {
    /// The number of the level: `1` for `One` up to `6` for `Six`.
    pub fn value(self) -> (n: u8)
        ensures
            n == heading_number(self),
            1 <= n <= 6,
    {
        match self {
            HeadingLevel::One => 1,
            HeadingLevel::Two => 2,
            HeadingLevel::Three => 3,
            HeadingLevel::Four => 4,
            HeadingLevel::Five => 5,
            HeadingLevel::Six => 6,
        }
    }
}

/// Which kind of partial element the rule being run accepts.
#[derive(Clone, Copy, Debug, PartialEq, Eq, Structural)]
pub enum AcceptsPartial {
    Nothing,
    ListItem,
    TableItem,
}

/// The kinds of container elements.
#[derive(Clone, Copy, Debug, PartialEq, Eq, Structural)]
pub enum ContainerType {
    Paragraph,
    Bold,
    Italics,
    Underline,
    Div,
    Span,
    Header(HeadingLevel),
}

/// The attributes of an element, as name and value pairs.
#[derive(Debug)]
pub struct AttributeMap {
    pub entries: Vec<(String, String)>,
}

pub open spec fn attribute_view(p: (String, String)) -> (Seq<char>, Seq<char>) {
    (p.0@, p.1@)
}

impl View for AttributeMap {
    type V = Seq<(Seq<char>, Seq<char>)>;

    open spec fn view(&self) -> Seq<(Seq<char>, Seq<char>)> {
        self.entries@.map_values(|p: (String, String)| attribute_view(p))
    }
}

impl AttributeMap {
    pub fn new() -> (r: AttributeMap)
        ensures
            r@ == Seq::<(Seq<char>, Seq<char>)>::empty(),
    {
        let r = AttributeMap { entries: Vec::new() };
        assert(r@ =~= Seq::<(Seq<char>, Seq<char>)>::empty());
        r
    }

    /// A copy with equal names and values.
    pub fn duplicate(&self) -> (r: AttributeMap)
        ensures
            r@ == self@,
    {
        let mut entries: Vec<(String, String)> = Vec::new();
        let mut k: usize = 0;
        while k < self.entries.len()
            invariant
                k <= self.entries.len(),
                entries.len() == k,
                forall|j: int| 0 <= j < k ==> entries@[j] == self.entries@[j],
            decreases self.entries.len() - k,
        {
            let a = self.entries[k].0.clone();
            let b = self.entries[k].1.clone();
            entries.push((a, b));
            k += 1;
        }
        assert(entries@ =~= self.entries@);
        AttributeMap { entries }
    }
}

/// An element of the syntax tree.
#[derive(Debug)]
pub enum Element {
    Text(String),
    Container(Container),
    LineBreak,
}

/// An element that holds other elements.
#[derive(Debug)]
pub struct Container {
    pub ctype: ContainerType,
    pub elements: Vec<Element>,
    pub attributes: AttributeMap,
}

/// The abstract value of an element: its text as characters and its children as views.
pub enum ElementView {
    Text(Seq<char>),
    Container(ContainerView),
    LineBreak,
}

pub struct ContainerView {
    pub ctype: ContainerType,
    pub elements: Seq<ElementView>,
    pub attributes: Seq<(Seq<char>, Seq<char>)>,
}

impl View for Element {
    type V = ElementView;

    open spec fn view(&self) -> ElementView
        decreases self,
    {
        match self {
            Element::Text(s) => ElementView::Text(s@),
            Element::LineBreak => ElementView::LineBreak,
            Element::Container(c) => ElementView::Container(
                ContainerView {
                    ctype: c.ctype,
                    elements: Seq::new(
                        c.elements@.len(),
                        |i: int|
                            {
                                if 0 <= i < c.elements@.len() {
                                    proof {
                                        assert(decreases_to!(self => c));
                                        assert(decreases_to!(c => c.elements));
                                        assert(decreases_to!(c.elements => c.elements@));
                                        assert(decreases_to!(c.elements@ => c.elements@[i]));
                                    }
                                    c.elements@[i].view()
                                } else {
                                    ElementView::LineBreak
                                }
                            },
                    ),
                    attributes: c.attributes@,
                },
            ),
        }
    }
}

/// The views of a sequence of elements.
pub open spec fn elements_view(s: Seq<Element>) -> Seq<ElementView> {
    s.map_values(|e: Element| e@)
}

impl Container {
    pub fn new(ctype: ContainerType, elements: Vec<Element>, attributes: AttributeMap) -> (r:
        Container)
        ensures
            r.ctype == ctype,
            r.elements == elements,
            r.attributes == attributes,
    {
        Container { ctype, elements, attributes }
    }
}

impl Element {
    /// A copy with an equal view.
    #[verifier::loop_isolation(false)]
    pub fn duplicate(&self) -> (r: Element)
        ensures
            r@ == self@,
        decreases self,
    {
        match self {
            Element::Text(s) => Element::Text(s.clone()),
            Element::LineBreak => Element::LineBreak,
            Element::Container(c) => {
                let v = &c.elements;
                let mut out: Vec<Element> = Vec::new();
                let mut i: usize = 0;
                while i < v.len()
                    invariant
                        i <= v.len(),
                        out.len() == i,
                        forall|j: int| 0 <= j < i ==> out@[j]@ == v@[j]@,
                    decreases v.len() - i,
                {
                    proof {
                        assert(decreases_to!(self => c));
                        assert(decreases_to!(c => c.elements));
                        assert(decreases_to!(c.elements => c.elements@));
                        assert(decreases_to!(c.elements@ => c.elements@[i as int]));
                    }
                    out.push(v[i].duplicate());
                    i += 1;
                }
                let attributes = c.attributes.duplicate();
                let r = Element::Container(Container { ctype: c.ctype, elements: out, attributes });
                assert(r@ == self@) by {
                    assert(r@->Container_0.elements =~= self@->Container_0.elements);
                }
                r
            }
        }
    }
}

impl Clone for Element {
    fn clone(&self) -> (r: Element)
        ensures
            r@ == self@,
    {
        self.duplicate()
    }
}

/// Copies a list of elements, each with an equal view.
pub fn duplicate_elements(v: &Vec<Element>) -> (r: Vec<Element>)
    ensures
        elements_view(r@) == elements_view(v@),
{
    let mut out: Vec<Element> = Vec::new();
    let mut i: usize = 0;
    while i < v.len()
        invariant
            i <= v.len(),
            out.len() == i,
            forall|j: int| 0 <= j < i ==> out@[j]@ == v@[j]@,
        decreases v.len() - i,
    {
        out.push(v[i].duplicate());
        i += 1;
    }
    assert(elements_view(out@) =~= elements_view(v@));
    out
}

/// The result of a rule: no element, one element, or several.
#[derive(Debug)]
pub enum Elements {
    Multiple(Vec<Element>),
    Single(Element),
    Empty,
}

/// The abstract value of a rule's result.
pub enum ElementsView {
    Multiple(Seq<ElementView>),
    Single(ElementView),
    Empty,
}

impl View for Elements {
    type V = ElementsView;

    open spec fn view(&self) -> ElementsView {
        match self {
            Elements::Multiple(v) => ElementsView::Multiple(elements_view(v@)),
            Elements::Single(e) => ElementsView::Single(e@),
            Elements::Empty => ElementsView::Empty,
        }
    }
}

impl Elements {
    /// The elements held, in order.
    pub open spec fn items(&self) -> Seq<Element> {
        match self {
            Elements::Multiple(v) => v@,
            Elements::Single(e) => seq![*e],
            Elements::Empty => Seq::empty(),
        }
    }

    pub fn into_vec(self) -> (r: Vec<Element>)
        ensures
            r@ == self.items(),
    {
        match self {
            Elements::Multiple(v) => v,
            Elements::Single(e) => {
                let mut v: Vec<Element> = Vec::new();
                v.push(e);
                v
            },
            Elements::Empty => Vec::new(),
        }
    }

    /// A copy with an equal view.
    pub fn duplicate(&self) -> (r: Elements)
        ensures
            r@ == self@,
    {
        match self {
            Elements::Multiple(v) => Elements::Multiple(duplicate_elements(v)),
            Elements::Single(e) => Elements::Single(e.duplicate()),
            Elements::Empty => Elements::Empty,
        }
    }
}

impl Clone for Elements {
    fn clone(&self) -> (r: Elements)
        ensures
            r@ == self@,
    {
        self.duplicate()
    }
}

/// A reference to a page, on this site when `site` is `None`.
#[derive(Debug)]
pub struct PageRef {
    pub site: Option<String>,
    pub page: String,
}

impl PageRef {
    /// An equal copy.
    pub fn duplicate(&self) -> (r: PageRef)
        ensures
            r == *self,
    {
        let site = match &self.site {
            Some(s) => Some(s.clone()),
            None => None,
        };
        PageRef { site, page: self.page.clone() }
    }
}

impl Clone for PageRef {
    fn clone(&self) -> (r: PageRef)
        ensures
            r == *self,
    {
        self.duplicate()
    }
}

/// The plain text of an element: its text, its children's text in order, or a
/// newline for a line break.
pub open spec fn text_of(e: ElementView) -> Seq<char>
    decreases e,
{
    match e {
        ElementView::Text(s) => s,
        ElementView::LineBreak => seq!['\n'],
        ElementView::Container(c) => {
            proof {
                assert(decreases_to!(e => c));
                assert(decreases_to!(c => c.elements));
            }
            text_of_all(c.elements)
        },
    }
}

/// The plain text of a sequence of elements: their texts one after the other.
pub open spec fn text_of_all(s: Seq<ElementView>) -> Seq<char>
    decreases s,
{
    if s.len() == 0 {
        Seq::empty()
    } else {
        proof {
            assert(decreases_to!(s => s.drop_last()));
            assert(decreases_to!(s => s[s.len() - 1]));
        }
        text_of_all(s.drop_last()) + text_of(s[s.len() - 1])
    }
}

proof fn lemma_text_of_prefix(s: Seq<ElementView>, k: int)
    requires
        0 <= k < s.len(),
    ensures
        text_of_all(s.take(k + 1)) == text_of_all(s.take(k)) + text_of(s[k]),
{
    assert(s.take(k + 1).drop_last() =~= s.take(k));
}

/// Appends the plain text of `e` to `out`.
#[verifier::loop_isolation(false)]
fn render_element_into(e: &Element, out: &mut String)
    ensures
        final(out)@ == old(out)@ + text_of(e@),
    decreases e,
{
    match e {
        Element::Text(s) => {
            out.append(s.as_str());
        },
        Element::LineBreak => {
            let nl = "\n";
            proof {
                reveal_strlit("\n");
            }
            out.append(nl);
        },
        Element::Container(c) => {
            let ghost start = out@;
            let ghost children = e@->Container_0.elements;
            let v = &c.elements;
            let mut i: usize = 0;
            proof {
                assert(children.take(0) =~= Seq::<ElementView>::empty());
            }
            while i < v.len()
                invariant
                    i <= v.len(),
                    children.len() == v.len(),
                    out@ == start + text_of_all(children.take(i as int)),
                decreases v.len() - i,
            {
                proof {
                    assert(decreases_to!(e => c));
                    assert(decreases_to!(c => c.elements));
                    assert(decreases_to!(c.elements => c.elements@));
                    assert(decreases_to!(c.elements@ => c.elements@[i as int]));
                    lemma_text_of_prefix(children, i as int);
                    assert(children[i as int] == v@[i as int]@);
                }
                render_element_into(&v[i], out);
                i += 1;
            }
            proof {
                assert(children.take(v.len() as int) =~= children);
            }
        },
    }
}

/// The plain text of a list of elements, without any formatting.
pub fn render_text(elements: &[Element]) -> (r: String)
    ensures
        r@ == text_of_all(elements_view(elements@)),
{
    let mut out = String::new();
    let ghost views = elements_view(elements@);
    let mut i: usize = 0;
    proof {
        assert(views.take(0) =~= Seq::<ElementView>::empty());
    }
    while i < elements.len()
        invariant
            i <= elements.len(),
            views == elements_view(elements@),
            views.len() == elements@.len(),
            out@ == text_of_all(views.take(i as int)),
        decreases elements.len() - i,
    {
        proof {
            lemma_text_of_prefix(views, i as int);
        }
        render_element_into(&elements[i], &mut out);
        i += 1;
    }
    proof {
        assert(views.take(elements.len() as int) =~= views);
    }
    out
}

} // verus!
