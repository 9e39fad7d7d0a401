//! XML as a tree of elements and texts.
//!
//! `roxmltree` parses; the tree that the rest of the library walks is built here from
//! the plain rows that its document is read out into. Names are local names: which
//! prefix a producer binds to which namespace is its own affair.

use vstd::prelude::*;
use crate::chars::{chars_of, parse_u32, parsed_u32, push_text, string_of, trim, trimmed};

pub mod laws;

verus! {

// ── rows ─────────────────────────────────────────────────────────────────────

#[derive(Clone, Copy, PartialEq, Eq, Debug, Structural)]
pub enum RowKind {
    Element,
    Text,
    /// The document itself, a comment or a processing instruction.
    Other,
}

/// One node of a parsed document. The nodes stand in document order.
#[derive(Debug)]
pub struct Row {
    /// The place of the node's parent; its own for the document.
    pub parent: usize,
    pub kind: RowKind,
    /// An element's local name.
    pub name: String,
    /// An element's attributes, by local name, in document order.
    pub attrs: Vec<(String, String)>,
    /// A text node's text.
    pub text: String,
}

/// A row as contracts see it.
#[verifier::ext_equal]
pub struct RowView {
    pub parent: int,
    pub kind: RowKind,
    pub name: Seq<char>,
    pub attrs: Seq<(Seq<char>, Seq<char>)>,
    pub text: Seq<char>,
}

pub open spec fn attr_views(v: Seq<(String, String)>) -> Seq<(Seq<char>, Seq<char>)> {
    v.map_values(|a: (String, String)| (a.0@, a.1@))
}

impl View for Row {
    type V = RowView;

    open spec fn view(&self) -> RowView {
        RowView {
            parent: self.parent as int,
            kind: self.kind,
            name: self.name@,
            attrs: attr_views(self.attrs@),
            text: self.text@,
        }
    }
}

pub open spec fn row_views(v: Seq<Row>) -> Seq<RowView> {
    v.map_values(|r: Row| r@)
}

/// The nodes that `roxmltree::Document::parse` makes of a text; `None` where it
/// reports an error.
pub uninterp spec fn xml_rows(text: Seq<char>) -> Option<Seq<RowView>>;

/// `roxmltree::Document::parse`, with the document read out into rows: one per node,
/// in the order of `Document::descendants`, which starts with the document node. A
/// row holds the node's parent by its `NodeId` (which is its place in that order),
/// whether it is an element or a text, its local tag name, its attributes by local
/// name in order, and its text. The contract claims that the rows depend on the
/// text alone, and nothing more of them. The parser reads tokens in a loop, however deep
/// elements nest, and a text that declares entities is an error.
#[verifier::external_body]
fn parse_rows(text: &str) -> (r: Option<Vec<Row>>)
    ensures
        match r {
            Some(rows) => xml_rows(text@) == Some(row_views(rows@)),
            None => xml_rows(text@) is None,
        },
{
    let doc = roxmltree::Document::parse(text).ok()?;
    Some(doc.descendants().map(|n| Row {
        parent: n.parent().unwrap_or(n).id().get_usize(),
        kind: match n.node_type() {
            roxmltree::NodeType::Element => RowKind::Element,
            roxmltree::NodeType::Text => RowKind::Text,
            _ => RowKind::Other,
        },
        name: n.tag_name().name().to_string(),
        attrs: n.attributes().map(|a| (a.name().to_string(), a.value().to_string())).collect(),
        text: n.text().unwrap_or("").to_string(),
    }).collect())
}

// ── the tree ─────────────────────────────────────────────────────────────────

#[derive(Debug)]
pub struct Element {
    pub name: String,
    pub attrs: Vec<(String, String)>,
    pub children: Vec<Node>,
}

#[derive(Debug)]
pub enum Node {
    Text(String),
    Element(Element),
}

/// An element as contracts see it.
pub struct Tree {
    pub name: Seq<char>,
    pub attrs: Seq<(Seq<char>, Seq<char>)>,
    pub children: Seq<Item>,
}

/// A child as contracts see it.
pub enum Item {
    Text(Seq<char>),
    Element(Tree),
}

pub open spec fn tree(e: Element) -> Tree
    decreases e,
{
    Tree { name: e.name@, attrs: attr_views(e.attrs@), children: items(e.children@) }
}

pub open spec fn item(n: Node) -> Item
    decreases n,
{
    match n {
        Node::Text(s) => Item::Text(s@),
        Node::Element(e) => Item::Element(tree(e)),
    }
}

pub open spec fn items(v: Seq<Node>) -> Seq<Item>
    decreases v,
{
    if v.len() == 0 {
        Seq::empty()
    } else {
        items(v.drop_last()).push(item(v.last()))
    }
}

impl View for Element {
    type V = Tree;

    open spec fn view(&self) -> Tree {
        tree(*self)
    }
}

impl View for Node {
    type V = Item;

    open spec fn view(&self) -> Item {
        item(*self)
    }
}

pub proof fn lemma_items(v: Seq<Node>)
    ensures
        items(v).len() == v.len(),
        forall|k: int| 0 <= k < v.len() ==> #[trigger] items(v)[k] == item(v[k]),
    decreases v.len(),
{
    if v.len() > 0 {
        lemma_items(v.drop_last());
        assert forall|k: int| 0 <= k < v.len() implies #[trigger] items(v)[k] == item(v[k]) by {
            if k < v.len() - 1 {
                assert(items(v.drop_last())[k] == item(v.drop_last()[k]));
            }
        }
    }
}

/// The nodes from `from` on whose parent is `p`, in order.
pub open spec fn kids(rows: Seq<RowView>, p: int, from: int) -> Seq<Item>
    decreases rows.len() - from, 1int,
{
    if from < 0 || from >= rows.len() {
        Seq::empty()
    } else if rows[from].parent == p && p < from {
        match rows[from].kind {
            RowKind::Element => seq![Item::Element(tree_at(rows, from))] + kids(rows, p, from + 1),
            RowKind::Text => seq![Item::Text(rows[from].text)] + kids(rows, p, from + 1),
            RowKind::Other => kids(rows, p, from + 1),
        }
    } else {
        kids(rows, p, from + 1)
    }
}

/// The element of row `k`.
pub open spec fn tree_at(rows: Seq<RowView>, k: int) -> Tree
    decreases rows.len() - k, 0int,
{
    Tree {
        name: rows[k].name,
        attrs: rows[k].attrs,
        children: if 0 <= k < rows.len() {
            kids(rows, k, k + 1)
        } else {
            Seq::empty()
        },
    }
}

/// The first element among some children.
pub open spec fn first_element(v: Seq<Item>) -> Option<Tree>
    decreases v.len(),
{
    if v.len() == 0 {
        None
    } else {
        match v[0] {
            Item::Element(t) => Some(t),
            Item::Text(_) => first_element(v.skip(1)),
        }
    }
}

/// The root element of a text; `None` where it is no XML.
pub open spec fn document(text: Seq<char>) -> Option<Tree> {
    match xml_rows(text) {
        Some(rows) => first_element(kids(rows, 0, 1)),
        None => None,
    }
}

/// `v` back to front.
fn reverse(v: Vec<Node>) -> (r: Vec<Node>)
    ensures
        r@ == v@.reverse(),
{
    let ghost given = v@;
    let mut v = v;
    let mut r: Vec<Node> = Vec::new();
    while v.len() > 0
        invariant
            v@ == given.take(v@.len() as int),
            v@.len() <= given.len(),
            r@ == given.skip(v@.len() as int).reverse(),
        decreases v@.len(),
    {
        let ghost n = v@.len() as int;
        if let Some(x) = v.pop() {
            r.push(x);
            assert(v@ =~= given.take(n - 1));
            assert(given.skip(n - 1).reverse() =~= given.skip(n).reverse().push(given[n - 1]));
        }
    }
    assert(given.skip(0) =~= given);
    r
}

/// The children of row `p` that come from `from` on, as `build` gathers them.
spec fn gathered(v: Seq<Node>, rows: Seq<RowView>, p: int, from: int) -> bool {
    items(v.reverse()) == kids(rows, p, from)
}

proof fn lemma_gather_push(v: Seq<Node>, x: Node)
    ensures
        items(v.push(x).reverse()) == seq![item(x)] + items(v.reverse()),
{
    let a = v.push(x).reverse();
    let b = v.reverse();
    assert(a =~= seq![x] + b);
    lemma_items(a);
    lemma_items(b);
    assert(items(a) =~= seq![item(x)] + items(b));
}

/// The tree of the nodes that stand at the top of a document.
fn build(rows: Vec<Row>) -> (r: Vec<Node>)
    ensures
        items(r@) == kids(row_views(rows@), 0, 1),
{
    let ghost rv = row_views(rows@);
    let n: usize = rows.len();
    let mut rows = rows;
    let mut pending: Vec<Vec<Node>> = Vec::new();
    for i in 0..n
        invariant
            n == rv.len(),
            pending@.len() == i,
            forall|p: int| 0 <= p < i ==> gathered((#[trigger] pending@[p])@, rv, p, n as int),
    {
        let empty: Vec<Node> = Vec::new();
        assert(empty@.reverse() =~= Seq::<Node>::empty());
        assert(gathered(empty@, rv, i as int, n as int));
        pending.push(empty);
    }
    if n == 0 {
        let r: Vec<Node> = Vec::new();
        assert(items(r@) =~= kids(rv, 0, 1));
        return r;
    }
    let mut k: usize = n;
    while k > 1
        invariant
            1 <= k <= n,
            n == rv.len(),
            rows@.len() == k || (k == n && rows@.len() == n),
            rows@.len() == k,
            row_views(rows@) == rv.take(k as int),
            pending@.len() == n,
            forall|p: int| 0 <= p < k ==> gathered((#[trigger] pending@[p])@, rv, p, k as int),
        decreases k,
    {
        k = k - 1;
        let ghost before = rows@;
        let popped: Option<Row> = rows.pop();
        assert(row_views(rows@) =~= rv.take(k as int));
        let mut own: Vec<Node> = Vec::new();
        let ghost held = pending@;
        std::mem::swap(&mut own, &mut pending[k]);
        assert(gathered(own@, rv, k as int, k + 1));
        let ghost mut done = false;
        if let Some(row) = popped {
            assert(row@ == rv[k as int]) by {
                assert(row_views(before)[k as int] == row@);
            }
            let parent: usize = row.parent;
            let node: Option<Node> = match row.kind {
                RowKind::Element => {
                    let children: Vec<Node> = reverse(own);
                    let e = Element { name: row.name, attrs: row.attrs, children };
                    assert(tree(e) == tree_at(rv, k as int));
                    Some(Node::Element(e))
                },
                RowKind::Text => Some(Node::Text(row.text)),
                RowKind::Other => None,
            };
            assert(forall|p: int|
                0 <= p < k ==> (#[trigger] pending@[p])@ == held[p]@);
            if parent < k {
                if let Some(x) = node {
                    let ghost kept = pending@[parent as int]@;
                    let mut row_kids: Vec<Node> = Vec::new();
                    std::mem::swap(&mut row_kids, &mut pending[parent]);
                    row_kids.push(x);
                    std::mem::swap(&mut row_kids, &mut pending[parent]);
                    proof {
                        lemma_gather_push(kept, x);
                        assert(pending@[parent as int]@ =~= kept.push(x));
                    }
                }
            }
        }
        assert forall|p: int| 0 <= p < k implies gathered(
            (#[trigger] pending@[p])@,
            rv,
            p,
            k as int,
        ) by {
            assert(gathered(held[p]@, rv, p, k + 1));
        }
    }
    let mut top: Vec<Node> = Vec::new();
    std::mem::swap(&mut top, &mut pending[0]);
    assert(gathered(top@, rv, 0, 1));
    reverse(top)
}

/// The root element of an XML text; `None` where the text is no XML. The tree is as deep
/// as the text nests, and walking it takes stack in proportion.
pub fn parse(text: &str) -> (r: Option<Element>)
    ensures
        r is Some == document(text@) is Some,
        r matches Some(e) ==> e@ == document(text@)->0,
{
    let rows: Vec<Row> = match parse_rows(text) {
        Some(rows) => rows,
        None => {
            return None;
        },
    };
    let nodes: Vec<Node> = build(rows);
    let ghost top = nodes@;
    let turned: Vec<Node> = reverse(nodes);
    assert(turned@.reverse() =~= top);
    root_of(turned)
}

/// The first element of some nodes that are held back to front.
fn root_of(given: Vec<Node>) -> (r: Option<Element>)
    ensures
        r is Some == first_element(items(given@.reverse())) is Some,
        r matches Some(e) ==> e@ == first_element(items(given@.reverse()))->0,
{
    let ghost all = given@.reverse();
    let mut nodes = given;
    assert(nodes@ =~= all.reverse());
    assert(all.skip(0) =~= all);
    while nodes.len() > 0
        invariant
            all == given@.reverse(),
            nodes@.len() <= all.len(),
            nodes@ == all.skip(all.len() - nodes@.len()).reverse(),
            first_element(items(all)) == first_element(items(all.skip(all.len() - nodes@.len()))),
        decreases nodes@.len(),
    {
        let ghost d = all.len() - nodes@.len();
        let ghost rest = all.skip(d);
        let popped: Option<Node> = nodes.pop();
        assert(popped == Some(rest[0]));
        proof {
            lemma_items(rest);
            lemma_items(all.skip(d + 1));
            assert(rest.skip(1) =~= all.skip(d + 1));
            assert(items(rest).skip(1) =~= items(all.skip(d + 1)));
            assert(nodes@ =~= all.skip(d + 1).reverse());
        }
        if let Some(Node::Element(e)) = popped {
            return Some(e);
        }
    }
    proof {
        lemma_items(all.skip(all.len() as int));
    }
    None
}

// ── queries ──────────────────────────────────────────────────────────────────

impl Tree {
    /// The value of the first attribute with this local name.
    pub open spec fn attr(self, name: Seq<char>) -> Option<Seq<char>> {
        attr_from(self.attrs, name)
    }

    /// The child elements, in order.
    pub open spec fn elems(self) -> Seq<Tree> {
        elements(self.children)
    }

    /// The first child element with this local name.
    pub open spec fn child(self, name: Seq<char>) -> Option<Tree> {
        named(self.elems(), name)
    }

    /// The text inside the element, at any depth, in document order.
    pub open spec fn inner_text(self) -> Seq<char>
        decreases self,
    {
        text_of(self.children)
    }

    /// The elements inside the element, at any depth, in document order.
    pub open spec fn inside(self) -> Seq<Tree> {
        elements_in(self.children)
    }

    /// The value of an attribute; empty where there is no such attribute.
    pub open spec fn text_attr(self, name: Seq<char>) -> Seq<char> {
        match self.attr(name) {
            Some(v) => v,
            None => Seq::empty(),
        }
    }

    pub open spec fn attr_u32(self, name: Seq<char>) -> Option<u32> {
        match self.attr(name) {
            Some(v) => parsed_u32(trimmed(v)),
            None => None,
        }
    }

    pub open spec fn attr_bool(self, name: Seq<char>) -> Option<bool> {
        match self.attr(name) {
            Some(v) => Some(says_true(v)),
            None => None,
        }
    }
}

pub open spec fn attr_from(attrs: Seq<(Seq<char>, Seq<char>)>, name: Seq<char>) -> Option<Seq<char>>
    decreases attrs.len(),
{
    if attrs.len() == 0 {
        None
    } else if attrs[0].0 == name {
        Some(attrs[0].1)
    } else {
        attr_from(attrs.skip(1), name)
    }
}

pub open spec fn elements(v: Seq<Item>) -> Seq<Tree>
    decreases v.len(),
{
    if v.len() == 0 {
        Seq::empty()
    } else {
        match v.last() {
            Item::Element(t) => elements(v.drop_last()).push(t),
            Item::Text(_) => elements(v.drop_last()),
        }
    }
}

pub open spec fn named(v: Seq<Tree>, name: Seq<char>) -> Option<Tree>
    decreases v.len(),
{
    if v.len() == 0 {
        None
    } else if v[0].name == name {
        Some(v[0])
    } else {
        named(v.skip(1), name)
    }
}

pub open spec fn text_of(v: Seq<Item>) -> Seq<char>
    decreases v,
{
    if v.len() == 0 {
        Seq::empty()
    } else {
        text_of(v.drop_last()) + match v.last() {
            Item::Text(s) => s,
            Item::Element(t) => text_of(t.children),
        }
    }
}

pub open spec fn elements_in(v: Seq<Item>) -> Seq<Tree>
    decreases v,
{
    if v.len() == 0 {
        Seq::empty()
    } else {
        elements_in(v.drop_last()) + match v.last() {
            Item::Text(_) => Seq::empty(),
            Item::Element(t) => seq![t] + elements_in(t.children),
        }
    }
}

/// The spellings of a true attribute.
pub open spec fn says_true(v: Seq<char>) -> bool {
    trimmed(v) == "true"@ || trimmed(v) == "1"@ || trimmed(v) == "on"@
}

/// Whether an attribute's value says yes.
pub fn truthy(v: &str) -> (r: bool)
    ensures
        r == says_true(v@),
{
    let t: String = string_of(&trim(&chars_of(v)));
    *t.as_str() == *"true" || *t.as_str() == *"1" || *t.as_str() == *"on"
}

/// The views of a list of elements.
pub open spec fn trees(v: Seq<&Element>) -> Seq<Tree> {
    v.map_values(|e: &Element| e@)
}

impl Element {
    /// The value of the first attribute with this local name, in whatever namespace.
    pub fn attr_local(&self, name: &str) -> (r: Option<&str>)
        ensures
            r is Some == self@.attr(name@) is Some,
            r matches Some(v) ==> v@ == self@.attr(name@)->0,
    {
        let ghost av = attr_views(self.attrs@);
        assert(av.skip(0) =~= av);
        for i in 0..self.attrs.len()
            invariant
                av == attr_views(self.attrs@),
                attr_from(av, name@) == attr_from(av.skip(i as int), name@),
        {
            let a: &(String, String) = &self.attrs[i];
            assert(av.skip(i as int)[0] == (a.0@, a.1@));
            assert(av.skip(i as int).skip(1) =~= av.skip(i + 1));
            if *a.0.as_str() == *name {
                return Some(a.1.as_str());
            }
        }
        None
    }

    /// The value of an attribute; empty where there is no such attribute.
    pub fn text_attr(&self, name: &str) -> (r: &str)
        ensures
            r@ == self@.text_attr(name@),
    {
        match self.attr_local(name) {
            Some(v) => v,
            None => {
                proof {
                    reveal_strlit("");
                }
                assert(""@ =~= Seq::<char>::empty());
                ""
            },
        }
    }

    /// Whether the element has this local name.
    pub fn is(&self, name: &str) -> (r: bool)
        ensures
            r == (self@.name == name@),
    {
        *self.name.as_str() == *name
    }

    /// The child elements, in order.
    pub fn elems(&self) -> (r: Vec<&Element>)
        ensures
            trees(r@) == self@.elems(),
    {
        let mut r: Vec<&Element> = Vec::new();
        let ghost all = items(self.children@);
        proof {
            lemma_items(self.children@);
        }
        assert(all.take(0) =~= Seq::<Item>::empty());
        assert(trees(r@) =~= Seq::<Tree>::empty());
        for i in 0..self.children.len()
            invariant
                all == items(self.children@),
                all.len() == self.children@.len(),
                forall|k: int|
                    0 <= k < all.len() ==> #[trigger] all[k] == item(self.children@[k]),
                trees(r@) == elements(all.take(i as int)),
        {
            assert(all.take(i + 1).drop_last() =~= all.take(i as int));
            assert(all.take(i + 1).last() == item(self.children@[i as int]));
            let ghost before = r@;
            if let Node::Element(e) = &self.children[i] {
                r.push(e);
                assert(trees(r@) =~= trees(before).push(e@));
            }
        }
        assert(all.take(all.len() as int) =~= all);
        r
    }

    /// The first child element with this local name.
    pub fn child(&self, name: &str) -> (r: Option<&Element>)
        ensures
            r is Some == self@.child(name@) is Some,
            r matches Some(e) ==> e@ == self@.child(name@)->0,
    {
        let v: Vec<&Element> = self.elems();
        let ghost ts = trees(v@);
        assert(ts.skip(0) =~= ts);
        for i in 0..v.len()
            invariant
                ts == trees(v@),
                ts == self@.elems(),
                named(ts, name@) == named(ts.skip(i as int), name@),
        {
            let e: &Element = v[i];
            assert(ts.skip(i as int)[0] == e@);
            assert(ts.skip(i as int).skip(1) =~= ts.skip(i + 1));
            if e.is(name) {
                return Some(e);
            }
        }
        None
    }

    /// The text inside the element, at any depth, in document order.
    pub fn inner_text(&self) -> (r: Vec<char>)
        ensures
            r@ == self@.inner_text(),
    {
        let mut r: Vec<char> = Vec::new();
        self.push_inner_text(&mut r);
        r
    }

    fn push_inner_text(&self, out: &mut Vec<char>)
        ensures
            final(out)@ == old(out)@ + text_of(items(self.children@)),
        decreases self,
    {
        let ghost start = out@;
        let ghost all = items(self.children@);
        proof {
            lemma_items(self.children@);
        }
        assert(all.take(0) =~= Seq::<Item>::empty());
        assert(start + text_of(all.take(0)) =~= start);
        for i in 0..self.children.len()
            invariant
                all == items(self.children@),
                all.len() == self.children@.len(),
                forall|k: int|
                    0 <= k < all.len() ==> #[trigger] all[k] == item(self.children@[k]),
                out@ == start + text_of(all.take(i as int)),
        {
            assert(all.take(i + 1).drop_last() =~= all.take(i as int));
            assert(all.take(i + 1).last() == item(self.children@[i as int]));
            match &self.children[i] {
                Node::Text(s) => push_text(out, s.as_str()),
                Node::Element(e) => {
                    assert(decreases_to!(self => self.children@[i as int]));
                    e.push_inner_text(out);
                },
            }
            assert(out@ =~= start + text_of(all.take(i + 1)));
        }
        assert(all.take(all.len() as int) =~= all);
    }

    /// The elements inside the element, at any depth, in document order.
    pub fn inside(&self) -> (r: Vec<&Element>)
        ensures
            trees(r@) == self@.inside(),
    {
        let mut r: Vec<&Element> = Vec::new();
        self.push_inside(&mut r);
        assert(trees(r@) =~= self@.inside());
        r
    }

    fn push_inside<'a>(&'a self, out: &mut Vec<&'a Element>)
        ensures
            trees(final(out)@) == trees(old(out)@) + elements_in(items(self.children@)),
        decreases self,
    {
        let ghost start = trees(out@);
        let ghost all = items(self.children@);
        proof {
            lemma_items(self.children@);
        }
        assert(all.take(0) =~= Seq::<Item>::empty());
        assert(start + elements_in(all.take(0)) =~= start);
        for i in 0..self.children.len()
            invariant
                all == items(self.children@),
                all.len() == self.children@.len(),
                forall|k: int|
                    0 <= k < all.len() ==> #[trigger] all[k] == item(self.children@[k]),
                trees(out@) == start + elements_in(all.take(i as int)),
        {
            assert(all.take(i + 1).drop_last() =~= all.take(i as int));
            assert(all.take(i + 1).last() == item(self.children@[i as int]));
            if let Node::Element(e) = &self.children[i] {
                assert(decreases_to!(self => self.children@[i as int]));
                let ghost before = out@;
                out.push(e);
                assert(trees(out@) =~= trees(before).push(e@));
                e.push_inside(out);
            }
            assert(trees(out@) =~= start + elements_in(all.take(i + 1)));
        }
        assert(all.take(all.len() as int) =~= all);
    }

    pub fn attr_u32(&self, name: &str) -> (r: Option<u32>)
        ensures
            r == self@.attr_u32(name@),
    {
        match self.attr_local(name) {
            Some(v) => parse_u32(&trim(&chars_of(v))),
            None => None,
        }
    }

    pub fn attr_bool(&self, name: &str) -> (r: Option<bool>)
        ensures
            r == self@.attr_bool(name@),
    {
        match self.attr_local(name) {
            Some(v) => Some(truthy(v)),
            None => None,
        }
    }
}

} // verus!
