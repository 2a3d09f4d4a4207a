use vstd::prelude::*;
use crate::text::{chars_of, string_of, trim_chars, trimmed};

verus! {

/// One attribute of an element: its name and its value.
#[derive(Clone, Debug)]
pub struct Attribute {
    pub name: String,
    pub value: String,
}

/// What a node holds.
#[derive(Clone, Debug)]
pub enum NodeData {
    /// An element with its tag name and its attributes, in source order.
    Element { name: String, attrs: Vec<Attribute> },
    /// A run of character data.
    Text { text: String },
    /// A comment, a doctype or anything else that holds no text of the page.
    Other,
}

/// A node of the page. Its subtree is the node itself and the nodes that
/// follow it, up to (not including) position `end`.
#[derive(Clone, Debug)]
pub struct Node {
    pub data: NodeData,
    pub end: usize,
}

/// A parsed page: all of its nodes in document order (pre-order).
#[derive(Clone, Debug)]
pub struct Dom {
    pub nodes: Vec<Node>,
}

/// What a lookup searches for.
#[derive(Clone, Debug)]
pub enum Selector {
    /// An element whose attribute of this name (the first such) has exactly this value.
    Attr { name: String, value: String },
    /// An element with this tag name.
    Name { name: String },
}

/// What a selector looks for, as plain text.
pub enum Pattern {
    /// An element whose first attribute of this name has this value.
    Attr(Seq<char>, Seq<char>),
    /// An element with this tag name.
    Tag(Seq<char>),
}

impl View for Selector {
    type V = Pattern;

    open spec fn view(&self) -> Pattern {
        match self {
            Selector::Attr { name, value } => Pattern::Attr(name@, value@),
            Selector::Name { name } => Pattern::Tag(name@),
        }
    }
}

impl Selector {
    /// A selector for the elements whose attribute `name` is exactly `value`.
    pub fn attr(name: &str, value: &str) -> (r: Selector)
        ensures
            r@ == Pattern::Attr(name@, value@),
    {
        Selector::Attr { name: name.to_owned(), value: value.to_owned() }
    }

    /// A selector for the elements with tag name `name`.
    pub fn tag(name: &str) -> (r: Selector)
        ensures
            r@ == Pattern::Tag(name@),
    {
        Selector::Name { name: name.to_owned() }
    }
}

/// A position held as an integer.
pub open spec fn as_pos(o: Option<usize>) -> Option<int> {
    match o {
        Some(i) => Some(i as int),
        None => None,
    }
}

/// The value of the first attribute called `key`, if any.
pub open spec fn attr_lookup(attrs: Seq<Attribute>, key: Seq<char>) -> Option<Seq<char>>
    decreases attrs.len(),
{
    if attrs.len() == 0 {
        None
    } else if attrs[0].name@ == key {
        Some(attrs[0].value@)
    } else {
        attr_lookup(attrs.drop_first(), key)
    }
}

/// Whether a node is matched by a selector.
pub open spec fn node_matches(n: Node, pat: Pattern) -> bool {
    match n.data {
        NodeData::Element { name, attrs } => match pat {
            Pattern::Attr(key, value) => attr_lookup(attrs@, key) == Some(value),
            Pattern::Tag(tag) => name@ == tag,
        },
        _ => false,
    }
}

/// The first position in `lo .. hi` whose node is matched by `pat`.
pub open spec fn first_in(nodes: Seq<Node>, lo: int, hi: int, pat: Pattern) -> Option<int>
    decreases hi - lo,
{
    if hi <= lo {
        None
    } else if node_matches(nodes[lo], pat) {
        Some(lo)
    } else {
        first_in(nodes, lo + 1, hi, pat)
    }
}

/// Where the subtree of node `i` ends, kept within the page; an `end` that
/// does not lie past `i` makes the node a leaf.
pub open spec fn subtree_end(nodes: Seq<Node>, i: int) -> int {
    if nodes[i].end as int <= i {
        i + 1
    } else if nodes[i].end as int <= nodes.len() {
        nodes[i].end as int
    } else {
        nodes.len() as int
    }
}

/// The first descendant of node `i` (in document order) matched by `pat`.
pub open spec fn first_below(nodes: Seq<Node>, i: int, pat: Pattern) -> Option<int> {
    first_in(nodes, i + 1, subtree_end(nodes, i), pat)
}

/// The first node of the whole page matched by `pat`.
pub open spec fn first_of_page(nodes: Seq<Node>, pat: Pattern) -> Option<int> {
    first_in(nodes, 0, nodes.len() as int, pat)
}

/// The text that node `n` holds itself (empty unless it is character data).
pub open spec fn own_text(n: Node) -> Seq<char> {
    match n.data {
        NodeData::Text { text } => text@,
        _ => Seq::empty(),
    }
}

/// The character data of positions `lo .. hi`, joined in document order.
pub open spec fn text_in(nodes: Seq<Node>, lo: int, hi: int) -> Seq<char>
    decreases hi - lo,
{
    if hi <= lo {
        Seq::empty()
    } else {
        text_in(nodes, lo, hi - 1) + own_text(nodes[hi - 1])
    }
}

/// The combined text of node `i` and all of its descendants.
pub open spec fn node_text(nodes: Seq<Node>, i: int) -> Seq<char> {
    text_in(nodes, i, subtree_end(nodes, i))
}

/// The value of the first attribute called `key`, if any.
fn attr_find(attrs: &Vec<Attribute>, key: &String) -> (r: Option<String>)
    ensures
        r is None <==> attr_lookup(attrs@, key@) is None,
        r matches Some(v) ==> attr_lookup(attrs@, key@) == Some(v@),
{
    let mut i: usize = 0;
    assert(attrs@.subrange(0, attrs@.len() as int) =~= attrs@);
    while i < attrs.len()
        invariant
            i <= attrs.len(),
            attr_lookup(attrs@, key@) == attr_lookup(attrs@.subrange(i as int, attrs@.len() as int), key@),
        decreases attrs.len() - i,
    {
        assert(attrs@.subrange(i as int, attrs@.len() as int).drop_first()
            =~= attrs@.subrange(i + 1, attrs@.len() as int));
        if attrs[i].name == *key {
            return Some(attrs[i].value.clone());
        }
        i += 1;
    }
    None
}

/// Tells whether the first attribute called `key` has the value `value`.
fn attr_is(attrs: &Vec<Attribute>, key: &String, value: &String) -> (r: bool)
    ensures
        r == (attr_lookup(attrs@, key@) == Some(value@)),
{
    match attr_find(attrs, key) {
        Some(v) => v == *value,
        None => false,
    }
}

/// Tells whether `sel` matches node `n`.
pub fn matches_node(n: &Node, sel: &Selector) -> (r: bool)
    ensures
        r == node_matches(*n, sel@),
{
    match &n.data {
        NodeData::Element { name, attrs } => match sel {
            Selector::Attr { name: key, value } => attr_is(attrs, key, value),
            Selector::Name { name: tag } => *name == *tag,
        },
        _ => false,
    }
}

impl Attribute {
    /// An attribute called `name` with the value `value`.
    pub fn new(name: &str, value: &str) -> (r: Attribute)
        ensures
            r.name@ == name@,
            r.value@ == value@,
    {
        Attribute { name: name.to_owned(), value: value.to_owned() }
    }
}

impl Dom {
    /// A page with no nodes.
    pub fn new() -> (r: Dom)
        ensures
            r.nodes@.len() == 0,
    {
        Dom { nodes: Vec::new() }
    }

    /// Appends an element with no descendants yet and returns its position.
    pub fn push_element(&mut self, name: &str, attrs: Vec<Attribute>) -> (r: usize)
        requires
            old(self).nodes@.len() < usize::MAX,
        ensures
            r == old(self).nodes@.len(),
            final(self).nodes@.len() == r + 1,
            final(self).nodes@.take(r as int) == old(self).nodes@,
            final(self).nodes@[r as int].end == r + 1,
            final(self).nodes@[r as int].data matches NodeData::Element { name: n, attrs: a }
                && n@ == name@ && a@ == attrs@,
    {
        let r = self.nodes.len();
        self.nodes.push(Node { data: NodeData::Element { name: name.to_owned(), attrs }, end: r + 1 });
        assert(self.nodes@.take(r as int) =~= old(self).nodes@);
        r
    }

    /// Appends a run of character data.
    pub fn push_text(&mut self, text: &str)
        requires
            old(self).nodes@.len() < usize::MAX,
        ensures
            final(self).nodes@.len() == old(self).nodes@.len() + 1,
            final(self).nodes@.take(old(self).nodes@.len() as int) == old(self).nodes@,
            final(self).nodes@.last().end == final(self).nodes@.len(),
            final(self).nodes@.last().data matches NodeData::Text { text: t } && t@ == text@,
    {
        let r = self.nodes.len();
        self.nodes.push(Node { data: NodeData::Text { text: text.to_owned() }, end: r + 1 });
        assert(self.nodes@.take(r as int) =~= old(self).nodes@);
    }

    /// Ends the element at `i`: every node appended since it lies in its subtree.
    pub fn close(&mut self, i: usize)
        requires
            i < old(self).nodes@.len(),
        ensures
            final(self).nodes@.len() == old(self).nodes@.len(),
            forall|k: int|
                0 <= k < old(self).nodes@.len() && k != i ==> #[trigger] final(self).nodes@[k]
                    == old(self).nodes@[k],
            final(self).nodes@[i as int].data == old(self).nodes@[i as int].data,
            final(self).nodes@[i as int].end == old(self).nodes@.len(),
    {
        let n = self.nodes.len();
        let mut node = self.nodes.remove(i);
        node.end = n;
        self.nodes.insert(i, node);
    }

    /// The end of node `i`'s subtree, kept within the page.
    pub fn subtree_end(&self, i: usize) -> (r: usize)
        requires
            i < self.nodes@.len(),
        ensures
            r == subtree_end(self.nodes@, i as int),
            i < r <= self.nodes@.len(),
    {
        let n = self.nodes.len();
        let e = self.nodes[i].end;
        if e <= i {
            i + 1
        } else if e <= self.nodes.len() {
            e
        } else {
            self.nodes.len()
        }
    }

    /// The first position in `lo .. hi` whose node `sel` matches.
    pub fn find_in(&self, lo: usize, hi: usize, sel: &Selector) -> (r: Option<usize>)
        requires
            hi <= self.nodes@.len(),
        ensures
            as_pos(r) == first_in(self.nodes@, lo as int, hi as int, sel@),
            r matches Some(j) ==> lo <= j < hi,
    {
        let mut i: usize = lo;
        while i < hi
            invariant
                lo <= i,
                hi <= self.nodes@.len(),
                first_in(self.nodes@, lo as int, hi as int, sel@) == first_in(
                    self.nodes@,
                    i as int,
                    hi as int,
                    sel@,
                ),
            decreases hi - i,
        {
            if matches_node(&self.nodes[i], sel) {
                return Some(i);
            }
            i += 1;
        }
        None
    }

    /// The first node of the page that `sel` matches.
    pub fn first_of_page(&self, sel: &Selector) -> (r: Option<usize>)
        ensures
            as_pos(r) == first_of_page(self.nodes@, sel@),
            r matches Some(j) ==> j < self.nodes@.len(),
    {
        self.find_in(0, self.nodes.len(), sel)
    }

    /// The first descendant of node `i` that `sel` matches.
    pub fn first_below(&self, i: usize, sel: &Selector) -> (r: Option<usize>)
        requires
            i < self.nodes@.len(),
        ensures
            as_pos(r) == first_below(self.nodes@, i as int, sel@),
            r matches Some(j) ==> j < self.nodes@.len(),
    {
        let hi = self.subtree_end(i);
        self.find_in(i + 1, hi, sel)
    }

    /// The first descendant matched by `sel` of the node found, if one was.
    pub fn then_below(&self, found: Option<usize>, sel: &Selector) -> (r: Option<usize>)
        requires
            found matches Some(i) ==> i < self.nodes@.len(),
        ensures
            as_pos(r) == then_below(self.nodes@, as_pos(found), sel@),
            r matches Some(j) ==> j < self.nodes@.len(),
    {
        match found {
            Some(i) => self.first_below(i, sel),
            None => None,
        }
    }

    /// The first `cap` nodes of the page that `sel` matches, in document order.
    pub fn page_matches(&self, sel: &Selector, cap: usize) -> (r: Vec<usize>)
        ensures
            r@.len() == page_matches(self.nodes@, sel@, cap as nat).len(),
            forall|k: int|
                0 <= k < r@.len() ==> #[trigger] r@[k] as int == page_matches(
                    self.nodes@,
                    sel@,
                    cap as nat,
                )[k],
            forall|k: int| 0 <= k < r@.len() ==> #[trigger] r@[k] < self.nodes@.len(),
    {
        let n = self.nodes.len();
        let mut out: Vec<usize> = Vec::new();
        let mut i: usize = 0;
        while i < n && out.len() < cap
            invariant
                i <= n,
                n == self.nodes@.len(),
                out@.len() <= cap,
                out@.len() == matches_in(self.nodes@, 0, i as int, sel@).len(),
                forall|k: int|
                    0 <= k < out@.len() ==> #[trigger] out@[k] as int == matches_in(
                        self.nodes@,
                        0,
                        i as int,
                        sel@,
                    )[k],
                forall|k: int| 0 <= k < out@.len() ==> #[trigger] out@[k] < i,
            decreases n - i,
        {
            if matches_node(&self.nodes[i], sel) {
                out.push(i);
            }
            i += 1;
        }
        proof {
            lemma_matches_prefix(self.nodes@, 0, i as int, n as int, sel@);
        }
        out
    }

    /// The combined text of node `i` and its descendants, in document order.
    pub fn text_chars(&self, i: usize) -> (r: Vec<char>)
        requires
            i < self.nodes@.len(),
        ensures
            r@ == node_text(self.nodes@, i as int),
    {
        let hi = self.subtree_end(i);
        let mut out: Vec<char> = Vec::new();
        let mut k: usize = i;
        while k < hi
            invariant
                i <= k <= hi,
                hi <= self.nodes@.len(),
                hi == subtree_end(self.nodes@, i as int),
                out@ == text_in(self.nodes@, i as int, k as int),
            decreases hi - k,
        {
            match &self.nodes[k].data {
                NodeData::Text { text } => {
                    let mut cs = chars_of(text.as_str());
                    out.append(&mut cs);
                },
                _ => {},
            }
            k += 1;
        }
        out
    }
}

/// The positions in `lo .. hi` whose nodes `pat` matches, in document order.
pub open spec fn matches_in(nodes: Seq<Node>, lo: int, hi: int, pat: Pattern) -> Seq<int>
    decreases hi - lo,
{
    if hi <= lo {
        Seq::empty()
    } else if node_matches(nodes[hi - 1], pat) {
        matches_in(nodes, lo, hi - 1, pat).push(hi - 1)
    } else {
        matches_in(nodes, lo, hi - 1, pat)
    }
}

/// The first `cap` of a sequence, or all of it when it is shorter.
pub open spec fn capped(s: Seq<int>, cap: nat) -> Seq<int> {
    if s.len() <= cap {
        s
    } else {
        s.take(cap as int)
    }
}

/// The first `cap` nodes of the page that `pat` matches, in document order.
pub open spec fn page_matches(nodes: Seq<Node>, pat: Pattern, cap: nat) -> Seq<int> {
    capped(matches_in(nodes, 0, nodes.len() as int, pat), cap)
}

/// Scanning further only adds matches after those already found.
proof fn lemma_matches_prefix(nodes: Seq<Node>, lo: int, i: int, j: int, pat: Pattern)
    requires
        lo <= i <= j,
    ensures
        matches_in(nodes, lo, i, pat).len() <= matches_in(nodes, lo, j, pat).len(),
        matches_in(nodes, lo, j, pat).take(matches_in(nodes, lo, i, pat).len() as int)
            == matches_in(nodes, lo, i, pat),
    decreases j - i,
{
    if i < j {
        lemma_matches_prefix(nodes, lo, i, j - 1, pat);
        let a = matches_in(nodes, lo, i, pat);
        let b = matches_in(nodes, lo, j - 1, pat);
        if node_matches(nodes[j - 1], pat) {
            assert(b.push(j - 1).take(a.len() as int) =~= b.take(a.len() as int));
        }
    } else {
        assert(matches_in(nodes, lo, j, pat).take(matches_in(nodes, lo, j, pat).len() as int)
            =~= matches_in(nodes, lo, j, pat));
    }
}

/// The descendant matched by `pat` of the node found, if one was.
pub open spec fn then_below(nodes: Seq<Node>, found: Option<int>, pat: Pattern) -> Option<int> {
    match found {
        Some(i) => first_below(nodes, i, pat),
        None => None,
    }
}

/// The trimmed text of the node found, or `absent` when none was.
pub open spec fn text_or(nodes: Seq<Node>, found: Option<int>, absent: Seq<char>) -> Seq<char> {
    match found {
        Some(i) => trimmed(node_text(nodes, i)),
        None => absent,
    }
}

/// The value of attribute `key` of a node, if it is an element that has one.
pub open spec fn node_attr(n: Node, key: Seq<char>) -> Option<Seq<char>> {
    match n.data {
        NodeData::Element { attrs, .. } => attr_lookup(attrs@, key),
        _ => None,
    }
}

/// The value of attribute `key` of node `i`, if it is an element that has one.
pub fn attr_value(dom: &Dom, i: usize, key: &str) -> (r: Option<String>)
    requires
        i < dom.nodes@.len(),
    ensures
        r is None <==> node_attr(dom.nodes@[i as int], key@) is None,
        r matches Some(v) ==> node_attr(dom.nodes@[i as int], key@) == Some(v@),
{
    match &dom.nodes[i].data {
        NodeData::Element { attrs, .. } => attr_find(attrs, &key.to_owned()),
        _ => None,
    }
}

/// The trimmed text of the node found, or `absent` when none was.
pub fn text_or_absent(dom: &Dom, found: Option<usize>, absent: &str) -> (r: String)
    requires
        found matches Some(i) ==> i < dom.nodes@.len(),
    ensures
        r@ == text_or(dom.nodes@, as_pos(found), absent@),
{
    match found {
        Some(i) => {
            let t = dom.text_chars(i);
            string_of(&trim_chars(&t))
        },
        None => absent.to_owned(),
    }
}

} // verus!
