//! The element tree that pages are composed into, handed to the tag
//! builder for serialisation.

use vstd::prelude::*;

verus! {

#[derive(Clone, Debug, PartialEq, Eq)]
pub struct Attribute {
    pub name: String,
    pub value: String,
}

#[derive(Debug)]
pub enum Node {
    Element { tag: String, attributes: Vec<Attribute>, children: Vec<Node> },
    /// Literal text, escaped when serialised.
    Text(String),
    /// Content already rendered by the document processor, inserted as it is.
    Markup(String),
}

/// The abstract value of a node.
pub enum Tree {
    Element { tag: Seq<char>, attributes: Seq<(Seq<char>, Seq<char>)>, children: Seq<Tree> },
    Text(Seq<char>),
    Markup(Seq<char>),
}

pub open spec fn attributes_of(s: Seq<Attribute>) -> Seq<(Seq<char>, Seq<char>)> {
    s.map_values(|a: Attribute| (a.name@, a.value@))
}

pub open spec fn tree_of(n: Node) -> Tree
    decreases n,
{
    match n {
        Node::Element { tag, attributes, children } => Tree::Element {
            tag: tag@,
            attributes: attributes_of(attributes@),
            children: trees_of(children@),
        },
        Node::Text(s) => Tree::Text(s@),
        Node::Markup(s) => Tree::Markup(s@),
    }
}

pub open spec fn trees_of(ns: Seq<Node>) -> Seq<Tree>
    decreases ns,
{
    if ns.len() == 0 {
        Seq::empty()
    } else {
        trees_of(ns.subrange(0, ns.len() - 1)).push(tree_of(ns[ns.len() - 1]))
    }
}

pub proof fn lemma_trees_of_push(ns: Seq<Node>, n: Node)
    ensures
        trees_of(ns.push(n)) == trees_of(ns).push(tree_of(n)),
{
    assert(ns.push(n).subrange(0, ns.len() as int) =~= ns);
}

pub open spec fn element(
    tag: Seq<char>,
    attributes: Seq<(Seq<char>, Seq<char>)>,
    children: Seq<Tree>,
) -> Tree {
    Tree::Element { tag, attributes, children }
}

pub fn make_element(tag: &str, attributes: Vec<Attribute>, children: Vec<Node>) -> (r: Node)
    ensures
        tree_of(r) == element(tag@, attributes_of(attributes@), trees_of(children@)),
{
    Node::Element { tag: String::from_str(tag), attributes, children }
}

/// The attribute list `[(name, value)]`.
pub fn attributes1(name: &str, value: String) -> (r: Vec<Attribute>)
    ensures
        attributes_of(r@) == seq![(name@, value@)],
{
    let r = vec![Attribute { name: String::from_str(name), value }];
    proof {
        assert(attributes_of(r@) =~= seq![(name@, value@)]);
    }
    r
}

/// The attribute list `[(n1, v1), (n2, v2)]`.
pub fn attributes2(n1: &str, v1: String, n2: &str, v2: String) -> (r: Vec<Attribute>)
    ensures
        attributes_of(r@) == seq![(n1@, v1@), (n2@, v2@)],
{
    let r = vec![
        Attribute { name: String::from_str(n1), value: v1 },
        Attribute { name: String::from_str(n2), value: v2 },
    ];
    proof {
        assert(attributes_of(r@) =~= seq![(n1@, v1@), (n2@, v2@)]);
    }
    r
}

/// The attribute list `[(n1, v1), (n2, v2), (n3, v3)]`.
pub fn attributes3(n1: &str, v1: String, n2: &str, v2: String, n3: &str, v3: String) -> (r: Vec<
    Attribute,
>)
    ensures
        attributes_of(r@) == seq![(n1@, v1@), (n2@, v2@), (n3@, v3@)],
{
    let r = vec![
        Attribute { name: String::from_str(n1), value: v1 },
        Attribute { name: String::from_str(n2), value: v2 },
        Attribute { name: String::from_str(n3), value: v3 },
    ];
    proof {
        assert(attributes_of(r@) =~= seq![(n1@, v1@), (n2@, v2@), (n3@, v3@)]);
    }
    r
}

pub fn no_attributes() -> (r: Vec<Attribute>)
    ensures
        attributes_of(r@) == Seq::<(Seq<char>, Seq<char>)>::empty(),
{
    let r: Vec<Attribute> = Vec::new();
    proof {
        assert(attributes_of(r@) =~= Seq::<(Seq<char>, Seq<char>)>::empty());
    }
    r
}

pub fn no_nodes() -> (r: Vec<Node>)
    ensures
        r@.len() == 0,
        trees_of(r@) == Seq::<Tree>::empty(),
{
    Vec::new()
}

/// Appends a node to a list of nodes.
pub fn push_node(nodes: &mut Vec<Node>, n: Node)
    ensures
        trees_of(final(nodes)@) == trees_of(old(nodes)@).push(tree_of(n)),
{
    proof {
        lemma_trees_of_push(nodes@, n);
    }
    nodes.push(n);
}

pub fn nodes1(a: Node) -> (r: Vec<Node>)
    ensures
        trees_of(r@) == seq![tree_of(a)],
{
    let mut r = no_nodes();
    push_node(&mut r, a);
    proof {
        assert(seq![tree_of(a)] =~= Seq::<Tree>::empty().push(tree_of(a)));
    }
    r
}

pub fn nodes2(a: Node, b: Node) -> (r: Vec<Node>)
    ensures
        trees_of(r@) == seq![tree_of(a), tree_of(b)],
{
    let ghost ta = tree_of(a);
    let ghost tb = tree_of(b);
    let mut r = nodes1(a);
    push_node(&mut r, b);
    proof {
        assert(seq![ta, tb] =~= seq![ta].push(tb));
    }
    r
}

pub fn nodes3(a: Node, b: Node, c: Node) -> (r: Vec<Node>)
    ensures
        trees_of(r@) == seq![tree_of(a), tree_of(b), tree_of(c)],
{
    let ghost ta = tree_of(a);
    let ghost tb = tree_of(b);
    let ghost tc = tree_of(c);
    let mut r = nodes2(a, b);
    push_node(&mut r, c);
    proof {
        assert(seq![ta, tb, tc] =~= seq![ta, tb].push(tc));
    }
    r
}

pub fn text_node(s: &str) -> (r: Node)
    ensures
        tree_of(r) == Tree::Text(s@),
{
    Node::Text(String::from_str(s))
}

pub proof fn lemma_trees_of_concat(a: Seq<Node>, b: Seq<Node>)
    ensures
        trees_of(a + b) == trees_of(a) + trees_of(b),
    decreases b.len(),
{
    if b.len() == 0 {
        assert(a + b =~= a);
        assert(trees_of(a) + trees_of(b) =~= trees_of(a));
    } else {
        let c = b.subrange(0, b.len() - 1);
        lemma_trees_of_concat(a, c);
        assert((a + b).subrange(0, (a + b).len() - 1) =~= a + c);
        assert(trees_of(a) + trees_of(b) =~= (trees_of(a) + trees_of(c)).push(tree_of(b[b.len() - 1])));
    }
}

/// Appends the nodes of `more` to `nodes`.
pub fn append_nodes(nodes: &mut Vec<Node>, more: Vec<Node>)
    ensures
        trees_of(final(nodes)@) == trees_of(old(nodes)@) + trees_of(more@),
{
    let mut more = more;
    proof {
        lemma_trees_of_concat(nodes@, more@);
    }
    nodes.append(&mut more);
}

} // verus!
