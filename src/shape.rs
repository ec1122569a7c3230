use vstd::prelude::*;
use crate::kind::{Kind, classify, classify_tag};
use crate::syntax::SyntaxNode;
use crate::text::{opt_view, same_text, span_of, span_text};

verus! {

/// An element of the shaped document tree: its kind, the name inferred for it
/// (set at most once), its source text, its children in document order, and
/// the relation edges `(own kind, child kind)` recorded as children were
/// attached.
#[derive(Debug)]
pub struct Element {
    pub kind: Kind,
    pub name: Option<String>,
    pub text: String,
    pub children: Vec<Element>,
    pub relations: Vec<(Kind, Kind)>,
}

/// The mathematical value of an [`Element`].
pub ghost struct Shaped {
    pub kind: Kind,
    pub name: Option<Seq<char>>,
    pub text: Seq<char>,
    pub children: Seq<Shaped>,
    pub relations: Seq<(Kind, Kind)>,
}

pub open spec fn shape_of(e: Element) -> Shaped
    decreases e,
{
    Shaped {
        kind: e.kind,
        name: opt_view(e.name),
        text: e.text@,
        children: shapes_of(e.children@),
        relations: e.relations@,
    }
}

pub open spec fn shapes_of(s: Seq<Element>) -> Seq<Shaped>
    decreases s,
{
    if s.len() == 0 {
        Seq::empty()
    } else {
        shapes_of(s.subrange(0, s.len() - 1)).push(shape_of(s[s.len() - 1]))
    }
}

impl View for Element {
    type V = Shaped;

    open spec fn view(&self) -> Shaped {
        shape_of(*self)
    }
}

/// A fresh element: no name, no children, no relations.
pub open spec fn fresh(kind: Kind, text: Seq<char>) -> Shaped {
    Shaped { kind, name: None, text, children: Seq::empty(), relations: Seq::empty() }
}

/// Tags of identifier-like tokens, whose text names the enclosing element.
pub open spec fn is_name_tag(tag: Seq<char>) -> bool {
    tag == "type_identifier"@ || tag == "identifier"@
}

/// Name inference: an identifier-like token names an element that has no name yet.
pub open spec fn named_by(p: Shaped, tag: Seq<char>, text: Seq<char>) -> Shaped {
    if is_name_tag(tag) && p.name is None {
        Shaped { name: Some(text), ..p }
    } else {
        p
    }
}

/// Attaching a child element records the edge `(parent kind, child kind)`.
pub open spec fn attach(p: Shaped, e: Shaped) -> Shaped {
    Shaped { children: p.children.push(e), relations: p.relations.push((p.kind, e.kind)), ..p }
}

/// The element `p` after the subtree rooted at `n` has been built into it.
/// A node whose tag has no kind gets no element of its own: its descendants
/// are built into `p` directly.
pub open spec fn visit(code: Seq<char>, n: SyntaxNode, p: Shaped) -> Shaped
    decreases n,
{
    let text = span_text(code, n.start as int, n.end as int);
    let q = named_by(p, n.tag@, text);
    match classify_tag(n.tag@) {
        Some(k) => attach(q, visit_all(code, n.children@, fresh(k, text))),
        None => visit_all(code, n.children@, q),
    }
}

/// The element `p` after the subtrees of `s` have been built into it, in order.
pub open spec fn visit_all(code: Seq<char>, s: Seq<SyntaxNode>, p: Shaped) -> Shaped
    decreases s,
{
    if s.len() == 0 {
        p
    } else {
        visit(code, s[s.len() - 1], visit_all(code, s.subrange(0, s.len() - 1), p))
    }
}

/// The shaped tree of a whole source unit, under a synthetic root element.
pub open spec fn document_tree(code: Seq<char>, root: SyntaxNode) -> Shaped {
    visit(code, root, fresh(Kind::Root, "Root"@))
}

impl Element {
    pub fn new(kind: Kind, text: String) -> (r: Element)
        ensures
            r@ == fresh(kind, text@),
    {
        let r = Element { kind, name: None, text, children: Vec::new(), relations: Vec::new() };
        assert(r.children@ =~= Seq::<Element>::empty());
        assert(shapes_of(r.children@) =~= Seq::<Shaped>::empty());
        r
    }
}

fn is_name_token(tag: &str) -> (r: bool)
    ensures
        r == is_name_tag(tag@),
{
    same_text(tag, "type_identifier") || same_text(tag, "identifier")
}

/// Building into an element keeps its kind and text, and only extends its
/// children and relation edges.
pub proof fn lemma_visit_extends(code: Seq<char>, n: SyntaxNode, p: Shaped)
    ensures
        visit(code, n, p).kind == p.kind,
        visit(code, n, p).text == p.text,
        p.children.is_prefix_of(visit(code, n, p).children),
        p.relations.is_prefix_of(visit(code, n, p).relations),
    decreases n,
{
    let text = span_text(code, n.start as int, n.end as int);
    let q = named_by(p, n.tag@, text);
    match classify_tag(n.tag@) {
        Some(k) => {
            lemma_visit_all_extends(code, n.children@, fresh(k, text));
        },
        None => {
            lemma_visit_all_extends(code, n.children@, q);
        },
    }
}

/// [`lemma_visit_extends`] for a sequence of subtrees.
pub proof fn lemma_visit_all_extends(code: Seq<char>, s: Seq<SyntaxNode>, p: Shaped)
    ensures
        visit_all(code, s, p).kind == p.kind,
        visit_all(code, s, p).text == p.text,
        p.children.is_prefix_of(visit_all(code, s, p).children),
        p.relations.is_prefix_of(visit_all(code, s, p).relations),
    decreases s,
{
    if s.len() > 0 {
        let init = s.subrange(0, s.len() - 1);
        lemma_visit_all_extends(code, init, p);
        lemma_visit_extends(code, s[s.len() - 1], visit_all(code, init, p));
    }
}

/// Once an element has a name, building more subtrees into it never changes it.
pub proof fn lemma_name_kept(code: Seq<char>, n: SyntaxNode, p: Shaped)
    requires
        p.name is Some,
    ensures
        visit(code, n, p).name == p.name,
    decreases n,
{
    let text = span_text(code, n.start as int, n.end as int);
    if classify_tag(n.tag@) is None {
        lemma_name_kept_all(code, n.children@, named_by(p, n.tag@, text));
    }
}

/// [`lemma_name_kept`] for a sequence of subtrees.
pub proof fn lemma_name_kept_all(code: Seq<char>, s: Seq<SyntaxNode>, p: Shaped)
    requires
        p.name is Some,
    ensures
        visit_all(code, s, p).name == p.name,
    decreases s,
{
    if s.len() > 0 {
        let init = s.subrange(0, s.len() - 1);
        lemma_name_kept_all(code, init, p);
        lemma_name_kept(code, s[s.len() - 1], visit_all(code, init, p));
    }
}

/// First match wins: an element with no name takes the text of the first
/// identifier-like token among the subtrees built into it, and keeps that
/// name whatever follows.
pub proof fn lemma_first_name_wins(code: Seq<char>, s: Seq<SyntaxNode>, p: Shaped, j: int)
    requires
        0 <= j < s.len(),
        is_name_tag(s[j].tag@),
        visit_all(code, s.subrange(0, j), p).name is None,
    ensures
        visit_all(code, s, p).name == Some(span_text(code, s[j].start as int, s[j].end as int)),
    decreases s.len(),
{
    let init = s.subrange(0, s.len() - 1);
    if j == s.len() - 1 {
        assert(init =~= s.subrange(0, j));
        let last = s[j];
        let text = span_text(code, last.start as int, last.end as int);
        let q = named_by(visit_all(code, init, p), last.tag@, text);
        assert(q.name == Some(text));
        assert(visit_all(code, s, p) == visit(code, last, visit_all(code, init, p)));
        if classify_tag(last.tag@) is None {
            lemma_name_kept_all(code, last.children@, q);
        } else {
            let k = classify_tag(last.tag@)->0;
            assert(visit(code, last, visit_all(code, init, p)) == attach(q, element_of(code, last, k)));
        }
    } else {
        assert(init.subrange(0, j) =~= s.subrange(0, j));
        lemma_first_name_wins(code, init, p, j);
        lemma_name_kept(code, s[s.len() - 1], visit_all(code, init, p));
    }
}

/// The element that a classified node `c` of kind `k` gives.
pub open spec fn element_of(code: Seq<char>, c: SyntaxNode, k: Kind) -> Shaped {
    visit_all(code, c.children@, fresh(k, span_text(code, c.start as int, c.end as int)))
}

/// Each classified node among `s` gives its element, which is attached after
/// the children that `p` already had.
pub proof fn lemma_child_attached(code: Seq<char>, s: Seq<SyntaxNode>, p: Shaped, j: int, k: Kind)
    requires
        0 <= j < s.len(),
        classify_tag(s[j].tag@) == Some(k),
    ensures
        exists|i: int|
            p.children.len() <= i < visit_all(code, s, p).children.len()
                && #[trigger] visit_all(code, s, p).children[i] == element_of(code, s[j], k),
    decreases s.len(),
{
    let init = s.subrange(0, s.len() - 1);
    let q = visit_all(code, init, p);
    let last = s[s.len() - 1];
    lemma_visit_all_extends(code, init, p);
    lemma_visit_extends(code, last, q);
    let r = visit(code, last, q);
    if j == s.len() - 1 {
        let i = r.children.len() - 1;
        assert(r.children[i] == element_of(code, s[j], k));
    } else {
        lemma_child_attached(code, init, p, j, k);
        let i = choose|i: int|
            p.children.len() <= i < q.children.len() && #[trigger] q.children[i] == element_of(code, init[j], k);
        assert(init[j] == s[j]);
        assert(r.children[i] == q.children[i]);
    }
}

/// Undefined flattening: a node whose tag has no kind (and is no identifier)
/// adds no element of its own, and a function definition among its children
/// still yields its element, attached to the enclosing element directly.
pub proof fn lemma_unmapped_wrapper_flattens(code: Seq<char>, n: SyntaxNode, p: Shaped, j: int)
    requires
        classify_tag(n.tag@) is None,
        !is_name_tag(n.tag@),
        0 <= j < n.children@.len(),
        classify_tag(n.children@[j].tag@) == Some(Kind::Function),
    ensures
        visit(code, n, p) == visit_all(code, n.children@, p),
        exists|i: int|
            p.children.len() <= i < visit(code, n, p).children.len()
                && #[trigger] visit(code, n, p).children[i] == element_of(code, n.children@[j], Kind::Function),
        element_of(code, n.children@[j], Kind::Function).kind == Kind::Function,
{
    let f = n.children@[j];
    lemma_visit_all_extends(code, f.children@, fresh(Kind::Function, span_text(code, f.start as int, f.end as int)));
    lemma_child_attached(code, n.children@, p, j, Kind::Function);
}

/// Attaching a classified child records the edge `(parent kind, child kind)`.
pub proof fn lemma_edge_recorded(code: Seq<char>, s: Seq<SyntaxNode>, p: Shaped, j: int, k: Kind)
    requires
        0 <= j < s.len(),
        classify_tag(s[j].tag@) == Some(k),
    ensures
        visit_all(code, s, p).relations.contains((p.kind, k)),
    decreases s.len(),
{
    let init = s.subrange(0, s.len() - 1);
    let q = visit_all(code, init, p);
    let last = s[s.len() - 1];
    lemma_visit_all_extends(code, init, p);
    if j == s.len() - 1 {
        let text = span_text(code, last.start as int, last.end as int);
        lemma_visit_all_extends(code, last.children@, fresh(k, text));
        let r = visit(code, last, q);
        assert(r.relations[r.relations.len() - 1] == (p.kind, k));
    } else {
        lemma_edge_recorded(code, init, p, j, k);
        lemma_visit_extends(code, last, q);
        let i = choose|i: int| 0 <= i < q.relations.len() && q.relations[i] == (p.kind, k);
        assert(visit(code, last, q).relations[i] == (p.kind, k));
    }
}

/// An Impl node with a Function child yields an Impl element whose relation
/// edges include `(Impl, Function)`.
pub proof fn lemma_impl_function_edge(code: Seq<char>, n: SyntaxNode, p: Shaped, j: int)
    requires
        classify_tag(n.tag@) == Some(Kind::Impl),
        0 <= j < n.children@.len(),
        classify_tag(n.children@[j].tag@) == Some(Kind::Function),
    ensures
        visit(code, n, p).children.last().kind == Kind::Impl,
        visit(code, n, p).children.last().relations.contains((Kind::Impl, Kind::Function)),
{
    let text = span_text(code, n.start as int, n.end as int);
    lemma_visit_all_extends(code, n.children@, fresh(Kind::Impl, text));
    lemma_edge_recorded(code, n.children@, fresh(Kind::Impl, text), j, Kind::Function);
}

/// No element of the tree `t`, nor any relation edge in it, has the kind `Undefined`.
pub open spec fn free_of_undefined(t: Shaped) -> bool
    decreases t,
{
    &&& t.kind != Kind::Undefined
    &&& forall|i: int| 0 <= i < t.relations.len() ==> (#[trigger] t.relations[i]).1 != Kind::Undefined
    &&& forall|i: int| 0 <= i < t.children.len() ==> free_of_undefined(#[trigger] t.children[i])
}

/// An element of kind `Undefined` is never materialized: building into an
/// element free of them leaves it free of them.
pub proof fn lemma_no_undefined(code: Seq<char>, n: SyntaxNode, p: Shaped)
    requires
        free_of_undefined(p),
    ensures
        free_of_undefined(visit(code, n, p)),
    decreases n,
{
    let text = span_text(code, n.start as int, n.end as int);
    let q = named_by(p, n.tag@, text);
    assert(free_of_undefined(q));
    match classify_tag(n.tag@) {
        Some(k) => {
            let e = visit_all(code, n.children@, fresh(k, text));
            assert(free_of_undefined(fresh(k, text)));
            lemma_no_undefined_all(code, n.children@, fresh(k, text));
            lemma_visit_all_extends(code, n.children@, fresh(k, text));
            let r = attach(q, e);
            assert(r.children.last() == e);
            assert(forall|i: int| 0 <= i < r.children.len() ==> free_of_undefined(#[trigger] r.children[i])) by {
                assert forall|i: int| 0 <= i < r.children.len() implies free_of_undefined(#[trigger] r.children[i]) by {
                    if i < q.children.len() {
                        assert(r.children[i] == q.children[i]);
                    }
                }
            }
            assert(forall|i: int| 0 <= i < r.relations.len() ==> (#[trigger] r.relations[i]).1 != Kind::Undefined) by {
                assert forall|i: int| 0 <= i < r.relations.len() implies (#[trigger] r.relations[i]).1 != Kind::Undefined by {
                    if i < q.relations.len() {
                        assert(r.relations[i] == q.relations[i]);
                    }
                }
            }
        },
        None => {
            lemma_no_undefined_all(code, n.children@, q);
        },
    }
}

/// [`lemma_no_undefined`] for a sequence of subtrees.
pub proof fn lemma_no_undefined_all(code: Seq<char>, s: Seq<SyntaxNode>, p: Shaped)
    requires
        free_of_undefined(p),
    ensures
        free_of_undefined(visit_all(code, s, p)),
    decreases s,
{
    if s.len() > 0 {
        let init = s.subrange(0, s.len() - 1);
        lemma_no_undefined_all(code, init, p);
        lemma_no_undefined(code, s[s.len() - 1], visit_all(code, init, p));
    }
}

/// The shaped tree of a source unit holds no `Undefined` element.
pub proof fn lemma_document_free_of_undefined(code: Seq<char>, root: SyntaxNode)
    ensures
        free_of_undefined(document_tree(code, root)),
{
    assert(free_of_undefined(fresh(Kind::Root, "Root"@)));
    lemma_no_undefined(code, root, fresh(Kind::Root, "Root"@));
}

proof fn lemma_shapes_push(s: Seq<Element>, e: Element)
    ensures
        shapes_of(s.push(e)) == shapes_of(s).push(shape_of(e)),
{
    assert(s.push(e).subrange(0, s.len() as int) =~= s);
}

/// Names `parent` with `name` unless it already has a name.
pub fn add_parent_name(name: &String, parent: &mut Element)
    ensures
        final(parent)@ == (if old(parent)@.name is None {
            Shaped { name: Some(name@), ..old(parent)@ }
        } else {
            old(parent)@
        }),
{
    if parent.name.is_none() {
        parent.name = Some(name.clone());
    }
}

/// Name inference for one node: the text of an identifier-like token names
/// `parent` unless it already has a name.
pub fn parent_namer(tag: &str, body: &String, parent: &mut Element)
    ensures
        final(parent)@ == named_by(old(parent)@, tag@, body@),
{
    if is_name_token(tag) {
        add_parent_name(body, parent);
    }
}

/// Builds the subtree rooted at `node` into `parent`.
pub fn build(code: &str, node: &SyntaxNode, parent: &mut Element)
    ensures
        final(parent)@ == visit(code@, *node, old(parent)@),
    decreases node,
{
    let text = span_of(code, node.start, node.end);
    parent_namer(node.tag.as_str(), &text, parent);
    let ghost q = parent@;
    assert(q == named_by(old(parent)@, node.tag@, text@));
    match classify(node.tag.as_str()) {
        Some(k) => {
            let mut element = Element::new(k, text);
            build_all(code, &node.children, &mut element);
            let pk = parent.kind;
            proof {
                lemma_shapes_push(parent.children@, element);
                lemma_visit_all_extends(code@, node.children@, fresh(k, text@));
            }
            parent.children.push(element);
            parent.relations.push((pk, k));
            assert(parent@.children =~= attach(q, element@).children);
            assert(parent@.relations =~= attach(q, element@).relations);
        },
        None => {
            build_all(code, &node.children, parent);
        },
    }
}

/// Builds the subtrees of `nodes`, in order, into `parent`.
pub fn build_all(code: &str, nodes: &Vec<SyntaxNode>, parent: &mut Element)
    ensures
        final(parent)@ == visit_all(code@, nodes@, old(parent)@),
    decreases nodes,
{
    let ghost start = parent@;
    let mut i: usize = 0;
    while i < nodes.len()
        invariant
            0 <= i <= nodes@.len(),
            parent@ == visit_all(code@, nodes@.subrange(0, i as int), start),
        decreases nodes@.len() - i,
    {
        assert(nodes@.subrange(0, i + 1).subrange(0, i as int) =~= nodes@.subrange(0, i as int));
        build(code, &nodes[i], parent);
        i = i + 1;
    }
    assert(nodes@.subrange(0, i as int) =~= nodes@);
}

/// Builds the shaped tree of a whole source unit.
pub fn build_document(code: &str, root: &SyntaxNode) -> (r: Element)
    ensures
        r@ == document_tree(code@, *root),
{
    let mut top = Element::new(Kind::Root, "Root".to_owned());
    build(code, root, &mut top);
    top
}

} // verus!
