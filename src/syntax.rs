use vstd::prelude::*;
use crate::text::{same_text, span_of, span_text};

verus! {

/// A node of a concrete syntax tree, as the parser hands it over: its kind-tag,
/// the name of the field under which its parent holds it (if any), whether it
/// is a named node (not punctuation), its byte span in the source buffer, and
/// its children in document order.
#[derive(Debug)]
pub struct SyntaxNode {
    pub tag: String,
    pub field: Option<String>,
    pub named: bool,
    pub start: usize,
    pub end: usize,
    pub children: Vec<SyntaxNode>,
}

/// The text of a node: its span of the source buffer.
pub open spec fn text_of(code: Seq<char>, n: SyntaxNode) -> Seq<char> {
    span_text(code, n.start as int, n.end as int)
}

/// Whether a node is held by its parent under the field `name`.
pub open spec fn has_field(n: SyntaxNode, name: Seq<char>) -> bool {
    match n.field {
        Some(f) => f@ == name,
        None => false,
    }
}

pub open spec fn field_pred(name: Seq<char>) -> spec_fn(SyntaxNode) -> bool {
    |n: SyntaxNode| has_field(n, name)
}

pub open spec fn tag_pred(tag: Seq<char>) -> spec_fn(SyntaxNode) -> bool {
    |n: SyntaxNode| n.tag@ == tag
}

/// Position of the first node of `s` that meets `pred`.
pub open spec fn first_pos(s: Seq<SyntaxNode>, pred: spec_fn(SyntaxNode) -> bool) -> Option<int>
    decreases s.len(),
{
    if s.len() == 0 {
        None
    } else {
        match first_pos(s.drop_last(), pred) {
            Some(i) => Some(i),
            None => if pred(s.last()) {
                Some(s.len() - 1)
            } else {
                None
            },
        }
    }
}

/// The first child of `n` that meets `pred`.
pub open spec fn first_child(n: SyntaxNode, pred: spec_fn(SyntaxNode) -> bool) -> Option<SyntaxNode> {
    match first_pos(n.children@, pred) {
        Some(i) => Some(n.children@[i]),
        None => None,
    }
}

/// The first child of `n` held under the field `name`.
pub open spec fn field_child(n: SyntaxNode, name: Seq<char>) -> Option<SyntaxNode> {
    first_child(n, field_pred(name))
}

/// The text of the first child of `n` held under the field `name`.
pub open spec fn field_text(code: Seq<char>, n: SyntaxNode, name: Seq<char>) -> Option<Seq<char>> {
    match field_child(n, name) {
        Some(c) => Some(text_of(code, c)),
        None => None,
    }
}

/// Whether `n` has a child with the tag `tag`.
pub open spec fn has_child_tagged(n: SyntaxNode, tag: Seq<char>) -> bool {
    first_child(n, tag_pred(tag)) is Some
}

/// A prefix that already holds a match decides the first match.
pub proof fn lemma_first_prefix(s: Seq<SyntaxNode>, pred: spec_fn(SyntaxNode) -> bool, k: int)
    requires
        0 <= k <= s.len(),
        first_pos(s.take(k), pred).is_some(),
    ensures
        first_pos(s, pred) == first_pos(s.take(k), pred),
    decreases s.len(),
{
    if k < s.len() {
        assert(s.drop_last().take(k) =~= s.take(k));
        lemma_first_prefix(s.drop_last(), pred, k);
    } else {
        assert(s.take(k) =~= s);
    }
}

/// Cuts the text of a node out of the source buffer.
pub fn node_text(code: &str, n: &SyntaxNode) -> (r: String)
    ensures
        r@ == text_of(code@, *n),
{
    span_of(code, n.start, n.end)
}

/// Whether a node has the tag `tag`.
pub fn tagged(n: &SyntaxNode, tag: &str) -> (r: bool)
    ensures
        r == (n.tag@ == tag@),
{
    same_text(n.tag.as_str(), tag)
}

impl SyntaxNode {
    /// The first child held under the field `name`.
    pub fn child_by_field(&self, name: &str) -> (r: Option<&SyntaxNode>)
        ensures
            r.is_some() == field_child(*self, name@).is_some(),
            r.is_some() ==> *r.unwrap() == field_child(*self, name@).unwrap(),
    {
        let ghost pred = field_pred(name@);
        let mut i: usize = 0;
        while i < self.children.len()
            invariant
                pred == field_pred(name@),
                0 <= i <= self.children@.len(),
                first_pos(self.children@.take(i as int), pred) == None::<int>,
            decreases self.children@.len() - i,
        {
            let c = &self.children[i];
            let hit = match &c.field {
                Some(f) => same_text(f.as_str(), name),
                None => false,
            };
            assert(self.children@.take(i + 1).drop_last() =~= self.children@.take(i as int));
            if hit {
                proof {
                    lemma_first_prefix(self.children@, pred, i as int + 1);
                }
                return Some(c);
            }
            i = i + 1;
        }
        assert(self.children@.take(i as int) =~= self.children@);
        None
    }

    /// The first child with the tag `tag`.
    pub fn child_by_tag(&self, tag: &str) -> (r: Option<&SyntaxNode>)
        ensures
            r.is_some() == first_child(*self, tag_pred(tag@)).is_some(),
            r.is_some() ==> *r.unwrap() == first_child(*self, tag_pred(tag@)).unwrap(),
    {
        let ghost pred = tag_pred(tag@);
        let mut i: usize = 0;
        while i < self.children.len()
            invariant
                pred == tag_pred(tag@),
                0 <= i <= self.children@.len(),
                first_pos(self.children@.take(i as int), pred) == None::<int>,
            decreases self.children@.len() - i,
        {
            let c = &self.children[i];
            assert(self.children@.take(i + 1).drop_last() =~= self.children@.take(i as int));
            if tagged(c, tag) {
                proof {
                    lemma_first_prefix(self.children@, pred, i as int + 1);
                }
                return Some(c);
            }
            i = i + 1;
        }
        assert(self.children@.take(i as int) =~= self.children@);
        None
    }

    /// The text of the first child held under the field `name`.
    pub fn field_text(&self, code: &str, name: &str) -> (r: Option<String>)
        ensures
            crate::text::opt_view(r) == field_text(code@, *self, name@),
    {
        match self.child_by_field(name) {
            Some(c) => Some(node_text(code, c)),
            None => None,
        }
    }
}

} // verus!
