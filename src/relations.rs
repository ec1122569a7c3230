use vstd::prelude::*;
use crate::extract::{attribute_text, attribute_text_of};
use crate::report::{Diagnostic, Gap, Relation, RelationView, relations_view};
use crate::syntax::{SyntaxNode, field_child, field_text, tagged};
use crate::text::{bytes_of, contains_run, mentions};

verus! {

/// Whether an attribute text is a derive marker.
pub open spec fn is_derive(t: Seq<char>) -> bool {
    contains_run(bytes_of(t), bytes_of("derive"@))
}

/// The relation that a node gives, if any: an impl block with a named
/// implementing type, or an attribute item that derives.
pub open spec fn relation_of(code: Seq<char>, c: SyntaxNode) -> Option<RelationView> {
    if c.tag@ == "impl_item"@ {
        match field_text(code, c, "type"@) {
            Some(t) => Some(
                RelationView::Impl {
                    for_type: t,
                    trait_name: field_text(code, c, "trait"@),
                    generics: field_text(code, c, "type_parameters"@),
                },
            ),
            None => None,
        }
    } else {
        match attribute_text(code, c) {
            Some(t) => if is_derive(t) {
                Some(RelationView::Derive { details: t })
            } else {
                None
            },
            None => None,
        }
    }
}

/// The relations among `s`, impl blocks and derives in one list, in order.
pub open spec fn relations_in(code: Seq<char>, s: Seq<SyntaxNode>) -> Seq<RelationView>
    decreases s.len(),
{
    if s.len() == 0 {
        Seq::empty()
    } else {
        let prev = relations_in(code, s.drop_last());
        match relation_of(code, s.last()) {
            Some(r) => prev.push(r),
            None => prev,
        }
    }
}

/// A diagnostic if `c` is an impl block without an implementing type.
pub open spec fn relation_gap(c: SyntaxNode) -> Seq<Diagnostic> {
    if c.tag@ == "impl_item"@ && field_child(c, "type"@) is None {
        seq![Diagnostic { gap: Gap::MissingName, at: c.start }]
    } else {
        Seq::empty()
    }
}

/// A diagnostic for each impl block among `s` without an implementing type.
pub open spec fn relation_gaps(s: Seq<SyntaxNode>) -> Seq<Diagnostic>
    decreases s.len(),
{
    if s.len() == 0 {
        Seq::empty()
    } else {
        relation_gaps(s.drop_last()) + relation_gap(s.last())
    }
}

fn relation_at(code: &str, c: &SyntaxNode, diags: &mut Vec<Diagnostic>) -> (r: Option<Relation>)
    ensures
        match r {
            Some(x) => relation_of(code@, *c) == Some(x@),
            None => relation_of(code@, *c) is None,
        },
        final(diags)@ == old(diags)@ + relation_gap(*c),
{
    if tagged(c, "impl_item") {
        match c.field_text(code, "type") {
            Some(t) => {
                assert(old(diags)@ + Seq::<Diagnostic>::empty() =~= old(diags)@);
                Some(
                    Relation::Impl {
                        for_type: t,
                        trait_name: c.field_text(code, "trait"),
                        generics: c.field_text(code, "type_parameters"),
                    },
                )
            },
            None => {
                let d = Diagnostic { gap: Gap::MissingName, at: c.start };
                diags.push(d);
                assert(diags@ =~= old(diags)@ + seq![d]);
                None
            },
        }
    } else {
        assert(old(diags)@ + Seq::<Diagnostic>::empty() =~= old(diags)@);
        match attribute_text_of(code, c) {
            Some(t) => if mentions(t.as_str(), "derive") {
                Some(Relation::Derive { details: t })
            } else {
                None
            },
            None => None,
        }
    }
}

/// The relations among the direct children of `node`: each impl block (its
/// implementing type, trait and generic parameters) and each derive
/// attribute, in one list; an impl block without a type is skipped with a
/// diagnostic.
pub fn extract_relations(code: &str, node: &SyntaxNode, diags: &mut Vec<Diagnostic>) -> (r: Vec<Relation>)
    ensures
        relations_view(r@) == relations_in(code@, node.children@),
        final(diags)@ == old(diags)@ + relation_gaps(node.children@),
{
    let kids = &node.children;
    let mut out: Vec<Relation> = Vec::new();
    let mut i: usize = 0;
    assert(relations_view(out@) =~= Seq::<RelationView>::empty());
    assert(old(diags)@ + Seq::<Diagnostic>::empty() =~= old(diags)@);
    while i < kids.len()
        invariant
            0 <= i <= kids@.len(),
            relations_view(out@) == relations_in(code@, kids@.take(i as int)),
            diags@ == old(diags)@ + relation_gaps(kids@.take(i as int)),
        decreases kids@.len() - i,
    {
        assert(kids@.take(i + 1).drop_last() =~= kids@.take(i as int));
        assert(kids@.take(i + 1).last() == kids@[i as int]);
        match relation_at(code, &kids[i], diags) {
            Some(x) => {
                assert(relations_view(out@.push(x)) =~= relations_view(out@).push(x@));
                out.push(x);
            },
            None => {},
        }
        assert(diags@ =~= old(diags)@ + relation_gaps(kids@.take(i + 1)));
        i = i + 1;
    }
    assert(kids@.take(i as int) =~= kids@);
    out
}

} // verus!
