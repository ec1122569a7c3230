use vstd::prelude::*;
use crate::extract::{field_gaps, fields_in, is_field_like, lemma_texts_push};
use crate::report::FieldView;
use crate::kind::Kind;
use crate::report::{
    Container, ContainerKind, Declared, Diagnostic, EnumItem, Gap, containers_view, declared_view,
    enums_view,
};
use crate::syntax::{SyntaxNode, field_child, field_text, tagged};
use crate::text::texts;

verus! {

// ---- enums ----

/// The names of the declarations among the first `k` nodes of a body `s`
/// (nodes without a name are left out).
pub open spec fn names_in(code: Seq<char>, s: Seq<SyntaxNode>, k: int) -> Seq<Seq<char>>
    decreases k,
{
    if k <= 0 || k > s.len() {
        Seq::empty()
    } else {
        let prev = names_in(code, s, k - 1);
        let c = s[k - 1];
        if is_field_like(c) {
            match field_text(code, c, "name"@) {
                Some(name) => prev.push(name),
                None => prev,
            }
        } else {
            prev
        }
    }
}

/// A nameless field never drops or reorders its siblings: the fields taken
/// from a struct body are exactly its field declarations that have a name,
/// in order, each named by its name field. (Attribute items in the body are
/// annotations of the next field, not fields.)
pub proof fn lemma_fields_are_named_declarations(code: Seq<char>, s: Seq<SyntaxNode>, k: int)
    requires
        0 <= k <= s.len(),
    ensures
        fields_in(code, s, k).map_values(|f: FieldView| f.name) == names_in(code, s, k),
    decreases k,
{
    if k > 0 {
        lemma_fields_are_named_declarations(code, s, k - 1);
        assert(fields_in(code, s, k).map_values(|f: FieldView| f.name) =~= names_in(code, s, k));
    } else {
        assert(fields_in(code, s, k).map_values(|f: FieldView| f.name) =~= names_in(code, s, k));
    }
}

/// The variant names of an enum node.
pub open spec fn enum_variants(code: Seq<char>, n: SyntaxNode) -> Seq<Seq<char>> {
    match field_child(n, "body"@) {
        Some(b) => names_in(code, b.children@, b.children@.len() as int),
        None => Seq::empty(),
    }
}

/// The diagnostics for the variants of an enum node.
pub open spec fn enum_variant_gaps(n: SyntaxNode) -> Seq<Diagnostic> {
    match field_child(n, "body"@) {
        Some(b) => field_gaps(b.children@, b.children@.len() as int),
        None => Seq::empty(),
    }
}

/// The variant names of an enum node; a variant without a name is skipped
/// with a diagnostic.
pub fn extract_variants(code: &str, enum_node: &SyntaxNode, diags: &mut Vec<Diagnostic>) -> (r: Vec<String>)
    ensures
        texts(r@) == enum_variants(code@, *enum_node),
        final(diags)@ == old(diags)@ + enum_variant_gaps(*enum_node),
{
    assert(old(diags)@ + Seq::<Diagnostic>::empty() =~= old(diags)@);
    assert(texts(Seq::<String>::empty()) =~= Seq::<Seq<char>>::empty());
    let body = match enum_node.child_by_field("body") {
        Some(b) => b,
        None => {
            return Vec::new();
        },
    };
    let kids = &body.children;
    let mut out: Vec<String> = Vec::new();
    let mut i: usize = 0;
    while i < kids.len()
        invariant
            0 <= i <= kids@.len(),
            texts(out@) == names_in(code@, kids@, i as int),
            diags@ == old(diags)@ + field_gaps(kids@, i as int),
        decreases kids@.len() - i,
    {
        let c = &kids[i];
        if c.named && !tagged(c, "attribute_item") {
            match c.field_text(code, "name") {
                Some(name) => {
                    proof {
                        lemma_texts_push(out@, name);
                    }
                    out.push(name);
                },
                None => {
                    diags.push(Diagnostic { gap: Gap::MissingName, at: c.start });
                },
            }
        }
        assert(diags@ =~= old(diags)@ + field_gaps(kids@, i + 1));
        i = i + 1;
    }
    out
}

/// The named enums among the first `k` nodes of `s`.
pub open spec fn enums_in(code: Seq<char>, s: Seq<SyntaxNode>, k: int) -> Seq<(Seq<char>, Seq<Seq<char>>)>
    decreases k,
{
    if k <= 0 || k > s.len() {
        Seq::empty()
    } else {
        let prev = enums_in(code, s, k - 1);
        let c = s[k - 1];
        if c.tag@ == "enum_item"@ {
            match field_text(code, c, "name"@) {
                Some(name) => prev.push((name, enum_variants(code, c))),
                None => prev,
            }
        } else {
            prev
        }
    }
}

/// The diagnostics that an enum node gives: its missing name, or else those
/// of its variants.
pub open spec fn enum_gap(c: SyntaxNode) -> Seq<Diagnostic> {
    if c.tag@ == "enum_item"@ {
        if field_child(c, "name"@) is None {
            seq![Diagnostic { gap: Gap::MissingName, at: c.start }]
        } else {
            enum_variant_gaps(c)
        }
    } else {
        Seq::empty()
    }
}

pub open spec fn enum_gaps(s: Seq<SyntaxNode>, k: int) -> Seq<Diagnostic>
    decreases k,
{
    if k <= 0 || k > s.len() {
        Seq::empty()
    } else {
        enum_gaps(s, k - 1) + enum_gap(s[k - 1])
    }
}

/// The enums among the direct children of `node`, with their variants; an
/// enum without a name is skipped with a diagnostic.
pub fn extract_enums(code: &str, node: &SyntaxNode, diags: &mut Vec<Diagnostic>) -> (r: Vec<EnumItem>)
    ensures
        enums_view(r@) == enums_in(code@, node.children@, node.children@.len() as int),
        final(diags)@ == old(diags)@ + enum_gaps(node.children@, node.children@.len() as int),
{
    let kids = &node.children;
    let mut out: Vec<EnumItem> = Vec::new();
    let mut i: usize = 0;
    assert(enums_view(out@) =~= Seq::<(Seq<char>, Seq<Seq<char>>)>::empty());
    assert(old(diags)@ + Seq::<Diagnostic>::empty() =~= old(diags)@);
    while i < kids.len()
        invariant
            0 <= i <= kids@.len(),
            enums_view(out@) == enums_in(code@, kids@, i as int),
            diags@ == old(diags)@ + enum_gaps(kids@, i as int),
        decreases kids@.len() - i,
    {
        let c = &kids[i];
        let ghost before = diags@;
        if tagged(c, "enum_item") {
            match c.field_text(code, "name") {
                Some(name) => {
                    let variants = extract_variants(code, c, diags);
                    let item = EnumItem { name, variants };
                    assert(enums_view(out@.push(item)) =~= enums_view(out@).push(item@));
                    out.push(item);
                },
                None => {
                    diags.push(Diagnostic { gap: Gap::MissingName, at: c.start });
                },
            }
        }
        assert(diags@ =~= before + enum_gap(kids@[i as int]));
        assert(diags@ =~= old(diags)@ + enum_gaps(kids@, i + 1));
        i = i + 1;
    }
    out
}

// ---- nested declarations ----

/// The kind of a declaration that the nested scan reports.
pub open spec fn declared_kind(tag: Seq<char>) -> Option<Kind> {
    if tag == "function_item"@ {
        Some(Kind::Function)
    } else if tag == "struct_item"@ {
        Some(Kind::Struct)
    } else if tag == "enum_item"@ {
        Some(Kind::Enum)
    } else {
        None
    }
}

fn declared_kind_of(n: &SyntaxNode) -> (r: Option<Kind>)
    ensures
        r == declared_kind(n.tag@),
{
    if tagged(n, "function_item") {
        Some(Kind::Function)
    } else if tagged(n, "struct_item") {
        Some(Kind::Struct)
    } else if tagged(n, "enum_item") {
        Some(Kind::Enum)
    } else {
        None
    }
}

/// The named functions, structs and enums among `s`, with their kinds.
pub open spec fn declared_in(code: Seq<char>, s: Seq<SyntaxNode>) -> Seq<(Kind, Seq<char>)>
    decreases s.len(),
{
    if s.len() == 0 {
        Seq::empty()
    } else {
        let prev = declared_in(code, s.drop_last());
        let c = s.last();
        match declared_kind(c.tag@) {
            Some(k) => match field_text(code, c, "name"@) {
                Some(name) => prev.push((k, name)),
                None => prev,
            },
            None => prev,
        }
    }
}

/// A diagnostic for each function, struct or enum among `s` without a name.
pub open spec fn declared_gaps(s: Seq<SyntaxNode>) -> Seq<Diagnostic>
    decreases s.len(),
{
    if s.len() == 0 {
        Seq::empty()
    } else {
        let prev = declared_gaps(s.drop_last());
        let c = s.last();
        if declared_kind(c.tag@) is Some && field_child(c, "name"@) is None {
            prev.push(Diagnostic { gap: Gap::MissingName, at: c.start })
        } else {
            prev
        }
    }
}

/// The flat, one-level scan of nested declarations: the functions, structs
/// and enums among the direct children of `node` (a module or impl body), by
/// kind and name; one without a name is skipped with a diagnostic. The full
/// nested tree of a unit is the shaped tree of `shape::build_document`.
pub fn extract_nested(code: &str, node: &SyntaxNode, diags: &mut Vec<Diagnostic>) -> (r: Vec<Declared>)
    ensures
        declared_view(r@) == declared_in(code@, node.children@),
        final(diags)@ == old(diags)@ + declared_gaps(node.children@),
{
    let kids = &node.children;
    let mut out: Vec<Declared> = Vec::new();
    let mut i: usize = 0;
    assert(declared_view(out@) =~= Seq::<(Kind, Seq<char>)>::empty());
    assert(old(diags)@ + Seq::<Diagnostic>::empty() =~= old(diags)@);
    while i < kids.len()
        invariant
            0 <= i <= kids@.len(),
            declared_view(out@) == declared_in(code@, kids@.take(i as int)),
            diags@ == old(diags)@ + declared_gaps(kids@.take(i as int)),
        decreases kids@.len() - i,
    {
        let c = &kids[i];
        assert(kids@.take(i + 1).drop_last() =~= kids@.take(i as int));
        assert(kids@.take(i + 1).last() == kids@[i as int]);
        match declared_kind_of(c) {
            Some(k) => match c.field_text(code, "name") {
                Some(name) => {
                    let d = Declared { kind: k, name };
                    assert(declared_view(out@.push(d)) =~= declared_view(out@).push(d@));
                    out.push(d);
                },
                None => {
                    diags.push(Diagnostic { gap: Gap::MissingName, at: c.start });
                },
            },
            None => {},
        }
        assert(diags@ =~= old(diags)@ + declared_gaps(kids@.take(i + 1)));
        i = i + 1;
    }
    assert(kids@.take(i as int) =~= kids@);
    out
}

// ---- modules and impl blocks ----

/// The container kind of a module or impl node, and the field that names it.
pub open spec fn container_kind(tag: Seq<char>) -> Option<(ContainerKind, Seq<char>)> {
    if tag == "mod_item"@ {
        Some((ContainerKind::Module, "name"@))
    } else if tag == "impl_item"@ {
        Some((ContainerKind::Impl, "type"@))
    } else {
        None
    }
}

/// The declarations directly in the body of a container node.
pub open spec fn body_declared(code: Seq<char>, n: SyntaxNode) -> Seq<(Kind, Seq<char>)> {
    match field_child(n, "body"@) {
        Some(b) => declared_in(code, b.children@),
        None => Seq::empty(),
    }
}

pub open spec fn body_declared_gaps(n: SyntaxNode) -> Seq<Diagnostic> {
    match field_child(n, "body"@) {
        Some(b) => declared_gaps(b.children@),
        None => Seq::empty(),
    }
}

/// The named modules and impl blocks among the first `k` nodes of `s`.
pub open spec fn containers_in(code: Seq<char>, s: Seq<SyntaxNode>, k: int) -> Seq<(ContainerKind, Seq<char>, Seq<(Kind, Seq<char>)>)>
    decreases k,
{
    if k <= 0 || k > s.len() {
        Seq::empty()
    } else {
        let prev = containers_in(code, s, k - 1);
        let c = s[k - 1];
        match container_kind(c.tag@) {
            Some((ck, f)) => match field_text(code, c, f) {
                Some(name) => prev.push((ck, name, body_declared(code, c))),
                None => prev,
            },
            None => prev,
        }
    }
}

/// The diagnostics that a node gives in the module and impl scan.
pub open spec fn container_gap(c: SyntaxNode) -> Seq<Diagnostic> {
    match container_kind(c.tag@) {
        Some((ck, f)) => if field_child(c, f) is None {
            seq![Diagnostic { gap: Gap::MissingName, at: c.start }]
        } else {
            body_declared_gaps(c)
        },
        None => Seq::empty(),
    }
}

pub open spec fn container_gaps(s: Seq<SyntaxNode>, k: int) -> Seq<Diagnostic>
    decreases k,
{
    if k <= 0 || k > s.len() {
        Seq::empty()
    } else {
        container_gaps(s, k - 1) + container_gap(s[k - 1])
    }
}

/// The modules and impl blocks among the direct children of `node`, each with
/// the declarations directly in its body (one level, not the full depth).
pub fn extract_modules_and_impls(code: &str, node: &SyntaxNode, diags: &mut Vec<Diagnostic>) -> (r: Vec<Container>)
    ensures
        containers_view(r@) == containers_in(code@, node.children@, node.children@.len() as int),
        final(diags)@ == old(diags)@ + container_gaps(node.children@, node.children@.len() as int),
{
    let kids = &node.children;
    let mut out: Vec<Container> = Vec::new();
    let mut i: usize = 0;
    assert(containers_view(out@) =~= Seq::<(ContainerKind, Seq<char>, Seq<(Kind, Seq<char>)>)>::empty());
    assert(old(diags)@ + Seq::<Diagnostic>::empty() =~= old(diags)@);
    while i < kids.len()
        invariant
            0 <= i <= kids@.len(),
            containers_view(out@) == containers_in(code@, kids@, i as int),
            diags@ == old(diags)@ + container_gaps(kids@, i as int),
        decreases kids@.len() - i,
    {
        let c = &kids[i];
        let ghost before = diags@;
        let found = if tagged(c, "mod_item") {
            Some((ContainerKind::Module, "name"))
        } else if tagged(c, "impl_item") {
            Some((ContainerKind::Impl, "type"))
        } else {
            None
        };
        proof {
            reveal_strlit("mod_item");
            reveal_strlit("impl_item");
        }
        match found {
            Some((ck, f)) => match c.field_text(code, f) {
                Some(name) => {
                    let children = match c.child_by_field("body") {
                        Some(b) => extract_nested(code, b, diags),
                        None => {
                            assert(declared_view(Seq::<Declared>::empty()) =~= Seq::<(Kind, Seq<char>)>::empty());
                            assert(diags@ =~= before + Seq::<Diagnostic>::empty());
                            Vec::new()
                        },
                    };
                    let item = Container { kind: ck, name, children };
                    assert(containers_view(out@.push(item)) =~= containers_view(out@).push(item@));
                    out.push(item);
                },
                None => {
                    diags.push(Diagnostic { gap: Gap::MissingName, at: c.start });
                },
            },
            None => {},
        }
        assert(diags@ =~= before + container_gap(kids@[i as int]));
        assert(diags@ =~= old(diags)@ + container_gaps(kids@, i + 1));
        i = i + 1;
    }
    out
}

} // verus!
