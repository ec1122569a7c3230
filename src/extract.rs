use vstd::prelude::*;
use crate::report::{Binding, Diagnostic, FieldItem, FieldView, Gap, StructItem, StructView, bindings_view, fields_view, structs_view};
use crate::syntax::{SyntaxNode, field_child, field_text, first_child, node_text, tag_pred, tagged, text_of};
use crate::text::{opt_view, texts};

verus! {

pub proof fn lemma_texts_push(v: Seq<String>, s: String)
    ensures
        texts(v.push(s)) == texts(v).push(s@),
{
    assert(texts(v.push(s)) =~= texts(v).push(s@));
}

// ---- attributes ----

/// The text inside an attribute item; `None` for another node or for an
/// attribute item without the attribute inside it.
pub open spec fn attribute_text(code: Seq<char>, c: SyntaxNode) -> Option<Seq<char>> {
    if c.tag@ == "attribute_item"@ {
        match first_child(c, tag_pred("attribute"@)) {
            Some(a) => Some(text_of(code, a)),
            None => None,
        }
    } else {
        None
    }
}

/// The texts of the attribute items among `s`, in order.
pub open spec fn attributes_in(code: Seq<char>, s: Seq<SyntaxNode>) -> Seq<Seq<char>>
    decreases s.len(),
{
    if s.len() == 0 {
        Seq::empty()
    } else {
        let prev = attributes_in(code, s.drop_last());
        match attribute_text(code, s.last()) {
            Some(t) => prev.push(t),
            None => prev,
        }
    }
}

/// A diagnostic if `c` is an attribute item without an attribute inside.
pub open spec fn attribute_gap(c: SyntaxNode) -> Seq<Diagnostic> {
    if c.tag@ == "attribute_item"@ && first_child(c, tag_pred("attribute"@)) is None {
        seq![Diagnostic { gap: Gap::MissingAttribute, at: c.start }]
    } else {
        Seq::empty()
    }
}

/// A diagnostic for each attribute item among `s` without an attribute inside.
pub open spec fn attribute_gaps(s: Seq<SyntaxNode>) -> Seq<Diagnostic>
    decreases s.len(),
{
    if s.len() == 0 {
        Seq::empty()
    } else {
        attribute_gaps(s.drop_last()) + attribute_gap(s.last())
    }
}

/// The text inside an attribute item.
pub fn attribute_text_of(code: &str, c: &SyntaxNode) -> (r: Option<String>)
    ensures
        opt_view(r) == attribute_text(code@, *c),
{
    if tagged(c, "attribute_item") {
        match c.child_by_tag("attribute") {
            Some(a) => Some(node_text(code, a)),
            None => None,
        }
    } else {
        None
    }
}

fn attribute_of(code: &str, c: &SyntaxNode, diags: &mut Vec<Diagnostic>) -> (r: Option<String>)
    ensures
        opt_view(r) == attribute_text(code@, *c),
        final(diags)@ == old(diags)@ + attribute_gap(*c),
{
    let r = attribute_text_of(code, c);
    if tagged(c, "attribute_item") && r.is_none() {
        let d = Diagnostic { gap: Gap::MissingAttribute, at: c.start };
        diags.push(d);
        assert(final(diags)@ =~= old(diags)@ + seq![d]);
    } else {
        assert(old(diags)@ + Seq::<Diagnostic>::empty() =~= old(diags)@);
    }
    r
}

/// The metadata scan: the texts of the attribute items among the direct
/// children of `node`; one without an attribute inside is skipped with a
/// diagnostic.
pub fn extract_metadata(code: &str, node: &SyntaxNode, diags: &mut Vec<Diagnostic>) -> (r: Vec<String>)
    ensures
        texts(r@) == attributes_in(code@, node.children@),
        final(diags)@ == old(diags)@ + attribute_gaps(node.children@),
{
    let kids = &node.children;
    let mut out: Vec<String> = Vec::new();
    let mut i: usize = 0;
    while i < kids.len()
        invariant
            0 <= i <= kids@.len(),
            texts(out@) == attributes_in(code@, kids@.take(i as int)),
            diags@ == old(diags)@ + attribute_gaps(kids@.take(i as int)),
        decreases kids@.len() - i,
    {
        assert(kids@.take(i + 1).drop_last() =~= kids@.take(i as int));
        assert(kids@.take(i + 1).last() == kids@[i as int]);
        let a = attribute_of(code, &kids[i], diags);
        assert(diags@ =~= old(diags)@ + attribute_gaps(kids@.take(i + 1)));
        match a {
            Some(t) => {
                proof {
                    lemma_texts_push(out@, t);
                }
                out.push(t);
            },
            None => {},
        }
        i = i + 1;
    }
    assert(kids@.take(i as int) =~= kids@);
    out
}

// ---- imports ----

/// The texts of the import declarations among `s`, in order.
pub open spec fn imports_in(code: Seq<char>, s: Seq<SyntaxNode>) -> Seq<Seq<char>>
    decreases s.len(),
{
    if s.len() == 0 {
        Seq::empty()
    } else {
        let prev = imports_in(code, s.drop_last());
        if s.last().tag@ == "use_declaration"@ {
            prev.push(text_of(code, s.last()))
        } else {
            prev
        }
    }
}

/// The texts of the import declarations among the direct children of `node`.
pub fn extract_imports(code: &str, node: &SyntaxNode) -> (r: Vec<String>)
    ensures
        texts(r@) == imports_in(code@, node.children@),
{
    let kids = &node.children;
    let mut out: Vec<String> = Vec::new();
    let mut i: usize = 0;
    while i < kids.len()
        invariant
            0 <= i <= kids@.len(),
            texts(out@) == imports_in(code@, kids@.take(i as int)),
        decreases kids@.len() - i,
    {
        assert(kids@.take(i + 1).drop_last() =~= kids@.take(i as int));
        assert(kids@.take(i + 1).last() == kids@[i as int]);
        if tagged(&kids[i], "use_declaration") {
            let t = node_text(code, &kids[i]);
            proof {
                lemma_texts_push(out@, t);
            }
            out.push(t);
        }
        i = i + 1;
    }
    assert(kids@.take(i as int) =~= kids@);
    out
}

// ---- constants and globals ----

/// A diagnostic for each node of `s` with the tag `tag` that has no field
/// `name_field`.
pub open spec fn missing_names(s: Seq<SyntaxNode>, tag: Seq<char>, name_field: Seq<char>) -> Seq<Diagnostic>
    decreases s.len(),
{
    if s.len() == 0 {
        Seq::empty()
    } else {
        let prev = missing_names(s.drop_last(), tag, name_field);
        let c = s.last();
        if c.tag@ == tag && field_child(c, name_field) is None {
            prev.push(Diagnostic { gap: Gap::MissingName, at: c.start })
        } else {
            prev
        }
    }
}

/// The name (the text of the field `name_field`) and value of each named
/// declaration with the tag `tag` among `s`; without a value field the value
/// is the declaration's whole text.
pub open spec fn bindings_in(code: Seq<char>, s: Seq<SyntaxNode>, tag: Seq<char>, name_field: Seq<char>) -> Seq<(Seq<char>, Seq<char>)>
    decreases s.len(),
{
    if s.len() == 0 {
        Seq::empty()
    } else {
        let prev = bindings_in(code, s.drop_last(), tag, name_field);
        let c = s.last();
        if c.tag@ == tag {
            match field_text(code, c, name_field) {
                Some(name) => prev.push((name, match field_text(code, c, "value"@) {
                    Some(v) => v,
                    None => text_of(code, c),
                })),
                None => prev,
            }
        } else {
            prev
        }
    }
}

/// Declarations with the tag `tag` among the direct children of `node`, named
/// by their field `name_field`; one without a name is skipped with a
/// diagnostic.
pub fn extract_bindings(
    code: &str,
    node: &SyntaxNode,
    tag: &str,
    name_field: &str,
    diags: &mut Vec<Diagnostic>,
) -> (r: Vec<Binding>)
    ensures
        bindings_view(r@) == bindings_in(code@, node.children@, tag@, name_field@),
        final(diags)@ == old(diags)@ + missing_names(node.children@, tag@, name_field@),
{
    let kids = &node.children;
    let mut out: Vec<Binding> = Vec::new();
    let mut i: usize = 0;
    while i < kids.len()
        invariant
            0 <= i <= kids@.len(),
            bindings_view(out@) == bindings_in(code@, kids@.take(i as int), tag@, name_field@),
            diags@ == old(diags)@ + missing_names(kids@.take(i as int), tag@, name_field@),
        decreases kids@.len() - i,
    {
        let c = &kids[i];
        assert(kids@.take(i + 1).drop_last() =~= kids@.take(i as int));
        assert(kids@.take(i + 1).last() == kids@[i as int]);
        if tagged(c, tag) {
            match c.field_text(code, name_field) {
                Some(name) => {
                    let value = match c.field_text(code, "value") {
                        Some(v) => v,
                        None => node_text(code, c),
                    };
                    let b = Binding { name, value };
                    assert(bindings_view(out@.push(b)) =~= bindings_view(out@).push(b@));
                    out.push(b);
                    assert(diags@ =~= old(diags)@ + missing_names(kids@.take(i + 1), tag@, name_field@));
                },
                None => {
                    let d = Diagnostic { gap: Gap::MissingName, at: c.start };
                    diags.push(d);
                    assert(diags@ =~= old(diags)@ + missing_names(kids@.take(i + 1), tag@, name_field@));
                },
            }
        } else {
            assert(diags@ =~= old(diags)@ + missing_names(kids@.take(i + 1), tag@, name_field@));
        }
        i = i + 1;
    }
    assert(kids@.take(i as int) =~= kids@);
    out
}

/// Constant declarations among the direct children of `node`, named by their
/// `name` field.
pub fn extract_constants(code: &str, node: &SyntaxNode, diags: &mut Vec<Diagnostic>) -> (r: Vec<Binding>)
    ensures
        bindings_view(r@) == bindings_in(code@, node.children@, "const_item"@, "name"@),
        final(diags)@ == old(diags)@ + missing_names(node.children@, "const_item"@, "name"@),
{
    extract_bindings(code, node, "const_item", "name", diags)
}

/// Global variable declarations (`let` declarations) among the direct
/// children of `node`, named by their `pattern` field.
pub fn extract_globals(code: &str, node: &SyntaxNode, diags: &mut Vec<Diagnostic>) -> (r: Vec<Binding>)
    ensures
        bindings_view(r@) == bindings_in(code@, node.children@, "let_declaration"@, "pattern"@),
        final(diags)@ == old(diags)@ + missing_names(node.children@, "let_declaration"@, "pattern"@),
{
    extract_bindings(code, node, "let_declaration", "pattern", diags)
}

// ---- struct fields ----

/// The attribute texts attached to the child at `j` of `s`: those of the
/// unbroken run of attribute items right before it, in order.
pub open spec fn leading_attributes(code: Seq<char>, s: Seq<SyntaxNode>, j: int) -> Seq<Seq<char>>
    decreases j,
{
    if j <= 0 || j > s.len() || s[j - 1].tag@ != "attribute_item"@ {
        Seq::empty()
    } else {
        let prev = leading_attributes(code, s, j - 1);
        match attribute_text(code, s[j - 1]) {
            Some(t) => prev.push(t),
            None => prev,
        }
    }
}

/// A node of a struct body that declares a field (not punctuation, not an attribute).
pub open spec fn is_field_like(c: SyntaxNode) -> bool {
    c.named && c.tag@ != "attribute_item"@
}

/// The fields declared among the first `k` nodes of a struct body `s`.
pub open spec fn fields_in(code: Seq<char>, s: Seq<SyntaxNode>, k: int) -> Seq<FieldView>
    decreases k,
{
    if k <= 0 || k > s.len() {
        Seq::empty()
    } else {
        let prev = fields_in(code, s, k - 1);
        let c = s[k - 1];
        if is_field_like(c) {
            match field_text(code, c, "name"@) {
                Some(name) => prev.push(
                    FieldView {
                        name,
                        ty: field_text(code, c, "type"@),
                        attributes: leading_attributes(code, s, k - 1),
                    },
                ),
                None => prev,
            }
        } else {
            prev
        }
    }
}

/// A diagnostic if `c` declares a field but has no name.
pub open spec fn field_gap(c: SyntaxNode) -> Seq<Diagnostic> {
    if is_field_like(c) && field_child(c, "name"@) is None {
        seq![Diagnostic { gap: Gap::MissingName, at: c.start }]
    } else {
        Seq::empty()
    }
}

/// The diagnostics for the first `k` nodes of a struct body `s`.
pub open spec fn field_gaps(s: Seq<SyntaxNode>, k: int) -> Seq<Diagnostic>
    decreases k,
{
    if k <= 0 || k > s.len() {
        Seq::empty()
    } else {
        field_gaps(s, k - 1) + field_gap(s[k - 1])
    }
}

/// How many of the first `k` nodes of `s` declare a field.
pub open spec fn field_like_count(s: Seq<SyntaxNode>, k: int) -> nat
    decreases k,
{
    if k <= 0 || k > s.len() {
        0
    } else {
        field_like_count(s, k - 1) + if is_field_like(s[k - 1]) { 1nat } else { 0nat }
    }
}

/// The fields of a struct node.
pub open spec fn struct_fields(code: Seq<char>, n: SyntaxNode) -> Seq<FieldView> {
    match field_child(n, "body"@) {
        Some(b) => fields_in(code, b.children@, b.children@.len() as int),
        None => Seq::empty(),
    }
}

/// The diagnostics for the fields of a struct node.
pub open spec fn struct_field_gaps(n: SyntaxNode) -> Seq<Diagnostic> {
    match field_child(n, "body"@) {
        Some(b) => field_gaps(b.children@, b.children@.len() as int),
        None => Seq::empty(),
    }
}

/// No field is lost silently: each field declaration of a struct body yields
/// either a field or a diagnostic, so one without a name does not stop the
/// extraction of the others.
pub proof fn lemma_fields_accounted(code: Seq<char>, s: Seq<SyntaxNode>, k: int)
    requires
        0 <= k <= s.len(),
    ensures
        fields_in(code, s, k).len() + field_gaps(s, k).len() == field_like_count(s, k),
    decreases k,
{
    if k > 0 {
        lemma_fields_accounted(code, s, k - 1);
    }
}

/// The declared fields of a struct node, each with the attributes attached to
/// it; a field without a name is skipped with a diagnostic.
pub fn extract_fields(code: &str, struct_node: &SyntaxNode, diags: &mut Vec<Diagnostic>) -> (r: Vec<FieldItem>)
    ensures
        fields_view(r@) == struct_fields(code@, *struct_node),
        final(diags)@ == old(diags)@ + struct_field_gaps(*struct_node),
{
    let body = match struct_node.child_by_field("body") {
        Some(b) => b,
        None => {
            assert(old(diags)@ + Seq::<Diagnostic>::empty() =~= old(diags)@);
            assert(fields_view(Seq::<FieldItem>::empty()) =~= Seq::<FieldView>::empty());
            return Vec::new();
        },
    };
    let kids = &body.children;
    let mut out: Vec<FieldItem> = Vec::new();
    let mut pending: Vec<String> = Vec::new();
    let mut i: usize = 0;
    assert(fields_view(out@) =~= Seq::<FieldView>::empty());
    assert(texts(pending@) =~= Seq::<Seq<char>>::empty());
    assert(old(diags)@ + Seq::<Diagnostic>::empty() =~= old(diags)@);
    while i < kids.len()
        invariant
            0 <= i <= kids@.len(),
            fields_view(out@) == fields_in(code@, kids@, i as int),
            texts(pending@) == leading_attributes(code@, kids@, i as int),
            diags@ == old(diags)@ + field_gaps(kids@, i as int),
        decreases kids@.len() - i,
    {
        let c = &kids[i];
        let ghost before = diags@;
        if tagged(c, "attribute_item") {
            match attribute_text_of(code, c) {
                Some(t) => {
                    proof {
                        lemma_texts_push(pending@, t);
                    }
                    pending.push(t);
                },
                None => {},
            }
            assert(diags@ =~= before + field_gap(kids@[i as int]));
        } else {
            if c.named {
                match c.field_text(code, "name") {
                    Some(name) => {
                        let ty = c.field_text(code, "type");
                        let f = FieldItem { name, ty, attributes: pending };
                        assert(fields_view(out@.push(f)) =~= fields_view(out@).push(f@));
                        out.push(f);
                        assert(diags@ =~= before + field_gap(kids@[i as int]));
                    },
                    None => {
                        let d = Diagnostic { gap: Gap::MissingName, at: c.start };
                        diags.push(d);
                        assert(diags@ =~= before + field_gap(kids@[i as int]));
                    },
                }
            } else {
                assert(diags@ =~= before + field_gap(kids@[i as int]));
            }
            pending = Vec::new();
            assert(texts(pending@) =~= Seq::<Seq<char>>::empty());
        }
        assert(diags@ =~= old(diags)@ + field_gaps(kids@, i + 1));
        i = i + 1;
    }
    out
}

// ---- structs ----

/// The named structs among the first `k` nodes of `s`.
pub open spec fn structs_in(code: Seq<char>, s: Seq<SyntaxNode>, k: int) -> Seq<StructView>
    decreases k,
{
    if k <= 0 || k > s.len() {
        Seq::empty()
    } else {
        let prev = structs_in(code, s, k - 1);
        let c = s[k - 1];
        if c.tag@ == "struct_item"@ {
            match field_text(code, c, "name"@) {
                Some(name) => prev.push(
                    StructView {
                        name,
                        attributes: leading_attributes(code, s, k - 1),
                        fields: struct_fields(code, c),
                    },
                ),
                None => prev,
            }
        } else {
            prev
        }
    }
}

/// The diagnostics that a struct node gives: its missing name, or else those
/// of its fields.
pub open spec fn struct_gap(c: SyntaxNode) -> Seq<Diagnostic> {
    if c.tag@ == "struct_item"@ {
        if field_child(c, "name"@) is None {
            seq![Diagnostic { gap: Gap::MissingName, at: c.start }]
        } else {
            struct_field_gaps(c)
        }
    } else {
        Seq::empty()
    }
}

pub open spec fn struct_gaps(s: Seq<SyntaxNode>, k: int) -> Seq<Diagnostic>
    decreases k,
{
    if k <= 0 || k > s.len() {
        Seq::empty()
    } else {
        struct_gaps(s, k - 1) + struct_gap(s[k - 1])
    }
}

/// The structs among the direct children of `node`, with their fields; a
/// struct without a name is skipped with a diagnostic.
pub fn extract_structs(code: &str, node: &SyntaxNode, diags: &mut Vec<Diagnostic>) -> (r: Vec<StructItem>)
    ensures
        structs_view(r@) == structs_in(code@, node.children@, node.children@.len() as int),
        final(diags)@ == old(diags)@ + struct_gaps(node.children@, node.children@.len() as int),
{
    let kids = &node.children;
    let mut out: Vec<StructItem> = Vec::new();
    let mut pending: Vec<String> = Vec::new();
    let mut i: usize = 0;
    assert(structs_view(out@) =~= Seq::<StructView>::empty());
    assert(texts(pending@) =~= Seq::<Seq<char>>::empty());
    assert(old(diags)@ + Seq::<Diagnostic>::empty() =~= old(diags)@);
    while i < kids.len()
        invariant
            0 <= i <= kids@.len(),
            structs_view(out@) == structs_in(code@, kids@, i as int),
            texts(pending@) == leading_attributes(code@, kids@, i as int),
            diags@ == old(diags)@ + struct_gaps(kids@, i as int),
        decreases kids@.len() - i,
    {
        let c = &kids[i];
        let ghost before = diags@;
        if tagged(c, "attribute_item") {
            match attribute_text_of(code, c) {
                Some(t) => {
                    proof {
                        lemma_texts_push(pending@, t);
                    }
                    pending.push(t);
                },
                None => {},
            }
            proof {
                reveal_strlit("attribute_item");
                reveal_strlit("struct_item");
                assert("attribute_item"@.len() != "struct_item"@.len());
                assert(kids@[i as int].tag@ != "struct_item"@);
                assert(struct_gap(kids@[i as int]) == Seq::<Diagnostic>::empty());
            }
            assert(diags@ =~= before + struct_gap(kids@[i as int]));
        } else {
            if tagged(c, "struct_item") {
                match c.field_text(code, "name") {
                    Some(name) => {
                        let fields = extract_fields(code, c, diags);
                        let item = StructItem { name, attributes: pending, fields };
                        assert(structs_view(out@.push(item)) =~= structs_view(out@).push(item@));
                        out.push(item);
                        assert(diags@ =~= before + struct_gap(kids@[i as int]));
                    },
                    None => {
                        let d = Diagnostic { gap: Gap::MissingName, at: c.start };
                        diags.push(d);
                        assert(diags@ =~= before + struct_gap(kids@[i as int]));
                    },
                }
            } else {
                assert(diags@ =~= before + struct_gap(kids@[i as int]));
            }
            pending = Vec::new();
            assert(texts(pending@) =~= Seq::<Seq<char>>::empty());
        }
        assert(diags@ =~= old(diags)@ + struct_gaps(kids@, i + 1));
        i = i + 1;
    }
    out
}

} // verus!
