use vstd::prelude::*;
use crate::extract::{is_field_like, lemma_texts_push};
use crate::report::{
    Diagnostic, FunctionItem, FunctionView, Gap, LocalVariable, ParamView, Parameter, functions_view,
    locals_view, params_view,
};
use crate::syntax::{SyntaxNode, field_child, field_text, has_child_tagged, node_text, tagged, text_of};
use crate::text::texts;

verus! {

/// Whether a parameter is taken by reference: its text starts with `&`.
pub open spec fn is_reference_param(code: Seq<char>, p: SyntaxNode) -> bool {
    text_of(code, p).len() > 0 && text_of(code, p)[0] == '&'
}

/// The record of a parameter node; its name is the text of its pattern, or
/// its whole text where it has none (as `self` has none).
pub open spec fn param_of(code: Seq<char>, p: SyntaxNode) -> ParamView {
    ParamView {
        name: match field_text(code, p, "pattern"@) {
            Some(t) => t,
            None => text_of(code, p),
        },
        ty: field_text(code, p, "type"@),
        is_mutable: has_child_tagged(p, "mutable_specifier"@),
        is_reference: is_reference_param(code, p),
        default_value: field_text(code, p, "default_value"@),
    }
}

/// The parameters among the nodes `s` of a parameter list.
pub open spec fn params_in(code: Seq<char>, s: Seq<SyntaxNode>) -> Seq<ParamView>
    decreases s.len(),
{
    if s.len() == 0 {
        Seq::empty()
    } else {
        let prev = params_in(code, s.drop_last());
        if is_field_like(s.last()) {
            prev.push(param_of(code, s.last()))
        } else {
            prev
        }
    }
}

/// The parameters of a function node.
pub open spec fn function_params(code: Seq<char>, f: SyntaxNode) -> Seq<ParamView> {
    match field_child(f, "parameters"@) {
        Some(ps) => params_in(code, ps.children@),
        None => Seq::empty(),
    }
}

/// The targets of the call expressions among `s`.
pub open spec fn calls_in(code: Seq<char>, s: Seq<SyntaxNode>) -> Seq<Seq<char>>
    decreases s.len(),
{
    if s.len() == 0 {
        Seq::empty()
    } else {
        let prev = calls_in(code, s.drop_last());
        let c = s.last();
        if c.tag@ == "call_expression"@ {
            match field_text(code, c, "function"@) {
                Some(t) => prev.push(t),
                None => prev,
            }
        } else {
            prev
        }
    }
}

/// The local variable declarations among `s`: name and initial value.
pub open spec fn locals_in(code: Seq<char>, s: Seq<SyntaxNode>) -> Seq<(Seq<char>, Option<Seq<char>>)>
    decreases s.len(),
{
    if s.len() == 0 {
        Seq::empty()
    } else {
        let prev = locals_in(code, s.drop_last());
        let c = s.last();
        if c.tag@ == "let_declaration"@ {
            match field_text(code, c, "pattern"@) {
                Some(name) => prev.push((name, field_text(code, c, "value"@))),
                None => prev,
            }
        } else {
            prev
        }
    }
}

/// A diagnostic for each local variable declaration among `s` without a name.
pub open spec fn local_gaps(s: Seq<SyntaxNode>) -> Seq<Diagnostic>
    decreases s.len(),
{
    if s.len() == 0 {
        Seq::empty()
    } else {
        let prev = local_gaps(s.drop_last());
        let c = s.last();
        if c.tag@ == "let_declaration"@ && field_child(c, "pattern"@) is None {
            prev.push(Diagnostic { gap: Gap::MissingName, at: c.start })
        } else {
            prev
        }
    }
}

/// The record of a function node with the name `name`.
pub open spec fn function_of(code: Seq<char>, f: SyntaxNode, name: Seq<char>) -> FunctionView {
    FunctionView {
        name,
        parameters: function_params(code, f),
        body: text_of(code, f),
        called_methods: calls_in(code, f.children@),
        local_variables: locals_in(code, f.children@),
    }
}

/// The named functions among `s`.
pub open spec fn functions_in(code: Seq<char>, s: Seq<SyntaxNode>) -> Seq<FunctionView>
    decreases s.len(),
{
    if s.len() == 0 {
        Seq::empty()
    } else {
        let prev = functions_in(code, s.drop_last());
        let c = s.last();
        if c.tag@ == "function_item"@ {
            match field_text(code, c, "name"@) {
                Some(name) => prev.push(function_of(code, c, name)),
                None => prev,
            }
        } else {
            prev
        }
    }
}

/// The diagnostics that a node gives in the function scan: a function's
/// missing name, or else those of its local variables.
pub open spec fn function_gap(c: SyntaxNode) -> Seq<Diagnostic> {
    if c.tag@ == "function_item"@ {
        if field_child(c, "name"@) is None {
            seq![Diagnostic { gap: Gap::MissingName, at: c.start }]
        } else {
            local_gaps(c.children@)
        }
    } else {
        Seq::empty()
    }
}

pub open spec fn function_gaps(s: Seq<SyntaxNode>) -> Seq<Diagnostic>
    decreases s.len(),
{
    if s.len() == 0 {
        Seq::empty()
    } else {
        function_gaps(s.drop_last()) + function_gap(s.last())
    }
}

fn has_tagged_child(n: &SyntaxNode, tag: &str) -> (r: bool)
    ensures
        r == has_child_tagged(*n, tag@),
{
    n.child_by_tag(tag).is_some()
}

/// The record of one parameter node.
pub fn parameter_of(code: &str, p: &SyntaxNode) -> (r: Parameter)
    ensures
        r@ == param_of(code@, *p),
{
    let whole = node_text(code, p);
    let by_reference = !whole.as_str().is_empty() && whole.as_str().get_char(0) == '&';
    let name = match p.field_text(code, "pattern") {
        Some(t) => t,
        None => whole,
    };
    Parameter {
        name,
        ty: p.field_text(code, "type"),
        is_mutable: has_tagged_child(p, "mutable_specifier"),
        is_reference: by_reference,
        default_value: p.field_text(code, "default_value"),
    }
}

/// The parameters of a function node.
pub fn extract_parameters(code: &str, function_node: &SyntaxNode) -> (r: Vec<Parameter>)
    ensures
        params_view(r@) == function_params(code@, *function_node),
{
    let mut out: Vec<Parameter> = Vec::new();
    assert(params_view(out@) =~= Seq::<ParamView>::empty());
    let list = match function_node.child_by_field("parameters") {
        Some(ps) => ps,
        None => {
            return out;
        },
    };
    let kids = &list.children;
    let mut i: usize = 0;
    while i < kids.len()
        invariant
            0 <= i <= kids@.len(),
            params_view(out@) == params_in(code@, kids@.take(i as int)),
        decreases kids@.len() - i,
    {
        let c = &kids[i];
        assert(kids@.take(i + 1).drop_last() =~= kids@.take(i as int));
        assert(kids@.take(i + 1).last() == kids@[i as int]);
        if c.named && !tagged(c, "attribute_item") {
            let p = parameter_of(code, c);
            assert(params_view(out@.push(p)) =~= params_view(out@).push(p@));
            out.push(p);
        }
        i = i + 1;
    }
    assert(kids@.take(i as int) =~= kids@);
    out
}

/// The targets of the call expressions directly under a function node.
pub fn extract_called_methods(code: &str, function_node: &SyntaxNode) -> (r: Vec<String>)
    ensures
        texts(r@) == calls_in(code@, function_node.children@),
{
    let kids = &function_node.children;
    let mut out: Vec<String> = Vec::new();
    let mut i: usize = 0;
    while i < kids.len()
        invariant
            0 <= i <= kids@.len(),
            texts(out@) == calls_in(code@, kids@.take(i as int)),
        decreases kids@.len() - i,
    {
        let c = &kids[i];
        assert(kids@.take(i + 1).drop_last() =~= kids@.take(i as int));
        assert(kids@.take(i + 1).last() == kids@[i as int]);
        if tagged(c, "call_expression") {
            match c.field_text(code, "function") {
                Some(t) => {
                    proof {
                        lemma_texts_push(out@, t);
                    }
                    out.push(t);
                },
                None => {},
            }
        }
        i = i + 1;
    }
    assert(kids@.take(i as int) =~= kids@);
    out
}

/// The local variables declared directly under a function node; one without
/// a name is skipped with a diagnostic.
pub fn extract_method_variables(code: &str, function_node: &SyntaxNode, diags: &mut Vec<Diagnostic>) -> (r: Vec<LocalVariable>)
    ensures
        locals_view(r@) == locals_in(code@, function_node.children@),
        final(diags)@ == old(diags)@ + local_gaps(function_node.children@),
{
    let kids = &function_node.children;
    let mut out: Vec<LocalVariable> = Vec::new();
    let mut i: usize = 0;
    assert(locals_view(out@) =~= Seq::<(Seq<char>, Option<Seq<char>>)>::empty());
    assert(old(diags)@ + Seq::<Diagnostic>::empty() =~= old(diags)@);
    while i < kids.len()
        invariant
            0 <= i <= kids@.len(),
            locals_view(out@) == locals_in(code@, kids@.take(i as int)),
            diags@ == old(diags)@ + local_gaps(kids@.take(i as int)),
        decreases kids@.len() - i,
    {
        let c = &kids[i];
        assert(kids@.take(i + 1).drop_last() =~= kids@.take(i as int));
        assert(kids@.take(i + 1).last() == kids@[i as int]);
        if tagged(c, "let_declaration") {
            match c.field_text(code, "pattern") {
                Some(name) => {
                    let v = LocalVariable { name, value: c.field_text(code, "value") };
                    assert(locals_view(out@.push(v)) =~= locals_view(out@).push(v@));
                    out.push(v);
                },
                None => {
                    diags.push(Diagnostic { gap: Gap::MissingName, at: c.start });
                },
            }
        }
        assert(diags@ =~= old(diags)@ + local_gaps(kids@.take(i + 1)));
        i = i + 1;
    }
    assert(kids@.take(i as int) =~= kids@);
    out
}

/// The functions among the direct children of `node`, each with its
/// parameters, text, calls and local variables; a function without a name is
/// skipped with a diagnostic.
pub fn extract_functions(code: &str, node: &SyntaxNode, diags: &mut Vec<Diagnostic>) -> (r: Vec<FunctionItem>)
    ensures
        functions_view(r@) == functions_in(code@, node.children@),
        final(diags)@ == old(diags)@ + function_gaps(node.children@),
{
    let kids = &node.children;
    let mut out: Vec<FunctionItem> = Vec::new();
    let mut i: usize = 0;
    assert(functions_view(out@) =~= Seq::<FunctionView>::empty());
    assert(old(diags)@ + Seq::<Diagnostic>::empty() =~= old(diags)@);
    while i < kids.len()
        invariant
            0 <= i <= kids@.len(),
            functions_view(out@) == functions_in(code@, kids@.take(i as int)),
            diags@ == old(diags)@ + function_gaps(kids@.take(i as int)),
        decreases kids@.len() - i,
    {
        let c = &kids[i];
        let ghost before = diags@;
        assert(kids@.take(i + 1).drop_last() =~= kids@.take(i as int));
        assert(kids@.take(i + 1).last() == kids@[i as int]);
        if tagged(c, "function_item") {
            match c.field_text(code, "name") {
                Some(name) => {
                    let item = FunctionItem {
                        name,
                        parameters: extract_parameters(code, c),
                        body: node_text(code, c),
                        called_methods: extract_called_methods(code, c),
                        local_variables: extract_method_variables(code, c, diags),
                    };
                    assert(functions_view(out@.push(item)) =~= functions_view(out@).push(item@));
                    out.push(item);
                },
                None => {
                    diags.push(Diagnostic { gap: Gap::MissingName, at: c.start });
                },
            }
        }
        assert(diags@ =~= before + function_gap(kids@[i as int]));
        assert(diags@ =~= old(diags)@ + function_gaps(kids@.take(i + 1)));
        i = i + 1;
    }
    assert(kids@.take(i as int) =~= kids@);
    out
}

} // verus!
