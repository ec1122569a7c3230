use vstd::prelude::*;
use crate::callables::{extract_functions, function_gaps, functions_in};
use crate::extract::{
    attribute_gaps, attributes_in, bindings_in, extract_constants, extract_globals, extract_imports,
    extract_metadata, extract_structs, imports_in, missing_names, struct_gaps, structs_in,
};
use crate::items::{
    container_gaps, containers_in, enum_gaps, enums_in, extract_enums, extract_modules_and_impls,
};
use crate::kind::Kind;
use crate::relations::{extract_relations, relation_gaps, relations_in};
use crate::report::{
    Binding, Container, ContainerKind, Diagnostic, EnumItem, FunctionItem, FunctionView, Relation,
    RelationView, Schema, SchemaView, StructItem, StructView, bindings_view, containers_view,
    enums_view, functions_view, relations_view, schemas_view, structs_view,
};
use crate::schema::{infer_schemas, schemas_of};
use crate::shape::{Element, Shaped, build_document, document_tree};
use crate::syntax::SyntaxNode;
use crate::text::texts;

verus! {

/// The full report on one source unit, one section per category, with the
/// shaped tree under `nested_items` and the diagnostics for skipped items.
#[derive(Debug)]
pub struct Document {
    pub imports: Vec<String>,
    pub functions: Vec<FunctionItem>,
    pub structs: Vec<StructItem>,
    pub enums: Vec<EnumItem>,
    pub relations: Vec<Relation>,
    pub constants: Vec<Binding>,
    pub modules_and_impls: Vec<Container>,
    pub metadata: Vec<String>,
    pub nested_items: Element,
    pub globals: Vec<Binding>,
    pub schemas: Vec<Schema>,
    pub diagnostics: Vec<Diagnostic>,
}

pub ghost struct DocumentView {
    pub imports: Seq<Seq<char>>,
    pub functions: Seq<FunctionView>,
    pub structs: Seq<StructView>,
    pub enums: Seq<(Seq<char>, Seq<Seq<char>>)>,
    pub relations: Seq<RelationView>,
    pub constants: Seq<(Seq<char>, Seq<char>)>,
    pub modules_and_impls: Seq<(ContainerKind, Seq<char>, Seq<(Kind, Seq<char>)>)>,
    pub metadata: Seq<Seq<char>>,
    pub nested_items: Shaped,
    pub globals: Seq<(Seq<char>, Seq<char>)>,
    pub schemas: Seq<SchemaView>,
    pub diagnostics: Seq<Diagnostic>,
}

impl View for Document {
    type V = DocumentView;

    open spec fn view(&self) -> DocumentView {
        DocumentView {
            imports: texts(self.imports@),
            functions: functions_view(self.functions@),
            structs: structs_view(self.structs@),
            enums: enums_view(self.enums@),
            relations: relations_view(self.relations@),
            constants: bindings_view(self.constants@),
            modules_and_impls: containers_view(self.modules_and_impls@),
            metadata: texts(self.metadata@),
            nested_items: self.nested_items@,
            globals: bindings_view(self.globals@),
            schemas: schemas_view(self.schemas@),
            diagnostics: self.diagnostics@,
        }
    }
}

/// The diagnostics of all category scans over the children `s` of the root,
/// in the order in which the sections are assembled.
pub open spec fn document_gaps(s: Seq<SyntaxNode>) -> Seq<Diagnostic> {
    function_gaps(s) + struct_gaps(s, s.len() as int) + enum_gaps(s, s.len() as int)
        + relation_gaps(s) + missing_names(s, "const_item"@, "name"@) + container_gaps(s, s.len() as int)
        + attribute_gaps(s) + missing_names(s, "let_declaration"@, "pattern"@)
}

/// The report on the source unit `code` whose syntax tree is rooted at `root`.
pub open spec fn document_of(code: Seq<char>, root: SyntaxNode) -> DocumentView {
    let s = root.children@;
    DocumentView {
        imports: imports_in(code, s),
        functions: functions_in(code, s),
        structs: structs_in(code, s, s.len() as int),
        enums: enums_in(code, s, s.len() as int),
        relations: relations_in(code, s),
        constants: bindings_in(code, s, "const_item"@, "name"@),
        modules_and_impls: containers_in(code, s, s.len() as int),
        metadata: attributes_in(code, s),
        nested_items: document_tree(code, root),
        globals: bindings_in(code, s, "let_declaration"@, "pattern"@),
        schemas: schemas_of(structs_in(code, s, s.len() as int)),
        diagnostics: document_gaps(s),
    }
}

/// The report on the source unit `code` whose syntax tree is rooted at
/// `root`: the shaped tree, one scan of the root's direct children per
/// category, and the schemas inferred from the structs.
pub fn generate_document(code: &str, root: &SyntaxNode) -> (r: Document)
    ensures
        r@ == document_of(code@, *root),
{
    let mut diags: Vec<Diagnostic> = Vec::new();
    let imports = extract_imports(code, root);
    let functions = extract_functions(code, root, &mut diags);
    let structs = extract_structs(code, root, &mut diags);
    let enums = extract_enums(code, root, &mut diags);
    let relations = extract_relations(code, root, &mut diags);
    let constants = extract_constants(code, root, &mut diags);
    let modules_and_impls = extract_modules_and_impls(code, root, &mut diags);
    let metadata = extract_metadata(code, root, &mut diags);
    let nested_items = build_document(code, root);
    let globals = extract_globals(code, root, &mut diags);
    let schemas = infer_schemas(&structs);
    assert(diags@ =~= document_gaps(root.children@));
    Document {
        imports,
        functions,
        structs,
        enums,
        relations,
        constants,
        modules_and_impls,
        metadata,
        nested_items,
        globals,
        schemas,
        diagnostics: diags,
    }
}

/// A source unit: its text and the syntax tree the parser gave for it.
#[derive(Debug)]
pub struct SourceUnit {
    pub code: String,
    pub root: SyntaxNode,
}

impl SourceUnit {
    pub fn new(code: String, root: SyntaxNode) -> (r: SourceUnit)
        ensures
            r.code == code,
            r.root == root,
    {
        SourceUnit { code, root }
    }

    /// The full report on this unit.
    pub fn generate_json(&self) -> (r: Document)
        ensures
            r@ == document_of(self.code@, self.root),
    {
        generate_document(self.code.as_str(), &self.root)
    }

    /// The shaped tree of this unit, with its relation edges.
    pub fn generate_ast_with_relations(&self) -> (r: Element)
        ensures
            r@ == document_tree(self.code@, self.root),
    {
        build_document(self.code.as_str(), &self.root)
    }
}

/// The report depends on the source unit alone: two reports on the same
/// source text and syntax tree are equal.
pub proof fn lemma_deterministic(code: Seq<char>, root: SyntaxNode, a: Document, b: Document)
    requires
        a@ == document_of(code, root),
        b@ == document_of(code, root),
    ensures
        a@ == b@,
{
}

} // verus!
