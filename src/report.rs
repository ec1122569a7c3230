use vstd::prelude::*;
use crate::kind::Kind;
use crate::text::{opt_view, texts};

verus! {

/// What a structural gap in the input concerns.
#[derive(Clone, Copy, Debug, PartialEq, Eq, Structural)]
pub enum Gap {
    /// A declaration without a discoverable name.
    MissingName,
    /// An attribute item without the attribute inside it.
    MissingAttribute,
}

/// A diagnostic for an item that was skipped: the gap and the start byte of
/// the node concerned.
#[derive(Clone, Copy, Debug, PartialEq, Eq, Structural)]
pub struct Diagnostic {
    pub gap: Gap,
    pub at: usize,
}

/// A named declaration with its value text (a constant or a global).
#[derive(Debug)]
pub struct Binding {
    pub name: String,
    pub value: String,
}

impl View for Binding {
    type V = (Seq<char>, Seq<char>);

    open spec fn view(&self) -> (Seq<char>, Seq<char>) {
        (self.name@, self.value@)
    }
}

pub open spec fn bindings_view(v: Seq<Binding>) -> Seq<(Seq<char>, Seq<char>)> {
    v.map_values(|b: Binding| b@)
}

} // verus!

verus! {

/// A declared field of a struct: its name, its declared type, and the texts
/// of the attributes attached to it.
#[derive(Debug)]
pub struct FieldItem {
    pub name: String,
    pub ty: Option<String>,
    pub attributes: Vec<String>,
}

pub ghost struct FieldView {
    pub name: Seq<char>,
    pub ty: Option<Seq<char>>,
    pub attributes: Seq<Seq<char>>,
}

impl View for FieldItem {
    type V = FieldView;

    open spec fn view(&self) -> FieldView {
        FieldView { name: self.name@, ty: opt_view(self.ty), attributes: texts(self.attributes@) }
    }
}

pub open spec fn fields_view(v: Seq<FieldItem>) -> Seq<FieldView> {
    v.map_values(|f: FieldItem| f@)
}

/// A copy of a sequence of strings.
pub fn copy_texts(v: &Vec<String>) -> (r: Vec<String>)
    ensures
        texts(r@) == texts(v@),
{
    let mut out: Vec<String> = Vec::new();
    let mut i: usize = 0;
    while i < v.len()
        invariant
            0 <= i <= v@.len(),
            texts(out@) == texts(v@.take(i as int)),
        decreases v@.len() - i,
    {
        let s = v[i].clone();
        assert(texts(out@.push(s)) =~= texts(out@).push(s@));
        assert(v@.take(i + 1) =~= v@.take(i as int).push(v@[i as int]));
        assert(texts(v@.take(i + 1)) =~= texts(v@.take(i as int)).push(v@[i as int]@));
        out.push(s);
        i = i + 1;
    }
    assert(v@.take(i as int) =~= v@);
    out
}

impl FieldItem {
    pub fn duplicate(&self) -> (r: FieldItem)
        ensures
            r@ == self@,
    {
        let ty = match &self.ty {
            Some(t) => Some(t.clone()),
            None => None,
        };
        FieldItem { name: self.name.clone(), ty, attributes: copy_texts(&self.attributes) }
    }
}

/// A struct: its name, the texts of the attributes attached to it, and its fields.
#[derive(Debug)]
pub struct StructItem {
    pub name: String,
    pub attributes: Vec<String>,
    pub fields: Vec<FieldItem>,
}

pub ghost struct StructView {
    pub name: Seq<char>,
    pub attributes: Seq<Seq<char>>,
    pub fields: Seq<FieldView>,
}

impl View for StructItem {
    type V = StructView;

    open spec fn view(&self) -> StructView {
        StructView { name: self.name@, attributes: texts(self.attributes@), fields: fields_view(self.fields@) }
    }
}

pub open spec fn structs_view(v: Seq<StructItem>) -> Seq<StructView> {
    v.map_values(|s: StructItem| s@)
}

/// A struct seen as a schema: its name, attributes and fields, and the names
/// of the fields that carry a foreign-key relationship.
#[derive(Debug)]
pub struct Schema {
    pub name: String,
    pub attributes: Vec<String>,
    pub fields: Vec<FieldItem>,
    pub foreign_keys: Vec<String>,
}

pub ghost struct SchemaView {
    pub name: Seq<char>,
    pub attributes: Seq<Seq<char>>,
    pub fields: Seq<FieldView>,
    pub foreign_keys: Seq<Seq<char>>,
}

impl View for Schema {
    type V = SchemaView;

    open spec fn view(&self) -> SchemaView {
        SchemaView {
            name: self.name@,
            attributes: texts(self.attributes@),
            fields: fields_view(self.fields@),
            foreign_keys: texts(self.foreign_keys@),
        }
    }
}

pub open spec fn schemas_view(v: Seq<Schema>) -> Seq<SchemaView> {
    v.map_values(|s: Schema| s@)
}

} // verus!

verus! {

/// An enum and the names of its variants.
#[derive(Debug)]
pub struct EnumItem {
    pub name: String,
    pub variants: Vec<String>,
}

impl View for EnumItem {
    type V = (Seq<char>, Seq<Seq<char>>);

    open spec fn view(&self) -> (Seq<char>, Seq<Seq<char>>) {
        (self.name@, texts(self.variants@))
    }
}

pub open spec fn enums_view(v: Seq<EnumItem>) -> Seq<(Seq<char>, Seq<Seq<char>>)> {
    v.map_values(|e: EnumItem| e@)
}

/// A named declaration and its kind.
#[derive(Debug)]
pub struct Declared {
    pub kind: Kind,
    pub name: String,
}

impl View for Declared {
    type V = (Kind, Seq<char>);

    open spec fn view(&self) -> (Kind, Seq<char>) {
        (self.kind, self.name@)
    }
}

pub open spec fn declared_view(v: Seq<Declared>) -> Seq<(Kind, Seq<char>)> {
    v.map_values(|d: Declared| d@)
}

/// What holds declarations: a module or an impl block.
#[derive(Clone, Copy, Debug, PartialEq, Eq, Structural)]
pub enum ContainerKind {
    Module,
    Impl,
}

/// A module or an impl block, with the declarations directly in its body.
#[derive(Debug)]
pub struct Container {
    pub kind: ContainerKind,
    pub name: String,
    pub children: Vec<Declared>,
}

impl View for Container {
    type V = (ContainerKind, Seq<char>, Seq<(Kind, Seq<char>)>);

    open spec fn view(&self) -> (ContainerKind, Seq<char>, Seq<(Kind, Seq<char>)>) {
        (self.kind, self.name@, declared_view(self.children@))
    }
}

pub open spec fn containers_view(v: Seq<Container>) -> Seq<(ContainerKind, Seq<char>, Seq<(Kind, Seq<char>)>)> {
    v.map_values(|c: Container| c@)
}

} // verus!

verus! {

/// A parameter of a function.
#[derive(Debug)]
pub struct Parameter {
    pub name: String,
    pub ty: Option<String>,
    pub is_mutable: bool,
    pub is_reference: bool,
    pub default_value: Option<String>,
}

pub ghost struct ParamView {
    pub name: Seq<char>,
    pub ty: Option<Seq<char>>,
    pub is_mutable: bool,
    pub is_reference: bool,
    pub default_value: Option<Seq<char>>,
}

impl View for Parameter {
    type V = ParamView;

    open spec fn view(&self) -> ParamView {
        ParamView {
            name: self.name@,
            ty: opt_view(self.ty),
            is_mutable: self.is_mutable,
            is_reference: self.is_reference,
            default_value: opt_view(self.default_value),
        }
    }
}

pub open spec fn params_view(v: Seq<Parameter>) -> Seq<ParamView> {
    v.map_values(|p: Parameter| p@)
}

/// A local variable: its name and the text of its initial value.
#[derive(Debug)]
pub struct LocalVariable {
    pub name: String,
    pub value: Option<String>,
}

impl View for LocalVariable {
    type V = (Seq<char>, Option<Seq<char>>);

    open spec fn view(&self) -> (Seq<char>, Option<Seq<char>>) {
        (self.name@, opt_view(self.value))
    }
}

pub open spec fn locals_view(v: Seq<LocalVariable>) -> Seq<(Seq<char>, Option<Seq<char>>)> {
    v.map_values(|l: LocalVariable| l@)
}

/// A function: its name, parameters, whole text, the targets of the calls and
/// the local variables directly under it.
#[derive(Debug)]
pub struct FunctionItem {
    pub name: String,
    pub parameters: Vec<Parameter>,
    pub body: String,
    pub called_methods: Vec<String>,
    pub local_variables: Vec<LocalVariable>,
}

pub ghost struct FunctionView {
    pub name: Seq<char>,
    pub parameters: Seq<ParamView>,
    pub body: Seq<char>,
    pub called_methods: Seq<Seq<char>>,
    pub local_variables: Seq<(Seq<char>, Option<Seq<char>>)>,
}

impl View for FunctionItem {
    type V = FunctionView;

    open spec fn view(&self) -> FunctionView {
        FunctionView {
            name: self.name@,
            parameters: params_view(self.parameters@),
            body: self.body@,
            called_methods: texts(self.called_methods@),
            local_variables: locals_view(self.local_variables@),
        }
    }
}

pub open spec fn functions_view(v: Seq<FunctionItem>) -> Seq<FunctionView> {
    v.map_values(|f: FunctionItem| f@)
}

/// A relation between types: an impl block, or a derive attribute.
#[derive(Debug)]
pub enum Relation {
    Impl { for_type: String, trait_name: Option<String>, generics: Option<String> },
    Derive { details: String },
}

pub ghost enum RelationView {
    Impl { for_type: Seq<char>, trait_name: Option<Seq<char>>, generics: Option<Seq<char>> },
    Derive { details: Seq<char> },
}

impl View for Relation {
    type V = RelationView;

    open spec fn view(&self) -> RelationView {
        match self {
            Relation::Impl { for_type, trait_name, generics } => RelationView::Impl {
                for_type: for_type@,
                trait_name: opt_view(*trait_name),
                generics: opt_view(*generics),
            },
            Relation::Derive { details } => RelationView::Derive { details: details@ },
        }
    }
}

pub open spec fn relations_view(v: Seq<Relation>) -> Seq<RelationView> {
    v.map_values(|r: Relation| r@)
}

} // verus!
