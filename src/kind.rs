use vstd::prelude::*;
use crate::text::same_text;

verus! {

/// The semantic taxonomy that syntax nodes are classified into.
#[derive(Clone, Copy, Debug, PartialEq, Eq, Structural)]
pub enum Kind {
    Root,
    Comment,
    Import,
    Struct,
    Enum,
    Derive,
    Function,
    Method,
    Field,
    Variable,
    Type,
    Trait,
    Impl,
    If,
    Else,
    Loop,
    Tuple,
    Array,
    FunctionCall,
    Undefined,
}

/// The kind-tag lookup table; `None` for a tag that has no entry.
pub open spec fn classify_tag(tag: Seq<char>) -> Option<Kind> {
    if tag == "source_file"@ {
        Some(Kind::Root)
    } else if tag == "line_comment"@ {
        Some(Kind::Comment)
    } else if tag == "import"@ {
        Some(Kind::Import)
    } else if tag == "struct_item"@ {
        Some(Kind::Struct)
    } else if tag == "enum_item"@ {
        Some(Kind::Enum)
    } else if tag == "attribute_item"@ {
        Some(Kind::Derive)
    } else if tag == "function_item"@ {
        Some(Kind::Function)
    } else if tag == "impl_item"@ {
        Some(Kind::Impl)
    } else if tag == "field_declaration"@ {
        Some(Kind::Field)
    } else if tag == "let_declaration"@ {
        Some(Kind::Variable)
    } else if tag == "type_item"@ {
        Some(Kind::Type)
    } else if tag == "trait_item"@ {
        Some(Kind::Trait)
    } else if tag == "if_expression"@ {
        Some(Kind::If)
    } else if tag == "else_clause"@ {
        Some(Kind::Else)
    } else if tag == "loop_expression"@ {
        Some(Kind::Loop)
    } else if tag == "tuple_expression"@ {
        Some(Kind::Tuple)
    } else if tag == "array_expression"@ {
        Some(Kind::Array)
    } else if tag == "call_expression"@ {
        Some(Kind::FunctionCall)
    } else {
        None
    }
}

/// The kind of a tag, with `Undefined` for one that the table lacks.
pub open spec fn kind_of_tag(tag: Seq<char>) -> Kind {
    match classify_tag(tag) {
        Some(k) => k,
        None => Kind::Undefined,
    }
}

/// Looks a kind-tag up in the table.
pub fn classify(tag: &str) -> (r: Option<Kind>)
    ensures
        r == classify_tag(tag@),
        r != Some(Kind::Undefined),
{
    if same_text(tag, "source_file") {
        Some(Kind::Root)
    } else if same_text(tag, "line_comment") {
        Some(Kind::Comment)
    } else if same_text(tag, "import") {
        Some(Kind::Import)
    } else if same_text(tag, "struct_item") {
        Some(Kind::Struct)
    } else if same_text(tag, "enum_item") {
        Some(Kind::Enum)
    } else if same_text(tag, "attribute_item") {
        Some(Kind::Derive)
    } else if same_text(tag, "function_item") {
        Some(Kind::Function)
    } else if same_text(tag, "impl_item") {
        Some(Kind::Impl)
    } else if same_text(tag, "field_declaration") {
        Some(Kind::Field)
    } else if same_text(tag, "let_declaration") {
        Some(Kind::Variable)
    } else if same_text(tag, "type_item") {
        Some(Kind::Type)
    } else if same_text(tag, "trait_item") {
        Some(Kind::Trait)
    } else if same_text(tag, "if_expression") {
        Some(Kind::If)
    } else if same_text(tag, "else_clause") {
        Some(Kind::Else)
    } else if same_text(tag, "loop_expression") {
        Some(Kind::Loop)
    } else if same_text(tag, "tuple_expression") {
        Some(Kind::Tuple)
    } else if same_text(tag, "array_expression") {
        Some(Kind::Array)
    } else if same_text(tag, "call_expression") {
        Some(Kind::FunctionCall)
    } else {
        None
    }
}

impl Kind {
    /// The kind of a tag; `Undefined` where the table has no entry.
    pub fn from_tag(tag: &str) -> (r: Kind)
        ensures
            r == kind_of_tag(tag@),
    {
        match classify(tag) {
            Some(k) => k,
            None => Kind::Undefined,
        }
    }

    pub fn is_undefined(&self) -> (r: bool)
        ensures
            r == (*self == Kind::Undefined),
    {
        match self {
            Kind::Undefined => true,
            _ => false,
        }
    }
}

impl Default for Kind {
    fn default() -> (r: Kind)
        ensures
            r == Kind::Comment,
    {
        Kind::Comment
    }
}

} // verus!
