use vstd::prelude::*;

verus! {

/// The value given to one key of a field's `mixin` annotation.
#[derive(Clone, Debug, PartialEq, Eq)]
pub enum DeclValue {
    /// A string literal, with its text.
    Text(String),
    /// Any other expression form.
    Other,
}

/// One `key = value` entry of a field's `mixin` annotation; `key` lists the segments of the
/// key's path.
#[derive(Clone, Debug, PartialEq, Eq)]
pub struct MixinAttr {
    pub key: Vec<String>,
    pub value: DeclValue,
}

/// A field of the target structure, with what its annotation held: the entries, or the
/// message of a syntax error in it.
#[derive(Debug, PartialEq, Eq)]
pub struct FieldMixins {
    pub field: Option<String>,
    pub attrs: Result<Vec<MixinAttr>, String>,
}

/// The structure to augment: its name, whether it is a record of named fields, and its fields.
#[derive(Debug, PartialEq, Eq)]
pub struct TargetStruct {
    pub ident: String,
    pub is_record: bool,
    pub fields: Vec<FieldMixins>,
}

/// `pub fn <name>(&self) -> <return_type> { self.<field>.<source_method>() }`
#[derive(Clone, Debug, PartialEq, Eq)]
pub struct GeneratedMethod {
    pub name: String,
    pub return_type: String,
    pub field: String,
    pub source_method: String,
}

/// `impl <target> { <methods> }`
#[derive(Clone, Debug, PartialEq, Eq)]
pub struct ImplBlock {
    pub target: String,
    pub methods: Vec<GeneratedMethod>,
}

/// What is wrong with a declaration.
#[derive(PartialEq, Eq, Structural, Clone, Copy, Debug)]
pub enum DeclFault {
    NotStringLiteral,
    InvalidMethodName,
    InvalidReturnType,
}

#[derive(Clone, Debug, PartialEq, Eq)]
pub enum MixinError {
    /// The annotation of `field` does not have the `key = "string"` shape.
    AttributeSyntax { field: String, message: String },
    /// A key of the annotation of `field` is a path of several segments.
    NonSimpleSourceMethod { field: String, key: Vec<String> },
    /// The declaration given for `source_method` on `field` cannot be used.
    MalformedDeclaration {
        field: String,
        source_method: String,
        declaration: String,
        fault: DeclFault,
    },
}

} // verus!
