//! An API description as it is written: paths with their operations, and the
//! tables of reusable components that the operations may point into.

use crate::model::ParameterLocation;
use vstd::prelude::*;

verus! {

/// Either a pointer to a component, as its reference string, or the item
/// written in place.
#[derive(Debug, Clone)]
pub enum ReferenceOr<T> {
    Reference(String),
    Item(T),
}

/// The primitive kinds a schema can declare.
#[derive(Debug, Clone, Copy, PartialEq, Eq, Structural)]
pub enum Primitive {
    String,
    Number,
    Integer,
    Boolean,
    Array,
    Object,
}

impl Primitive {
    /// The canonical lower-case name of the kind.
    pub open spec fn label(self) -> Seq<char> {
        match self {
            Primitive::String => "string"@,
            Primitive::Number => "number"@,
            Primitive::Integer => "integer"@,
            Primitive::Boolean => "boolean"@,
            Primitive::Array => "array"@,
            Primitive::Object => "object"@,
        }
    }
}

/// What the summariser reads of a schema.
#[derive(Debug, Clone)]
pub enum SchemaDecl {
    /// A schema that declares a primitive kind.
    Typed(Primitive),
    /// An open declaration, with its advisory type hint if it carries one.
    Untyped(Option<String>),
    /// A combination of other schemas.
    Composite,
}

/// A parameter as declared on a path or on an operation.
#[derive(Debug, Clone)]
pub struct ParameterDecl {
    pub location: ParameterLocation,
    pub name: String,
    pub description: Option<String>,
    pub required: bool,
    /// The parameter's schema; nothing where it is described by content.
    pub schema: Option<ReferenceOr<SchemaDecl>>,
}

/// One entry of a content mapping: a content type and its schema.
#[derive(Debug, Clone)]
pub struct MediaDecl {
    pub content_type: String,
    pub schema: Option<ReferenceOr<SchemaDecl>>,
}

/// A request body as declared; `content` is in declaration order.
#[derive(Debug, Clone)]
pub struct RequestBodyDecl {
    pub description: Option<String>,
    pub required: bool,
    pub content: Vec<MediaDecl>,
}

/// A response as declared; `content` is in declaration order.
#[derive(Debug, Clone)]
pub struct ResponseDecl {
    pub description: String,
    pub content: Vec<MediaDecl>,
}

/// The status a response is declared for: one code, or a range of codes
/// given by its leading digit.
#[derive(Debug, Clone, Copy, PartialEq, Eq, Structural)]
pub enum StatusKey {
    Code(u16),
    Range(u16),
}

/// A response declared for a status.
#[derive(Debug, Clone)]
pub struct StatusDecl {
    pub status: StatusKey,
    pub response: ReferenceOr<ResponseDecl>,
}

/// An operation as declared under a path.
#[derive(Debug, Clone)]
pub struct OperationDecl {
    pub summary: Option<String>,
    pub description: Option<String>,
    pub operation_id: Option<String>,
    pub tags: Vec<String>,
    pub parameters: Vec<ReferenceOr<ParameterDecl>>,
    pub request_body: Option<ReferenceOr<RequestBodyDecl>>,
    pub responses: Vec<StatusDecl>,
    pub default_response: Option<ReferenceOr<ResponseDecl>>,
}

/// What one path declares: parameters shared by its operations, and at most
/// one operation for each verb.
#[derive(Debug, Clone)]
pub struct PathItemDecl {
    pub parameters: Vec<ReferenceOr<ParameterDecl>>,
    pub get: Option<OperationDecl>,
    pub post: Option<OperationDecl>,
    pub put: Option<OperationDecl>,
    pub delete: Option<OperationDecl>,
    pub patch: Option<OperationDecl>,
    pub head: Option<OperationDecl>,
    pub options: Option<OperationDecl>,
    pub trace: Option<OperationDecl>,
}

/// An entry of the path table.
#[derive(Debug, Clone)]
pub struct PathDecl {
    pub path: String,
    pub item: ReferenceOr<PathItemDecl>,
}

/// An entry of a component table.
#[derive(Debug, Clone)]
pub struct Named<T> {
    pub name: String,
    pub entry: ReferenceOr<T>,
}

/// The component tables that references are resolved against.
#[derive(Debug, Clone)]
pub struct Components {
    pub parameters: Vec<Named<ParameterDecl>>,
    pub request_bodies: Vec<Named<RequestBodyDecl>>,
    pub responses: Vec<Named<ResponseDecl>>,
}

/// A whole API description.
#[derive(Debug, Clone)]
pub struct Document {
    pub title: String,
    pub version: String,
    pub description: Option<String>,
    pub paths: Vec<PathDecl>,
    pub components: Option<Components>,
}

} // verus!
