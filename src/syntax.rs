use vstd::prelude::*;

verus! {

/// A literal in a directive list: only string literals carry a value, given
/// with the token text of that value read as a type, where it reads as one.
pub enum Lit {
    Str { value: String, as_type: Option<String> },
    Other,
}

/// One entry of a directive list, `name = lit`, or any other nested form.
pub enum NestedMeta {
    NameValue { name: String, lit: Lit },
    Other,
}

/// An annotation attached to the type or to a member: a list form
/// `name(k = "v", ...)`, or any other form.
pub enum Attribute {
    List { name: String, nested: Vec<NestedMeta> },
    Other,
}

/// A generic argument of a path segment; argument types are held by their
/// token text.
pub enum GenericArg {
    Type { text: String },
    Binding { name: String, text: String },
    Other { text: String },
}

/// A path segment with its angle-bracketed arguments (empty when it has none).
pub struct PathSegment {
    pub ident: String,
    pub args: Vec<GenericArg>,
}

/// A type, as far as the compiler looks into it.
pub enum Ty {
    Path { segments: Vec<PathSegment> },
    Reference { lifetime: Option<String>, mutable: bool, elem: Box<Ty> },
    Other { text: String },
}

/// A parameter of a member: a simple name with its type (its token text and
/// its shape), or any other form (a receiver, a destructuring pattern).
pub enum Param {
    Named { name: String, ty_text: String, ty: Ty },
    Other,
}

/// A method of the implementation block.
pub struct Method {
    pub ident: String,
    pub attrs: Vec<Attribute>,
    pub params: Vec<Param>,
    /// The token text of the declared return type, if there is one.
    pub output: Option<String>,
}

/// A member of the implementation block.
pub enum ImplMember {
    Method { method: Method },
    Const,
    Macro,
    Verbatim,
    Type,
}

/// An implementation block: its annotations, its self type and its members.
pub struct ImplBlock {
    pub attrs: Vec<Attribute>,
    pub self_ty: Ty,
    pub members: Vec<ImplMember>,
}

/// The item the compiler is applied to.
pub enum Item {
    Impl { block: ImplBlock },
    Other,
}

} // verus!
