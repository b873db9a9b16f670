// A compiler from an annotated implementation block to the schema
// registration and field dispatch of a GraphQL object type.

pub mod syntax;
pub mod bridge;
pub mod directive;
pub mod context;
pub mod field;
pub mod compiler;
pub mod emit;
pub mod laws;
