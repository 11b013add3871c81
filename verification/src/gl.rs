//! Vertex attribute descriptions that the GPU-facing collaborator reads
//! when it lays out vertex buffers.

use vstd::prelude::*;

verus! {

/// The scalar type of one vertex attribute component.
#[derive(Clone, Copy, Debug, PartialEq, Eq, Structural)]
pub enum AttributeValueType {
    Boolean,
    Integer,
    UnsignedInteger,
    Float,
    Double,
}

impl AttributeValueType {
    /// Size of one component in bytes.
    pub fn size(&self) -> (r: i32)
        ensures
            r == match self {
                AttributeValueType::Boolean => 1int,
                AttributeValueType::Integer => 4int,
                AttributeValueType::UnsignedInteger => 4int,
                AttributeValueType::Float => 4int,
                AttributeValueType::Double => 8int,
            },
    {
        match self {
            AttributeValueType::Boolean => 1,
            AttributeValueType::Integer => 4,
            AttributeValueType::UnsignedInteger => 4,
            AttributeValueType::Float => 4,
            AttributeValueType::Double => 8,
        }
    }

    /// Whether the component is fed through the integer attribute path.
    pub fn is_int(&self) -> (r: bool)
        ensures
            r == match self {
                AttributeValueType::Boolean => true,
                AttributeValueType::Integer => true,
                AttributeValueType::UnsignedInteger => true,
                AttributeValueType::Float => false,
                AttributeValueType::Double => false,
            },
    {
        match self {
            AttributeValueType::Boolean => true,
            AttributeValueType::Integer => true,
            AttributeValueType::UnsignedInteger => true,
            AttributeValueType::Float => false,
            AttributeValueType::Double => false,
        }
    }
}

/// One vertex attribute: its shader location, component count, and
/// component type.
pub struct VertexAttribute {
    pub location: u32,
    pub size: i32,
    pub value_type: AttributeValueType,
}

/// A vertex layout: the ordered attributes a vertex type consists of.
pub trait Vertex {
    /// The vertex type's attributes, in buffer order.
    fn attributes() -> Vec<VertexAttribute>;
}

} // verus!
