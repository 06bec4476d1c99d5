use vstd::prelude::*;
use crate::abi::EnumVariant;

verus! {

/// A primitive type such as `core::felt252` or `u32`, or any name that
/// resolution does not recognise.
pub struct PrimitiveType {
    pub name: String,
}

/// A struct type with its members, each resolved in turn.
pub struct StructType {
    pub name: String,
    pub members: Vec<(String, TypeNode)>,
}

/// An enum type with its variants as declared.
pub struct EnumType {
    pub name: String,
    pub variants: Vec<EnumVariant>,
}

/// An array type with its element type.
pub struct ArrayType {
    pub element_type: Box<TypeNode>,
}

/// A generic type such as `Option<T>`; never produced by resolution.
pub struct GenericType {
    pub name: String,
    pub type_arguments: Vec<Box<TypeNode>>,
}

/// A type that could not be resolved; never produced by resolution.
pub struct UnknownType {
    pub name: String,
}

/// A resolved type.
pub enum TypeNode {
    Primitive(PrimitiveType),
    Struct(StructType),
    Enum(EnumType),
    Array(ArrayType),
    Generic(GenericType),
    Unknown(UnknownType),
}

/// A function parameter with its resolved type.
pub struct InputNode {
    pub name: String,
    pub ty: TypeNode,
}

/// A function with its parameters' resolved types, in declaration order.
pub struct FunctionAst {
    pub name: String,
    pub inputs: Vec<InputNode>,
}

/// The mathematical value of a resolved type: names are character sequences.
pub enum TypeModel {
    Primitive(Seq<char>),
    Struct(Seq<char>, Seq<(Seq<char>, TypeModel)>),
    Enum(Seq<char>, Seq<(Seq<char>, Seq<char>)>),
    Array(Box<TypeModel>),
    Generic(Seq<char>, Seq<TypeModel>),
    Unknown(Seq<char>),
}

/// The mathematical value of a function's tree: its name and its parameters.
pub struct AstModel {
    pub name: Seq<char>,
    pub inputs: Seq<(Seq<char>, TypeModel)>,
}

/// The model of each (name, node) pair in `ms`, in order.
pub open spec fn members_model(ms: Seq<(String, TypeNode)>) -> Seq<(Seq<char>, TypeModel)>
    decreases ms, 0nat,
{
    if ms.len() == 0 {
        Seq::empty()
    } else {
        members_model(ms.drop_last()).push((ms.last().0@, ms.last().1.model()))
    }
}

/// The model of each boxed node in `ns`, in order.
pub open spec fn boxes_model(ns: Seq<Box<TypeNode>>) -> Seq<TypeModel>
    decreases ns, 0nat,
{
    if ns.len() == 0 {
        Seq::empty()
    } else {
        boxes_model(ns.drop_last()).push((*ns.last()).model())
    }
}

impl TypeNode {
    /// The mathematical value of this tree.
    pub open spec fn model(&self) -> TypeModel
        decreases self, 1nat,
    {
        match self {
            TypeNode::Primitive(p) => TypeModel::Primitive(p.name@),
            TypeNode::Struct(s) => TypeModel::Struct(s.name@, members_model(s.members@)),
            TypeNode::Enum(e) => TypeModel::Enum(
                e.name@,
                Seq::new(e.variants@.len(), |i: int| e.variants@[i].view()),
            ),
            TypeNode::Array(a) => TypeModel::Array(Box::new((*a.element_type).model())),
            TypeNode::Generic(g) => TypeModel::Generic(g.name@, boxes_model(g.type_arguments@)),
            TypeNode::Unknown(u) => TypeModel::Unknown(u.name@),
        }
    }
}

/// The model of each parameter in `ps`, in order.
pub open spec fn inputs_model(ps: Seq<InputNode>) -> Seq<(Seq<char>, TypeModel)> {
    Seq::new(ps.len(), |i: int| (ps[i].name@, ps[i].ty.model()))
}

impl FunctionAst {
    /// The mathematical value of this function's tree.
    pub open spec fn model(&self) -> AstModel {
        AstModel { name: self.name@, inputs: inputs_model(self.inputs@) }
    }
}

} // verus!
