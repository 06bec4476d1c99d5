//! Resolution of a contract interface description (its functions, interfaces,
//! structs and enums) into a tree of fully expanded parameter types.

pub mod abi;
pub mod ast;
pub mod function;
pub mod registry;
pub mod resolve;
pub mod text;

pub use abi::{AbiEnum, AbiFunction, AbiInput, AbiInterface, AbiItem, AbiMember, AbiStruct, EnumVariant};
pub use ast::{
    ArrayType, EnumType, FunctionAst, GenericType, InputNode, PrimitiveType, StructType, TypeNode,
    UnknownType,
};
pub use registry::{build_type_registries, TypeRegistry};
pub use resolve::{resolve_type, CyclicType, ARRAY_MARKER};
pub use function::getFunctionAst;
