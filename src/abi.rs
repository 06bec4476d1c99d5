use vstd::prelude::*;

verus! {

/// A function parameter: its name and the type-reference string it is declared with.
pub struct AbiInput {
    pub name: String,
    pub ty: String,
}

/// A function declaration.
pub struct AbiFunction {
    pub name: String,
    pub inputs: Vec<AbiInput>,
}

/// A struct member: its name and the type-reference string it is declared with.
pub struct AbiMember {
    pub name: String,
    pub ty: String,
}

/// A struct declaration.
pub struct AbiStruct {
    pub name: String,
    pub members: Vec<AbiMember>,
}

/// An enum variant, kept as declared: its payload type is never resolved.
pub struct EnumVariant {
    pub name: String,
    pub ty: String,
}

/// An enum declaration.
pub struct AbiEnum {
    pub name: String,
    pub variants: Vec<EnumVariant>,
}

/// An interface declaration and the items nested in it.
pub struct AbiInterface {
    pub name: String,
    pub items: Vec<AbiItem>,
}

/// One item of an interface description.
pub enum AbiItem {
    Function(AbiFunction),
    Interface(AbiInterface),
    Struct(AbiStruct),
    Enum(AbiEnum),
    /// Constructors, events, impls and other items that resolution ignores.
    Other,
}

impl EnumVariant {
    pub open spec fn view(&self) -> (Seq<char>, Seq<char>) {
        (self.name@, self.ty@)
    }

    /// A copy of the variant with the same name and payload type.
    pub fn duplicate(&self) -> (r: EnumVariant)
        ensures
            r.view() == self.view(),
    {
        EnumVariant { name: self.name.clone(), ty: self.ty.clone() }
    }
}

/// The (name, type-reference) pairs of a list of struct members, in order.
pub open spec fn member_decls(ms: Seq<AbiMember>) -> Seq<(Seq<char>, Seq<char>)> {
    Seq::new(ms.len(), |i: int| (ms[i].name@, ms[i].ty@))
}

/// The (name, type-reference) pairs of a list of function parameters, in order.
pub open spec fn input_decls(ps: Seq<AbiInput>) -> Seq<(Seq<char>, Seq<char>)> {
    Seq::new(ps.len(), |i: int| (ps[i].name@, ps[i].ty@))
}

/// The variants of an enum as (name, payload type) pairs, in order.
pub open spec fn variant_views(vs: Seq<EnumVariant>) -> Seq<(Seq<char>, Seq<char>)> {
    Seq::new(vs.len(), |i: int| vs[i].view())
}

/// The struct registered under `name` among top-level `items`: the last
/// struct declaration of that name.
pub open spec fn find_struct(items: Seq<AbiItem>, name: Seq<char>) -> Option<AbiStruct>
    decreases items.len(),
{
    if items.len() == 0 {
        None
    } else {
        match items.last() {
            AbiItem::Struct(s) if s.name@ == name => Some(s),
            _ => find_struct(items.drop_last(), name),
        }
    }
}

/// The enum registered under `name` among top-level `items`: the last
/// enum declaration of that name.
pub open spec fn find_enum(items: Seq<AbiItem>, name: Seq<char>) -> Option<AbiEnum>
    decreases items.len(),
{
    if items.len() == 0 {
        None
    } else {
        match items.last() {
            AbiItem::Enum(e) if e.name@ == name => Some(e),
            _ => find_enum(items.drop_last(), name),
        }
    }
}

/// The first function named `name` directly among `items`.
pub open spec fn find_direct_function(items: Seq<AbiItem>, name: Seq<char>) -> Option<AbiFunction>
    decreases items.len(),
{
    if items.len() == 0 {
        None
    } else {
        match items[0] {
            AbiItem::Function(f) if f.name@ == name => Some(f),
            _ => find_direct_function(items.drop_first(), name),
        }
    }
}

/// The function that a search for `name` finds: walking the top-level items in
/// order, the first one that is a function of that name, or an interface that
/// holds one directly (then its first such function).
pub open spec fn find_function(items: Seq<AbiItem>, name: Seq<char>) -> Option<AbiFunction>
    decreases items.len(),
{
    if items.len() == 0 {
        None
    } else {
        match items[0] {
            AbiItem::Function(f) if f.name@ == name => Some(f),
            AbiItem::Interface(it) if find_direct_function(it.items@, name) is Some =>
                find_direct_function(it.items@, name),
            _ => find_function(items.drop_first(), name),
        }
    }
}

/// Whether some item directly among `items` is a function named `name`.
pub open spec fn declares_function(items: Seq<AbiItem>, name: Seq<char>) -> bool {
    exists|i: int| 0 <= i < items.len() && (items[i] is Function && items[i]->Function_0.name@ == name)
}

} // verus!
