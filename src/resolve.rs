use vstd::prelude::*;
use crate::abi::{find_enum, find_struct, member_decls, variant_views, AbiItem, AbiStruct, EnumVariant};
use crate::ast::{members_model, ArrayType, EnumType, PrimitiveType, StructType, TypeModel, TypeNode};
use crate::registry::TypeRegistry;
use crate::text::{
    contains_char, contains_seq, contains_text, find_char, first_index, lemma_first_index_in,
    same_text,
};

verus! {

/// The text that marks a type reference as an array.
pub const ARRAY_MARKER: &'static str = "core::array::Array";

/// Resolution stopped because a struct contains itself, directly or through
/// other structs: `name` is the struct met a second time on one path.
pub struct CyclicType {
    pub name: String,
}

/// The marker, as characters.
pub open spec fn array_marker() -> Seq<char> {
    ARRAY_MARKER@
}

/// Whether `s` reads as an array reference: it holds the marker and a `<`,
/// and ends with `>`.
pub open spec fn is_array_ref(s: Seq<char>) -> bool {
    &&& contains_seq(s, array_marker())
    &&& contains_char(s, '<')
    &&& s.len() > 0
    &&& s.last() == '>'
}

/// The element type of an array reference: what stands between its first `<`
/// and its last `>`, which is its last character.
pub open spec fn array_element(s: Seq<char>) -> Seq<char> {
    s.subrange(first_index(s, '<') + 1, s.len() - 1)
}

/// How many struct declarations among `items` are named outside `path`.
pub open spec fn unexpanded(items: Seq<AbiItem>, path: Set<Seq<char>>) -> nat
    decreases items.len(),
{
    if items.len() == 0 {
        0
    } else {
        unexpanded(items.drop_last(), path) + match items.last() {
            AbiItem::Struct(s) if !path.contains(s.name@) => 1nat,
            _ => 0nat,
        }
    }
}

/// Putting a name on the path never adds to `unexpanded`, and putting a
/// registered struct's name there takes one away at least.
pub proof fn lemma_unexpanded_shrinks(items: Seq<AbiItem>, path: Set<Seq<char>>, n: Seq<char>)
    ensures
        unexpanded(items, path.insert(n)) <= unexpanded(items, path),
        find_struct(items, n) is Some && !path.contains(n) ==> unexpanded(items, path.insert(n))
            < unexpanded(items, path),
    decreases items.len(),
{
    if items.len() > 0 {
        lemma_unexpanded_shrinks(items.drop_last(), path, n);
    }
}

/// The element of an array reference is shorter than the reference.
pub proof fn lemma_array_element_shorter(s: Seq<char>)
    requires
        is_array_ref(s),
    ensures
        first_index(s, '<') + 1 <= s.len() - 1,
        array_element(s).len() < s.len(),
{
    lemma_first_index_in(s, '<');
}

/// What resolving `s` gives while the structs named in `path` are being
/// expanded: a tree, or the name of a struct met again on its own path.
pub open spec fn resolve(items: Seq<AbiItem>, path: Set<Seq<char>>, s: Seq<char>) -> Result<TypeModel, Seq<char>>
    decreases unexpanded(items, path), 0nat, s.len(),
{
    match find_struct(items, s) {
        Some(d) => if path.contains(s) {
            Err(s)
        } else {
            proof {
                lemma_unexpanded_shrinks(items, path, s);
            }
            match resolve_members(items, path.insert(s), member_decls(d.members@), d.members@.len()) {
                Ok(ms) => Ok(TypeModel::Struct(s, ms)),
                Err(n) => Err(n),
            }
        },
        None => match find_enum(items, s) {
            Some(e) => Ok(TypeModel::Enum(s, variant_views(e.variants@))),
            None => if is_array_ref(s) {
                proof {
                    lemma_array_element_shorter(s);
                }
                match resolve(items, path, array_element(s)) {
                    Ok(t) => Ok(TypeModel::Array(Box::new(t))),
                    Err(n) => Err(n),
                }
            } else {
                Ok(TypeModel::Primitive(s))
            },
        },
    }
}

/// Resolving the first `k` of the (name, type-reference) pairs `decls` in
/// order: the named trees, or the first failure.
pub open spec fn resolve_members(
    items: Seq<AbiItem>,
    path: Set<Seq<char>>,
    decls: Seq<(Seq<char>, Seq<char>)>,
    k: nat,
) -> Result<Seq<(Seq<char>, TypeModel)>, Seq<char>>
    decreases unexpanded(items, path), 1nat, k,
{
    if k == 0 {
        Ok(Seq::empty())
    } else {
        match resolve_members(items, path, decls, (k - 1) as nat) {
            Err(n) => Err(n),
            Ok(prev) => match resolve(items, path, decls[k - 1].1) {
                Err(n) => Err(n),
                Ok(t) => Ok(prev.push((decls[k - 1].0, t))),
            },
        }
    }
}

/// Once resolving the first `k` pairs fails, resolving more of them fails
/// with the same name.
pub proof fn lemma_members_failure_stays(
    items: Seq<AbiItem>,
    path: Set<Seq<char>>,
    decls: Seq<(Seq<char>, Seq<char>)>,
    k: nat,
    m: nat,
)
    requires
        k <= m,
        resolve_members(items, path, decls, k) is Err,
    ensures
        resolve_members(items, path, decls, m) == resolve_members(items, path, decls, k),
    decreases m,
{
    if k < m {
        lemma_members_failure_stays(items, path, decls, k, (m - 1) as nat);
    }
}

/// When resolving the first `k` pairs succeeds, it gives one tree for each
/// pair, under the pair's name and in the pair's order, each the resolution of
/// the pair's type reference.
pub proof fn lemma_members_resolved(
    items: Seq<AbiItem>,
    path: Set<Seq<char>>,
    decls: Seq<(Seq<char>, Seq<char>)>,
    k: nat,
)
    requires
        resolve_members(items, path, decls, k) is Ok,
    ensures
        ({
            let ms = resolve_members(items, path, decls, k)->Ok_0;
            &&& ms.len() == k
            &&& forall|i: int| 0 <= i < k ==> ms[i].0 == decls[i].0 && #[trigger] resolve(items, path, decls[i].1)
                == Ok::<TypeModel, Seq<char>>(ms[i].1)
        }),
    decreases k,
{
    if k > 0 {
        lemma_members_resolved(items, path, decls, (k - 1) as nat);
    }
}

/// A type reference that names no registered struct or enum and does not read
/// as an array resolves to a primitive of exactly that name.
pub proof fn lemma_unregistered_is_primitive(items: Seq<AbiItem>, path: Set<Seq<char>>, s: Seq<char>)
    requires
        find_struct(items, s) is None,
        find_enum(items, s) is None,
        !is_array_ref(s),
    ensures
        resolve(items, path, s) == Ok::<TypeModel, Seq<char>>(TypeModel::Primitive(s)),
{
}

/// A registered struct resolves, where it resolves at all, to a struct tree
/// of its name whose members are its declared members in declared order, each
/// with its declared type resolved in turn.
pub proof fn lemma_struct_expanded(items: Seq<AbiItem>, path: Set<Seq<char>>, s: Seq<char>)
    requires
        find_struct(items, s) is Some,
        resolve(items, path, s) is Ok,
    ensures
        ({
            let d = find_struct(items, s)->Some_0;
            &&& resolve(items, path, s)->Ok_0 is Struct
            &&& resolve(items, path, s)->Ok_0->Struct_0 == d.name@
            &&& resolve(items, path, s)->Ok_0->Struct_1.len() == d.members@.len()
            &&& forall|i: int| 0 <= i < d.members@.len() ==> {
                let m = #[trigger] resolve(items, path, s)->Ok_0->Struct_1[i];
                &&& m.0 == d.members@[i].name@
                &&& resolve(items, path.insert(s), d.members@[i].ty@) == Ok::<TypeModel, Seq<char>>(m.1)
            }
        }),
{
    let d = find_struct(items, s)->Some_0;
    lemma_found_struct_named(items, s);
    let decls = member_decls(d.members@);
    assert(!path.contains(s));
    lemma_members_resolved(items, path.insert(s), decls, d.members@.len());
    let ms = resolve_members(items, path.insert(s), decls, d.members@.len())->Ok_0;
    assert(resolve(items, path, s) == Ok::<TypeModel, Seq<char>>(TypeModel::Struct(s, ms)));
    assert forall|i: int| 0 <= i < d.members@.len() implies ms[i].0 == d.members@[i].name@
        && resolve(items, path.insert(s), d.members@[i].ty@) == Ok::<TypeModel, Seq<char>>(ms[i].1) by {
        assert(decls[i] == (d.members@[i].name@, d.members@[i].ty@));
        assert(resolve(items, path.insert(s), decls[i].1) == Ok::<TypeModel, Seq<char>>(ms[i].1));
    }
}

/// A struct found under a name carries that name.
pub proof fn lemma_found_struct_named(items: Seq<AbiItem>, s: Seq<char>)
    requires
        find_struct(items, s) is Some,
    ensures
        find_struct(items, s)->Some_0.name@ == s,
    decreases items.len(),
{
    if !(items.last() is Struct && items.last()->Struct_0.name@ == s) {
        lemma_found_struct_named(items.drop_last(), s);
    }
}

/// A registered enum (under a name that no struct has) resolves to an enum
/// tree whose variants are exactly the declared ones, untouched.
pub proof fn lemma_enum_verbatim(items: Seq<AbiItem>, path: Set<Seq<char>>, s: Seq<char>)
    requires
        find_struct(items, s) is None,
        find_enum(items, s) is Some,
    ensures
        resolve(items, path, s) == Ok::<TypeModel, Seq<char>>(
            TypeModel::Enum(s, variant_views(find_enum(items, s)->Some_0.variants@)),
        ),
{
}

/// A struct with a member of its own type is rejected as cyclic instead of
/// being expanded without end.
pub proof fn lemma_self_member_rejected(items: Seq<AbiItem>, path: Set<Seq<char>>, s: Seq<char>, i: int)
    requires
        find_struct(items, s) is Some,
        0 <= i < find_struct(items, s)->Some_0.members@.len(),
        find_struct(items, s)->Some_0.members@[i].ty@ == s,
    ensures
        resolve(items, path, s) is Err,
{
    if !path.contains(s) {
        let d = find_struct(items, s)->Some_0;
        let decls = member_decls(d.members@);
        let inner = path.insert(s);
        assert(decls[i].1 == s);
        assert(resolve(items, inner, s) is Err);
        assert(resolve_members(items, inner, decls, (i + 1) as nat) is Err);
        lemma_members_failure_stays(items, inner, decls, (i + 1) as nat, d.members@.len());
    }
}

/// The names on an expansion path.
pub open spec fn path_names(p: Seq<String>) -> Set<Seq<char>> {
    Set::new(|n: Seq<char>| exists|i: int| 0 <= i < p.len() && p[i]@ == n)
}

/// The outcome of a resolution as a model: the tree, or the repeated name.
pub open spec fn node_outcome(r: Result<TypeNode, CyclicType>) -> Result<TypeModel, Seq<char>> {
    match r {
        Ok(n) => Ok(n.model()),
        Err(e) => Err(e.name@),
    }
}

/// Whether `name` is on the path.
fn on_path(path: &Vec<String>, name: &str) -> (r: bool)
    ensures
        r == path_names(path@).contains(name@),
{
    let mut j: usize = 0;
    while j < path.len()
        invariant
            j <= path@.len(),
            forall|k: int| 0 <= k < j ==> path@[k]@ != name@,
        decreases path@.len() - j,
    {
        if same_text(path[j].as_str(), name) {
            return true;
        }
        j = j + 1;
    }
    false
}

/// A copy of the variants of an enum, in order.
fn copy_variants(vs: &Vec<EnumVariant>) -> (r: Vec<EnumVariant>)
    ensures
        variant_views(r@) == variant_views(vs@),
{
    let mut out: Vec<EnumVariant> = Vec::new();
    let mut j: usize = 0;
    while j < vs.len()
        invariant
            j <= vs@.len(),
            out@.len() == j,
            forall|k: int| 0 <= k < j ==> out@[k].view() == vs@[k].view(),
        decreases vs@.len() - j,
    {
        out.push(vs[j].duplicate());
        j = j + 1;
    }
    assert(variant_views(out@) =~= variant_views(vs@));
    out
}

/// Resolves `type_str` while the structs named on `path` are being expanded;
/// `path` is as it was on return.
fn resolve_on_path(type_str: &str, reg: &TypeRegistry, path: &mut Vec<String>) -> (r: Result<TypeNode, CyclicType>)
    requires
        reg.wf(),
    ensures
        final(path)@ == old(path)@,
        node_outcome(r) == resolve(reg.items(), path_names(old(path)@), type_str@),
    decreases unexpanded(reg.items(), path_names(old(path)@)), 0nat, type_str@.len(),
{
    let ghost items = reg.items();
    let ghost names = path_names(path@);
    if let Some(d) = reg.struct_named(type_str) {
        if on_path(path, type_str) {
            return Err(CyclicType { name: type_str.to_owned() });
        }
        let ghost start = path@;
        let ghost decls = member_decls(d.members@);
        path.push(type_str.to_owned());
        let ghost full = path@;
        assert(full.drop_last() == start);
        assert(full[start.len() as int]@ == type_str@);
        assert forall|x: Seq<char>| names.insert(type_str@).contains(x) implies #[trigger] path_names(full).contains(x) by {
            if x != type_str@ {
                let i = choose|i: int| 0 <= i < start.len() && start[i]@ == x;
                assert(full[i] == start[i]);
            }
        }
        assert forall|x: Seq<char>| #[trigger] path_names(full).contains(x) implies names.insert(type_str@).contains(x) by {
            let i = choose|i: int| 0 <= i < full.len() && full[i]@ == x;
            if i < start.len() {
                assert(full[i] == start[i]);
            }
        }
        assert(path_names(full) =~= names.insert(type_str@));
        proof {
            lemma_unexpanded_shrinks(items, names, type_str@);
        }
        let mut members: Vec<(String, TypeNode)> = Vec::new();
        let mut k: usize = 0;
        while k < d.members.len()
            invariant
                reg.wf(),
                items == reg.items(),
                find_struct(items, type_str@) == Some(*d),
                path@ == full,
                full.len() > 0,
                full.drop_last() == start,
                start == old(path)@,
                names == path_names(start),
                !names.contains(type_str@),
                unexpanded(items, names.insert(type_str@)) < unexpanded(items, names),
                path_names(full) == names.insert(type_str@),
                decls == member_decls(d.members@),
                k <= d.members@.len(),
                resolve_members(items, names.insert(type_str@), decls, k as nat) == Ok::<Seq<(Seq<char>, TypeModel)>, Seq<char>>(members_model(members@)),
            decreases d.members@.len() - k,
        {
            let member = &d.members[k];
            match resolve_on_path(member.ty.as_str(), reg, path) {
                Ok(t) => {
                    assert(decls[k as int].1 == member.ty@);
                    assert(decls[k as int].0 == member.name@);
                    let ghost before = members@;
                    members.push((member.name.clone(), t));
                    assert(members@.drop_last() == before);
                },
                Err(e) => {
                    assert(decls[k as int].1 == member.ty@);
                    assert(resolve_members(items, names.insert(type_str@), decls, (k + 1) as nat) == Err::<Seq<(Seq<char>, TypeModel)>, Seq<char>>(e.name@));
                    proof {
                        lemma_members_failure_stays(items, names.insert(type_str@), decls, (k + 1) as nat, d.members@.len());
                    }
                    path.pop();
                    return Err(e);
                },
            }
            k = k + 1;
        }
        path.pop();
        return Ok(TypeNode::Struct(StructType { name: type_str.to_owned(), members }));
    }
    if let Some(e) = reg.enum_named(type_str) {
        let variants = copy_variants(&e.variants);
        return Ok(TypeNode::Enum(EnumType { name: type_str.to_owned(), variants }));
    }
    let n = type_str.unicode_len();
    if contains_text(type_str, ARRAY_MARKER) && n > 0 && type_str.get_char(n - 1) == '>' {
        if let Some(open) = find_char(type_str, '<') {
            proof {
                lemma_array_element_shorter(type_str@);
            }
            let inner = type_str.substring_char(open + 1, n - 1);
            return match resolve_on_path(inner, reg, path) {
                Ok(t) => Ok(TypeNode::Array(ArrayType { element_type: Box::new(t) })),
                Err(e) => Err(e),
            };
        }
    }
    Ok(TypeNode::Primitive(PrimitiveType { name: type_str.to_owned() }))
}

/// Resolves a type-reference string against the registry: a registered
/// struct is expanded member by member, a registered enum keeps its variants
/// as declared, an array reference has its element resolved, and anything
/// else is a primitive of that name. A struct that contains itself is
/// reported rather than expanded without end.
pub fn resolve_type(type_str: &str, reg: &TypeRegistry) -> (r: Result<TypeNode, CyclicType>)
    requires
        reg.wf(),
    ensures
        node_outcome(r) == resolve(reg.items(), Set::empty(), type_str@),
{
    let mut path: Vec<String> = Vec::new();
    assert(path_names(path@) =~= Set::<Seq<char>>::empty());
    resolve_on_path(type_str, reg, &mut path)
}

} // verus!
