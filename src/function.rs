use vstd::prelude::*;
use crate::abi::{declares_function, find_direct_function, find_function, input_decls, AbiFunction, AbiItem};
use crate::ast::{inputs_model, AstModel, FunctionAst, InputNode, TypeModel};
use crate::registry::build_type_registries;
use crate::resolve::{lemma_members_failure_stays, node_outcome, resolve_members, resolve_type, CyclicType};
use crate::text::same_text;

verus! {

/// What building the tree of function `name` over `items` gives: nothing where
/// no such function is found, its parameters' trees in order, or the name of
/// a struct that contains itself.
pub open spec fn ast_outcome(items: Seq<AbiItem>, name: Seq<char>) -> Result<Option<AstModel>, Seq<char>> {
    match find_function(items, name) {
        None => Ok(None),
        Some(f) => match resolve_members(items, Set::empty(), input_decls(f.inputs@), f.inputs@.len()) {
            Ok(ins) => Ok(Some(AstModel { name: f.name@, inputs: ins })),
            Err(n) => Err(n),
        },
    }
}

/// The outcome of `getFunctionAst` as a model.
pub open spec fn ast_result(r: Result<Option<FunctionAst>, CyclicType>) -> Result<Option<AstModel>, Seq<char>> {
    match r {
        Ok(None) => Ok(None),
        Ok(Some(a)) => Ok(Some(a.model())),
        Err(e) => Err(e.name@),
    }
}

/// The first function named `name` directly among `items`.
fn direct_function<'a>(items: &'a Vec<AbiItem>, name: &str) -> (r: Option<&'a AbiFunction>)
    ensures
        r is None <==> find_direct_function(items@, name@) is None,
        r matches Some(f) ==> find_direct_function(items@, name@) == Some(*f),
{
    let mut i: usize = 0;
    assert(items@.subrange(0, items@.len() as int) == items@);
    while i < items.len()
        invariant
            i <= items@.len(),
            find_direct_function(items@, name@) == find_direct_function(items@.subrange(i as int, items@.len() as int), name@),
        decreases items@.len() - i,
    {
        let ghost rest = items@.subrange(i as int, items@.len() as int);
        assert(rest.drop_first() == items@.subrange(i + 1, items@.len() as int));
        if let AbiItem::Function(f) = &items[i] {
            if same_text(f.name.as_str(), name) {
                return Some(f);
            }
        }
        i = i + 1;
    }
    None
}

/// The function that a search for `name` finds among top-level `items` and
/// the items of the interfaces among them.
fn locate_function<'a>(items: &'a Vec<AbiItem>, name: &str) -> (r: Option<&'a AbiFunction>)
    ensures
        r is None <==> find_function(items@, name@) is None,
        r matches Some(f) ==> find_function(items@, name@) == Some(*f),
{
    let mut i: usize = 0;
    assert(items@.subrange(0, items@.len() as int) == items@);
    while i < items.len()
        invariant
            i <= items@.len(),
            find_function(items@, name@) == find_function(items@.subrange(i as int, items@.len() as int), name@),
        decreases items@.len() - i,
    {
        let ghost rest = items@.subrange(i as int, items@.len() as int);
        assert(rest.drop_first() == items@.subrange(i + 1, items@.len() as int));
        match &items[i] {
            AbiItem::Function(f) => {
                if same_text(f.name.as_str(), name) {
                    return Some(f);
                }
            },
            AbiItem::Interface(it) => {
                if let Some(f) = direct_function(&it.items, name) {
                    return Some(f);
                }
            },
            _ => {},
        }
        i = i + 1;
    }
    None
}

/// Builds the tree of the parameters of the function named `function_name`:
/// the first top-level function of that name, or the first one directly in an
/// interface, whichever comes first. Each parameter's type is resolved in
/// declaration order. Nothing is returned where no such function is found; a
/// struct that contains itself is reported as an error.
#[allow(non_snake_case)]
pub fn getFunctionAst(abi: Vec<AbiItem>, function_name: &str) -> (r: Result<Option<FunctionAst>, CyclicType>)
    ensures
        ast_result(r) == ast_outcome(abi@, function_name@),
{
    let reg = build_type_registries(&abi);
    let function = match locate_function(&abi, function_name) {
        Some(f) => f,
        None => return Ok(None),
    };
    let ghost items = abi@;
    let ghost decls = input_decls(function.inputs@);
    let mut inputs: Vec<InputNode> = Vec::new();
    let mut k: usize = 0;
    assert(inputs_model(inputs@) =~= Seq::empty());
    while k < function.inputs.len()
        invariant
            reg.wf(),
            reg.items() == items,
            items == abi@,
            find_function(items, function_name@) == Some(*function),
            decls == input_decls(function.inputs@),
            k <= function.inputs@.len(),
            resolve_members(items, Set::empty(), decls, k as nat) == Ok::<Seq<(Seq<char>, TypeModel)>, Seq<char>>(inputs_model(inputs@)),
        decreases function.inputs@.len() - k,
    {
        let input = &function.inputs[k];
        assert(decls[k as int].1 == input.ty@);
        match resolve_type(input.ty.as_str(), &reg) {
            Ok(t) => {
                let ghost before = inputs@;
                inputs.push(InputNode { name: input.name.clone(), ty: t });
                assert(inputs_model(inputs@) =~= inputs_model(before).push((input.name@, t.model())));
            },
            Err(e) => {
                assert(resolve_members(items, Set::empty(), decls, (k + 1) as nat) == Err::<Seq<(Seq<char>, TypeModel)>, Seq<char>>(e.name@));
                proof {
                    lemma_members_failure_stays(items, Set::empty(), decls, (k + 1) as nat, function.inputs@.len());
                }
                return Err(e);
            },
        }
        k = k + 1;
    }
    Ok(Some(FunctionAst { name: function.name.clone(), inputs }))
}

/// A search among `items` that hold no function named `name` finds nothing.
pub proof fn lemma_undeclared_not_direct(items: Seq<AbiItem>, name: Seq<char>)
    requires
        !declares_function(items, name),
    ensures
        find_direct_function(items, name) is None,
    decreases items.len(),
{
    if items.len() > 0 {
        assert forall|i: int| 0 <= i < items.len() - 1 implies !(items.drop_first()[i] is Function
            && items.drop_first()[i]->Function_0.name@ == name) by {
            assert(items.drop_first()[i] == items[i + 1]);
        }
        lemma_undeclared_not_direct(items.drop_first(), name);
    }
}

/// Where no top-level item and no item directly inside an interface is a
/// function named `name`, the function is not found.
pub proof fn lemma_absent_function_not_found(items: Seq<AbiItem>, name: Seq<char>)
    requires
        !declares_function(items, name),
        forall|i: int| 0 <= i < items.len() && #[trigger] items[i] is Interface ==>
            !declares_function(items[i]->Interface_0.items@, name),
    ensures
        find_function(items, name) is None,
        ast_outcome(items, name) == Ok::<Option<AstModel>, Seq<char>>(None),
    decreases items.len(),
{
    if items.len() > 0 {
        if items[0] is Interface {
            lemma_undeclared_not_direct(items[0]->Interface_0.items@, name);
        }
        let rest = items.drop_first();
        assert forall|i: int| 0 <= i < rest.len() implies !(rest[i] is Function && rest[i]->Function_0.name@ == name) by {
            assert(rest[i] == items[i + 1]);
        }
        assert forall|i: int| 0 <= i < rest.len() && #[trigger] rest[i] is Interface implies
            !declares_function(rest[i]->Interface_0.items@, name) by {
            assert(rest[i] == items[i + 1]);
        }
        lemma_absent_function_not_found(rest, name);
    }
}

/// Two runs of `getFunctionAst` on the same description and name give the
/// same tree, or the same failure.
pub proof fn lemma_deterministic(
    items: Seq<AbiItem>,
    name: Seq<char>,
    r1: Result<Option<FunctionAst>, CyclicType>,
    r2: Result<Option<FunctionAst>, CyclicType>,
)
    requires
        ast_result(r1) == ast_outcome(items, name),
        ast_result(r2) == ast_outcome(items, name),
    ensures
        ast_result(r1) == ast_result(r2),
{
}

} // verus!
