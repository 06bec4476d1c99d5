use vstd::prelude::*;
use crate::abi::{find_enum, find_struct, AbiEnum, AbiItem, AbiStruct};
use crate::text::same_text;

verus! {

/// Lookup tables from a name to the struct and the enum declared under it,
/// built once over the top-level items of an interface description.
pub struct TypeRegistry<'a> {
    items: &'a Vec<AbiItem>,
    structs: Vec<&'a AbiStruct>,
    enums: Vec<&'a AbiEnum>,
}

/// Each entry of `structs` is the struct that `items` registers under its name,
/// every registered name has an entry, and no name has two.
pub open spec fn structs_index(items: Seq<AbiItem>, structs: Seq<&AbiStruct>) -> bool {
    &&& forall|j: int| 0 <= j < structs.len() ==> find_struct(items, structs[j].name@) == Some(*structs[j])
    &&& forall|n: Seq<char>| #[trigger] find_struct(items, n) is Some ==>
        exists|j: int| 0 <= j < structs.len() && structs[j].name@ == n
    &&& forall|j: int, k: int| 0 <= j < structs.len() && 0 <= k < structs.len() && j != k ==>
        structs[j].name@ != structs[k].name@
}

/// Each entry of `enums` is the enum that `items` registers under its name,
/// every registered name has an entry, and no name has two.
pub open spec fn enums_index(items: Seq<AbiItem>, enums: Seq<&AbiEnum>) -> bool {
    &&& forall|j: int| 0 <= j < enums.len() ==> find_enum(items, enums[j].name@) == Some(*enums[j])
    &&& forall|n: Seq<char>| #[trigger] find_enum(items, n) is Some ==>
        exists|j: int| 0 <= j < enums.len() && enums[j].name@ == n
    &&& forall|j: int, k: int| 0 <= j < enums.len() && 0 <= k < enums.len() && j != k ==>
        enums[j].name@ != enums[k].name@
}

impl<'a> TypeRegistry<'a> {
    /// The top-level items the registry was built over.
    pub closed spec fn items(&self) -> Seq<AbiItem> {
        self.items@
    }

    /// The tables hold exactly the declarations that `items` registers.
    pub closed spec fn wf(&self) -> bool {
        structs_index(self.items@, self.structs@) && enums_index(self.items@, self.enums@)
    }

    /// The struct registered under `name`, if any.
    pub fn struct_named(&self, name: &str) -> (r: Option<&'a AbiStruct>)
        requires
            self.wf(),
        ensures
            r is None <==> find_struct(self.items(), name@) is None,
            r matches Some(s) ==> find_struct(self.items(), name@) == Some(*s),
    {
        let mut j: usize = 0;
        while j < self.structs.len()
            invariant
                self.wf(),
                j <= self.structs@.len(),
                forall|k: int| 0 <= k < j ==> self.structs@[k].name@ != name@,
            decreases self.structs@.len() - j,
        {
            let s: &'a AbiStruct = self.structs[j];
            if same_text(s.name.as_str(), name) {
                return Some(s);
            }
            j = j + 1;
        }
        None
    }

    /// The enum registered under `name`, if any.
    pub fn enum_named(&self, name: &str) -> (r: Option<&'a AbiEnum>)
        requires
            self.wf(),
        ensures
            r is None <==> find_enum(self.items(), name@) is None,
            r matches Some(e) ==> find_enum(self.items(), name@) == Some(*e),
    {
        let mut j: usize = 0;
        while j < self.enums.len()
            invariant
                self.wf(),
                j <= self.enums@.len(),
                forall|k: int| 0 <= k < j ==> self.enums@[k].name@ != name@,
            decreases self.enums@.len() - j,
        {
            let e: &'a AbiEnum = self.enums[j];
            if same_text(e.name.as_str(), name) {
                return Some(e);
            }
            j = j + 1;
        }
        None
    }
}

/// The position in `structs` of the entry named `name`, if any.
fn struct_slot(structs: &Vec<&AbiStruct>, name: &str) -> (r: Option<usize>)
    ensures
        r is None ==> forall|k: int| 0 <= k < structs@.len() ==> structs@[k].name@ != name@,
        r matches Some(j) ==> j < structs@.len() && structs@[j as int].name@ == name@,
{
    let mut j: usize = 0;
    while j < structs.len()
        invariant
            j <= structs@.len(),
            forall|k: int| 0 <= k < j ==> structs@[k].name@ != name@,
        decreases structs@.len() - j,
    {
        if same_text(structs[j].name.as_str(), name) {
            return Some(j);
        }
        j = j + 1;
    }
    None
}

/// The position in `enums` of the entry named `name`, if any.
fn enum_slot(enums: &Vec<&AbiEnum>, name: &str) -> (r: Option<usize>)
    ensures
        r is None ==> forall|k: int| 0 <= k < enums@.len() ==> enums@[k].name@ != name@,
        r matches Some(j) ==> j < enums@.len() && enums@[j as int].name@ == name@,
{
    let mut j: usize = 0;
    while j < enums.len()
        invariant
            j <= enums@.len(),
            forall|k: int| 0 <= k < j ==> enums@[k].name@ != name@,
        decreases enums@.len() - j,
    {
        if same_text(enums[j].name.as_str(), name) {
            return Some(j);
        }
        j = j + 1;
    }
    None
}

/// Builds the struct and enum tables over the top-level items; a later
/// declaration of a name replaces an earlier one, and interfaces are not
/// looked into.
pub fn build_type_registries<'a>(items: &'a Vec<AbiItem>) -> (r: TypeRegistry<'a>)
    ensures
        r.wf(),
        r.items() == items@,
{
    let mut structs: Vec<&'a AbiStruct> = Vec::new();
    let mut enums: Vec<&'a AbiEnum> = Vec::new();
    let mut i: usize = 0;
    while i < items.len()
        invariant
            i <= items@.len(),
            structs_index(items@.subrange(0, i as int), structs@),
            enums_index(items@.subrange(0, i as int), enums@),
        decreases items@.len() - i,
    {
        let ghost before = items@.subrange(0, i as int);
        let ghost after = items@.subrange(0, i + 1);
        assert(after.drop_last() == before);
        assert(after.last() == items@[i as int]);
        match &items[i] {
            AbiItem::Struct(s) => {
                let ghost prev = structs@;
                assert(forall|n: Seq<char>| find_enum(after, n) == find_enum(before, n));
                assert(forall|n: Seq<char>| n != s.name@ ==> find_struct(after, n) == find_struct(before, n));
                assert(find_struct(after, s.name@) == Some(*s));
                match struct_slot(&structs, s.name.as_str()) {
                    Some(j) => {
                        structs.set(j, s);
                        assert forall|k: int| 0 <= k < structs@.len() implies structs@[k].name@ == prev[k].name@ by {}
                        assert forall|n: Seq<char>| #[trigger] find_struct(after, n) is Some implies
                            exists|k: int| 0 <= k < structs@.len() && structs@[k].name@ == n by {
                            if n != s.name@ {
                                let k = choose|k: int| 0 <= k < prev.len() && prev[k].name@ == n;
                                assert(structs@[k].name@ == n);
                            } else {
                                assert(structs@[j as int].name@ == n);
                            }
                        }
                    },
                    None => {
                        structs.push(s);
                        assert forall|n: Seq<char>| #[trigger] find_struct(after, n) is Some implies
                            exists|k: int| 0 <= k < structs@.len() && structs@[k].name@ == n by {
                            if n != s.name@ {
                                let k = choose|k: int| 0 <= k < prev.len() && prev[k].name@ == n;
                                assert(structs@[k].name@ == n);
                            } else {
                                assert(structs@[prev.len() as int].name@ == n);
                            }
                        }
                    },
                }
                assert(structs_index(after, structs@));
            },
            AbiItem::Enum(e) => {
                let ghost prev = enums@;
                assert(forall|n: Seq<char>| find_struct(after, n) == find_struct(before, n));
                assert(forall|n: Seq<char>| n != e.name@ ==> find_enum(after, n) == find_enum(before, n));
                assert(find_enum(after, e.name@) == Some(*e));
                match enum_slot(&enums, e.name.as_str()) {
                    Some(j) => {
                        enums.set(j, e);
                        assert forall|k: int| 0 <= k < enums@.len() implies enums@[k].name@ == prev[k].name@ by {}
                        assert forall|n: Seq<char>| #[trigger] find_enum(after, n) is Some implies
                            exists|k: int| 0 <= k < enums@.len() && enums@[k].name@ == n by {
                            if n != e.name@ {
                                let k = choose|k: int| 0 <= k < prev.len() && prev[k].name@ == n;
                                assert(enums@[k].name@ == n);
                            } else {
                                assert(enums@[j as int].name@ == n);
                            }
                        }
                    },
                    None => {
                        enums.push(e);
                        assert forall|n: Seq<char>| #[trigger] find_enum(after, n) is Some implies
                            exists|k: int| 0 <= k < enums@.len() && enums@[k].name@ == n by {
                            if n != e.name@ {
                                let k = choose|k: int| 0 <= k < prev.len() && prev[k].name@ == n;
                                assert(enums@[k].name@ == n);
                            } else {
                                assert(enums@[prev.len() as int].name@ == n);
                            }
                        }
                    },
                }
                assert(enums_index(after, enums@));
            },
            _ => {
                assert(forall|n: Seq<char>| find_struct(after, n) == find_struct(before, n));
                assert(forall|n: Seq<char>| find_enum(after, n) == find_enum(before, n));
            },
        }
        i = i + 1;
    }
    assert(items@.subrange(0, items@.len() as int) == items@);
    TypeRegistry { items, structs, enums }
}

} // verus!
