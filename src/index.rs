//! An in-memory index of a compiled program: its compilation units, the
//! module tree, and per module its submodules, attributes, named items and
//! free functions. A query on a module whose analysis failed yields `None`.

use vstd::prelude::*;

verus! {

/// A compilation unit: the position of its entry in `ProgramIndex::crates`.
#[derive(Clone, Copy, PartialEq, Eq, Debug, Hash, Structural)]
pub struct CrateId(pub usize);

/// An inline module: the position of its entry in `ProgramIndex::submodules`.
#[derive(Clone, Copy, PartialEq, Eq, Debug, Hash, Structural)]
pub struct SubmoduleId(pub usize);

#[derive(Clone, Copy, PartialEq, Eq, Debug, Hash, Structural)]
pub struct TraitId(pub usize);

#[derive(Clone, Copy, PartialEq, Eq, Debug, Hash, Structural)]
pub struct FreeFunctionId(pub usize);

#[derive(Clone, Copy, PartialEq, Eq, Debug, Hash, Structural)]
pub struct StructId(pub usize);

#[derive(Clone, Copy, PartialEq, Eq, Debug, Hash, Structural)]
pub struct ImplId(pub usize);

/// A node of the module tree.
#[derive(Clone, Copy, PartialEq, Eq, Debug, Hash, Structural)]
pub enum ModuleId {
    CrateRoot(CrateId),
    Submodule(SubmoduleId),
}

/// An item declared in a module.
#[derive(Clone, Copy, PartialEq, Eq, Debug, Hash, Structural)]
pub enum ModuleItemId {
    Submodule(SubmoduleId),
    FreeFunction(FreeFunctionId),
    Trait(TraitId),
    Struct(StructId),
    Impl(ImplId),
}

/// One entry of a module's item map.
#[derive(Debug)]
pub struct ModuleItem {
    pub name: String,
    pub item: ModuleItemId,
}

/// What the index knows of one module; `None` marks a query that fails.
#[derive(Debug)]
pub struct ModuleData {
    pub submodules: Option<Vec<ModuleId>>,
    pub attributes: Option<Vec<String>>,
    pub items: Option<Vec<ModuleItem>>,
    pub free_functions: Option<Vec<FreeFunctionId>>,
}

/// A compilation unit: all of its modules, in enumeration order, and the
/// data of its root module.
#[derive(Debug)]
pub struct CrateData {
    pub modules: Vec<ModuleId>,
    pub root: ModuleData,
}

/// An inline module: its simple name, its parent, and its data.
#[derive(Debug)]
pub struct SubmoduleData {
    pub name: String,
    pub parent: ModuleId,
    pub data: ModuleData,
}

#[derive(Debug)]
pub struct ProgramIndex {
    pub crates: Vec<CrateData>,
    pub submodules: Vec<SubmoduleData>,
}

/// The views of a sequence of strings.
pub open spec fn string_views(v: Seq<String>) -> Seq<Seq<char>> {
    v.map_values(|a: String| a@)
}

/// The item filed under `name`: the first entry with that name.
pub open spec fn lookup_item(items: Seq<ModuleItem>, name: Seq<char>) -> Option<ModuleItemId>
    decreases items.len(),
{
    if items.len() == 0 {
        None
    } else if items[0].name@ == name {
        Some(items[0].item)
    } else {
        lookup_item(items.subrange(1, items.len() as int), name)
    }
}

impl ProgramIndex {
    pub open spec fn has_submodule(&self, s: SubmoduleId) -> bool {
        s.0 < self.submodules.len()
    }

    pub open spec fn module_data_of(&self, m: ModuleId) -> Option<ModuleData> {
        match m {
            ModuleId::CrateRoot(c) => if c.0 < self.crates.len() {
                Some(self.crates@[c.0 as int].root)
            } else {
                None
            },
            ModuleId::Submodule(s) => if s.0 < self.submodules.len() {
                Some(self.submodules@[s.0 as int].data)
            } else {
                None
            },
        }
    }

    /// The modules of a compilation unit; none for an unknown one.
    pub open spec fn crate_modules_of(&self, c: CrateId) -> Seq<ModuleId> {
        if c.0 < self.crates.len() {
            self.crates@[c.0 as int].modules@
        } else {
            Seq::empty()
        }
    }

    pub open spec fn submodules_of(&self, m: ModuleId) -> Option<Seq<ModuleId>> {
        match self.module_data_of(m) {
            Some(d) => match d.submodules {
                Some(v) => Some(v@),
                None => None,
            },
            None => None,
        }
    }

    pub open spec fn attributes_of(&self, m: ModuleId) -> Option<Seq<Seq<char>>> {
        match self.module_data_of(m) {
            Some(d) => match d.attributes {
                Some(v) => Some(string_views(v@)),
                None => None,
            },
            None => None,
        }
    }

    pub open spec fn items_of(&self, m: ModuleId) -> Option<Seq<ModuleItem>> {
        match self.module_data_of(m) {
            Some(d) => match d.items {
                Some(v) => Some(v@),
                None => None,
            },
            None => None,
        }
    }

    pub open spec fn free_functions_of(&self, m: ModuleId) -> Option<Seq<FreeFunctionId>> {
        match self.module_data_of(m) {
            Some(d) => match d.free_functions {
                Some(v) => Some(v@),
                None => None,
            },
            None => None,
        }
    }

    /// The data of module `m`, or `None` where the index has no such module.
    pub fn module_data(&self, m: ModuleId) -> (r: Option<&ModuleData>)
        ensures
            match r {
                Some(d) => self.module_data_of(m) == Some(*d),
                None => self.module_data_of(m) is None,
            },
    {
        match m {
            ModuleId::CrateRoot(c) => if c.0 < self.crates.len() {
                Some(&self.crates[c.0].root)
            } else {
                None
            },
            ModuleId::Submodule(s) => if s.0 < self.submodules.len() {
                Some(&self.submodules[s.0].data)
            } else {
                None
            },
        }
    }
}

/// Looks `name` up in a module's items: the first entry filed under it.
pub fn find_item(items: &Vec<ModuleItem>, name: &String) -> (r: Option<ModuleItemId>)
    ensures
        r == lookup_item(items@, name@),
{
    let mut i: usize = 0;
    assert(items@.subrange(0, items@.len() as int) =~= items@);
    while i < items.len()
        invariant
            i <= items@.len(),
            lookup_item(items@, name@) == lookup_item(items@.subrange(i as int, items@.len() as int), name@),
        decreases items@.len() - i,
    {
        let ghost rest = items@.subrange(i as int, items@.len() as int);
        assert(rest.subrange(1, rest.len() as int) =~= items@.subrange(i + 1, items@.len() as int));
        if items[i].name == *name {
            return Some(items[i].item);
        }
        i = i + 1;
    }
    None
}

/// Whether `name` is among `attrs`.
pub fn has_attribute(attrs: &Vec<String>, name: &String) -> (r: bool)
    ensures
        r == string_views(attrs@).contains(name@),
{
    let ghost views = string_views(attrs@);
    let mut i: usize = 0;
    while i < attrs.len()
        invariant
            i <= attrs@.len(),
            views == string_views(attrs@),
            forall|k: int| 0 <= k < i ==> views[k] != name@,
        decreases attrs@.len() - i,
    {
        if attrs[i] == *name {
            assert(views[i as int] == name@);
            return true;
        }
        i = i + 1;
    }
    false
}

} // verus!
