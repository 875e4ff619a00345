//! Contract discovery, and the lookup of what the generated module of a
//! contract holds: its external functions and its ABI trait.

use crate::index::{
    find_item, has_attribute, lookup_item, CrateId, FreeFunctionId, ModuleId, ModuleItem, ModuleItemId,
    ProgramIndex, SubmoduleId, TraitId,
};
use vstd::prelude::*;
use vstd::string::StringExecFns;

verus! {

/// The attribute that marks a module as a contract.
pub const CONTRACT_ATTR: &'static str = "contract";

/// The name under which the generated module files the ABI trait.
pub const ABI_TRAIT: &'static str = "__abi";

/// The name under which the generated module files the submodule of
/// external functions.
pub const EXTERNAL_MODULE: &'static str = "__external";

/// The generated module of contract `c` is filed, in the parent of `c`,
/// under this prefix followed by the name of `c`.
pub const GENERATED_MODULE_PREFIX: &'static str = "__generated__";

/// A declaration of a contract: an inline module marked with `CONTRACT_ATTR`.
#[derive(Clone, Copy, PartialEq, Eq, Debug, Hash, Structural)]
pub struct ContractDeclaration {
    /// The module that defines the contract.
    pub submodule_id: SubmoduleId,
}

impl ContractDeclaration {
    pub fn module_id(&self) -> (r: ModuleId)
        ensures
            r == ModuleId::Submodule(self.submodule_id),
    {
        ModuleId::Submodule(self.submodule_id)
    }
}

/// Why the generated items of a contract could not be found.
#[derive(Debug, PartialEq, Eq)]
pub enum ContractError {
    /// The parent of the contract has no submodule under this key, or its
    /// items could not be resolved.
    GeneratedModuleNotFound { key: String },
    /// The generated module has nothing of the expected kind under this name.
    ItemKindMismatch { name: String },
    /// A query on this module failed.
    QueryFailed { module: ModuleId },
}

/// A `ContractError` with its strings as character sequences.
pub enum ContractErrorView {
    GeneratedModuleNotFound(Seq<char>),
    ItemKindMismatch(Seq<char>),
    QueryFailed(ModuleId),
}

impl View for ContractError {
    type V = ContractErrorView;

    open spec fn view(&self) -> ContractErrorView {
        match self {
            ContractError::GeneratedModuleNotFound { key } => ContractErrorView::GeneratedModuleNotFound(
                key@,
            ),
            ContractError::ItemKindMismatch { name } => ContractErrorView::ItemKindMismatch(name@),
            ContractError::QueryFailed { module } => ContractErrorView::QueryFailed(*module),
        }
    }
}

/// The declaration for module `m`, where `m` is an inline module whose
/// attributes resolve and hold `CONTRACT_ATTR`.
pub open spec fn contract_of(index: &ProgramIndex, m: ModuleId) -> Option<ContractDeclaration> {
    match m {
        ModuleId::Submodule(s) => match index.attributes_of(m) {
            Some(attrs) => if attrs.contains(CONTRACT_ATTR@) {
                Some(ContractDeclaration { submodule_id: s })
            } else {
                None
            },
            None => None,
        },
        ModuleId::CrateRoot(_) => None,
    }
}

/// `d` refers to an inline module of the index that is marked as a contract.
pub open spec fn declares_contract(index: &ProgramIndex, d: ContractDeclaration) -> bool {
    index.has_submodule(d.submodule_id) && is_marked(index, ModuleId::Submodule(d.submodule_id))
}

/// The contracts among `subs`, in their order.
pub open spec fn contracts_among(index: &ProgramIndex, subs: Seq<ModuleId>) -> Seq<
    ContractDeclaration,
> {
    subs.filter_map(|m: ModuleId| contract_of(index, m))
}

/// The contracts among the submodules of `m`; none where they do not resolve.
pub open spec fn contracts_in_module(index: &ProgramIndex, m: ModuleId) -> Seq<ContractDeclaration> {
    match index.submodules_of(m) {
        Some(subs) => contracts_among(index, subs),
        None => Seq::empty(),
    }
}

pub open spec fn contracts_in_modules(index: &ProgramIndex, mods: Seq<ModuleId>) -> Seq<
    ContractDeclaration,
>
    decreases mods.len(),
{
    if mods.len() == 0 {
        Seq::empty()
    } else {
        contracts_in_modules(index, mods.drop_last()) + contracts_in_module(index, mods.last())
    }
}

pub open spec fn contracts_in_crates(index: &ProgramIndex, crates: Seq<CrateId>) -> Seq<
    ContractDeclaration,
>
    decreases crates.len(),
{
    if crates.len() == 0 {
        Seq::empty()
    } else {
        contracts_in_crates(index, crates.drop_last()) + contracts_in_modules(
            index,
            index.crate_modules_of(crates.last()),
        )
    }
}

/// Appends the contracts among the submodules of `module_id`.
fn push_module_contracts(
    index: &ProgramIndex,
    module_id: ModuleId,
    contracts: &mut Vec<ContractDeclaration>,
)
    ensures
        final(contracts)@ == old(contracts)@ + contracts_in_module(index, module_id),
        forall|k: int|
            old(contracts)@.len() <= k < final(contracts)@.len() ==> declares_contract(
                index,
                #[trigger] final(contracts)@[k],
            ),
{
    let data = match index.module_data(module_id) {
        Some(data) => data,
        None => return ,
    };
    let subs = match &data.submodules {
        Some(subs) => subs,
        None => return ,
    };
    let marker = CONTRACT_ATTR.to_owned();
    let ghost start = contracts@;
    let mut k: usize = 0;
    while k < subs.len()
        invariant
            k <= subs@.len(),
            index.submodules_of(module_id) == Some(subs@),
            marker@ == CONTRACT_ATTR@,
            contracts@ == start + contracts_among(index, subs@.subrange(0, k as int)),
            forall|q: int|
                start.len() <= q < contracts@.len() ==> declares_contract(index, #[trigger] contracts@[q]),
        decreases subs@.len() - k,
    {
        let sub = subs[k];
        let ghost prefix = subs@.subrange(0, k as int + 1);
        assert(prefix.drop_last() =~= subs@.subrange(0, k as int));
        assert(prefix.last() == sub);
        if let ModuleId::Submodule(submodule_id) = sub {
            if let Some(sub_data) = index.module_data(sub) {
                if let Some(attrs) = &sub_data.attributes {
                    if has_attribute(attrs, &marker) {
                        contracts.push(ContractDeclaration { submodule_id });
                    }
                }
            }
        }
        assert(contracts@ =~= start + contracts_among(index, prefix));
        k = k + 1;
    }
    assert(subs@.subrange(0, subs@.len() as int) =~= subs@);
}

/// Finds the inline modules marked as contracts in the given compilation
/// units: units in the given order, then their modules and the submodules of
/// each in the index's order. A module whose submodules, or a submodule whose
/// attributes, do not resolve is skipped.
pub fn find_contracts(index: &ProgramIndex, crate_ids: &[CrateId]) -> (r: Vec<ContractDeclaration>)
    ensures
        r@ == contracts_in_crates(index, crate_ids@),
        forall|k: int| 0 <= k < r@.len() ==> declares_contract(index, #[trigger] r@[k]),
{
    let mut contracts: Vec<ContractDeclaration> = Vec::new();
    let mut i: usize = 0;
    while i < crate_ids.len()
        invariant
            i <= crate_ids@.len(),
            contracts@ == contracts_in_crates(index, crate_ids@.subrange(0, i as int)),
            forall|q: int| 0 <= q < contracts@.len() ==> declares_contract(index, #[trigger] contracts@[q]),
        decreases crate_ids@.len() - i,
    {
        let crate_id = crate_ids[i];
        let ghost before = contracts@;
        let ghost crates_prefix = crate_ids@.subrange(0, i as int + 1);
        assert(crates_prefix.drop_last() =~= crate_ids@.subrange(0, i as int));
        if crate_id.0 < index.crates.len() {
            let modules = &index.crates[crate_id.0].modules;
            let mut j: usize = 0;
            while j < modules.len()
                invariant
                    j <= modules@.len(),
                    modules@ == index.crate_modules_of(crate_id),
                    contracts@ == before + contracts_in_modules(
                        index,
                        modules@.subrange(0, j as int),
                    ),
                    forall|q: int|
                        0 <= q < contracts@.len() ==> declares_contract(index, #[trigger] contracts@[q]),
                decreases modules@.len() - j,
            {
                let ghost prefix = modules@.subrange(0, j as int + 1);
                assert(prefix.drop_last() =~= modules@.subrange(0, j as int));
                push_module_contracts(index, modules[j], &mut contracts);
                assert(contracts@ =~= before + contracts_in_modules(index, prefix));
                j = j + 1;
            }
            assert(modules@.subrange(0, modules@.len() as int) =~= modules@);
        }
        assert(contracts@ =~= contracts_in_crates(index, crates_prefix));
        i = i + 1;
    }
    assert(crate_ids@.subrange(0, crate_ids@.len() as int) =~= crate_ids@);
    contracts
}

/// The key under which the generated module of a contract named `name` is
/// filed.
pub open spec fn generated_module_key(name: Seq<char>) -> Seq<char> {
    GENERATED_MODULE_PREFIX@ + name
}

/// The key of the generated module of contract `c`.
pub open spec fn contract_generated_key(index: &ProgramIndex, c: ContractDeclaration) -> Seq<char> {
    generated_module_key(index.submodules@[c.submodule_id.0 as int].name@)
}

/// The generated module of contract `c`: the submodule filed under its key
/// in the parent of `c`, where the parent's items resolve.
pub open spec fn generated_module_of(index: &ProgramIndex, c: ContractDeclaration) -> Option<
    ModuleId,
> {
    match index.items_of(index.submodules@[c.submodule_id.0 as int].parent) {
        Some(items) => match lookup_item(items, contract_generated_key(index, c)) {
            Some(ModuleItemId::Submodule(g)) => Some(ModuleId::Submodule(g)),
            _ => None,
        },
        None => None,
    }
}

pub open spec fn generated_module_result(index: &ProgramIndex, c: ContractDeclaration) -> Result<
    ModuleId,
    ContractErrorView,
> {
    match generated_module_of(index, c) {
        Some(m) => Ok(m),
        None => Err(ContractErrorView::GeneratedModuleNotFound(contract_generated_key(index, c))),
    }
}

/// What `get_external_functions` returns for contract `c`.
pub open spec fn external_functions_result(index: &ProgramIndex, c: ContractDeclaration) -> Result<
    Seq<FreeFunctionId>,
    ContractErrorView,
> {
    match generated_module_result(index, c) {
        Err(e) => Err(e),
        Ok(g) => match index.items_of(g) {
            None => Err(ContractErrorView::QueryFailed(g)),
            Some(items) => match lookup_item(items, EXTERNAL_MODULE@) {
                Some(ModuleItemId::Submodule(x)) => match index.free_functions_of(
                    ModuleId::Submodule(x),
                ) {
                    Some(fs) => Ok(fs),
                    None => Err(ContractErrorView::QueryFailed(ModuleId::Submodule(x))),
                },
                _ => Err(ContractErrorView::ItemKindMismatch(EXTERNAL_MODULE@)),
            },
        },
    }
}

/// What `get_abi` returns for contract `c`.
pub open spec fn abi_result(index: &ProgramIndex, c: ContractDeclaration) -> Result<
    TraitId,
    ContractErrorView,
> {
    match generated_module_result(index, c) {
        Err(e) => Err(e),
        Ok(g) => match index.items_of(g) {
            None => Err(ContractErrorView::QueryFailed(g)),
            Some(items) => match lookup_item(items, ABI_TRAIT@) {
                Some(ModuleItemId::Trait(t)) => Ok(t),
                _ => Err(ContractErrorView::ItemKindMismatch(ABI_TRAIT@)),
            },
        },
    }
}

/// Returns the generated module of a contract: the submodule filed in the
/// contract's parent under `GENERATED_MODULE_PREFIX` and the contract's name.
/// Fails, naming that key, where the parent's items do not resolve or hold no
/// submodule under it.
pub fn get_generated_contract_module(index: &ProgramIndex, contract: &ContractDeclaration) -> (r:
    Result<ModuleId, ContractError>)
    requires
        index.has_submodule(contract.submodule_id),
    ensures
        match r {
            Ok(m) => generated_module_result(index, *contract) == Ok::<
                ModuleId,
                ContractErrorView,
            >(m),
            Err(e) => generated_module_result(index, *contract) == Err::<ModuleId, ContractErrorView>(
                e@,
            ),
        },
{
    let contract_module = &index.submodules[contract.submodule_id.0];
    let mut key = GENERATED_MODULE_PREFIX.to_owned();
    key.append(contract_module.name.as_str());
    assert(key@ == contract_generated_key(index, *contract));
    if let Some(parent) = index.module_data(contract_module.parent) {
        if let Some(items) = &parent.items {
            if let Some(ModuleItemId::Submodule(generated)) = find_item(items, &key) {
                return Ok(ModuleId::Submodule(generated));
            }
        }
    }
    Err(ContractError::GeneratedModuleNotFound { key })
}

/// Returns the external functions of a contract: the free functions of the
/// submodule filed under `EXTERNAL_MODULE` in its generated module, in the
/// index's order.
pub fn get_external_functions(index: &ProgramIndex, contract: &ContractDeclaration) -> (r: Result<
    Vec<FreeFunctionId>,
    ContractError,
>)
    requires
        index.has_submodule(contract.submodule_id),
    ensures
        match r {
            Ok(v) => external_functions_result(index, *contract) == Ok::<
                Seq<FreeFunctionId>,
                ContractErrorView,
            >(v@),
            Err(e) => external_functions_result(index, *contract) == Err::<
                Seq<FreeFunctionId>,
                ContractErrorView,
            >(e@),
        },
{
    let generated = get_generated_contract_module(index, contract)?;
    let items = match index.module_data(generated) {
        Some(data) => match &data.items {
            Some(items) => items,
            None => return Err(ContractError::QueryFailed { module: generated }),
        },
        None => return Err(ContractError::QueryFailed { module: generated }),
    };
    let name = EXTERNAL_MODULE.to_owned();
    match find_item(items, &name) {
        Some(ModuleItemId::Submodule(external)) => {
            let external_module = ModuleId::Submodule(external);
            match index.module_data(external_module) {
                Some(data) => match &data.free_functions {
                    Some(functions) => Ok(functions.clone()),
                    None => Err(ContractError::QueryFailed { module: external_module }),
                },
                None => Err(ContractError::QueryFailed { module: external_module }),
            }
        },
        _ => Err(ContractError::ItemKindMismatch { name }),
    }
}

/// Returns the ABI trait of a contract: the trait filed under `ABI_TRAIT` in
/// its generated module.
pub fn get_abi(index: &ProgramIndex, contract: &ContractDeclaration) -> (r: Result<
    TraitId,
    ContractError,
>)
    requires
        index.has_submodule(contract.submodule_id),
    ensures
        match r {
            Ok(t) => abi_result(index, *contract) == Ok::<TraitId, ContractErrorView>(t),
            Err(e) => abi_result(index, *contract) == Err::<TraitId, ContractErrorView>(e@),
        },
{
    let generated = get_generated_contract_module(index, contract)?;
    let items = match index.module_data(generated) {
        Some(data) => match &data.items {
            Some(items) => items,
            None => return Err(ContractError::QueryFailed { module: generated }),
        },
        None => return Err(ContractError::QueryFailed { module: generated }),
    };
    let name = ABI_TRAIT.to_owned();
    match find_item(items, &name) {
        Some(ModuleItemId::Trait(abi)) => Ok(abi),
        _ => Err(ContractError::ItemKindMismatch { name }),
    }
}

/// Whether module `m` is an inline module marked as a contract.
pub open spec fn is_marked(index: &ProgramIndex, m: ModuleId) -> bool {
    contract_of(index, m) is Some
}

/// The marked modules among `subs`, in their order.
pub open spec fn marked_modules(index: &ProgramIndex, subs: Seq<ModuleId>) -> Seq<ModuleId> {
    subs.filter(|m: ModuleId| is_marked(index, m))
}

/// The declaration that refers to inline module `m`.
pub open spec fn declaration_for(m: ModuleId) -> ContractDeclaration {
    ContractDeclaration { submodule_id: m->Submodule_0 }
}

/// Among the submodules of one module, discovery yields one declaration per
/// marked inline module and none for the others, in the order of the
/// submodules; each refers to a marked submodule, and distinct submodules
/// give distinct declarations.
pub proof fn lemma_discovery_keeps_marked_in_order(index: &ProgramIndex, subs: Seq<ModuleId>)
    ensures
        contracts_among(index, subs) == marked_modules(index, subs).map_values(
            |m: ModuleId| declaration_for(m),
        ),
        forall|k: int|
            0 <= k < contracts_among(index, subs).len() ==> {
                let m = ModuleId::Submodule(#[trigger] contracts_among(index, subs)[k].submodule_id);
                &&& subs.contains(m)
                &&& is_marked(index, m)
            },
        subs.no_duplicates() ==> contracts_among(index, subs).no_duplicates(),
    decreases subs.len(),
{
    reveal(Seq::filter);
    if subs.len() > 0 {
        let rest = subs.drop_last();
        let last = subs.last();
        lemma_discovery_keeps_marked_in_order(index, rest);
        let prev = contracts_among(index, rest);
        let all = contracts_among(index, subs);
        assert(forall|m: ModuleId| rest.contains(m) ==> subs.contains(m)) by {
            assert forall|m: ModuleId| rest.contains(m) implies subs.contains(m) by {
                let j = choose|j: int| 0 <= j < rest.len() && rest[j] == m;
                assert(subs[j] == m);
            }
        }
        if is_marked(index, last) {
            assert(all == prev + seq![declaration_for(last)]);
            assert(marked_modules(index, subs) == marked_modules(index, rest).push(last));
            assert(marked_modules(index, subs).map_values(|m: ModuleId| declaration_for(m))
                =~= marked_modules(index, rest).map_values(|m: ModuleId| declaration_for(m)).push(
                declaration_for(last),
            ));
            assert(subs[subs.len() - 1] == last);
            assert forall|k: int| 0 <= k < all.len() implies {
                let m = ModuleId::Submodule(#[trigger] all[k].submodule_id);
                &&& subs.contains(m)
                &&& is_marked(index, m)
            } by {
                if k < prev.len() {
                    assert(all[k] == prev[k]);
                }
            }
            if subs.no_duplicates() {
                assert(rest.no_duplicates());
                assert forall|a: int, b: int| 0 <= a < all.len() && 0 <= b < all.len() && a != b
                    implies all[a] != all[b] by {
                    if a < prev.len() && b < prev.len() {
                        assert(all[a] == prev[a] && all[b] == prev[b]);
                    } else if a < prev.len() {
                        let m = ModuleId::Submodule(prev[a].submodule_id);
                        assert(all[a] == prev[a]);
                        assert(rest.contains(m));
                        if all[a] == all[b] {
                            let j = choose|j: int| 0 <= j < rest.len() && rest[j] == m;
                            assert(subs[j] == subs[subs.len() - 1]);
                        }
                    } else if b < prev.len() {
                        let m = ModuleId::Submodule(prev[b].submodule_id);
                        assert(all[b] == prev[b]);
                        assert(rest.contains(m));
                        if all[a] == all[b] {
                            let j = choose|j: int| 0 <= j < rest.len() && rest[j] == m;
                            assert(subs[j] == subs[subs.len() - 1]);
                        }
                    }
                }
            }
        } else {
            assert(all == prev);
            assert(marked_modules(index, subs) == marked_modules(index, rest));
            if subs.no_duplicates() {
                assert(rest.no_duplicates());
            }
        }
    } else {
        assert(marked_modules(index, subs).map_values(|m: ModuleId| declaration_for(m)) =~= Seq::<
            ContractDeclaration,
        >::empty());
    }
}

/// Discovery over a compilation unit whose one module has the submodules
/// `subs` yields the contracts among `subs`, in their order.
pub proof fn lemma_discovery_of_single_module_unit(
    index: &ProgramIndex,
    c: CrateId,
    root: ModuleId,
    subs: Seq<ModuleId>,
)
    requires
        index.crate_modules_of(c) == seq![root],
        index.submodules_of(root) == Some(subs),
    ensures
        contracts_in_crates(index, seq![c]) == contracts_among(index, subs),
{
    let units = seq![c];
    let mods = seq![root];
    assert(units.drop_last() =~= Seq::<CrateId>::empty());
    assert(mods.drop_last() =~= Seq::<ModuleId>::empty());
    assert(units.last() == c);
    assert(mods.last() == root);
    assert(contracts_in_modules(index, mods.drop_last()) == Seq::<ContractDeclaration>::empty());
    assert(contracts_in_crates(index, units.drop_last()) == Seq::<ContractDeclaration>::empty());
    assert(contracts_in_modules(index, mods) =~= contracts_among(index, subs));
    assert(contracts_in_crates(index, units) =~= contracts_in_modules(index, mods));
}

/// Where the parent of a contract resolves its items but files nothing under
/// the contract's generated key, the resolver and both extractions fail with
/// an error that names that key.
pub proof fn lemma_missing_generated_module_names_key(
    index: &ProgramIndex,
    c: ContractDeclaration,
    parent_items: Seq<ModuleItem>,
)
    requires
        index.has_submodule(c.submodule_id),
        index.items_of(index.submodules@[c.submodule_id.0 as int].parent) == Some(parent_items),
        lookup_item(parent_items, contract_generated_key(index, c)) is None,
    ensures
        generated_module_result(index, c) == Err::<ModuleId, ContractErrorView>(
            ContractErrorView::GeneratedModuleNotFound(
                generated_module_key(index.submodules@[c.submodule_id.0 as int].name@),
            ),
        ),
        external_functions_result(index, c) == Err::<Seq<FreeFunctionId>, ContractErrorView>(
            ContractErrorView::GeneratedModuleNotFound(contract_generated_key(index, c)),
        ),
        abi_result(index, c) == Err::<TraitId, ContractErrorView>(
            ContractErrorView::GeneratedModuleNotFound(contract_generated_key(index, c)),
        ),
{
}

/// Where the generated module of a contract holds a submodule under
/// `EXTERNAL_MODULE` whose free functions resolve, and a trait under
/// `ABI_TRAIT`, the extractions return exactly those free functions and that
/// trait.
pub proof fn lemma_extraction_reads_generated_module(
    index: &ProgramIndex,
    c: ContractDeclaration,
    generated: ModuleId,
    items: Seq<ModuleItem>,
    external: SubmoduleId,
    functions: Seq<FreeFunctionId>,
    abi: TraitId,
)
    requires
        index.has_submodule(c.submodule_id),
        generated_module_of(index, c) == Some(generated),
        index.items_of(generated) == Some(items),
        lookup_item(items, EXTERNAL_MODULE@) == Some(ModuleItemId::Submodule(external)),
        index.free_functions_of(ModuleId::Submodule(external)) == Some(functions),
        lookup_item(items, ABI_TRAIT@) == Some(ModuleItemId::Trait(abi)),
    ensures
        external_functions_result(index, c) == Ok::<Seq<FreeFunctionId>, ContractErrorView>(
            functions,
        ),
        abi_result(index, c) == Ok::<TraitId, ContractErrorView>(abi),
{
}

/// The extractions depend on the index and the declaration alone: asked
/// twice on the same index for the same declaration, they answer alike.
pub proof fn lemma_extraction_repeatable(
    index: &ProgramIndex,
    c: ContractDeclaration,
    d: ContractDeclaration,
)
    requires
        c == d,
    ensures
        generated_module_result(index, c) == generated_module_result(index, d),
        external_functions_result(index, c) == external_functions_result(index, d),
        abi_result(index, c) == abi_result(index, d),
{
}

/// A generated module without a trait under `ABI_TRAIT` fails the ABI
/// extraction, while the extraction of external functions still returns the
/// free functions of its `EXTERNAL_MODULE` submodule.
pub proof fn lemma_abi_failure_leaves_external_functions(
    index: &ProgramIndex,
    c: ContractDeclaration,
    generated: ModuleId,
    items: Seq<ModuleItem>,
    external: SubmoduleId,
    functions: Seq<FreeFunctionId>,
)
    requires
        index.has_submodule(c.submodule_id),
        generated_module_of(index, c) == Some(generated),
        index.items_of(generated) == Some(items),
        lookup_item(items, ABI_TRAIT@) is None,
        lookup_item(items, EXTERNAL_MODULE@) == Some(ModuleItemId::Submodule(external)),
        index.free_functions_of(ModuleId::Submodule(external)) == Some(functions),
    ensures
        abi_result(index, c) == Err::<TraitId, ContractErrorView>(
            ContractErrorView::ItemKindMismatch(ABI_TRAIT@),
        ),
        external_functions_result(index, c) == Ok::<Seq<FreeFunctionId>, ContractErrorView>(
            functions,
        ),
{
}

} // verus!
