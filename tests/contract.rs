use starknet::contract::{
    find_contracts, get_abi, get_external_functions, get_generated_contract_module,
    ContractDeclaration, ContractError, ABI_TRAIT, CONTRACT_ATTR, EXTERNAL_MODULE,
};
use starknet::index::{
    find_item, has_attribute, CrateData, CrateId, FreeFunctionId, ModuleData, ModuleId,
    ModuleItem, ModuleItemId, ProgramIndex, SubmoduleData, SubmoduleId, TraitId,
};

fn sub(i: usize) -> ModuleId {
    ModuleId::Submodule(SubmoduleId(i))
}

fn data(
    submodules: Option<Vec<ModuleId>>,
    attributes: Option<Vec<&str>>,
    items: Option<Vec<(&str, ModuleItemId)>>,
    free_functions: Option<Vec<FreeFunctionId>>,
) -> ModuleData {
    ModuleData {
        submodules,
        attributes: attributes.map(|a| a.into_iter().map(String::from).collect()),
        items: items.map(|v| {
            v.into_iter()
                .map(|(name, item)| ModuleItem { name: name.to_string(), item })
                .collect()
        }),
        free_functions,
    }
}

fn leaf(name: &str, parent: ModuleId, attrs: Vec<&str>) -> SubmoduleData {
    SubmoduleData {
        name: name.to_string(),
        parent,
        data: data(Some(vec![]), Some(attrs), Some(vec![]), Some(vec![])),
    }
}

fn root() -> ModuleId {
    ModuleId::CrateRoot(CrateId(0))
}

/// One compilation unit: contracts `token` (complete generated module) and
/// `vault` (no generated module), and an unmarked module `helpers`.
fn sample_index() -> ProgramIndex {
    let root_data = data(
        Some(vec![sub(0), sub(1), sub(2), sub(4)]),
        Some(vec![]),
        Some(vec![
            ("token", ModuleItemId::Submodule(SubmoduleId(0))),
            ("helpers", ModuleItemId::Submodule(SubmoduleId(1))),
            ("__generated__token", ModuleItemId::Submodule(SubmoduleId(2))),
            ("vault", ModuleItemId::Submodule(SubmoduleId(4))),
        ]),
        Some(vec![]),
    );
    let generated = SubmoduleData {
        name: "__generated__token".to_string(),
        parent: root(),
        data: data(
            Some(vec![sub(3)]),
            Some(vec![]),
            Some(vec![
                ("__abi", ModuleItemId::Trait(TraitId(7))),
                ("__external", ModuleItemId::Submodule(SubmoduleId(3))),
            ]),
            Some(vec![]),
        ),
    };
    let external = SubmoduleData {
        name: "__external".to_string(),
        parent: sub(2),
        data: data(
            Some(vec![]),
            Some(vec![]),
            Some(vec![]),
            Some(vec![FreeFunctionId(10), FreeFunctionId(11)]),
        ),
    };
    ProgramIndex {
        crates: vec![CrateData {
            modules: vec![root(), sub(0), sub(1), sub(2), sub(3), sub(4)],
            root: root_data,
        }],
        submodules: vec![
            leaf("token", root(), vec!["contract"]),
            leaf("helpers", root(), vec!["inline"]),
            generated,
            external,
            leaf("vault", root(), vec!["doc", "contract"]),
        ],
    }
}

fn token() -> ContractDeclaration {
    ContractDeclaration { submodule_id: SubmoduleId(0) }
}

fn vault() -> ContractDeclaration {
    ContractDeclaration { submodule_id: SubmoduleId(4) }
}

fn generated_items(index: &mut ProgramIndex) -> &mut Vec<ModuleItem> {
    index.submodules[2].data.items.as_mut().unwrap()
}

#[test]
fn marker_names() {
    assert_eq!(CONTRACT_ATTR, "contract");
    assert_eq!(ABI_TRAIT, "__abi");
    assert_eq!(EXTERNAL_MODULE, "__external");
}

#[test]
fn module_id_is_the_submodule() {
    assert_eq!(token().module_id(), sub(0));
}

#[test]
fn discovery_returns_marked_modules_in_order() {
    let index = sample_index();
    let found = find_contracts(&index, &[CrateId(0)]);
    assert_eq!(found, vec![token(), vault()]);
}

#[test]
fn discovery_follows_unit_order() {
    let mut index = sample_index();
    index.crates.push(CrateData {
        modules: vec![ModuleId::CrateRoot(CrateId(1))],
        root: data(Some(vec![sub(5)]), Some(vec![]), Some(vec![]), Some(vec![])),
    });
    index.submodules.push(leaf("bank", ModuleId::CrateRoot(CrateId(1)), vec!["contract"]));
    let bank = ContractDeclaration { submodule_id: SubmoduleId(5) };
    assert_eq!(find_contracts(&index, &[CrateId(1), CrateId(0)]), vec![bank, token(), vault()]);
    assert_eq!(find_contracts(&index, &[CrateId(0), CrateId(1)]), vec![token(), vault(), bank]);
}

#[test]
fn discovery_of_no_units_is_empty() {
    assert!(find_contracts(&sample_index(), &[]).is_empty());
}

#[test]
fn discovery_ignores_unknown_unit() {
    assert!(find_contracts(&sample_index(), &[CrateId(9)]).is_empty());
}

#[test]
fn discovery_skips_module_whose_submodules_fail() {
    let mut index = sample_index();
    index.crates[0].root.submodules = None;
    assert!(find_contracts(&index, &[CrateId(0)]).is_empty());
}

#[test]
fn discovery_skips_submodule_whose_attributes_fail() {
    let mut index = sample_index();
    index.submodules[0].data.attributes = None;
    assert_eq!(find_contracts(&index, &[CrateId(0)]), vec![vault()]);
}

#[test]
fn discovery_ignores_marked_crate_root() {
    let mut index = sample_index();
    index.crates[0].root.attributes = Some(vec!["contract".to_string()]);
    index.submodules[1].data.submodules = Some(vec![root()]);
    assert_eq!(find_contracts(&index, &[CrateId(0)]), vec![token(), vault()]);
}

#[test]
fn discovery_counts_marked_among_unmarked() {
    let mut index = sample_index();
    let mut subs = Vec::new();
    for k in 0..6usize {
        let attrs = if k % 2 == 0 { vec!["contract"] } else { vec!["other"] };
        index.submodules.push(leaf("m", root(), attrs));
        subs.push(sub(5 + k));
    }
    index.crates[0].root.submodules = Some(subs);
    let found = find_contracts(&index, &[CrateId(0)]);
    let expected: Vec<ContractDeclaration> = [5usize, 7, 9]
        .iter()
        .map(|i| ContractDeclaration { submodule_id: SubmoduleId(*i) })
        .collect();
    assert_eq!(found, expected);
}

#[test]
fn resolver_finds_generated_module() {
    assert_eq!(get_generated_contract_module(&sample_index(), &token()), Ok(sub(2)));
}

#[test]
fn resolver_names_missing_key() {
    assert_eq!(
        get_generated_contract_module(&sample_index(), &vault()),
        Err(ContractError::GeneratedModuleNotFound { key: "__generated__vault".to_string() })
    );
}

#[test]
fn resolver_rejects_generated_key_of_other_kind() {
    let mut index = sample_index();
    index.crates[0].root.items.as_mut().unwrap()[2].item = ModuleItemId::Trait(TraitId(1));
    assert_eq!(
        get_generated_contract_module(&index, &token()),
        Err(ContractError::GeneratedModuleNotFound { key: "__generated__token".to_string() })
    );
}

#[test]
fn resolver_fails_when_parent_items_fail() {
    let mut index = sample_index();
    index.crates[0].root.items = None;
    assert_eq!(
        get_generated_contract_module(&index, &token()),
        Err(ContractError::GeneratedModuleNotFound { key: "__generated__token".to_string() })
    );
}

#[test]
fn extraction_returns_generated_items() {
    let index = sample_index();
    assert_eq!(
        get_external_functions(&index, &token()),
        Ok(vec![FreeFunctionId(10), FreeFunctionId(11)])
    );
    assert_eq!(get_abi(&index, &token()), Ok(TraitId(7)));
}

#[test]
fn extraction_is_repeatable() {
    let index = sample_index();
    assert_eq!(get_external_functions(&index, &token()), get_external_functions(&index, &token()));
    assert_eq!(get_abi(&index, &token()), get_abi(&index, &token()));
}

#[test]
fn extraction_fails_without_generated_module() {
    let index = sample_index();
    let missing = ContractError::GeneratedModuleNotFound { key: "__generated__vault".to_string() };
    assert_eq!(get_external_functions(&index, &vault()), Err(missing));
    let missing = ContractError::GeneratedModuleNotFound { key: "__generated__vault".to_string() };
    assert_eq!(get_abi(&index, &vault()), Err(missing));
}

#[test]
fn missing_abi_leaves_external_functions() {
    let mut index = sample_index();
    generated_items(&mut index).remove(0);
    assert_eq!(
        get_abi(&index, &token()),
        Err(ContractError::ItemKindMismatch { name: "__abi".to_string() })
    );
    assert_eq!(
        get_external_functions(&index, &token()),
        Ok(vec![FreeFunctionId(10), FreeFunctionId(11)])
    );
}

#[test]
fn abi_of_wrong_kind_fails() {
    let mut index = sample_index();
    generated_items(&mut index)[0].item = ModuleItemId::FreeFunction(FreeFunctionId(3));
    assert_eq!(
        get_abi(&index, &token()),
        Err(ContractError::ItemKindMismatch { name: "__abi".to_string() })
    );
}

#[test]
fn missing_external_module_fails_only_its_extraction() {
    let mut index = sample_index();
    generated_items(&mut index).remove(1);
    assert_eq!(
        get_external_functions(&index, &token()),
        Err(ContractError::ItemKindMismatch { name: "__external".to_string() })
    );
    assert_eq!(get_abi(&index, &token()), Ok(TraitId(7)));
}

#[test]
fn external_entry_of_wrong_kind_fails() {
    let mut index = sample_index();
    generated_items(&mut index)[1].item = ModuleItemId::Trait(TraitId(2));
    assert_eq!(
        get_external_functions(&index, &token()),
        Err(ContractError::ItemKindMismatch { name: "__external".to_string() })
    );
}

#[test]
fn failing_generated_items_is_a_query_failure() {
    let mut index = sample_index();
    index.submodules[2].data.items = None;
    assert_eq!(
        get_external_functions(&index, &token()),
        Err(ContractError::QueryFailed { module: sub(2) })
    );
    assert_eq!(get_abi(&index, &token()), Err(ContractError::QueryFailed { module: sub(2) }));
}

#[test]
fn failing_free_functions_is_a_query_failure() {
    let mut index = sample_index();
    index.submodules[3].data.free_functions = None;
    assert_eq!(
        get_external_functions(&index, &token()),
        Err(ContractError::QueryFailed { module: sub(3) })
    );
}

#[test]
fn item_lookup_takes_first_entry() {
    let items = vec![
        ModuleItem { name: "a".to_string(), item: ModuleItemId::Trait(TraitId(1)) },
        ModuleItem { name: "b".to_string(), item: ModuleItemId::Trait(TraitId(2)) },
        ModuleItem { name: "a".to_string(), item: ModuleItemId::Trait(TraitId(3)) },
    ];
    assert_eq!(find_item(&items, &"a".to_string()), Some(ModuleItemId::Trait(TraitId(1))));
    assert_eq!(find_item(&items, &"b".to_string()), Some(ModuleItemId::Trait(TraitId(2))));
    assert_eq!(find_item(&items, &"c".to_string()), None);
}

#[test]
fn attribute_membership() {
    let attrs = vec!["doc".to_string(), "contract".to_string()];
    assert!(has_attribute(&attrs, &"contract".to_string()));
    assert!(!has_attribute(&attrs, &"contrac".to_string()));
    assert!(!has_attribute(&Vec::new(), &"contract".to_string()));
}
