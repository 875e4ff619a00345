//! Contract metadata extraction over a compiled program's module tree, and the
//! field-sized Keccak hash used to derive identifiers from names.

pub mod field_hash;
pub mod index;
pub mod contract;

pub use contract::{
    find_contracts, get_abi, get_external_functions, get_generated_contract_module,
    ContractDeclaration, ContractError,
};
pub use field_hash::starknet_keccak;
