//! The tagged categories of domain keys and stored values.
//!
//! A leaf record embeds one domain key and one stored value; the audit
//! consumes only their leading tag bytes.  Each tag byte maps to a category
//! below, with the payload width the key encoding gives it.

use vstd::prelude::*;

verus! {

/// Number of domain-key categories.
pub const NUM_KEY_TAGS: usize = 15;

/// Number of stored-value categories.
pub const NUM_VALUE_TAGS: usize = 11;

/// Category of a domain key, as named by its leading tag byte.
#[derive(Clone, Copy, PartialEq, Eq, Structural, Debug)]
pub enum KeyTag {
    Account,
    Hash,
    URef,
    Transfer,
    DeployInfo,
    EraInfo,
    Balance,
    Bid,
    Withdraw,
    Dictionary,
    SystemContractRegistry,
    EraSummary,
    Unbond,
    ChainspecRegistry,
    ChecksumRegistry,
}

/// Category of a stored value, as named by its leading tag byte.
#[derive(Clone, Copy, PartialEq, Eq, Structural, Debug)]
pub enum ValueTag {
    CLValue,
    Account,
    ContractWasm,
    Contract,
    ContractPackage,
    Transfer,
    DeployInfo,
    EraInfo,
    Bid,
    Withdraw,
    Unbonding,
}

/// The key category a tag byte denotes, if any.
pub open spec fn spec_key_tag_of_byte(b: u8) -> Option<KeyTag> {
    match b {
        0u8 => Some(KeyTag::Account),
        1u8 => Some(KeyTag::Hash),
        2u8 => Some(KeyTag::URef),
        3u8 => Some(KeyTag::Transfer),
        4u8 => Some(KeyTag::DeployInfo),
        5u8 => Some(KeyTag::EraInfo),
        6u8 => Some(KeyTag::Balance),
        7u8 => Some(KeyTag::Bid),
        8u8 => Some(KeyTag::Withdraw),
        9u8 => Some(KeyTag::Dictionary),
        10u8 => Some(KeyTag::SystemContractRegistry),
        11u8 => Some(KeyTag::EraSummary),
        12u8 => Some(KeyTag::Unbond),
        13u8 => Some(KeyTag::ChainspecRegistry),
        14u8 => Some(KeyTag::ChecksumRegistry),
        _ => None,
    }
}

/// The key category a tag byte denotes, if any.
pub fn key_tag_of_byte(b: u8) -> (r: Option<KeyTag>)
    ensures
        r == spec_key_tag_of_byte(b),
{
    match b {
        0u8 => Some(KeyTag::Account),
        1u8 => Some(KeyTag::Hash),
        2u8 => Some(KeyTag::URef),
        3u8 => Some(KeyTag::Transfer),
        4u8 => Some(KeyTag::DeployInfo),
        5u8 => Some(KeyTag::EraInfo),
        6u8 => Some(KeyTag::Balance),
        7u8 => Some(KeyTag::Bid),
        8u8 => Some(KeyTag::Withdraw),
        9u8 => Some(KeyTag::Dictionary),
        10u8 => Some(KeyTag::SystemContractRegistry),
        11u8 => Some(KeyTag::EraSummary),
        12u8 => Some(KeyTag::Unbond),
        13u8 => Some(KeyTag::ChainspecRegistry),
        14u8 => Some(KeyTag::ChecksumRegistry),
        _ => None,
    }
}

/// The value category a tag byte denotes, if any.
pub open spec fn spec_value_tag_of_byte(b: u8) -> Option<ValueTag> {
    match b {
        0u8 => Some(ValueTag::CLValue),
        1u8 => Some(ValueTag::Account),
        2u8 => Some(ValueTag::ContractWasm),
        3u8 => Some(ValueTag::Contract),
        4u8 => Some(ValueTag::ContractPackage),
        5u8 => Some(ValueTag::Transfer),
        6u8 => Some(ValueTag::DeployInfo),
        7u8 => Some(ValueTag::EraInfo),
        8u8 => Some(ValueTag::Bid),
        9u8 => Some(ValueTag::Withdraw),
        10u8 => Some(ValueTag::Unbonding),
        _ => None,
    }
}

/// The value category a tag byte denotes, if any.
pub fn value_tag_of_byte(b: u8) -> (r: Option<ValueTag>)
    ensures
        r == spec_value_tag_of_byte(b),
{
    match b {
        0u8 => Some(ValueTag::CLValue),
        1u8 => Some(ValueTag::Account),
        2u8 => Some(ValueTag::ContractWasm),
        3u8 => Some(ValueTag::Contract),
        4u8 => Some(ValueTag::ContractPackage),
        5u8 => Some(ValueTag::Transfer),
        6u8 => Some(ValueTag::DeployInfo),
        7u8 => Some(ValueTag::EraInfo),
        8u8 => Some(ValueTag::Bid),
        9u8 => Some(ValueTag::Withdraw),
        10u8 => Some(ValueTag::Unbonding),
        _ => None,
    }
}

/// Width in bytes of a key's payload, which follows its tag byte.
pub open spec fn spec_key_payload_len(t: KeyTag) -> nat {
    match t {
        KeyTag::URef => 33,
        KeyTag::EraInfo => 8,
        _ => 32,
    }
}

/// Width in bytes of a key's payload, which follows its tag byte.
pub fn key_payload_len(t: KeyTag) -> (r: usize)
    ensures
        r == spec_key_payload_len(t),
{
    match t {
        KeyTag::URef => 33,
        KeyTag::EraInfo => 8,
        _ => 32,
    }
}

/// Position of a key category in report order (its tag byte's value).
pub open spec fn key_tag_index(t: KeyTag) -> int {
    match t {
        KeyTag::Account => 0,
        KeyTag::Hash => 1,
        KeyTag::URef => 2,
        KeyTag::Transfer => 3,
        KeyTag::DeployInfo => 4,
        KeyTag::EraInfo => 5,
        KeyTag::Balance => 6,
        KeyTag::Bid => 7,
        KeyTag::Withdraw => 8,
        KeyTag::Dictionary => 9,
        KeyTag::SystemContractRegistry => 10,
        KeyTag::EraSummary => 11,
        KeyTag::Unbond => 12,
        KeyTag::ChainspecRegistry => 13,
        KeyTag::ChecksumRegistry => 14,
    }
}

/// Position of a value category in report order (its tag byte's value).
pub open spec fn value_tag_index(t: ValueTag) -> int {
    match t {
        ValueTag::CLValue => 0,
        ValueTag::Account => 1,
        ValueTag::ContractWasm => 2,
        ValueTag::Contract => 3,
        ValueTag::ContractPackage => 4,
        ValueTag::Transfer => 5,
        ValueTag::DeployInfo => 6,
        ValueTag::EraInfo => 7,
        ValueTag::Bid => 8,
        ValueTag::Withdraw => 9,
        ValueTag::Unbonding => 10,
    }
}

/// The key category at a given report position.
pub open spec fn spec_key_tag_at(i: int) -> KeyTag {
    if i == 0 { KeyTag::Account }
    else if i == 1 { KeyTag::Hash }
    else if i == 2 { KeyTag::URef }
    else if i == 3 { KeyTag::Transfer }
    else if i == 4 { KeyTag::DeployInfo }
    else if i == 5 { KeyTag::EraInfo }
    else if i == 6 { KeyTag::Balance }
    else if i == 7 { KeyTag::Bid }
    else if i == 8 { KeyTag::Withdraw }
    else if i == 9 { KeyTag::Dictionary }
    else if i == 10 { KeyTag::SystemContractRegistry }
    else if i == 11 { KeyTag::EraSummary }
    else if i == 12 { KeyTag::Unbond }
    else if i == 13 { KeyTag::ChainspecRegistry }
    else { KeyTag::ChecksumRegistry }
}

/// The value category at a given report position.
pub open spec fn spec_value_tag_at(i: int) -> ValueTag {
    if i == 0 { ValueTag::CLValue }
    else if i == 1 { ValueTag::Account }
    else if i == 2 { ValueTag::ContractWasm }
    else if i == 3 { ValueTag::Contract }
    else if i == 4 { ValueTag::ContractPackage }
    else if i == 5 { ValueTag::Transfer }
    else if i == 6 { ValueTag::DeployInfo }
    else if i == 7 { ValueTag::EraInfo }
    else if i == 8 { ValueTag::Bid }
    else if i == 9 { ValueTag::Withdraw }
    else { ValueTag::Unbonding }
}

/// The key category at a given report position.
pub fn key_tag_at(i: usize) -> (t: KeyTag)
    requires
        i < NUM_KEY_TAGS,
    ensures
        key_tag_index(t) == i,
        t == spec_key_tag_at(i as int),
{
    if i == 0 { KeyTag::Account }
    else if i == 1 { KeyTag::Hash }
    else if i == 2 { KeyTag::URef }
    else if i == 3 { KeyTag::Transfer }
    else if i == 4 { KeyTag::DeployInfo }
    else if i == 5 { KeyTag::EraInfo }
    else if i == 6 { KeyTag::Balance }
    else if i == 7 { KeyTag::Bid }
    else if i == 8 { KeyTag::Withdraw }
    else if i == 9 { KeyTag::Dictionary }
    else if i == 10 { KeyTag::SystemContractRegistry }
    else if i == 11 { KeyTag::EraSummary }
    else if i == 12 { KeyTag::Unbond }
    else if i == 13 { KeyTag::ChainspecRegistry }
    else { KeyTag::ChecksumRegistry }
}

/// The value category at a given report position.
pub fn value_tag_at(i: usize) -> (t: ValueTag)
    requires
        i < NUM_VALUE_TAGS,
    ensures
        value_tag_index(t) == i,
        t == spec_value_tag_at(i as int),
{
    if i == 0 { ValueTag::CLValue }
    else if i == 1 { ValueTag::Account }
    else if i == 2 { ValueTag::ContractWasm }
    else if i == 3 { ValueTag::Contract }
    else if i == 4 { ValueTag::ContractPackage }
    else if i == 5 { ValueTag::Transfer }
    else if i == 6 { ValueTag::DeployInfo }
    else if i == 7 { ValueTag::EraInfo }
    else if i == 8 { ValueTag::Bid }
    else if i == 9 { ValueTag::Withdraw }
    else { ValueTag::Unbonding }
}

/// Symbolic name of a key category, as the report prints it.
pub open spec fn spec_key_tag_name(t: KeyTag) -> Seq<char> {
    match t {
        KeyTag::Account => "Account"@,
        KeyTag::Hash => "Hash"@,
        KeyTag::URef => "URef"@,
        KeyTag::Transfer => "Transfer"@,
        KeyTag::DeployInfo => "DeployInfo"@,
        KeyTag::EraInfo => "EraInfo"@,
        KeyTag::Balance => "Balance"@,
        KeyTag::Bid => "Bid"@,
        KeyTag::Withdraw => "Withdraw"@,
        KeyTag::Dictionary => "Dictionary"@,
        KeyTag::SystemContractRegistry => "SystemContractRegistry"@,
        KeyTag::EraSummary => "EraSummary"@,
        KeyTag::Unbond => "Unbond"@,
        KeyTag::ChainspecRegistry => "ChainspecRegistry"@,
        KeyTag::ChecksumRegistry => "ChecksumRegistry"@,
    }
}

/// Symbolic name of a key category, as the report prints it.
pub fn key_tag_name(t: KeyTag) -> (s: String)
    ensures
        s@ == spec_key_tag_name(t),
{
    match t {
        KeyTag::Account => String::from_str("Account"),
        KeyTag::Hash => String::from_str("Hash"),
        KeyTag::URef => String::from_str("URef"),
        KeyTag::Transfer => String::from_str("Transfer"),
        KeyTag::DeployInfo => String::from_str("DeployInfo"),
        KeyTag::EraInfo => String::from_str("EraInfo"),
        KeyTag::Balance => String::from_str("Balance"),
        KeyTag::Bid => String::from_str("Bid"),
        KeyTag::Withdraw => String::from_str("Withdraw"),
        KeyTag::Dictionary => String::from_str("Dictionary"),
        KeyTag::SystemContractRegistry => String::from_str("SystemContractRegistry"),
        KeyTag::EraSummary => String::from_str("EraSummary"),
        KeyTag::Unbond => String::from_str("Unbond"),
        KeyTag::ChainspecRegistry => String::from_str("ChainspecRegistry"),
        KeyTag::ChecksumRegistry => String::from_str("ChecksumRegistry"),
    }
}

/// Symbolic name of a value category, as the report prints it.
pub open spec fn spec_value_tag_name(t: ValueTag) -> Seq<char> {
    match t {
        ValueTag::CLValue => "CLValue"@,
        ValueTag::Account => "Account"@,
        ValueTag::ContractWasm => "ContractWasm"@,
        ValueTag::Contract => "Contract"@,
        ValueTag::ContractPackage => "ContractPackage"@,
        ValueTag::Transfer => "Transfer"@,
        ValueTag::DeployInfo => "DeployInfo"@,
        ValueTag::EraInfo => "EraInfo"@,
        ValueTag::Bid => "Bid"@,
        ValueTag::Withdraw => "Withdraw"@,
        ValueTag::Unbonding => "Unbonding"@,
    }
}

/// Symbolic name of a value category, as the report prints it.
pub fn value_tag_name(t: ValueTag) -> (s: String)
    ensures
        s@ == spec_value_tag_name(t),
{
    match t {
        ValueTag::CLValue => String::from_str("CLValue"),
        ValueTag::Account => String::from_str("Account"),
        ValueTag::ContractWasm => String::from_str("ContractWasm"),
        ValueTag::Contract => String::from_str("Contract"),
        ValueTag::ContractPackage => String::from_str("ContractPackage"),
        ValueTag::Transfer => String::from_str("Transfer"),
        ValueTag::DeployInfo => String::from_str("DeployInfo"),
        ValueTag::EraInfo => String::from_str("EraInfo"),
        ValueTag::Bid => String::from_str("Bid"),
        ValueTag::Withdraw => String::from_str("Withdraw"),
        ValueTag::Unbonding => String::from_str("Unbonding"),
    }
}

} // verus!
