use vstd::prelude::*;

use crate::asset::{same_asset, AssetInfo};
use crate::pairinfo::PairConfig;
use vstd::utf8::encode_utf8;

verus! {

/// Errors of the pool registry.
#[derive(Debug, Clone, Copy, PartialEq, Eq, Structural)]
pub enum ContractError {
    Unauthorized {},
    PairWasCreated {},
    PairWasRegistered {},
    PairConfigDuplicate {},
    PairConfigNotFound {},
    PairConfigDisabled {},
    DoublingAssets {},
    MigrationError {},
}

/// What the registry is created with.
#[derive(Debug, Clone, PartialEq, Eq)]
pub struct InstantiateMsg {
    /// One configuration per kind of pool.
    pub pair_configs: Vec<PairConfig>,
    /// Code of the share token contract.
    pub token_code_id: u64,
    /// Address allowed to change the registry's parameters.
    pub owner: String,
}

/// The registry's general parameters.
#[derive(Debug, Clone, PartialEq, Eq)]
pub struct Config {
    pub owner: String,
    pub token_code_id: u64,
}

/// A change of the registry's general parameters.
#[derive(Debug, Clone, Copy, PartialEq, Eq, Structural)]
pub struct UpdateConfig {
    /// New code of the share token contract, if any.
    pub token_code_id: Option<u64>,
}

/// The key of a pool being created, kept until its creation is confirmed.
#[derive(Debug, Clone, PartialEq, Eq)]
pub struct TmpPairInfo {
    pub pair_key: Vec<u8>,
}

/// `a` sorts strictly before `b`, byte by byte, a prefix first.
pub open spec fn bytes_lt(a: Seq<u8>, b: Seq<u8>) -> bool
    decreases a.len(),
{
    if a.len() == 0 {
        b.len() > 0
    } else if b.len() == 0 {
        false
    } else if a[0] != b[0] {
        a[0] < b[0]
    } else {
        bytes_lt(a.drop_first(), b.drop_first())
    }
}

/// The bytes that identify an asset.
pub open spec fn info_bytes(a: AssetInfo) -> Seq<u8> {
    match a {
        AssetInfo::Token { contract_addr } => encode_utf8(contract_addr@),
        AssetInfo::NativeToken { denom } => encode_utf8(denom@),
    }
}

/// The key of a pair of assets: both identifiers concatenated in byte order,
/// so that the order in which the assets are named does not matter.
pub open spec fn pair_key_of(a: AssetInfo, b: AssetInfo) -> Seq<u8> {
    if bytes_lt(info_bytes(b), info_bytes(a)) {
        info_bytes(b) + info_bytes(a)
    } else {
        info_bytes(a) + info_bytes(b)
    }
}

fn less_bytes(a: &[u8], b: &[u8]) -> (r: bool)
    ensures
        r == bytes_lt(a@, b@),
{
    let mut i: usize = 0;
    assert(a@.skip(0) =~= a@);
    assert(b@.skip(0) =~= b@);
    while i < a.len() && i < b.len()
        invariant
            i <= a.len(),
            i <= b.len(),
            bytes_lt(a@, b@) == bytes_lt(a@.skip(i as int), b@.skip(i as int)),
        decreases a.len() - i,
    {
        assert(a@.skip(i as int).drop_first() == a@.skip(i + 1));
        assert(b@.skip(i as int).drop_first() == b@.skip(i + 1));
        assert(a@.skip(i as int)[0] == a@[i as int]);
        assert(b@.skip(i as int)[0] == b@[i as int]);
        if a[i] != b[i] {
            return a[i] < b[i];
        }
        i = i + 1;
    }
    i == a.len() && i < b.len()
}

fn append_bytes(out: &mut Vec<u8>, bytes: &[u8])
    ensures
        final(out)@ == old(out)@ + bytes@,
{
    let mut i: usize = 0;
    while i < bytes.len()
        invariant
            i <= bytes.len(),
            out@ == old(out)@ + bytes@.take(i as int),
        decreases bytes.len() - i,
    {
        out.push(bytes[i]);
        i = i + 1;
        assert(bytes@.take(i as int) == bytes@.take(i - 1).push(bytes@[i - 1]));
    }
    assert(bytes@.take(bytes.len() as int) == bytes@);
}

/// The key under which the pool of two assets is registered.
pub fn pair_key(asset_infos: &[AssetInfo; 2]) -> (r: Vec<u8>)
    ensures
        r@ == pair_key_of(asset_infos@[0], asset_infos@[1]),
{
    let a = asset_infos[0].as_bytes();
    let b = asset_infos[1].as_bytes();
    let mut out: Vec<u8> = Vec::new();
    if less_bytes(b, a) {
        append_bytes(&mut out, b);
        append_bytes(&mut out, a);
    } else {
        append_bytes(&mut out, a);
        append_bytes(&mut out, b);
    }
    out
}

/// The first key after the pool of `start_after` in registry order: its key
/// followed by a one byte.
pub fn calc_range_start(start_after: Option<[AssetInfo; 2]>) -> (r: Option<Vec<u8>>)
    ensures
        match start_after {
            Some(infos) => r is Some && r->Some_0@ == pair_key_of(infos@[0], infos@[1]).push(1u8),
            None => r is None,
        },
{
    match start_after {
        Some(infos) => {
            let mut key = pair_key(&infos);
            key.push(1u8);
            Some(key)
        },
        None => None,
    }
}

/// The configurations name each kind of pool at most once.
pub open spec fn unique_pair_types(configs: Seq<PairConfig>) -> bool {
    forall|i: int, j: int|
        0 <= i < j < configs.len() ==> configs[i].pair_type != configs[j].pair_type
}

/// Refuses a set of pool configurations that names a kind of pool twice.
pub fn validate_pair_configs(configs: &Vec<PairConfig>) -> (r: Result<(), ContractError>)
    ensures
        r is Ok <==> unique_pair_types(configs@),
        r is Err ==> r == Err::<(), ContractError>(ContractError::PairConfigDuplicate {}),
{
    let mut j: usize = 0;
    while j < configs.len()
        invariant
            j <= configs.len(),
            forall|a: int, b: int|
                0 <= a < b < j ==> configs@[a].pair_type != configs@[b].pair_type,
        decreases configs.len() - j,
    {
        let mut i: usize = 0;
        while i < j
            invariant
                i <= j < configs.len(),
                forall|a: int| 0 <= a < i ==> configs@[a].pair_type != configs@[j as int].pair_type,
            decreases j - i,
        {
            if configs[i].pair_type == configs[j].pair_type {
                return Err(ContractError::PairConfigDuplicate {});
            }
            i = i + 1;
        }
        j = j + 1;
    }
    Ok(())
}

/// The decisions of creating a pool of two assets: the assets must differ,
/// no pool of them may exist yet (`exists`), and a configuration of the
/// requested kind (`pair_config`) must exist and be enabled. Returns the key
/// to register the pool under.
pub fn check_create_pair(
    asset_infos: &[AssetInfo; 2],
    exists: bool,
    pair_config: Option<PairConfig>,
) -> (r: Result<Vec<u8>, ContractError>)
    ensures
        same_asset(asset_infos@[0], asset_infos@[1]) ==> r == Err::<Vec<u8>, ContractError>(
            ContractError::DoublingAssets {},
        ),
        !same_asset(asset_infos@[0], asset_infos@[1]) && exists ==> r == Err::<
            Vec<u8>,
            ContractError,
        >(ContractError::PairWasCreated {}),
        !same_asset(asset_infos@[0], asset_infos@[1]) && !exists ==> match pair_config {
            None => r == Err::<Vec<u8>, ContractError>(ContractError::PairConfigNotFound {}),
            Some(c) => if c.is_disabled {
                r == Err::<Vec<u8>, ContractError>(ContractError::PairConfigDisabled {})
            } else {
                r is Ok && r->Ok_0@ == pair_key_of(asset_infos@[0], asset_infos@[1])
            },
        },
{
    if asset_infos[0].equal(&asset_infos[1]) {
        return Err(ContractError::DoublingAssets {});
    }
    if exists {
        return Err(ContractError::PairWasCreated {});
    }
    match pair_config {
        None => Err(ContractError::PairConfigNotFound {}),
        Some(c) => if c.is_disabled {
            Err(ContractError::PairConfigDisabled {})
        } else {
            Ok(pair_key(asset_infos))
        },
    }
}

} // verus!
