use vstd::prelude::*;

use crate::asset::AssetInfo;

verus! {

/// The kinds of pool that the registry can create.
#[derive(Debug, Clone, Copy, PartialEq, Eq, Structural)]
pub enum PairType {
    /// Constant-product pool.
    Xyk {},
    /// StableSwap pool.
    Stable {},
}

/// What describes a created pool.
#[derive(Debug, Clone, PartialEq, Eq)]
pub struct PairInfo {
    pub asset_infos: [AssetInfo; 2],
    pub contract_addr: String,
    pub liquidity_token: String,
    pub pair_type: PairType,
}

/// The configuration of one kind of pool.
#[derive(Debug, Clone, Copy, PartialEq, Eq, Structural)]
pub struct PairConfig {
    /// Code of the contract that pools of this kind run.
    pub code_id: u64,
    pub pair_type: PairType,
    /// A disabled kind creates no new pools; existing ones keep working.
    pub is_disabled: bool,
}

/// `a` is the token contract at address `addr`.
pub open spec fn is_token_at(a: AssetInfo, addr: Seq<char>) -> bool {
    match a {
        AssetInfo::Token { contract_addr } => contract_addr@ == addr,
        AssetInfo::NativeToken { .. } => false,
    }
}

impl PairInfo {
    /// Whether `sender` is the address of one of the pool's token assets:
    /// only those may send tokens to be swapped.
    pub fn holds_token(&self, sender: &String) -> (r: bool)
        ensures
            r == (is_token_at(self.asset_infos@[0], sender@) || is_token_at(
                self.asset_infos@[1],
                sender@,
            )),
    {
        let mut found = false;
        let mut i: usize = 0;
        while i < 2
            invariant
                i <= 2,
                found == exists|j: int| 0 <= j < i && is_token_at(self.asset_infos@[j], sender@),
            decreases 2 - i,
        {
            if let AssetInfo::Token { contract_addr } = &self.asset_infos[i] {
                if *contract_addr == *sender {
                    found = true;
                }
            }
            i = i + 1;
        }
        assert(found == (is_token_at(self.asset_infos@[0], sender@) || is_token_at(
            self.asset_infos@[1],
            sender@,
        )));
        found
    }
}

impl PairType {
    /// The name of the kind of pool.
    pub fn name(&self) -> (r: &'static str)
        ensures
            r@ == (match *self {
                PairType::Xyk {} => "xyk"@,
                PairType::Stable {} => "stable"@,
            }),
    {
        match self {
            PairType::Xyk {} => {
                proof {
                    reveal_strlit("xyk");
                }
                "xyk"
            },
            PairType::Stable {} => {
                proof {
                    reveal_strlit("stable");
                }
                "stable"
            },
        }
    }
}

} // verus!
