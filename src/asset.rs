use vstd::prelude::*;

use vstd::string::StrSliceExecFns;
use vstd::utf8::encode_utf8;

use crate::error::ContractError;
use crate::text::{lower_of, lowercase};

verus! {

/// What an asset is: a token contract, by its address, or a native coin, by
/// its denomination.
#[derive(Debug, Clone, PartialEq, Eq)]
pub enum AssetInfo {
    Token { contract_addr: String },
    NativeToken { denom: String },
}

/// An amount of an asset.
#[derive(Debug, Clone, PartialEq, Eq)]
pub struct Asset {
    pub info: AssetInfo,
    pub amount: u128,
}

/// A native coin sent along with a message.
#[derive(Debug, Clone, PartialEq, Eq)]
pub struct Coin {
    pub denom: String,
    pub amount: u128,
}

/// Two asset descriptions name the same asset.
pub open spec fn same_asset(a: AssetInfo, b: AssetInfo) -> bool {
    match (a, b) {
        (AssetInfo::Token { contract_addr: x }, AssetInfo::Token { contract_addr: y }) => x@ == y@,
        (AssetInfo::NativeToken { denom: x }, AssetInfo::NativeToken { denom: y }) => x@ == y@,
        _ => false,
    }
}

/// The text that identifies an asset: its address or its denomination.
pub open spec fn asset_name(a: AssetInfo) -> Seq<char> {
    match a {
        AssetInfo::Token { contract_addr } => contract_addr@,
        AssetInfo::NativeToken { denom } => denom@,
    }
}

/// The amount of the first coin of denomination `denom` in `funds`, or zero
/// when there is none.
pub open spec fn sent_amount(funds: Seq<Coin>, denom: Seq<char>) -> u128
    decreases funds.len(),
{
    if funds.len() == 0 {
        0
    } else if funds[0].denom@ == denom {
        funds[0].amount
    } else {
        sent_amount(funds.drop_first(), denom)
    }
}

/// `s` starts with `ibc/`.
pub open spec fn is_ibc_denom(s: Seq<char>) -> bool {
    s.len() >= 4 && s[0] == 'i' && s[1] == 'b' && s[2] == 'c' && s[3] == '/'
}

impl AssetInfo {
    /// The denomination rule of native coins: outside the `ibc/` namespace a
    /// denomination is written in lower case. Token addresses are checked by
    /// the host.
    pub fn check(&self) -> (r: Result<(), ContractError>)
        ensures
            r == match *self {
                AssetInfo::Token { .. } => Ok(()),
                AssetInfo::NativeToken { denom } => if !is_ibc_denom(denom@) && denom@ != lower_of(
                    denom@,
                ) {
                    Err(ContractError::NonLowercaseDenom {})
                } else {
                    Ok(())
                },
            },
    {
        match self {
            AssetInfo::Token { .. } => Ok(()),
            AssetInfo::NativeToken { denom } => {
                let text = denom.as_str();
                let ibc = text.unicode_len() >= 4 && text.get_char(0) == 'i' && text.get_char(1)
                    == 'b' && text.get_char(2) == 'c' && text.get_char(3) == '/';
                if !ibc && *denom != lowercase(text) {
                    Err(ContractError::NonLowercaseDenom {})
                } else {
                    Ok(())
                }
            },
        }
    }

    /// A copy of this description.
    pub fn duplicate(&self) -> (r: AssetInfo)
        ensures
            r == *self,
    {
        match self {
            AssetInfo::Token { contract_addr } => AssetInfo::Token {
                contract_addr: contract_addr.clone(),
            },
            AssetInfo::NativeToken { denom } => AssetInfo::NativeToken { denom: denom.clone() },
        }
    }

    /// Whether this is a native coin.
    pub fn is_native_token(&self) -> (r: bool)
        ensures
            r == (self is NativeToken),
    {
        match self {
            AssetInfo::NativeToken { .. } => true,
            AssetInfo::Token { .. } => false,
        }
    }

    /// Whether `self` and `asset` name the same asset.
    pub fn equal(&self, asset: &AssetInfo) -> (r: bool)
        ensures
            r == same_asset(*self, *asset),
    {
        match self {
            AssetInfo::Token { contract_addr } => {
                let own = contract_addr;
                match asset {
                    AssetInfo::Token { contract_addr } => *own == *contract_addr,
                    AssetInfo::NativeToken { .. } => false,
                }
            },
            AssetInfo::NativeToken { denom } => {
                let own = denom;
                match asset {
                    AssetInfo::Token { .. } => false,
                    AssetInfo::NativeToken { denom } => *own == *denom,
                }
            },
        }
    }

    /// The UTF-8 bytes of the address or denomination.
    pub fn as_bytes(&self) -> (r: &[u8])
        ensures
            r@ == match *self {
                AssetInfo::Token { contract_addr } => encode_utf8(contract_addr@),
                AssetInfo::NativeToken { denom } => encode_utf8(denom@),
            },
    {
        match self {
            AssetInfo::NativeToken { denom } => denom.as_str().as_bytes(),
            AssetInfo::Token { contract_addr } => contract_addr.as_str().as_bytes(),
        }
    }
}

impl Asset {
    /// Whether the asset is a native coin.
    pub fn is_native_token(&self) -> (r: bool)
        ensures
            r == (self.info is NativeToken),
    {
        self.info.is_native_token()
    }

    /// Whether the asset is a token contract.
    pub fn is_cw20_token(&self) -> (r: bool)
        ensures
            r == (self.info is Token),
    {
        !self.info.is_native_token()
    }

    /// Checks that a native asset's amount is what `funds` carry of its
    /// denomination (the first coin of it, or zero when there is none).
    /// Token assets always pass.
    pub fn assert_sent_native_token_balance(&self, funds: &Vec<Coin>) -> (r: Result<
        (),
        ContractError,
    >)
        ensures
            r == match self.info {
                AssetInfo::Token { .. } => Ok(()),
                AssetInfo::NativeToken { denom } => if self.amount == sent_amount(funds@, denom@) {
                    Ok(())
                } else {
                    Err(ContractError::NativeTokenBalanceMismatch {})
                },
            },
    {
        match &self.info {
            AssetInfo::Token { .. } => Ok(()),
            AssetInfo::NativeToken { denom } => {
                let mut i: usize = 0;
                let mut sent: u128 = 0;
                assert(funds@.skip(0) =~= funds@);
                while i < funds.len()
                    invariant_except_break
                        i <= funds.len(),
                        sent == 0,
                        sent_amount(funds@, denom@) == sent_amount(funds@.skip(i as int), denom@),
                    ensures
                        sent == sent_amount(funds@, denom@),
                    decreases funds.len() - i,
                {
                    assert(funds@.skip(i as int).drop_first() == funds@.skip(i + 1));
                    assert(funds@.skip(i as int)[0] == funds@[i as int]);
                    if funds[i].denom == *denom {
                        sent = funds[i].amount;
                        break;
                    }
                    i = i + 1;
                }
                if self.amount == sent {
                    Ok(())
                } else {
                    Err(ContractError::NativeTokenBalanceMismatch {})
                }
            },
        }
    }
}

/// A native coin asset.
pub fn native_asset(denom: String, amount: u128) -> (r: Asset)
    ensures
        r == (Asset { info: AssetInfo::NativeToken { denom }, amount }),
{
    Asset { info: AssetInfo::NativeToken { denom }, amount }
}

/// A token contract asset.
pub fn token_asset(contract_addr: String, amount: u128) -> (r: Asset)
    ensures
        r == (Asset { info: AssetInfo::Token { contract_addr }, amount }),
{
    Asset { info: AssetInfo::Token { contract_addr }, amount }
}

/// The description of a native coin.
pub fn native_asset_info(denom: String) -> (r: AssetInfo)
    ensures
        r == (AssetInfo::NativeToken { denom }),
{
    AssetInfo::NativeToken { denom }
}

/// The description of a token contract.
pub fn token_asset_info(contract_addr: String) -> (r: AssetInfo)
    ensures
        r == (AssetInfo::Token { contract_addr }),
{
    AssetInfo::Token { contract_addr }
}

} // verus!
