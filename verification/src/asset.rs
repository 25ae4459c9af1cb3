use vstd::prelude::*;

use crate::error::ContractError;

verus! {

/// The two payment rails a listing can be denominated in: an amount of a
/// native currency, or an amount of a fungible-token contract's token.
#[derive(Debug)]
pub enum AssetInfo {
    NativeToken { denom: String },
    Token { contract_addr: String },
}

/// Mathematical image of [`AssetInfo`].
pub enum AssetInfoV {
    NativeToken { denom: Seq<char> },
    Token { contract_addr: Seq<char> },
}

impl View for AssetInfo {
    type V = AssetInfoV;

    open spec fn view(&self) -> AssetInfoV {
        match self {
            AssetInfo::NativeToken { denom } => AssetInfoV::NativeToken { denom: denom@ },
            AssetInfo::Token { contract_addr } => AssetInfoV::Token { contract_addr: contract_addr@ },
        }
    }
}

impl DeepView for AssetInfo {
    type V = AssetInfoV;

    open spec fn deep_view(&self) -> AssetInfoV {
        self@
    }
}

impl Clone for AssetInfo {
    fn clone(&self) -> (r: AssetInfo)
        ensures
            r@ == self@,
    {
        match self {
            AssetInfo::NativeToken { denom } => AssetInfo::NativeToken { denom: denom.clone() },
            AssetInfo::Token { contract_addr } => AssetInfo::Token {
                contract_addr: contract_addr.clone(),
            },
        }
    }
}

impl PartialEq for AssetInfo {
    fn eq(&self, other: &AssetInfo) -> (r: bool) {
        match self {
            AssetInfo::NativeToken { denom: a } => match other {
                AssetInfo::NativeToken { denom: b } => *a == *b,
                _ => false,
            },
            AssetInfo::Token { contract_addr: a } => match other {
                AssetInfo::Token { contract_addr: b } => *a == *b,
                _ => false,
            },
        }
    }
}

impl vstd::std_specs::cmp::PartialEqSpecImpl for AssetInfo {
    open spec fn obeys_eq_spec() -> bool {
        true
    }

    open spec fn eq_spec(&self, other: &AssetInfo) -> bool {
        self@ == other@
    }
}

/// A value in one of the two payment rails.
#[derive(Debug)]
pub struct Asset {
    pub info: AssetInfo,
    pub amount: u128,
}

/// Mathematical image of [`Asset`].
pub struct AssetV {
    pub info: AssetInfoV,
    pub amount: u128,
}

impl View for Asset {
    type V = AssetV;

    open spec fn view(&self) -> AssetV {
        AssetV { info: self.info@, amount: self.amount }
    }
}

impl DeepView for Asset {
    type V = AssetV;

    open spec fn deep_view(&self) -> AssetV {
        self@
    }
}

impl Clone for Asset {
    fn clone(&self) -> (r: Asset)
        ensures
            r@ == self@,
    {
        Asset { info: self.info.clone(), amount: self.amount }
    }
}

/// One native-currency payment attached to an inbound invocation.
#[derive(Debug)]
pub struct Coin {
    pub denom: String,
    pub amount: u128,
}

/// Mathematical image of [`Coin`].
pub struct CoinV {
    pub denom: Seq<char>,
    pub amount: u128,
}

impl View for Coin {
    type V = CoinV;

    open spec fn view(&self) -> CoinV {
        CoinV { denom: self.denom@, amount: self.amount }
    }
}

impl DeepView for Coin {
    type V = CoinV;

    open spec fn deep_view(&self) -> CoinV {
        self@
    }
}

/// The amount of the first attached coin of the given denomination, or zero
/// when none of the attached coins has it.
pub open spec fn first_matching_amount(funds: Seq<CoinV>, denom: Seq<char>) -> u128
    decreases funds.len(),
{
    if funds.len() == 0 {
        0
    } else if funds[0].denom == denom {
        funds[0].amount
    } else {
        first_matching_amount(funds.skip(1), denom)
    }
}

/// An inbound asset is covered: a native asset must be matched exactly by the
/// attached native payment; a token asset arrives through the token
/// contract's own notification and needs no further check here.
pub open spec fn incoming_ok(asset: AssetV, funds: Seq<CoinV>) -> bool {
    match asset.info {
        AssetInfoV::NativeToken { denom } => first_matching_amount(funds, denom) == asset.amount,
        AssetInfoV::Token { .. } => true,
    }
}

proof fn lemma_first_matching_skip(funds: Seq<CoinV>, denom: Seq<char>, i: int)
    requires
        0 <= i <= funds.len(),
        forall|j: int| 0 <= j < i ==> funds[j].denom != denom,
    ensures
        first_matching_amount(funds, denom) == first_matching_amount(funds.skip(i), denom),
    decreases i,
{
    if i > 0 {
        assert(funds[0].denom != denom);
        assert(forall|j: int| 0 <= j < i - 1 ==> funds.skip(1)[j].denom != denom);
        lemma_first_matching_skip(funds.skip(1), denom, i - 1);
        assert(funds.skip(1).skip(i - 1) =~= funds.skip(i));
    } else {
        assert(funds.skip(0) =~= funds);
    }
}

/// Checks that the attached native payment carries exactly the declared
/// amount of the declared denomination; fails with `InsufficientFundsSend`
/// otherwise. A token-rail asset passes unconditionally.
pub fn validate_incoming(asset: &Asset, funds: &Vec<Coin>) -> (r: Result<(), ContractError>)
    ensures
        r is Ok <==> incoming_ok(asset@, funds.deep_view()),
        r is Err ==> r == Err::<(), ContractError>(ContractError::InsufficientFundsSend),
{
    match &asset.info {
        AssetInfo::Token { .. } => Ok(()),
        AssetInfo::NativeToken { denom } => {
            let n = funds.len();
            let mut i: usize = 0;
            while i < n
                invariant
                    n == funds.len(),
                    0 <= i <= n,
                    asset@.info == (AssetInfoV::NativeToken { denom: denom@ }),
                    forall|j: int| 0 <= j < i ==> funds.deep_view()[j].denom != denom@,
                decreases n - i,
            {
                if funds[i].denom == *denom {
                    proof {
                        lemma_first_matching_skip(funds.deep_view(), denom@, i as int);
                        assert(funds.deep_view().skip(i as int)[0] == funds.deep_view()[i as int]);
                    }
                    if funds[i].amount == asset.amount {
                        return Ok(());
                    } else {
                        return Err(ContractError::InsufficientFundsSend);
                    }
                }
                i += 1;
            }
            proof {
                lemma_first_matching_skip(funds.deep_view(), denom@, n as int);
                assert(funds.deep_view().skip(n as int).len() == 0);
            }
            if asset.amount == 0 {
                Ok(())
            } else {
                Err(ContractError::InsufficientFundsSend)
            }
        },
    }
}

} // verus!
