//! The games whose gacha records the library manages.

use vstd::prelude::*;

verus! {

/// A game whose gacha records are kept.
#[derive(Clone, Copy, Debug, PartialEq, Eq, Structural, Hash)]
pub enum AccountBusiness {
    GenshinImpact,
    HonkaiStarRail,
    ZenlessZoneZero,
    MiliastraWonderland,
}

/// The numeric code a business is stored under.
pub open spec fn business_code_spec(business: AccountBusiness) -> u8 {
    match business {
        AccountBusiness::GenshinImpact => 0,
        AccountBusiness::HonkaiStarRail => 1,
        AccountBusiness::ZenlessZoneZero => 2,
        AccountBusiness::MiliastraWonderland => 3,
    }
}

/// The variant name of a business, as `{:?}` prints it.
pub open spec fn business_name_spec(business: AccountBusiness) -> Seq<char> {
    match business {
        AccountBusiness::GenshinImpact => "GenshinImpact"@,
        AccountBusiness::HonkaiStarRail => "HonkaiStarRail"@,
        AccountBusiness::ZenlessZoneZero => "ZenlessZoneZero"@,
        AccountBusiness::MiliastraWonderland => "MiliastraWonderland"@,
    }
}

impl AccountBusiness {
    /// The numeric code this business is stored under.
    pub fn code(self) -> (r: u8)
        ensures
            r == business_code_spec(self),
    {
        match self {
            AccountBusiness::GenshinImpact => 0,
            AccountBusiness::HonkaiStarRail => 1,
            AccountBusiness::ZenlessZoneZero => 2,
            AccountBusiness::MiliastraWonderland => 3,
        }
    }

    /// The business stored under `code`, if any.
    pub fn from_code(code: u8) -> (r: Option<AccountBusiness>)
        ensures
            r matches Some(b) ==> business_code_spec(b) == code,
            r is None <==> code > 3,
    {
        match code {
            0 => Some(AccountBusiness::GenshinImpact),
            1 => Some(AccountBusiness::HonkaiStarRail),
            2 => Some(AccountBusiness::ZenlessZoneZero),
            3 => Some(AccountBusiness::MiliastraWonderland),
            _ => None,
        }
    }

    /// The variant name of this business.
    pub fn name(self) -> (r: &'static str)
        ensures
            r@ == business_name_spec(self),
    {
        match self {
            AccountBusiness::GenshinImpact => "GenshinImpact",
            AccountBusiness::HonkaiStarRail => "HonkaiStarRail",
            AccountBusiness::ZenlessZoneZero => "ZenlessZoneZero",
            AccountBusiness::MiliastraWonderland => "MiliastraWonderland",
        }
    }
}

/// Decoding the code of a business gives the business back.
pub proof fn lemma_business_code_roundtrip(business: AccountBusiness)
    ensures
        business_code_spec(business) <= 3,
        forall|b: AccountBusiness|
            business_code_spec(b) == business_code_spec(business) ==> b == business,
{
}

} // verus!
