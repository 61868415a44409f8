//! The logo asset shown for each organization.

use vstd::prelude::*;
use crate::model::Organization;

verus! {

/// The logo asset path for an organization.
pub fn map_org_to_logo_url(org: &Organization) -> (r: &'static str)
    ensures
        r@ == match *org {
            Organization::AnonymousAlcoholics => "/logos/aa.png"@,
            Organization::DebtorsAnonymous => "/logos/da.png"@,
            Organization::CrystalMethAnonymous => "/logos/cma_resize.webp"@,
            Organization::CodependentsAnonymous => "/logos/coda.png"@,
            Organization::NarcoticsAnonymous => "/logos/na.png"@,
        },
{
    match org {
        Organization::AnonymousAlcoholics => "/logos/aa.png",
        Organization::DebtorsAnonymous => "/logos/da.png",
        Organization::CrystalMethAnonymous => "/logos/cma_resize.webp",
        Organization::CodependentsAnonymous => "/logos/coda.png",
        Organization::NarcoticsAnonymous => "/logos/na.png",
    }
}

} // verus!
