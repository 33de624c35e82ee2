//! Names of the models behind the gateway.

use vstd::prelude::*;

verus! {

broadcast use vstd::string::group_string_axioms;

/// The name of a model: its family, a hyphen and the variant.
pub open spec fn model_name(family: Seq<char>, variant: Seq<char>) -> Seq<char> {
    family + "-"@ + variant
}

/// The name of a model of a family.
pub fn family_model(family: &str, variant: &str) -> (r: String)
    ensures
        r@ == model_name(family@, variant@),
{
    let mut name = family.to_owned();
    name.push_str("-");
    name.push_str(variant);
    name
}

} // verus!
