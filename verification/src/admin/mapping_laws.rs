//! What a mapping of models keeps of the entries that it is made of.

use vstd::prelude::*;

use crate::admin::model_mapping::{
    default_mapping, mapping_of, named_entries, norm_spec, resolved, trimmed_entries,
    MappingView, ModelMapping,
};
use crate::openai::handlers::mapped_model;
use crate::text::{lower, trim};

verus! {

broadcast use vstd::string::group_string_axioms;

/// A name that has an entry stands for the model of that entry; a name without one,
/// and a blank name, stand for none.
pub proof fn a_name_stands_for_its_entry(
    m: Map<Seq<char>, MappingView>,
    model: Seq<char>,
    e: MappingView,
)
    ensures
        trim(model).len() > 0 ==> resolved(m.insert(lower(trim(model)), e), model) == Some(
            e.target,
        ),
        !m.contains_key(lower(trim(model))) ==> resolved(m, model) is None,
        trim(model).len() == 0 ==> resolved(m, model) is None,
        norm_spec(model) == lower(trim(model)),
{
}

/// A request is for the model that its name stands for, and for the named one where
/// that stands for none.
pub proof fn a_request_is_for_the_mapped_model(
    m: Map<Seq<char>, MappingView>,
    model: Seq<char>,
    target: Seq<char>,
)
    ensures
        resolved(m, model) == Some(target) ==> mapped_model(Some(m), model) == target,
        resolved(m, model) is None ==> mapped_model(Some(m), model) == model,
        mapped_model(None, model) == model,
{
}

/// An entry of a list is kept under its name, in place of an earlier one of the same
/// name; one without a name is left out.
pub proof fn listed_entries_are_kept(list: Seq<ModelMapping>, e: ModelMapping, model: Seq<char>)
    ensures
        trim(e.source@).len() > 0 && norm_spec(model) == norm_spec(e.source@) ==> resolved(
            named_entries(list.push(e)),
            model,
        ) == Some(e.target@),
        norm_spec(model) != norm_spec(e.source@) ==> resolved(named_entries(list.push(e)), model)
            == resolved(named_entries(list), model),
        trim(e.source@).len() == 0 ==> named_entries(list.push(e)) == named_entries(list),
        resolved(named_entries(Seq::empty()), model) is None,
{
    assert(list.push(e).drop_last() =~= list);
}

/// Entries that replace all others are kept trimmed, unless a name in them is blank.
pub proof fn replacing_entries_are_trimmed(
    list: Seq<ModelMapping>,
    e: ModelMapping,
    model: Seq<char>,
)
    ensures
        trim(e.source@).len() > 0 && trim(e.target@).len() > 0 && norm_spec(model) == norm_spec(
            e.source@,
        ) ==> resolved(trimmed_entries(list.push(e)), model) == Some(trim(e.target@)),
        trim(e.source@).len() == 0 || trim(e.target@).len() == 0 ==> trimmed_entries(list.push(e))
            == trimmed_entries(list),
        norm_spec(model) != norm_spec(e.source@) ==> resolved(
            trimmed_entries(list.push(e)),
            model,
        ) == resolved(trimmed_entries(list), model),
        resolved(trimmed_entries(Seq::empty()), model) is None,
{
    assert(list.push(e).drop_last() =~= list);
    crate::text::trim_idempotent(e.source@);
}

/// A list that shows a mapping has each entry under its name, as it was entered.
pub proof fn a_list_shows_its_entries(list: Seq<ModelMapping>, e: ModelMapping, key: Seq<char>)
    ensures
        mapping_of(list.push(e)).contains_key(norm_spec(e.source@)),
        mapping_of(list.push(e))[norm_spec(e.source@)].source == e.source@,
        mapping_of(list.push(e))[norm_spec(e.source@)].target == e.target@,
        key != norm_spec(e.source@) ==> (mapping_of(list.push(e)).contains_key(key) <==> mapping_of(
            list,
        ).contains_key(key)),
        mapping_of(Seq::empty()) == Map::<Seq<char>, MappingView>::empty(),
{
    assert(list.push(e).drop_last() =~= list);
}

/// An entry that is taken out stands for nothing any more, and the others stay.
pub proof fn a_removed_name_stands_for_nothing(
    m: Map<Seq<char>, MappingView>,
    source: Seq<char>,
    model: Seq<char>,
)
    ensures
        resolved(m.remove(norm_spec(source)), source) is None,
        norm_spec(model) != norm_spec(source) ==> resolved(m.remove(norm_spec(source)), model)
            == resolved(m, model),
{
}

/// A first start knows two names.
pub proof fn a_first_start_knows_two_names(family: Seq<char>, model: Seq<char>)
    ensures
        lower(trim(model)) != lower(trim("gpt-5.5"@)) && lower(trim(model)) != lower(
            trim("gpt-5.4"@),
        ) ==> resolved(default_mapping(family), model) is None,
{
}

} // verus!
