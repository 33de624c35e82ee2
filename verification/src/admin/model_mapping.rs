//! Names of models that stand for others.
//!
//! A client may ask for a model by a name of its own. The mapping says which
//! model that is. The case of ASCII letters and white space around a name make
//! no difference.

use vstd::prelude::*;

use crate::model::names::{family_model, model_name};
use crate::text::{
    chars_less, chars_of, lex_less, lower, opt_view, str_eq, to_lower, trim, trim_str,
};

verus! {

broadcast use vstd::string::group_string_axioms;

/// The name of the file, beside that of the credentials, that the mapping is kept
/// in.
pub const MODEL_MAPPINGS_FILE: &'static str = "model_mappings.json";

/// One entry of the mapping.
#[derive(Debug, PartialEq, Eq)]
pub struct ModelMapping {
    /// The name that clients ask for.
    pub source: String,
    /// The model that they get.
    pub target: String,
}

/// One entry of the mapping.
pub struct MappingView {
    pub source: Seq<char>,
    pub target: Seq<char>,
}

impl ModelMapping {
    pub open spec fn view(&self) -> MappingView {
        MappingView { source: self.source@, target: self.target@ }
    }
}

impl Clone for ModelMapping {
    fn clone(&self) -> (r: Self)
        ensures
            r == *self,
    {
        ModelMapping { source: self.source.clone(), target: self.target.clone() }
    }
}

/// A name, as it is looked up.
pub open spec fn norm_spec(source: Seq<char>) -> Seq<char> {
    lower(trim(source))
}

fn norm(source: &str) -> (r: String)
    ensures
        r@ == norm_spec(source@),
{
    to_lower(trim_str(source))
}

/// The mapping that a list of entries makes up; a later entry replaces an
/// earlier one of the same name.
pub open spec fn mapping_of(list: Seq<ModelMapping>) -> Map<Seq<char>, MappingView>
    decreases list.len(),
{
    if list.len() == 0 {
        Map::empty()
    } else {
        mapping_of(list.drop_last()).insert(norm_spec(list.last().source@), list.last()@)
    }
}

/// The entries of a list whose names are not empty.
pub open spec fn named_entries(list: Seq<ModelMapping>) -> Map<Seq<char>, MappingView>
    decreases list.len(),
{
    if list.len() == 0 {
        Map::empty()
    } else if norm_spec(list.last().source@).len() == 0 {
        named_entries(list.drop_last())
    } else {
        named_entries(list.drop_last()).insert(norm_spec(list.last().source@), list.last()@)
    }
}

/// The entries of a list, trimmed, as far as neither name is blank.
pub open spec fn trimmed_entries(list: Seq<ModelMapping>) -> Map<Seq<char>, MappingView>
    decreases list.len(),
{
    if list.len() == 0 {
        Map::empty()
    } else {
        let front = trimmed_entries(list.drop_last());
        let source = trim(list.last().source@);
        let target = trim(list.last().target@);
        if source.len() == 0 || target.len() == 0 {
            front
        } else {
            front.insert(norm_spec(source), MappingView { source, target })
        }
    }
}

/// The mapping of a first start, to models of a family.
pub open spec fn default_mapping(family: Seq<char>) -> Map<Seq<char>, MappingView> {
    Map::<Seq<char>, MappingView>::empty().insert(
        norm_spec("gpt-5.5"@),
        MappingView { source: "gpt-5.5"@, target: model_name(family, "opus-4.8"@) },
    ).insert(
        norm_spec("gpt-5.4"@),
        MappingView { source: "gpt-5.4"@, target: model_name(family, "opus-4.8"@) },
    )
}

/// The mapping.
#[derive(Debug)]
pub struct ModelMappingManager {
    entries: Vec<ModelMapping>,
}

spec fn distinct_names(list: Seq<ModelMapping>) -> bool {
    forall|i: int, j: int|
        0 <= i < j < list.len() ==> norm_spec((#[trigger] list[i]).source@) != norm_spec(
            (#[trigger] list[j]).source@,
        )
}

spec fn all_named(list: Seq<ModelMapping>) -> bool {
    forall|i: int| 0 <= i < list.len() ==> norm_spec((#[trigger] list[i]).source@).len() > 0
}

proof fn lemma_mapping_index(list: Seq<ModelMapping>, i: int)
    requires
        0 <= i < list.len(),
        distinct_names(list),
    ensures
        mapping_of(list).contains_key(norm_spec(list[i].source@)),
        mapping_of(list)[norm_spec(list[i].source@)] == list[i]@,
    decreases list.len(),
{
    if i < list.len() - 1 {
        assert(distinct_names(list.drop_last()));
        lemma_mapping_index(list.drop_last(), i);
        assert(list.drop_last()[i] == list[i]);
    }
}

proof fn lemma_mapping_missing(list: Seq<ModelMapping>, key: Seq<char>)
    requires
        forall|i: int| 0 <= i < list.len() ==> norm_spec((#[trigger] list[i]).source@) != key,
    ensures
        !mapping_of(list).contains_key(key),
    decreases list.len(),
{
    if list.len() > 0 {
        lemma_mapping_missing(list.drop_last(), key);
    }
}

proof fn lemma_mapping_key(list: Seq<ModelMapping>, key: Seq<char>) -> (i: int)
    requires
        mapping_of(list).contains_key(key),
    ensures
        0 <= i < list.len(),
        norm_spec(list[i].source@) == key,
    decreases list.len(),
{
    if norm_spec(list.last().source@) == key {
        list.len() - 1
    } else {
        lemma_mapping_key(list.drop_last(), key)
    }
}

proof fn lemma_mapping_update(list: Seq<ModelMapping>, i: int, m: ModelMapping)
    requires
        0 <= i < list.len(),
        distinct_names(list),
        norm_spec(m.source@) == norm_spec(list[i].source@),
    ensures
        distinct_names(list.update(i, m)),
        mapping_of(list.update(i, m)) == mapping_of(list).insert(norm_spec(m.source@), m@),
{
    let after = list.update(i, m);
    let key = norm_spec(m.source@);
    assert forall|k: Seq<char>| mapping_of(after).contains_key(k) <==> (mapping_of(
        list,
    ).contains_key(k) || k == key) by {
        if mapping_of(after).contains_key(k) {
            let j = lemma_mapping_key(after, k);
            lemma_mapping_index(list, j);
        }
        if mapping_of(list).contains_key(k) {
            let j = lemma_mapping_key(list, k);
            assert(norm_spec(after[j].source@) == k);
            lemma_mapping_index(after, j);
        }
        lemma_mapping_index(after, i);
    }
    assert forall|k: Seq<char>| mapping_of(after).contains_key(k) implies mapping_of(after)[k]
        == mapping_of(list).insert(key, m@)[k] by {
        let j = lemma_mapping_key(after, k);
        lemma_mapping_index(after, j);
        lemma_mapping_index(list, j);
    }
    assert(mapping_of(after) =~= mapping_of(list).insert(key, m@));
}

proof fn lemma_mapping_remove(list: Seq<ModelMapping>, i: int)
    requires
        0 <= i < list.len(),
        distinct_names(list),
    ensures
        distinct_names(list.remove(i)),
        mapping_of(list.remove(i)) == mapping_of(list).remove(norm_spec(list[i].source@)),
{
    let after = list.remove(i);
    let key = norm_spec(list[i].source@);
    assert forall|a: int, b: int| 0 <= a < b < after.len() implies norm_spec(
        (#[trigger] after[a]).source@,
    ) != norm_spec((#[trigger] after[b]).source@) by {
        let x = if a < i {
            a
        } else {
            a + 1
        };
        let y = if b < i {
            b
        } else {
            b + 1
        };
        assert(after[a] == list[x] && after[b] == list[y]);
    }
    assert forall|k: Seq<char>| mapping_of(after).contains_key(k) <==> (mapping_of(
        list,
    ).contains_key(k) && k != key) by {
        if mapping_of(after).contains_key(k) {
            let j = lemma_mapping_key(after, k);
            let x = if j < i {
                j
            } else {
                j + 1
            };
            assert(after[j] == list[x]);
            lemma_mapping_index(list, x);
        }
        if mapping_of(list).contains_key(k) && k != key {
            let j = lemma_mapping_key(list, k);
            let x = if j < i {
                j
            } else {
                j - 1
            };
            assert(after[x] == list[j]);
            lemma_mapping_index(after, x);
        }
    }
    assert forall|k: Seq<char>| mapping_of(after).contains_key(k) implies mapping_of(after)[k]
        == mapping_of(list)[k] by {
        let j = lemma_mapping_key(after, k);
        let x = if j < i {
            j
        } else {
            j + 1
        };
        assert(after[j] == list[x]);
        lemma_mapping_index(after, j);
        lemma_mapping_index(list, x);
    }
    assert(mapping_of(after) =~= mapping_of(list).remove(key));
}

impl ModelMappingManager {
    /// The mapping, by the names as they are looked up.
    pub closed spec fn view(&self) -> Map<Seq<char>, MappingView> {
        mapping_of(self.entries@)
    }

    /// No name is there twice, and none is blank.
    pub closed spec fn wf(&self) -> bool {
        distinct_names(self.entries@) && all_named(self.entries@)
    }

    /// A mapping without entries.
    pub fn new() -> (r: Self)
        ensures
            r.wf(),
            r@ == Map::<Seq<char>, MappingView>::empty(),
    {
        ModelMappingManager { entries: Vec::new() }
    }

    fn find(&self, key: &str) -> (r: Option<usize>)
        requires
            self.wf(),
        ensures
            match r {
                Some(i) => i < self.entries@.len() && norm_spec(self.entries@[i as int].source@)
                    == key@ && self@.contains_key(key@) && self@[key@]
                    == self.entries@[i as int]@,
                None => !self@.contains_key(key@) && forall|i: int|
                    0 <= i < self.entries@.len() ==> norm_spec(
                        (#[trigger] self.entries@[i]).source@,
                    ) != key@,
            },
    {
        let mut i: usize = 0;
        while i < self.entries.len()
            invariant
                i <= self.entries@.len(),
                self.wf(),
                forall|k: int|
                    0 <= k < i ==> norm_spec((#[trigger] self.entries@[k]).source@) != key@,
            decreases self.entries@.len() - i,
        {
            if str_eq(norm(self.entries[i].source.as_str()).as_str(), key) {
                proof {
                    lemma_mapping_index(self.entries@, i as int);
                }
                return Some(i);
            }
            i += 1;
        }
        proof {
            lemma_mapping_missing(self.entries@, key@);
        }
        None
    }

    fn put(&mut self, entry: ModelMapping)
        requires
            old(self).wf(),
            norm_spec(entry.source@).len() > 0,
        ensures
            final(self).wf(),
            final(self)@ == old(self)@.insert(norm_spec(entry.source@), entry@),
    {
        let ghost before = self.entries@;
        let key = norm(entry.source.as_str());
        match self.find(key.as_str()) {
            Some(i) => {
                proof {
                    lemma_mapping_update(self.entries@, i as int, entry);
                }
                self.entries.set(i, entry);
            },
            None => {
                self.entries.push(entry);
                assert(self.entries@.drop_last() =~= before);
            },
        }
    }

    /// The mapping of a list of entries. An entry without a name is left out.
    pub fn from_list(list: Vec<ModelMapping>) -> (r: Self)
        ensures
            r.wf(),
            r@ == named_entries(list@),
    {
        let mut out = ModelMappingManager::new();
        let mut i: usize = 0;
        assert(list@.take(0) =~= Seq::<ModelMapping>::empty());
        while i < list.len()
            invariant
                i <= list@.len(),
                out.wf(),
                out@ == named_entries(list@.take(i as int)),
            decreases list@.len() - i,
        {
            assert(list@.take(i + 1).drop_last() =~= list@.take(i as int));
            if !norm(list[i].source.as_str()).as_str().is_empty() {
                out.put(list[i].clone());
            }
            i += 1;
        }
        assert(list@.take(list@.len() as int) =~= list@);
        out
    }

    /// The mapping of a first start, to models of a family.
    pub fn with_defaults(family: &str) -> (r: Self)
        ensures
            r.wf(),
            r@ == default_mapping(family@),
    {
        proof {
            reveal_strlit("gpt-5.5");
            reveal_strlit("gpt-5.4");
            assert(trim("gpt-5.5"@) == "gpt-5.5"@);
            assert(trim("gpt-5.4"@) == "gpt-5.4"@);
        }
        let mut out = ModelMappingManager::new();
        out.put(
            ModelMapping { source: "gpt-5.5".to_owned(), target: family_model(family, "opus-4.8") },
        );
        out.put(
            ModelMapping { source: "gpt-5.4".to_owned(), target: family_model(family, "opus-4.8") },
        );
        out
    }

    /// The model that a name stands for.
    pub fn resolve(&self, model: &str) -> (r: Option<String>)
        requires
            self.wf(),
        ensures
            opt_view(r) == resolved(self@, model@),
    {
        let key = norm(model);
        if key.as_str().is_empty() {
            return None;
        }
        match self.find(key.as_str()) {
            Some(i) => Some(self.entries[i].target.clone()),
            None => None,
        }
    }

    /// Sets an entry. Both names are trimmed, and must not be blank.
    pub fn upsert(&mut self, source: &str, target: &str) -> (r: Result<ModelMapping, String>)
        requires
            old(self).wf(),
        ensures
            final(self).wf(),
            match r {
                Ok(m) => {
                    &&& trim(source@).len() > 0 && trim(target@).len() > 0
                    &&& m@ == (MappingView { source: trim(source@), target: trim(target@) })
                    &&& final(self)@ == old(self)@.insert(norm_spec(trim(source@)), m@)
                },
                Err(e) => {
                    &&& final(self)@ == old(self)@
                    &&& trim(source@).len() == 0 && e@ == "源模型名不能为空"@
                        || trim(source@).len() > 0 && trim(target@).len() == 0 && e@
                        == "目标模型名不能为空"@
                },
            },
    {
        proof {
            crate::text::trim_idempotent(source@);
        }
        let source = trim_str(source);
        let target = trim_str(target);
        if source.is_empty() {
            return Err("源模型名不能为空".to_owned());
        }
        if target.is_empty() {
            return Err("目标模型名不能为空".to_owned());
        }
        let entry = ModelMapping { source: source.to_owned(), target: target.to_owned() };
        self.put(entry.clone());
        Ok(entry)
    }

    /// Removes an entry, and says whether there was one.
    pub fn remove(&mut self, source: &str) -> (r: bool)
        requires
            old(self).wf(),
        ensures
            final(self).wf(),
            r == old(self)@.contains_key(norm_spec(source@)),
            final(self)@ == old(self)@.remove(norm_spec(source@)),
    {
        let key = norm(source);
        match self.find(key.as_str()) {
            Some(i) => {
                proof {
                    lemma_mapping_remove(self.entries@, i as int);
                }
                self.entries.remove(i);
                true
            },
            None => {
                assert(self@.remove(key@) =~= self@);
                false
            },
        }
    }

    /// Replaces the whole mapping. Names are trimmed; an entry with a blank one
    /// is left out.
    pub fn replace_all(&mut self, mappings: Vec<ModelMapping>)
        ensures
            final(self).wf(),
            final(self)@ == trimmed_entries(mappings@),
    {
        let mut out = ModelMappingManager::new();
        let mut i: usize = 0;
        assert(mappings@.take(0) =~= Seq::<ModelMapping>::empty());
        while i < mappings.len()
            invariant
                i <= mappings@.len(),
                out.wf(),
                out@ == trimmed_entries(mappings@.take(i as int)),
            decreases mappings@.len() - i,
        {
            assert(mappings@.take(i + 1).drop_last() =~= mappings@.take(i as int));
            proof {
                crate::text::trim_idempotent(mappings@[i as int].source@);
            }
            let source = trim_str(mappings[i].source.as_str());
            let target = trim_str(mappings[i].target.as_str());
            if !source.is_empty() && !target.is_empty() {
                out.put(ModelMapping { source: source.to_owned(), target: target.to_owned() });
            }
            i += 1;
        }
        assert(mappings@.take(mappings@.len() as int) =~= mappings@);
        *self = out;
    }
}

impl Default for ModelMappingManager {
    /// A mapping without entries.
    fn default() -> (r: Self)
        ensures
            r.wf(),
            r@ == Map::<Seq<char>, MappingView>::empty(),
    {
        ModelMappingManager::new()
    }
}

/// The model that a name stands for in a mapping; a blank name stands for none.
pub open spec fn resolved(m: Map<Seq<char>, MappingView>, model: Seq<char>) -> Option<Seq<char>> {
    let key = norm_spec(model);
    if key.len() > 0 && m.contains_key(key) {
        Some(m[key].target)
    } else {
        None
    }
}

/// The entries of a list are in the order of their names, where the case of
/// ASCII letters makes no difference.
pub open spec fn in_name_order(list: Seq<ModelMapping>) -> bool {
    forall|i: int, j: int|
        0 <= i < j < list.len() ==> lex_less(
            lower((#[trigger] list[i]).source@),
            lower((#[trigger] list[j]).source@),
        )
}

proof fn lemma_same_lower_same_norm(a: Seq<char>, b: Seq<char>)
    requires
        lower(a) == lower(b),
    ensures
        norm_spec(a) == norm_spec(b),
{
    crate::text::lower_trim_commute(a);
    crate::text::lower_trim_commute(b);
}

fn source_less(a: &ModelMapping, b: &ModelMapping) -> (r: bool)
    ensures
        r == lex_less(lower(a.source@), lower(b.source@)),
{
    let x = to_lower(a.source.as_str());
    let y = to_lower(b.source.as_str());
    chars_less(&chars_of(x.as_str()), &chars_of(y.as_str()))
}

/// Puts an entry into a list in its order, where no entry has its name.
fn insert_sorted(list: &mut Vec<ModelMapping>, entry: ModelMapping)
    requires
        in_name_order(old(list)@),
        distinct_names(old(list)@),
        forall|i: int|
            0 <= i < old(list)@.len() ==> norm_spec((#[trigger] old(list)@[i]).source@)
                != norm_spec(entry.source@),
    ensures
        in_name_order(final(list)@),
        distinct_names(final(list)@),
        exists|k: int|
            0 <= k <= old(list)@.len() && final(list)@ == #[trigger] old(list)@.insert(k, entry),
{
    let mut k: usize = 0;
    while k < list.len() && !source_less(&entry, &list[k])
        invariant
            k <= list@.len(),
            list@ == old(list)@,
            forall|i: int|
                0 <= i < k ==> !lex_less(lower(entry.source@), lower((#[trigger] list@[i]).source@)),
        decreases list@.len() - k,
    {
        k += 1;
    }
    list.insert(k, entry);
    proof {
        let before = old(list)@;
        let after = list@;
        assert(after == before.insert(k as int, entry));
        assert forall|i: int| 0 <= i < before.len() implies lower(
            (#[trigger] before[i]).source@,
        ) != lower(entry.source@) by {
            if lower(before[i].source@) == lower(entry.source@) {
                lemma_same_lower_same_norm(before[i].source@, entry.source@);
            }
        }
        assert forall|i: int, j: int| 0 <= i < j < after.len() implies lex_less(
            lower((#[trigger] after[i]).source@),
            lower((#[trigger] after[j]).source@),
        ) by {
            let e = lower(entry.source@);
            if j < k {
                assert(after[i] == before[i] && after[j] == before[j]);
            } else if j == k {
                assert(after[i] == before[i]);
                crate::text::lex_less_total(lower(before[i].source@), e);
            } else if i < k {
                assert(after[i] == before[i] && after[j] == before[j - 1]);
            } else if i == k {
                assert(after[j] == before[j - 1]);
                if j - 1 > k {
                    crate::text::lex_less_transitive(
                        e,
                        lower(before[k as int].source@),
                        lower(before[j - 1].source@),
                    );
                }
            } else {
                assert(after[i] == before[i - 1] && after[j] == before[j - 1]);
            }
        }
        assert forall|i: int, j: int| 0 <= i < j < after.len() implies norm_spec(
            (#[trigger] after[i]).source@,
        ) != norm_spec((#[trigger] after[j]).source@) by {
            let x = if i < k {
                i
            } else {
                i - 1
            };
            let y = if j < k {
                j
            } else {
                j - 1
            };
            if i != k && j != k {
                assert(after[i] == before[x] && after[j] == before[y]);
            } else if i == k {
                assert(after[j] == before[y]);
            } else {
                assert(after[i] == before[x]);
            }
        }
    }
}

proof fn lemma_mapping_insert(list: Seq<ModelMapping>, k: int, entry: ModelMapping)
    requires
        0 <= k <= list.len(),
        distinct_names(list.insert(k, entry)),
        distinct_names(list),
    ensures
        mapping_of(list.insert(k, entry)) == mapping_of(list).insert(
            norm_spec(entry.source@),
            entry@,
        ),
{
    let after = list.insert(k, entry);
    lemma_mapping_remove(after, k);
    assert(after.remove(k) =~= list);
    lemma_mapping_index(after, k);
    assert(mapping_of(after) =~= mapping_of(list).insert(norm_spec(entry.source@), entry@));
}

impl ModelMappingManager {
    /// The entries, in the order of their names.
    pub fn list(&self) -> (r: Vec<ModelMapping>)
        requires
            self.wf(),
        ensures
            in_name_order(r@),
            mapping_of(r@) == self@,
            r@.len() == self@.len(),
    {
        let mut out: Vec<ModelMapping> = Vec::new();
        let mut i: usize = 0;
        let ghost all = self.entries@;
        assert(all.take(0) =~= Seq::<ModelMapping>::empty());
        while i < self.entries.len()
            invariant
                i <= self.entries@.len(),
                all == self.entries@,
                distinct_names(all),
                in_name_order(out@),
                distinct_names(out@),
                mapping_of(out@) == mapping_of(all.take(i as int)),
                out@.len() == i,
                mapping_of(out@).dom().finite(),
                mapping_of(out@).len() == i,
            decreases self.entries@.len() - i,
        {
            let ghost before = out@;
            let ghost entry = all[i as int];
            proof {
                assert(all.take(i + 1).drop_last() =~= all.take(i as int));
                assert forall|k: int| 0 <= k < out@.len() implies norm_spec(
                    (#[trigger] out@[k]).source@,
                ) != norm_spec(entry.source@) by {
                    lemma_mapping_index(out@, k);
                    let j = lemma_mapping_key(all.take(i as int), norm_spec(out@[k].source@));
                    assert(all[j] == all.take(i as int)[j]);
                }
                lemma_mapping_missing(out@, norm_spec(entry.source@));
            }
            insert_sorted(&mut out, self.entries[i].clone());
            proof {
                let k = choose|k: int|
                    0 <= k <= before.len() && out@ == #[trigger] before.insert(k, entry);
                lemma_mapping_insert(before, k, entry);
            }
            i += 1;
        }
        assert(all.take(all.len() as int) =~= all);
        out
    }
}

/// An entry that was set is what its name stands for from then on, however the
/// name is written, and leaves other names as they were.
pub proof fn upsert_then_resolve(
    m: Map<Seq<char>, MappingView>,
    source: Seq<char>,
    target: Seq<char>,
    model: Seq<char>,
)
    requires
        trim(source).len() > 0,
    ensures
        ({
            let after = m.insert(
                norm_spec(trim(source)),
                MappingView { source: trim(source), target: trim(target) },
            );
            if norm_spec(model) == norm_spec(source) {
                resolved(after, model) == Some(trim(target))
            } else {
                resolved(after, model) == resolved(m, model)
            }
        }),
{
    crate::text::trim_idempotent(source);
}

/// A blank name is never in a mapping.
pub proof fn names_are_not_blank(m: &ModelMappingManager)
    requires
        m.wf(),
    ensures
        !m@.contains_key(Seq::empty()),
{
    lemma_mapping_missing(m.entries@, Seq::empty());
}

/// A mapping whose entries were listed and are put together again is the same.
pub proof fn a_listed_mapping_reads_back(
    m: Map<Seq<char>, MappingView>,
    list: Seq<ModelMapping>,
)
    requires
        !m.contains_key(Seq::empty()),
        mapping_of(list) == m,
    ensures
        named_entries(list) == m,
{
    lemma_all_counted(list);
    if !all_named(list) {
        let i = choose|i: int|
            0 <= i < list.len() && norm_spec((#[trigger] list[i]).source@).len() == 0;
        assert(norm_spec(list[i].source@) =~= Seq::<char>::empty());
        lemma_mapping_has(list, i);
    }
}

proof fn lemma_all_counted(list: Seq<ModelMapping>)
    ensures
        all_named(list) ==> named_entries(list) == mapping_of(list),
    decreases list.len(),
{
    if list.len() > 0 {
        lemma_all_counted(list.drop_last());
        if all_named(list) {
            assert(all_named(list.drop_last())) by {
                assert forall|i: int| 0 <= i < list.drop_last().len() implies norm_spec(
                    (#[trigger] list.drop_last()[i]).source@,
                ).len() > 0 by {
                    assert(list.drop_last()[i] == list[i]);
                }
            }
            assert(list.last() == list[list.len() - 1]);
        }
    }
}

proof fn lemma_mapping_has(list: Seq<ModelMapping>, i: int)
    requires
        0 <= i < list.len(),
    ensures
        mapping_of(list).contains_key(norm_spec(list[i].source@)),
    decreases list.len(),
{
    if i < list.len() - 1 {
        lemma_mapping_has(list.drop_last(), i);
        assert(list.drop_last()[i] == list[i]);
    }
}

/// Names that differ only in the case of ASCII letters, or in white space around
/// them, stand for the same model.
pub proof fn resolve_ignores_case_and_space(
    m: Map<Seq<char>, MappingView>,
    a: Seq<char>,
    b: Seq<char>,
)
    requires
        lower(trim(a)) == lower(trim(b)),
    ensures
        resolved(m, a) == resolved(m, b),
{
}

} // verus!
