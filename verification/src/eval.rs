//! What the generated operations compute, run on the generated tables.

use vstd::prelude::*;
use crate::canonical::spec_canonical;
use crate::descriptor::RecordTypeDescriptor;
use crate::selector::{lemma_selection_keeps_order, spec_is_eligible, spec_rank};
use crate::synth::{Branch, GeneratedArtifactSet, branch_views, lemma_arm_has_eligible_source, lemma_eligible_member_has_arms, spec_generate};

verus! {

/// One instance of the tagged-value enumeration: a variant and its payload.
#[derive(Clone, Debug)]
pub struct TaggedValue {
    pub variant: String,
    pub payload: String,
}

impl View for TaggedValue {
    type V = (Seq<char>, Seq<char>);

    open spec fn view(&self) -> (Seq<char>, Seq<char>) {
        (self.variant@, self.payload@)
    }
}

/// The values of a sequence of tagged values, in the same order.
pub open spec fn tagged_views(values: Seq<TaggedValue>) -> Seq<(Seq<char>, Seq<char>)> {
    values.map_values(|t: TaggedValue| t@)
}

/// A partial record: for each eligible field, in field order, the member's
/// declared name and the value it was set to, if it was set.
#[derive(Clone, Debug)]
pub struct PartialRecord {
    pub fields: Vec<String>,
    pub values: Vec<Option<String>>,
}

/// The value of one slot of a partial record.
pub open spec fn slot_view(slot: Option<String>) -> Option<Seq<char>> {
    match slot {
        Some(v) => Some(v@),
        None => None,
    }
}

/// The values of the slots of a partial record, in the same order.
pub open spec fn slot_views(slots: Seq<Option<String>>) -> Seq<Option<Seq<char>>> {
    slots.map_values(|s: Option<String>| slot_view(s))
}

/// The texts of a sequence of strings, in the same order.
pub open spec fn text_views(texts: Seq<String>) -> Seq<Seq<char>> {
    texts.map_values(|t: String| t@)
}

/// The index of the first arm whose pattern is `key`, if there is one.
pub open spec fn spec_find_arm(arms: Seq<(Seq<char>, Seq<char>)>, key: Seq<char>) -> Option<int>
    decreases arms.len(),
{
    if arms.len() == 0 {
        None
    } else {
        match spec_find_arm(arms.drop_last(), key) {
            Some(i) => Some(i),
            None => if arms.last().0 == key {
                Some(arms.len() - 1)
            } else {
                None
            },
        }
    }
}

/// What a `match` over the arms gives for `key`: the target of the first arm
/// whose pattern is `key`.
pub open spec fn spec_lookup(arms: Seq<(Seq<char>, Seq<char>)>, key: Seq<char>) -> Option<
    Seq<char>,
> {
    match spec_find_arm(arms, key) {
        Some(i) => Some(arms[i].1),
        None => None,
    }
}

/// What the converter gives for a tagged value: the column of its variant
/// and the value expression made of its payload.
pub open spec fn spec_convert(arms: Seq<(Seq<char>, Seq<char>)>, field: (Seq<char>, Seq<char>))
    -> Option<(Seq<char>, Seq<char>)> {
    match spec_find_arm(arms, field.0) {
        Some(i) => Some((arms[i].1, field.1)),
        None => None,
    }
}

/// The slots after one tagged value was applied: the slot of its variant is
/// set to its payload, every other slot stays as it was.
pub open spec fn spec_apply(
    arms: Seq<(Seq<char>, Seq<char>)>,
    slots: Seq<Option<Seq<char>>>,
    field: (Seq<char>, Seq<char>),
) -> Seq<Option<Seq<char>>> {
    match spec_find_arm(arms, field.0) {
        Some(i) => slots.update(i, Some(field.1)),
        None => slots,
    }
}

/// The slots after a batch of tagged values was applied in order, starting
/// from a record in which nothing is set.
pub open spec fn spec_fold(arms: Seq<(Seq<char>, Seq<char>)>, batch: Seq<(Seq<char>, Seq<char>)>)
    -> Seq<Option<Seq<char>>>
    decreases batch.len(),
{
    if batch.len() == 0 {
        Seq::new(arms.len(), |i: int| None)
    } else {
        spec_apply(arms, spec_fold(arms, batch.drop_last()), batch.last())
    }
}

/// The arm that is found is the first one whose pattern is the key; none is
/// found exactly when no pattern is the key.
pub proof fn lemma_find_arm_is_first_match(arms: Seq<(Seq<char>, Seq<char>)>, key: Seq<char>)
    ensures
        match spec_find_arm(arms, key) {
            Some(i) => 0 <= i < arms.len() && arms[i].0 == key && forall|k: int|
                0 <= k < i ==> (#[trigger] arms[k]).0 != key,
            None => forall|k: int| 0 <= k < arms.len() ==> (#[trigger] arms[k]).0 != key,
        },
    decreases arms.len(),
{
    if arms.len() > 0 {
        let front = arms.drop_last();
        lemma_find_arm_is_first_match(front, key);
        assert(forall|k: int| 0 <= k < front.len() ==> front[k] == arms[k]);
    }
}

/// The resolver answers every key: with the target of the first arm whose
/// pattern is the key, and with `None` exactly when no arm has that pattern.
pub proof fn lemma_lookup_total(arms: Seq<(Seq<char>, Seq<char>)>, key: Seq<char>)
    ensures
        spec_lookup(arms, key).is_some() <==> exists|k: int|
            0 <= k < arms.len() && (#[trigger] arms[k]).0 == key,
        forall|k: int|
            0 <= k < arms.len() && (#[trigger] arms[k]).0 == key && (forall|m: int|
                0 <= m < k ==> (#[trigger] arms[m]).0 != key) ==> spec_lookup(arms, key) == Some(
                arms[k].1,
            ),
{
    lemma_find_arm_is_first_match(arms, key);
}

/// An arm found among the first `n` arms is the arm found among all.
pub proof fn lemma_find_arm_in_prefix(arms: Seq<(Seq<char>, Seq<char>)>, n: int, key: Seq<char>)
    requires
        0 <= n <= arms.len(),
        spec_find_arm(arms.take(n), key).is_some(),
    ensures
        spec_find_arm(arms, key) == spec_find_arm(arms.take(n), key),
    decreases arms.len(),
{
    if n == arms.len() {
        assert(arms.take(n) =~= arms);
    } else {
        assert(arms.drop_last().take(n) =~= arms.take(n));
        lemma_find_arm_in_prefix(arms.drop_last(), n, key);
    }
}

/// Folding a batch gives one slot per arm.
pub proof fn lemma_fold_len(arms: Seq<(Seq<char>, Seq<char>)>, batch: Seq<(Seq<char>, Seq<char>)>)
    ensures
        spec_fold(arms, batch).len() == arms.len(),
    decreases batch.len(),
{
    if batch.len() > 0 {
        lemma_fold_len(arms, batch.drop_last());
        lemma_find_arm_is_first_match(arms, batch.last().0);
    }
}

/// Last write wins: the slot of an arm holds the payload of the last tagged
/// value of the batch that matches the arm.
pub proof fn lemma_last_write_wins(
    arms: Seq<(Seq<char>, Seq<char>)>,
    batch: Seq<(Seq<char>, Seq<char>)>,
    slot: int,
    k: int,
)
    requires
        0 <= k < batch.len(),
        spec_find_arm(arms, batch[k].0) == Some(slot),
        forall|m: int|
            k < m < batch.len() ==> spec_find_arm(arms, (#[trigger] batch[m]).0) != Some(slot),
    ensures
        0 <= slot < spec_fold(arms, batch).len(),
        spec_fold(arms, batch)[slot] == Some(batch[k].1),
    decreases batch.len(),
{
    let front = batch.drop_last();
    lemma_fold_len(arms, front);
    lemma_fold_len(arms, batch);
    lemma_find_arm_is_first_match(arms, batch[k].0);
    lemma_find_arm_is_first_match(arms, batch.last().0);
    if k < batch.len() - 1 {
        assert(front[k] == batch[k]);
        assert forall|m: int| k < m < front.len() implies spec_find_arm(
            arms,
            (#[trigger] front[m]).0,
        ) != Some(slot) by {
            assert(front[m] == batch[m]);
        }
        lemma_last_write_wins(arms, front, slot, k);
    }
}

/// A slot whose arm no tagged value of the batch matches stays unset.
pub proof fn lemma_untouched_stays_unset(
    arms: Seq<(Seq<char>, Seq<char>)>,
    batch: Seq<(Seq<char>, Seq<char>)>,
    slot: int,
)
    requires
        0 <= slot < arms.len(),
        forall|m: int|
            0 <= m < batch.len() ==> spec_find_arm(arms, (#[trigger] batch[m]).0) != Some(slot),
    ensures
        spec_fold(arms, batch).len() == arms.len(),
        spec_fold(arms, batch)[slot] == None::<Seq<char>>,
    decreases batch.len(),
{
    lemma_fold_len(arms, batch);
    if batch.len() > 0 {
        let front = batch.drop_last();
        lemma_fold_len(arms, front);
        lemma_find_arm_is_first_match(arms, batch.last().0);
        assert forall|m: int| 0 <= m < front.len() implies spec_find_arm(
            arms,
            (#[trigger] front[m]).0,
        ) != Some(slot) by {
            assert(front[m] == batch[m]);
        }
        lemma_untouched_stays_unset(arms, front, slot);
    }
}

/// Finds the first arm whose pattern is `key`.
pub fn find_arm(arms: &Vec<Branch>, key: &str) -> (r: Option<usize>)
    ensures
        spec_find_arm(branch_views(arms@), key@) == match r {
            Some(i) => Some(i as int),
            None => None,
        },
        r matches Some(i) ==> i < arms@.len(),
{
    let wanted = String::from_str(key);
    let ghost views = branch_views(arms@);
    let mut i: usize = 0;
    assert(views.take(0) =~= Seq::empty());
    while i < arms.len()
        invariant
            i <= arms@.len(),
            views == branch_views(arms@),
            wanted@ == key@,
            spec_find_arm(views.take(i as int), key@).is_none(),
        decreases arms@.len() - i,
    {
        proof {
            assert(views.take(i + 1).drop_last() =~= views.take(i as int));
            assert(views.take(i + 1).last() == arms@[i as int]@);
        }
        if arms[i].pattern == wanted {
            proof {
                lemma_find_arm_in_prefix(views, i + 1, key@);
            }
            return Some(i);
        }
        i += 1;
    }
    assert(views.take(arms@.len() as int) =~= views);
    None
}

impl PartialRecord {
    /// The record as a sequence of slots: the set value of each field, or
    /// `None` where the field is unset.
    pub open spec fn spec_values(&self) -> Seq<Option<Seq<char>>> {
        slot_views(self.values@)
    }

    /// The declared names of the fields, in field order.
    pub open spec fn spec_fields(&self) -> Seq<Seq<char>> {
        text_views(self.fields@)
    }

    /// Every field has its slot.
    pub open spec fn well_formed(&self) -> bool {
        self.fields@.len() == self.values@.len()
    }

    /// A record of the given fields in which nothing is set.
    pub fn unset(fields: Vec<String>) -> (r: PartialRecord)
        ensures
            r.well_formed(),
            r.spec_fields() == text_views(fields@),
            r.spec_values() == Seq::new(fields@.len(), |i: int| None::<Seq<char>>),
    {
        let mut values: Vec<Option<String>> = Vec::new();
        let mut i: usize = 0;
        while i < fields.len()
            invariant
                i <= fields@.len(),
                values@.len() == i,
                forall|k: int| 0 <= k < i ==> (#[trigger] values@[k]).is_none(),
            decreases fields@.len() - i,
        {
            values.push(None);
            i += 1;
        }
        assert(slot_views(values@) =~= Seq::new(fields@.len(), |i: int| None::<Seq<char>>));
        PartialRecord { fields, values }
    }

    /// Marks the field at `slot` as set to `value`. Every other field stays
    /// as it was.
    pub fn set(&mut self, slot: usize, value: String)
        requires
            old(self).well_formed(),
            slot < old(self).values@.len(),
        ensures
            final(self).well_formed(),
            final(self).fields@ == old(self).fields@,
            final(self).spec_values() == old(self).spec_values().update(
                slot as int,
                Some(value@),
            ),
    {
        self.values.set(slot, Some(value));
        assert(self.spec_values() =~= old(self).spec_values().update(slot as int, Some(value@)));
    }

    /// The value that the first field named `name` was set to; `None` where
    /// it is unset or no field has that name.
    pub fn get(&self, name: &str) -> (r: Option<String>)
        requires
            self.well_formed(),
        ensures
            slot_view(r) == match spec_first_named(self.spec_fields(), name@) {
                Some(i) => self.spec_values()[i],
                None => None,
            },
    {
        let wanted = String::from_str(name);
        let mut i: usize = 0;
        while i < self.fields.len()
            invariant
                i <= self.fields@.len(),
                self.well_formed(),
                wanted@ == name@,
                forall|k: int| 0 <= k < i ==> (#[trigger] self.fields@[k])@ != name@,
            decreases self.fields@.len() - i,
        {
            if self.fields[i] == wanted {
                proof {
                    lemma_first_named(self.spec_fields(), name@, i as int);
                }
                return match &self.values[i] {
                    Some(v) => Some(v.clone()),
                    None => None,
                };
            }
            i += 1;
        }
        proof {
            lemma_none_named(self.spec_fields(), name@);
        }
        None
    }
}

/// The least index at which `name` stands, if it stands anywhere.
pub open spec fn spec_first_named(names: Seq<Seq<char>>, name: Seq<char>) -> Option<int> {
    if exists|i: int| 0 <= i < names.len() && #[trigger] names[i] == name {
        Some(
            choose|i: int|
                0 <= i < names.len() && #[trigger] names[i] == name && forall|k: int|
                    0 <= k < i ==> #[trigger] names[k] != name,
        )
    } else {
        None
    }
}

/// An index at which `name` stands, with no earlier one, is the first.
pub proof fn lemma_first_named(names: Seq<Seq<char>>, name: Seq<char>, i: int)
    requires
        0 <= i < names.len(),
        names[i] == name,
        forall|k: int| 0 <= k < i ==> #[trigger] names[k] != name,
    ensures
        spec_first_named(names, name) == Some(i),
{
    let j = choose|j: int|
        0 <= j < names.len() && #[trigger] names[j] == name && forall|k: int|
            0 <= k < j ==> #[trigger] names[k] != name;
    assert(j == i) by {
        if j < i {
            assert(names[j] != name);
        }
        if i < j {
            assert(names[i] != name);
        }
    }
}

/// Where `name` stands nowhere, there is no first index.
pub proof fn lemma_none_named(names: Seq<Seq<char>>, name: Seq<char>)
    requires
        forall|k: int| 0 <= k < names.len() ==> #[trigger] names[k] != name,
    ensures
        spec_first_named(names, name).is_none(),
{
}

impl GeneratedArtifactSet {
    /// The resolver: the column of the field whose lookup key is `s`, or
    /// `None` where no field has that key.
    pub fn str2col(&self, s: &str) -> (r: Option<String>)
        ensures
            slot_view(r) == spec_lookup(self@.resolver, s@),
    {
        match find_arm(&self.resolver, s) {
            Some(i) => Some(self.resolver[i].target.clone()),
            None => None,
        }
    }

    /// The converter: the column of the tagged value's variant, paired with
    /// the value expression made of its payload. `None` where the variant is
    /// not one of the enumeration.
    pub fn field2cv(&self, field: &TaggedValue) -> (r: Option<(String, String)>)
        ensures
            match r {
                Some(cv) => spec_convert(self@.converter, field@) == Some((cv.0@, cv.1@)),
                None => spec_convert(self@.converter, field@).is_none(),
            },
    {
        match find_arm(&self.converter, field.variant.as_str()) {
            Some(i) => Some((self.converter[i].target.clone(), field.payload.clone())),
            None => None,
        }
    }

    /// The folder: starts from a record in which nothing is set and applies
    /// the tagged values in order, each setting the member of its variant.
    /// A tagged value whose variant is not one of the enumeration sets
    /// nothing.
    pub fn fields2active(&self, fields: &Vec<TaggedValue>) -> (r: PartialRecord)
        ensures
            r.well_formed(),
            r.spec_fields() == spec_targets(self@.folder),
            r.spec_values() == spec_fold(self@.folder, tagged_views(fields@)),
    {
        let ghost arms = self@.folder;
        let ghost batch = tagged_views(fields@);
        let mut names: Vec<String> = Vec::new();
        let mut i: usize = 0;
        while i < self.folder.len()
            invariant
                i <= self.folder@.len(),
                names@.len() == i,
                forall|k: int| 0 <= k < i ==> (#[trigger] names@[k])@ == self.folder@[k].target@,
            decreases self.folder@.len() - i,
        {
            names.push(self.folder[i].target.clone());
            i += 1;
        }
        assert(text_views(names@) =~= spec_targets(arms));
        let mut model = PartialRecord::unset(names);
        let mut n: usize = 0;
        assert(batch.take(0) =~= Seq::empty());
        assert(model.spec_values() =~= spec_fold(arms, batch.take(0)));
        while n < fields.len()
            invariant
                n <= fields@.len(),
                arms == self@.folder,
                batch == tagged_views(fields@),
                model.well_formed(),
                model.values@.len() == self.folder@.len(),
                model.spec_fields() == spec_targets(arms),
                model.spec_values() == spec_fold(arms, batch.take(n as int)),
            decreases fields@.len() - n,
        {
            proof {
                assert(batch.take(n + 1).drop_last() =~= batch.take(n as int));
                assert(batch.take(n + 1).last() == fields@[n as int]@);
            }
            let field = &fields[n];
            match find_arm(&self.folder, field.variant.as_str()) {
                Some(slot) => {
                    model.set(slot, field.payload.clone());
                },
                None => {},
            }
            n += 1;
        }
        assert(batch.take(fields@.len() as int) =~= batch);
        model
    }
}

/// The targets of the arms, in arm order.
pub open spec fn spec_targets(arms: Seq<(Seq<char>, Seq<char>)>) -> Seq<Seq<char>> {
    arms.map_values(|a: (Seq<char>, Seq<char>)| a.1)
}

/// Looking up the lookup key of an eligible member gives the column of that
/// member, provided no eligible member declared before it has the same
/// lookup key.
pub proof fn lemma_resolver_finds_member(input: RecordTypeDescriptor, j: int)
    requires
        0 <= j < input.members@.len(),
        spec_is_eligible(input.members@[j]),
        forall|k: int|
            0 <= k < j && spec_is_eligible(#[trigger] input.members@[k]) ==> spec_canonical(
                input.members@[k].name.unwrap()@,
            ).lookup_key != spec_canonical(input.members@[j].name.unwrap()@).lookup_key,
    ensures
        spec_lookup(
            spec_generate(input).resolver,
            spec_canonical(input.members@[j].name.unwrap()@).lookup_key,
        ) == Some(spec_canonical(input.members@[j].name.unwrap()@).type_ref),
{
    let members = input.members@;
    let arms = spec_generate(input).resolver;
    let canon = spec_canonical(members[j].name.unwrap()@);
    let at = spec_rank(members, j);
    lemma_eligible_member_has_arms(input, j);
    assert forall|m: int| 0 <= m < at implies (#[trigger] arms[m]).0 != canon.lookup_key by {
        let k = lemma_arm_has_eligible_source(input, m);
        lemma_eligible_member_has_arms(input, k);
        if k > j {
            lemma_selection_keeps_order(members, j, k);
        }
    }
    lemma_lookup_total(arms, canon.lookup_key);
}

/// Looking up a key that is the lookup key of no eligible member gives no
/// column.
pub proof fn lemma_resolver_rejects_unknown(input: RecordTypeDescriptor, key: Seq<char>)
    requires
        forall|k: int|
            0 <= k < input.members@.len() && spec_is_eligible(#[trigger] input.members@[k])
                ==> spec_canonical(input.members@[k].name.unwrap()@).lookup_key != key,
    ensures
        spec_lookup(spec_generate(input).resolver, key).is_none(),
{
    let arms = spec_generate(input).resolver;
    assert forall|m: int| 0 <= m < arms.len() implies (#[trigger] arms[m]).0 != key by {
        let k = lemma_arm_has_eligible_source(input, m);
        lemma_eligible_member_has_arms(input, k);
    }
    lemma_lookup_total(arms, key);
}

} // verus!
