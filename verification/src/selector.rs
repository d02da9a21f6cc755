//! Selection of the members that take part in updates.

use vstd::prelude::*;
use crate::descriptor::{EligibleField, EligibleFieldView, Marker, MemberDescriptor, NestedMarker, field_views};

verus! {

/// The token that opts a member out, inside a marker group.
pub const ATTR_META_SKIP: &'static str = "skip";

/// The name of the marker group in which the opt-out token is looked for.
pub const MARKER_GROUP: &'static str = "struct_field";

/// The opt-out token, as a sequence of characters.
pub open spec fn spec_skip_token() -> Seq<char> {
    ATTR_META_SKIP@
}

/// The name of the marker group, as a sequence of characters.
pub open spec fn spec_marker_group() -> Seq<char> {
    MARKER_GROUP@
}

/// Whether a nested item is the bare identifier `skip`.
pub open spec fn spec_is_skip_item(item: NestedMarker) -> bool {
    match item {
        NestedMarker::Path(p) => p.spec_is_ident(spec_skip_token()),
        _ => false,
    }
}

/// Whether one of the items is the bare identifier `skip`.
pub open spec fn spec_holds_skip(items: Seq<NestedMarker>) -> bool {
    exists|i: int| 0 <= i < items.len() && spec_is_skip_item(#[trigger] items[i])
}

/// Whether `attr` is a marker group named `path` that holds the bare
/// identifier `skip` among its items. Any other marker, and any attachment
/// that could not be read as a marker, is not a skip marker.
pub open spec fn spec_has_skip_attr(attr: Marker, path: Seq<char>) -> bool {
    match attr {
        Marker::List(p, nested) => p.spec_is_ident(path) && spec_holds_skip(nested@),
        _ => false,
    }
}

/// Whether one of the markers of a member opts it out.
pub open spec fn spec_is_skipped(m: MemberDescriptor) -> bool {
    exists|i: int|
        0 <= i < m.markers@.len() && spec_has_skip_attr(
            #[trigger] m.markers@[i],
            spec_marker_group(),
        )
}

/// Whether a member takes part in updates: it has a name and no marker opts
/// it out.
pub open spec fn spec_is_eligible(m: MemberDescriptor) -> bool {
    m.name.is_some() && !spec_is_skipped(m)
}

/// What an eligible member becomes.
pub open spec fn spec_selected(m: MemberDescriptor) -> EligibleFieldView {
    EligibleFieldView { vis: m.vis, name: m.name.unwrap()@, ty: m.ty@ }
}

/// The eligible members of `members`, in declaration order.
pub open spec fn spec_filter_fields(members: Seq<MemberDescriptor>) -> Seq<EligibleFieldView>
    decreases members.len(),
{
    if members.len() == 0 {
        Seq::empty()
    } else {
        let before = spec_filter_fields(members.drop_last());
        if spec_is_eligible(members.last()) {
            before.push(spec_selected(members.last()))
        } else {
            before
        }
    }
}

/// Whether `attr` is the opt-out marker under the group name `path`.
pub fn has_skip_attr(attr: &Marker, path: &str) -> (r: bool)
    ensures
        r == spec_has_skip_attr(*attr, path@),
{
    match attr {
        Marker::List(p, nested) => {
            if !p.is_ident(path) {
                return false;
            }
            let mut i: usize = 0;
            while i < nested.len()
                invariant
                    i <= nested@.len(),
                    *attr == Marker::List(*p, *nested),
                    p.spec_is_ident(path@),
                    forall|k: int| 0 <= k < i ==> !spec_is_skip_item(#[trigger] nested@[k]),
                decreases nested@.len() - i,
            {
                match &nested[i] {
                    NestedMarker::Path(q) => {
                        if q.is_ident(ATTR_META_SKIP) {
                            assert(spec_is_skip_item(nested@[i as int]));
                            return true;
                        }
                    },
                    _ => {},
                }
                i += 1;
            }
            false
        },
        _ => false,
    }
}

/// Whether one of the markers of `member` opts it out of updates.
pub fn is_skipped(member: &MemberDescriptor) -> (r: bool)
    ensures
        r == spec_is_skipped(*member),
{
    let mut i: usize = 0;
    while i < member.markers.len()
        invariant
            i <= member.markers@.len(),
            forall|k: int|
                0 <= k < i ==> !spec_has_skip_attr(
                    #[trigger] member.markers@[k],
                    spec_marker_group(),
                ),
        decreases member.markers@.len() - i,
    {
        if has_skip_attr(&member.markers[i], MARKER_GROUP) {
            return true;
        }
        i += 1;
    }
    false
}

/// Selects the members that take part in updates: those with a name that no
/// marker opts out, in declaration order.
pub fn filter_fields(fields: &Vec<MemberDescriptor>) -> (out: Vec<EligibleField>)
    ensures
        field_views(out@) == spec_filter_fields(fields@),
{
    let mut out: Vec<EligibleField> = Vec::new();
    let mut i: usize = 0;
    assert(fields@.take(0) =~= Seq::empty());
    while i < fields.len()
        invariant
            i <= fields@.len(),
            field_views(out@) =~= spec_filter_fields(fields@.take(i as int)),
        decreases fields@.len() - i,
    {
        let member = &fields[i];
        proof {
            assert(fields@.take(i + 1).drop_last() =~= fields@.take(i as int));
            assert(fields@.take(i + 1).last() == fields@[i as int]);
        }
        let skipped = is_skipped(member);
        match &member.name {
            Some(name) => {
                if !skipped {
                    let field = EligibleField {
                        vis: member.vis,
                        name: name.clone(),
                        ty: member.ty.clone(),
                    };
                    assert(field@ == spec_selected(*member));
                    out.push(field);
                }
            },
            None => {},
        }
        i += 1;
    }
    assert(fields@.take(fields@.len() as int) =~= fields@);
    out
}

/// The position that member `j` has, or would have, among the eligible
/// fields: the number of eligible members declared before it.
pub open spec fn spec_rank(members: Seq<MemberDescriptor>, j: int) -> int {
    spec_filter_fields(members.take(j)).len() as int
}

/// The selection of the first `j` members is the start of the selection of
/// all members.
pub proof fn lemma_selection_of_prefix(members: Seq<MemberDescriptor>, j: int)
    requires
        0 <= j <= members.len(),
    ensures
        spec_filter_fields(members.take(j)).len() <= spec_filter_fields(members).len(),
        spec_filter_fields(members.take(j)) == spec_filter_fields(members).take(
            spec_rank(members, j),
        ),
    decreases members.len(),
{
    if j == members.len() {
        assert(members.take(j) =~= members);
        assert(spec_filter_fields(members).take(spec_rank(members, j)) =~= spec_filter_fields(
            members,
        ));
    } else {
        let front = members.drop_last();
        assert(front.take(j) =~= members.take(j));
        lemma_selection_of_prefix(front, j);
        assert(spec_filter_fields(front).take(spec_rank(members, j)) =~= spec_filter_fields(
            members,
        ).take(spec_rank(members, j)));
    }
}

/// An eligible member stands in the selection, at the position given by the
/// number of eligible members declared before it.
pub proof fn lemma_eligible_member_is_selected(members: Seq<MemberDescriptor>, j: int)
    requires
        0 <= j < members.len(),
        spec_is_eligible(members[j]),
    ensures
        0 <= spec_rank(members, j) < spec_filter_fields(members).len(),
        spec_filter_fields(members)[spec_rank(members, j)] == spec_selected(members[j]),
        spec_rank(members, j + 1) == spec_rank(members, j) + 1,
{
    assert(members.take(j + 1).drop_last() =~= members.take(j));
    assert(members.take(j + 1).last() == members[j]);
    lemma_selection_of_prefix(members, j + 1);
    let upto = spec_filter_fields(members.take(j + 1));
    assert(upto[spec_rank(members, j)] == spec_selected(members[j]));
    assert(upto[spec_rank(members, j)] == spec_filter_fields(members).take(
        spec_rank(members, j + 1),
    )[spec_rank(members, j)]);
}

/// The selection keeps the declaration order: of two eligible members, the
/// one declared first stands first, and no two share a position.
pub proof fn lemma_selection_keeps_order(members: Seq<MemberDescriptor>, j: int, k: int)
    requires
        0 <= j < k < members.len(),
        spec_is_eligible(members[j]),
    ensures
        spec_rank(members, j) < spec_rank(members, k),
{
    let upto = members.take(k);
    assert(upto.take(j + 1) =~= members.take(j + 1));
    assert(upto.take(j) =~= members.take(j));
    lemma_selection_of_prefix(upto, j + 1);
    lemma_eligible_member_is_selected(upto, j);
}

/// Every selected field comes from an eligible member: the result is the
/// index of a member that has a name, carries no opt-out marker, and stands
/// at position `i` of the selection.
pub proof fn lemma_selected_field_has_source(members: Seq<MemberDescriptor>, i: int) -> (j: int)
    requires
        0 <= i < spec_filter_fields(members).len(),
    ensures
        0 <= j < members.len(),
        spec_is_eligible(members[j]),
        spec_rank(members, j) == i,
        spec_filter_fields(members)[i] == spec_selected(members[j]),
    decreases members.len(),
{
    let front = members.drop_last();
    let last = members.len() - 1;
    if spec_is_eligible(members.last()) && i == spec_filter_fields(front).len() {
        assert(members.take(last) =~= front);
        last
    } else {
        let j = lemma_selected_field_has_source(front, i);
        assert(front.take(j) =~= members.take(j));
        j
    }
}

/// The opt-out is honoured member by member. A member that carries the
/// opt-out marker, or has no name, adds nothing to the selection. Any other
/// member adds exactly one field: its own, at a position that it shares with
/// no other member.
pub proof fn lemma_opt_out_is_honoured(members: Seq<MemberDescriptor>, j: int)
    requires
        0 <= j < members.len(),
    ensures
        spec_is_skipped(members[j]) || members[j].name.is_none() ==> spec_filter_fields(
            members.take(j + 1),
        ) == spec_filter_fields(members.take(j)),
        !spec_is_skipped(members[j]) && members[j].name.is_some() ==> {
            &&& spec_filter_fields(members.take(j + 1)) == spec_filter_fields(
                members.take(j),
            ).push(spec_selected(members[j]))
            &&& 0 <= spec_rank(members, j) < spec_filter_fields(members).len()
            &&& spec_filter_fields(members)[spec_rank(members, j)] == spec_selected(members[j])
            &&& forall|k: int|
                0 <= k < members.len() && k != j && spec_is_eligible(#[trigger] members[k])
                    ==> spec_rank(members, k) != spec_rank(members, j)
        },
{
    assert(members.take(j + 1).drop_last() =~= members.take(j));
    assert(members.take(j + 1).last() == members[j]);
    if spec_is_eligible(members[j]) {
        lemma_eligible_member_is_selected(members, j);
        assert forall|k: int|
            0 <= k < members.len() && k != j && spec_is_eligible(
                #[trigger] members[k],
            ) implies spec_rank(members, k) != spec_rank(members, j) by {
            if k < j {
                lemma_selection_keeps_order(members, k, j);
            } else {
                lemma_selection_keeps_order(members, j, k);
            }
        }
    }
}

/// What selection makes of one member: the field that it becomes, or
/// nothing.
pub open spec fn spec_select_one(m: MemberDescriptor) -> Option<EligibleFieldView> {
    if spec_is_eligible(m) {
        Some(spec_selected(m))
    } else {
        None
    }
}

/// [`spec_select_one`] as a function value.
pub open spec fn spec_selection_step() -> spec_fn(MemberDescriptor) -> Option<EligibleFieldView> {
    |m: MemberDescriptor| spec_select_one(m)
}

/// The selection is one pass over the members that filters and maps at
/// once: nothing is reordered, dropped or added beyond what
/// [`spec_select_one`] decides member by member.
pub proof fn lemma_selection_is_filter_map(members: Seq<MemberDescriptor>)
    ensures
        spec_filter_fields(members) == members.filter_map(spec_selection_step()),
    decreases members.len(),
{
    if members.len() > 0 {
        lemma_selection_is_filter_map(members.drop_last());
        let before = members.drop_last().filter_map(spec_selection_step());
        if spec_is_eligible(members.last()) {
            assert(before + seq![spec_selected(members.last())] =~= before.push(
                spec_selected(members.last()),
            ));
        }
    }
}

} // verus!
