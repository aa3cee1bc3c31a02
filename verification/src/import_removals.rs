//! What an import that overwrites does to the members whom the directory does not
//! list.
use crate::import_records::{
    goes, lists_members, owners, valid_records, works, Import, ImportPoint, MemberRecord, Records,
};
use crate::import_records_laws::{lemma_points_valid, lemma_without_member};
use crate::ldap_import::{lists, stale, sweep, Action, Event, ListedMember, Phase};
use crate::ldap_import_laws::{failing, lemma_sweep_goes_on};
use vstd::prelude::*;

verus! {

/// The member came from a directory that no longer lists them.
pub open spec fn is_stale(im: Import, members: Map<int, MemberRecord>, id: int) -> bool {
    &&& members.contains_key(id)
    &&& members[id].org == im.org
    &&& members[id].external_id is Some
    &&& !lists(im.data, members[id].external_id->0)
}

/// The member is a confirmed owner, and no other is left.
pub open spec fn is_last_owner(im: Import, members: Map<int, MemberRecord>, id: int) -> bool {
    im.owns(members, id) && im.owner_count(members) <= 1
}

/// Where every confirmed owner was one before, there are no more than before.
pub(crate) proof fn lemma_no_more_owners(
    im: Import,
    members: Map<int, MemberRecord>,
    new_members: Map<int, MemberRecord>,
)
    requires
        members.dom().finite(),
        forall|id: int| #[trigger] im.owns(new_members, id) ==> im.owns(members, id),
    ensures
        im.owner_count(new_members) <= im.owner_count(members),
{
    let before = owners(im.settings.codes, im.org, members);
    let after = owners(im.settings.codes, im.org, new_members);
    assert forall|id: int| #[trigger] after.contains(id) implies before.contains(id) by {
        assert(im.owns(new_members, id));
    }
    assert(before.finite());
    vstd::set_lib::lemma_len_subset(after, before);
}

/// Whoever is left of those whom an overwriting directory does not list is the
/// last confirmed owner.
pub open spec fn swept(im: Import, members: Map<int, MemberRecord>) -> bool {
    forall|id: int| #[trigger] is_stale(im, members, id) ==> is_last_owner(im, members, id)
}

/// The member is not stale, or gone, or stays as the last confirmed owner.
pub open spec fn dealt_with(
    im: Import,
    pre: Map<int, MemberRecord>,
    members: Map<int, MemberRecord>,
    id: int,
) -> bool {
    is_stale(im, pre, id) && members.contains_key(id) ==> is_last_owner(im, members, id)
}

/// The memberships, and who is in which group, are those of `pre` without some
/// stale members.
pub open spec fn some_gone(im: Import, pre: Records, records: Records) -> bool {
    &&& records == (Records {
        members: records.members,
        group_members: records.group_members,
        ..pre
    })
    &&& forall|id: int| #[trigger]
        records.members.contains_key(id) ==> pre.members.contains_key(id) && records.members[id]
            == pre.members[id]
    &&& forall|id: int| #[trigger]
        pre.members.contains_key(id) && !records.members.contains_key(id) ==> is_stale(
            im,
            pre.members,
            id,
        )
    &&& forall|pair: (int, int)| #[trigger]
        records.group_members.contains(pair) <==> pre.group_members.contains(pair)
            && records.members.contains_key(pair.1)
}

/// The removals have come to place `j` of the listing.
pub open spec fn removing_at(
    im: Import,
    pre: Records,
    point: ImportPoint,
    listed: Seq<ListedMember>,
    j: int,
) -> bool {
    let listing = point.stored.listing;
    let members = point.stored.records.members;
    &&& lists_members(pre.members, im.org, listing, listed)
    &&& 0 <= j < listing.len()
    &&& is_stale(im, pre.members, listing[j])
    &&& forall|k: int| 0 <= k < j ==> dealt_with(im, pre.members, members, #[trigger] listing[k])
    &&& forall|k: int| j <= k < listing.len() ==> members.contains_key(#[trigger] listing[k])
}

/// What is known while members are removed; `pre` is what was stored before that.
pub open spec fn sweeping(im: Import, pre: Records, point: ImportPoint) -> bool {
    let records = point.stored.records;
    &&& some_gone(im, pre, records)
    &&& match point.phase {
        Phase::CountBeforeDelete { listed, j } => {
            &&& removing_at(im, pre, point, listed@, j as int)
            &&& im.owns(pre.members, point.stored.listing[j as int])
        },
        Phase::DeleteMember { listed, j } => removing_at(im, pre, point, listed@, j as int),
        Phase::Done(_) => swept(im, records.members),
        _ => false,
    }
}

/// `sweep` passes over members that are not stale.
proof fn lemma_sweep_passes(im: Import, listed: Vec<ListedMember>, from: int)
    requires
        0 <= from <= listed@.len(),
    ensures
        match sweep(im.data, im.settings, listed, from) {
            Phase::CountBeforeDelete { j, .. } => forall|k: int|
                from <= k < j ==> !stale(im.data, #[trigger] listed@[k]),
            Phase::DeleteMember { j, .. } => forall|k: int|
                from <= k < j ==> !stale(im.data, #[trigger] listed@[k]),
            _ => forall|k: int|
                from <= k < listed@.len() ==> !stale(im.data, #[trigger] listed@[k]),
        },
    decreases listed@.len() - from,
{
    assert(listed.len() == listed@.len());
    if from < listed@.len() && !stale(im.data, listed@[from]) {
        lemma_sweep_passes(im, listed, from + 1);
    }
}

/// A member is stale where the listing says so.
pub(crate) proof fn lemma_listed_stale(
    im: Import,
    pre: Map<int, MemberRecord>,
    listing: Seq<int>,
    listed: Seq<ListedMember>,
    k: int,
)
    requires
        lists_members(pre, im.org, listing, listed),
        0 <= k < listing.len(),
    ensures
        stale(im.data, listed[k]) == is_stale(im, pre, listing[k]),
        im.settings.codes.confirmed_owner(listed[k].atype, listed[k].status) == im.owns(
            pre,
            listing[k],
        ),
{
    let id = listing[k];
    assert(pre.contains_key(id));
}

/// Going on from place `from` of the listing.
#[verifier::rlimit(60)]
pub(crate) proof fn lemma_sweep_on(
    im: Import,
    pre: Records,
    point: ImportPoint,
    listed: Vec<ListedMember>,
    from: int,
)
    requires
        some_gone(im, pre, point.stored.records),
        lists_members(pre.members, im.org, point.stored.listing, listed@),
        0 <= from <= listed@.len(),
        forall|k: int|
            0 <= k < from ==> dealt_with(
                im,
                pre.members,
                point.stored.records.members,
                #[trigger] point.stored.listing[k],
            ),
        forall|k: int|
            from <= k < listed@.len() ==> point.stored.records.members.contains_key(
                #[trigger] point.stored.listing[k],
            ),
        point.phase == sweep(im.data, im.settings, listed, from),
    ensures
        sweeping(im, pre, point),
        !failing(point.phase),
{
    let listing = point.stored.listing;
    let members = point.stored.records.members;
    lemma_sweep_goes_on(im.data, im.settings, listed, from);
    lemma_sweep_passes(im, listed, from);
    let end = match point.phase {
        Phase::CountBeforeDelete { j, .. } => j as int,
        Phase::DeleteMember { j, .. } => j as int,
        _ => listed@.len() as int,
    };
    assert forall|k: int| 0 <= k < end implies dealt_with(
        im,
        pre.members,
        members,
        #[trigger] listing[k],
    ) by {
        if from <= k {
            lemma_listed_stale(im, pre.members, listing, listed@, k);
        }
    }
    if end < listed@.len() {
        lemma_listed_stale(im, pre.members, listing, listed@, end);
    } else {
        assert forall|id: int| #[trigger] is_stale(im, members, id) implies is_last_owner(
            im,
            members,
            id,
        ) by {
            assert(pre.members.contains_key(id));
            assert(listing.contains(id));
            let k = choose|k: int| 0 <= k < listing.len() && listing[k] == id;
            assert(dealt_with(im, pre.members, members, listing[k]));
        }
    }
}

#[verifier::rlimit(60)]
pub(crate) proof fn lemma_sweeping_goes_on(
    im: Import,
    pre: Records,
    from: ImportPoint,
    action: Action,
    event: Event,
    to: ImportPoint,
)
    requires
        valid_records(from.stored.records),
        sweeping(im, pre, from),
        im.works(from, action, event, to),
        !failing(to.phase),
    ensures
        sweeping(im, pre, to),
{
    let stored = from.stored;
    let members = stored.records.members;
    let after = to.stored.records.members;
    match from.phase {
        Phase::CountBeforeDelete { listed, j } => {
            assert(members.contains_key(stored.listing[j as int]));
            assert(im.owns(members, stored.listing[j as int]));
            if event->Counted_0 <= 1 {
                lemma_sweep_on(im, pre, to, listed, j + 1);
            }
        },
        Phase::DeleteMember { listed, j } => {
            let gone = stored.listing[j as int];
            lemma_without_member(stored.records, gone);
            assert forall|id: int| #[trigger] im.owns(after, id) implies im.owns(members, id) by {
                assert(after.contains_key(id));
            }
            lemma_no_more_owners(im, members, after);
            assert(some_gone(im, pre, to.stored.records)) by {
                assert forall|id: int| #[trigger] after.contains_key(id) implies pre.members.contains_key(
                    id,
                ) && after[id] == pre.members[id] by {
                    assert(members.contains_key(id));
                }
                assert forall|id: int| #[trigger]
                    pre.members.contains_key(id) && !after.contains_key(id) implies is_stale(
                    im,
                    pre.members,
                    id,
                ) by {
                    if id != gone {
                        assert(!members.contains_key(id));
                    }
                }
            }
            assert forall|k: int| 0 <= k < j + 1 implies dealt_with(
                im,
                pre.members,
                after,
                #[trigger] stored.listing[k],
            ) by {
                if k < j {
                    assert(dealt_with(im, pre.members, members, stored.listing[k]));
                    if after.contains_key(stored.listing[k]) {
                        assert(members.contains_key(stored.listing[k]));
                    }
                }
            }
            assert forall|k: int| j + 1 <= k < listed@.len() implies after.contains_key(
                #[trigger] stored.listing[k],
            ) by {
                assert(stored.listing[k] != gone);
            }
            lemma_sweep_on(im, pre, to, listed, j + 1);
        },
        _ => {},
    }
}

proof fn lemma_points_after_listing(im: Import, points: Seq<ImportPoint>, p: int, k: int)
    requires
        im.history(points),
        valid_records(points[0].stored.records),
        0 <= p < k < points.len(),
        points[p].phase is ListMembers,
    ensures
        failing(points[k].phase) || sweeping(im, points[p].stored.records, points[k]),
    decreases k,
{
    let from = points[k - 1];
    let to = points[k];
    let pre = points[p].stored.records;
    lemma_points_valid(im.data, im.settings, im.org, im.rules, points, k - 1);
    assert(goes(im.data, im.settings, im.org, im.rules, from, to));
    let (action, event) = choose|action: Action, event: Event| #[trigger]
        works(im.data, im.settings, im.org, im.rules, from, action, event, to);
    assert(im.works(from, action, event, to));
    if p == k - 1 {
        lemma_sweep_on(im, pre, to, event->Listed_0, 0);
    } else {
        lemma_points_after_listing(im, points, p, k - 1);
        if !failing(from.phase) && !failing(to.phase) {
            lemma_sweeping_goes_on(im, pre, from, action, event, to);
        }
    }
}

/// An overwriting import that ends well has removed everyone whom the directory
/// does not list and who came from one, but for the last confirmed owner, and
/// nobody else. The others are as they were when the members were listed, and
/// every group holds those of its members who are left.
pub proof fn an_overwriting_import_removes_whom_the_directory_does_not_list(
    im: Import,
    points: Seq<ImportPoint>,
    p: int,
    k: int,
)
    requires
        im.history(points),
        valid_records(points[0].stored.records),
        0 <= p < k < points.len(),
        points[p].phase is ListMembers,
        points[k].phase matches Phase::Done(outcome) && outcome is Ok,
    ensures
        swept(im, points[k].stored.records.members),
        some_gone(im, points[p].stored.records, points[k].stored.records),
{
    lemma_points_after_listing(im, points, p, k);
}

} // verus!
