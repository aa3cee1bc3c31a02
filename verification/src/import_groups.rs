//! What an import does to the groups of an organization.
use crate::import_records::{
    external_found, goes, group_candidates, group_found, is_external, is_group, works, GroupRecord,
    Import, ImportPoint, MemberRecord, Records,
};
use crate::ldap_import::{group_or_after, Action, Event, Phase};
use crate::ldap_import_laws::{failing, grouping, lemma_sweep_goes_on};
use vstd::prelude::*;

verus! {

impl Import {
    /// Where groups are enabled, their external ids are stored as they are.
    pub open spec fn keeps_group_ids(self) -> bool {
        self.settings.groups_enabled ==> forall|g: int|
            0 <= g < self.data.groups@.len() ==> (self.rules.kept_id)(
                #[trigger] self.group_id(g),
            ) == Some(self.group_id(g))
    }
}

/// The lookup for the member `j` of group `g` finds this membership.
pub open spec fn finds(im: Import, members: Map<int, MemberRecord>, g: int, j: int, member: int) -> bool {
    let external_id = im.group_ids(g)[j]@;
    &&& exists|id: int| is_external(members, im.org, external_id, id)
    &&& member == external_found(members, im.org, external_id)
}

/// One of the first `k` lookups for group `g` finds this membership.
pub open spec fn is_meant(im: Import, members: Map<int, MemberRecord>, g: int, k: int, member: int) -> bool {
    exists|j: int| 0 <= j < k && #[trigger] finds(im, members, g, j, member)
}

/// The group holds those whom the first `k` lookups for group `g` find.
pub open spec fn holds(im: Import, records: Records, g: int, k: int, group: int) -> bool {
    forall|member: int| #[trigger]
        records.group_members.contains((group, member)) <==> is_meant(
            im,
            records.members,
            g,
            k,
            member,
        )
}

/// There is such a group.
pub open spec fn has_group(im: Import, groups: Map<int, GroupRecord>, g: int) -> bool {
    is_group(groups, im.org, im.group_id(g), the_group(im, groups, g))
}

/// The group that is found for group `g` of the directory.
pub open spec fn the_group(im: Import, groups: Map<int, GroupRecord>, g: int) -> int {
    group_found(groups, im.org, im.group_id(g))
}

/// The group is there and holds whom the directory says.
pub open spec fn is_filled(im: Import, records: Records, g: int) -> bool {
    &&& has_group(im, records.groups, g)
    &&& holds(
        im,
        records,
        g,
        im.group_ids(g).len() as int,
        the_group(im, records.groups, g),
    )
}

/// No group between `g` and `end` has the same external id.
pub open spec fn is_latest(im: Import, g: int, end: int) -> bool {
    forall|h: int| g < h < end ==> #[trigger] im.group_id(h) != im.group_id(g)
}

/// How many groups have been handled.
pub open spec fn filled_up_to(im: Import, phase: Phase) -> int {
    match grouping(phase) {
        Some(g) => g,
        None => if im.settings.groups_enabled && (phase is Done || phase is ListMembers) {
            im.data.groups@.len() as int
        } else {
            0
        },
    }
}

/// The group at hand has been cleared.
pub open spec fn is_refilling(phase: Phase) -> bool {
    phase is FindGroupMember || phase is AddGroupMember
}

/// What is known of the groups at a point that has not failed, before members are
/// removed.
pub open spec fn groups_at(im: Import, point: ImportPoint) -> bool {
    let stored = point.stored;
    let records = stored.records;
    &&& forall|h: int|
        0 <= h < filled_up_to(im, point.phase) && is_latest(
            im,
            h,
            filled_up_to(im, point.phase),
        ) && !(is_refilling(point.phase) && im.group_id(h) == im.group_id(
            grouping(point.phase)->0,
        )) ==> #[trigger] is_filled(im, records, h)
    &&& grouping(point.phase) matches Some(g) ==> im.settings.groups_enabled && 0 <= g
        < im.data.groups@.len()
    &&& match point.phase {
        Phase::CreateGroup { g } => forall|id: int|
            !#[trigger] is_group(records.groups, im.org, im.group_id(g as int), id),
        Phase::ClearGroup { g } => {
            &&& has_group(im, records.groups, g as int)
            &&& stored.group == the_group(im, records.groups, g as int)
        },
        Phase::FindGroupMember { g, k } => {
            &&& has_group(im, records.groups, g as int)
            &&& stored.group == the_group(im, records.groups, g as int)
            &&& k < im.group_ids(g as int).len()
            &&& holds(im, records, g as int, k as int, stored.group)
        },
        Phase::AddGroupMember { g, k } => {
            &&& has_group(im, records.groups, g as int)
            &&& stored.group == the_group(im, records.groups, g as int)
            &&& k < im.group_ids(g as int).len()
            &&& holds(im, records, g as int, k as int, stored.group)
            &&& finds(im, records.members, g as int, k as int, stored.found)
        },
        _ => true,
    }
}

/// No member has been removed yet.
pub open spec fn before_removals(im: Import, phase: Phase) -> bool {
    &&& !(phase is CountBeforeDelete || phase is DeleteMember)
    &&& phase is ListMembers ==> im.data.overwrite_existing
    &&& phase is Done ==> !im.data.overwrite_existing
}

/// A group that holds all that are meant for it is filled.
proof fn lemma_group_done(im: Import, after: ImportPoint, g: int)
    requires
        0 <= g < im.data.groups@.len(),
        after.phase == group_or_after(im.data, im.settings, g + 1),
        im.settings.groups_enabled,
        has_group(im, after.stored.records.groups, g),
        holds(
            im,
            after.stored.records,
            g,
            im.group_ids(g).len() as int,
            the_group(im, after.stored.records.groups, g),
        ),
        forall|h: int|
            0 <= h < g && is_latest(im, h, g) && im.group_id(h) != im.group_id(g)
                ==> #[trigger] is_filled(im, after.stored.records, h),
    ensures
        groups_at(im, after),
        before_removals(im, after.phase),
{
    assert(im.data.groups.len() == im.data.groups@.len());
    let records = after.stored.records;
    assert(is_filled(im, records, g));
    assert(filled_up_to(im, after.phase) == g + 1);
    assert forall|h: int| 0 <= h < g + 1 && is_latest(im, h, g + 1) implies #[trigger] is_filled(
        im,
        records,
        h,
    ) by {
        if h < g {
            assert(im.group_id(g) != im.group_id(h));
            assert(is_latest(im, h, g));
        }
    }
}

/// Groups with other external ids are found as before, and hold the same members,
/// when one group and who is in it change.
proof fn lemma_other_group(im: Import, before: Records, after: Records, h: int, group: int)
    requires
        is_filled(im, before, h),
        after.members == before.members,
        forall|id: int|
            is_group(before.groups, im.org, im.group_id(h), id) <==> #[trigger] is_group(
                after.groups,
                im.org,
                im.group_id(h),
                id,
            ),
        the_group(im, before.groups, h) != group,
        forall|pair: (int, int)|
            pair.0 != group ==> (#[trigger] after.group_members.contains(pair)
                <==> before.group_members.contains(pair)),
    ensures
        is_filled(im, after, h),
{
    let id = im.group_id(h);
    let count = im.group_ids(h).len() as int;
    assert(group_candidates(before.groups, im.org, id) =~= group_candidates(
        after.groups,
        im.org,
        id,
    ));
    let found = the_group(im, after.groups, h);
    assert(is_group(after.groups, im.org, id, found));
    assert forall|member: int| #[trigger] after.group_members.contains((found, member)) <==> is_meant(
        im,
        after.members,
        h,
        count,
        member,
    ) by {
        assert(before.group_members.contains((found, member)) <==> is_meant(
            im,
            before.members,
            h,
            count,
            member,
        ));
    }
}

#[verifier::rlimit(100)]
pub(crate) proof fn lemma_groups_go_on(
    im: Import,
    from: ImportPoint,
    action: Action,
    event: Event,
    to: ImportPoint,
)
    requires
        im.keeps_group_ids(),
        groups_at(im, from),
        before_removals(im, from.phase),
        !(from.phase is ListMembers),
        im.works(from, action, event, to),
        !failing(from.phase),
        !failing(to.phase),
    ensures
        groups_at(im, to),
        before_removals(im, to.phase),
{
    let stored = from.stored;
    let records = stored.records;
    let after = to.stored.records;
    assert(im.data.groups.len() == im.data.groups@.len());
    assert(im.data.members.len() == im.data.members@.len());
    if let Some(g) = grouping(from.phase) {
        let ids = im.data.groups@[g].member_external_ids;
        assert(ids.len() == ids@.len());
        assert(im.group_ids(g) == ids@);
        assert(im.group_id(g) == im.data.groups@[g].external_id@);
    }
    match from.phase {
        Phase::FindGroup { g } => {
            assert(action->FindGroup_external_id == im.data.groups@[g as int].external_id);
            assert(after == records);
            if event != Event::GroupFound(true) {
                assert(event == Event::GroupFound(false));
                assert(forall|id: int|
                    !#[trigger] is_group(records.groups, im.org, im.group_id(g as int), id));
            }
        },
        Phase::CreateGroup { g } => {
            let id = im.group_id(g as int);
            let made = to.stored.group;
            assert((im.rules.kept_id)(id) == Some(id));
            assert forall|e: Seq<char>, other: int| #[trigger]
                is_group(after.groups, im.org, e, other) <==> (is_group(
                    records.groups,
                    im.org,
                    e,
                    other,
                ) || (other == made && e == id)) by {}
            assert forall|h: int| 0 <= h < g && is_latest(im, h, g as int) implies #[trigger] is_filled(
                im,
                after,
                h,
            ) by {
                assert(is_filled(im, records, h));
                let found = the_group(im, records.groups, h);
                assert(is_group(records.groups, im.org, im.group_id(h), found));
                assert(im.group_id(h) != id);
                assert(found != made);
                lemma_other_group(im, records, after, h, made);
            }
            let candidates = group_candidates(after.groups, im.org, id);
            assert(is_group(after.groups, im.org, id, made));
            assert(candidates.contains(made));
            assert(candidates.contains(candidates.choose()));
            assert(the_group(im, after.groups, g as int) == made);
        },
        Phase::ClearGroup { g } => {
            assert forall|h: int|
                0 <= h < g && is_latest(im, h, g as int) && im.group_id(h) != im.group_id(
                    g as int,
                ) implies #[trigger] is_filled(im, after, h) by {
                assert(is_filled(im, records, h));
                lemma_other_group(im, records, after, h, stored.group);
            }
            assert(holds(im, after, g as int, 0, stored.group));
            if im.group_ids(g as int).len() == 0 {
                lemma_group_done(im, to, g as int);
            }
        },
        Phase::FindGroupMember { g, k } => {
            let external_id = im.group_ids(g as int)[k as int];
            assert(action->FindMemberByExternalId_external_id == external_id);
            assert forall|h: int|
                0 <= h < g && is_latest(im, h, g as int) && im.group_id(h) != im.group_id(
                    g as int,
                ) implies #[trigger] is_filled(im, after, h) by {
                assert(is_filled(im, records, h));
            }
            if event == Event::GroupMemberFound(true) {
                assert(finds(im, records.members, g as int, k as int, to.stored.found));
            } else {
                assert(event == Event::GroupMemberFound(false));
                assert forall|id: int| !#[trigger] is_external(
                    records.members,
                    im.org,
                    external_id@,
                    id,
                ) by {}
                assert(holds(im, after, g as int, k + 1, stored.group)) by {
                    assert forall|member: int| #[trigger]
                        after.group_members.contains((stored.group, member)) <==> is_meant(
                            im,
                            after.members,
                            g as int,
                            k + 1,
                            member,
                        ) by {
                        if is_meant(im, after.members, g as int, k + 1, member) {
                            let j = choose|j: int|
                                0 <= j < k + 1 && #[trigger] finds(
                                    im,
                                    after.members,
                                    g as int,
                                    j,
                                    member,
                                );
                            assert(j < k);
                            assert(is_meant(im, after.members, g as int, k as int, member));
                        }
                    }
                }
                if k + 1 >= im.group_ids(g as int).len() {
                    lemma_group_done(im, to, g as int);
                }
            }
        },
        Phase::AddGroupMember { g, k } => {
            assert forall|h: int|
                0 <= h < g && is_latest(im, h, g as int) && im.group_id(h) != im.group_id(
                    g as int,
                ) implies #[trigger] is_filled(im, after, h) by {
                assert(is_filled(im, records, h));
                lemma_other_group(im, records, after, h, stored.group);
            }
            assert(holds(im, after, g as int, k + 1, stored.group)) by {
                assert forall|member: int| #[trigger]
                    after.group_members.contains((stored.group, member)) <==> is_meant(
                        im,
                        after.members,
                        g as int,
                        k + 1,
                        member,
                    ) by {
                    assert(records.group_members.contains((stored.group, member)) <==> is_meant(
                        im,
                        records.members,
                        g as int,
                        k as int,
                        member,
                    ));
                    if member == stored.found {
                        assert(finds(im, after.members, g as int, k as int, member));
                        assert(is_meant(im, after.members, g as int, k + 1, member));
                    }
                    if is_meant(im, after.members, g as int, k as int, member) {
                        let j = choose|j: int|
                            0 <= j < k && #[trigger] finds(im, after.members, g as int, j, member);
                        assert(is_meant(im, after.members, g as int, k + 1, member));
                    }
                    if is_meant(im, after.members, g as int, k + 1, member) {
                        let j = choose|j: int|
                            0 <= j < k + 1 && #[trigger] finds(
                                im,
                                after.members,
                                g as int,
                                j,
                                member,
                            );
                        if j < k {
                            assert(is_meant(im, after.members, g as int, k as int, member));
                        }
                    }
                }
            }
            if k + 1 >= im.group_ids(g as int).len() {
                lemma_group_done(im, to, g as int);
            }
        },
        _ => {},
    }
}

/// Once an import comes to the removals, it does not come back to the groups.
spec fn past_groups(im: Import, phase: Phase) -> bool {
    im.data.overwrite_existing && (phase is CountBeforeDelete || phase is DeleteMember
        || phase is Done)
}

proof fn lemma_groups_points(im: Import, points: Seq<ImportPoint>, k: int)
    requires
        im.keeps_group_ids(),
        im.history(points),
        0 <= k < points.len(),
    ensures
        ({
            ||| failing(points[k].phase)
            ||| past_groups(im, points[k].phase)
            ||| groups_at(im, points[k]) && before_removals(im, points[k].phase)
        }),
    decreases k,
{
    assert(im.data.members.len() == im.data.members@.len());
    assert(im.data.groups.len() == im.data.groups@.len());
    if k > 0 {
        lemma_groups_points(im, points, k - 1);
        let from = points[k - 1];
        let to = points[k];
        assert(goes(im.data, im.settings, im.org, im.rules, from, to));
        let (action, event) = choose|action: Action, event: Event| #[trigger]
            works(im.data, im.settings, im.org, im.rules, from, action, event, to);
        assert(im.works(from, action, event, to));
        match from.phase {
            Phase::ListMembers => {
                lemma_sweep_goes_on(im.data, im.settings, event->Listed_0, 0);
            },
            Phase::CountBeforeDelete { listed, j } => {
                assert(listed.len() == listed@.len());
                if j + 1 <= listed@.len() {
                    lemma_sweep_goes_on(im.data, im.settings, listed, j + 1);
                }
            },
            Phase::DeleteMember { listed, j } => {
                assert(listed.len() == listed@.len());
                if j + 1 <= listed@.len() {
                    lemma_sweep_goes_on(im.data, im.settings, listed, j + 1);
                }
            },
            _ => {
                if !failing(from.phase) && !failing(to.phase) {
                    lemma_groups_go_on(im, from, action, event, to);
                }
            },
        }
    }
}

/// Once an import has handled the groups - when it lists the members to remove
/// some, or ends well without that - every group that the directory lists is
/// there, and holds exactly the members whom the lookups by its external ids find.
/// Where the directory lists an external id more than once, the last group with
/// it counts.
pub proof fn groups_hold_whom_the_directory_lists(
    im: Import,
    points: Seq<ImportPoint>,
    k: int,
    g: int,
)
    requires
        im.keeps_group_ids(),
        im.history(points),
        im.settings.groups_enabled,
        0 <= k < points.len(),
        points[k].phase is ListMembers || (points[k].phase matches Phase::Done(outcome) && outcome is Ok
            && !im.data.overwrite_existing),
        0 <= g < im.data.groups@.len(),
        is_latest(im, g, im.data.groups@.len() as int),
    ensures
        ({
            let records = points[k].stored.records;
            let group = group_found(records.groups, im.org, im.group_id(g));
            &&& is_group(records.groups, im.org, im.group_id(g), group)
            &&& forall|member: int| #[trigger]
                records.group_members.contains((group, member)) <==> exists|j: int|
                    0 <= j < im.group_ids(g).len() && #[trigger] finds(
                        im,
                        records.members,
                        g,
                        j,
                        member,
                    )
        }),
{
    lemma_groups_points(im, points, k);
    let records = points[k].stored.records;
    let group = group_found(records.groups, im.org, im.group_id(g));
    assert(is_filled(im, records, g));
    assert forall|member: int| #[trigger] records.group_members.contains((group, member)) <==> exists|
        j: int,
    |
        0 <= j < im.group_ids(g).len() && #[trigger] finds(im, records.members, g, j, member) by {
        assert(records.group_members.contains((group, member)) <==> is_meant(
            im,
            records.members,
            g,
            im.group_ids(g).len() as int,
            member,
        ));
    }
}

} // verus!
