//! Listing the members of an organization.
use crate::membership::{status_name, status_name_spec, MembershipStatus};
use vstd::prelude::*;

verus! {

/// A membership as it is stored: `named` is what the status number stands for.
#[derive(Debug)]
pub struct MemberRow {
    pub uuid: String,
    pub user_uuid: String,
    pub status: i32,
    pub named: Option<MembershipStatus>,
    pub atype: i32,
    pub access_all: bool,
    pub external_id: Option<String>,
}

/// What the listing needs of an account.
#[derive(Debug)]
pub struct MemberAccount {
    pub email: String,
    pub name: String,
}

/// A member as the listing shows them.
#[derive(Debug)]
pub struct PublicMember {
    pub id: String,
    pub user_id: String,
    pub email: String,
    pub name: String,
    pub status: i32,
    pub named: Option<MembershipStatus>,
    pub atype: i32,
    pub access_all: bool,
    pub external_id: Option<String>,
}

impl PublicMember {
    /// The name of the member's status.
    pub fn status_name(&self) -> (name: &'static str)
        ensures
            name@ == status_name_spec(self.named),
    {
        status_name(self.named)
    }
}

/// What became of the work that was due.
#[derive(Debug)]
pub enum MembersEvent {
    Listed(Vec<MemberRow>),
    UserFound(Option<MemberAccount>),
}

/// A piece of work for the storage.
#[derive(Debug)]
pub enum MembersAction {
    /// List the memberships of the organization.
    ListMembers,
    /// Look the account of a member up.
    FindUser { user_uuid: String },
    Finish,
}

/// How the listing shows a member with this account.
pub open spec fn shown(row: MemberRow, account: MemberAccount) -> PublicMember {
    PublicMember {
        id: row.uuid,
        user_id: row.user_uuid,
        email: account.email,
        name: account.name,
        status: row.status,
        named: row.named,
        atype: row.atype,
        access_all: row.access_all,
        external_id: row.external_id,
    }
}

/// The members whose accounts are there, in the order of the memberships.
pub open spec fn listing(
    rows: Seq<MemberRow>,
    accounts: Seq<Option<MemberAccount>>,
) -> Seq<PublicMember>
    decreases rows.len(),
{
    if rows.len() == 0 {
        Seq::empty()
    } else {
        let earlier = listing(rows.drop_last(), accounts.drop_last());
        match accounts.last() {
            Some(account) => earlier.push(shown(rows.last(), account)),
            None => earlier,
        }
    }
}

/// A listing on its way, as a value: the memberships, once they are known, how
/// many of them are done, and the members found so far.
#[verifier::ext_equal]
pub struct MembersState {
    /// The organization that is listed.
    pub org_id: String,
    pub rows: Option<Seq<MemberRow>>,
    pub done: nat,
    pub members: Seq<PublicMember>,
}

/// Where a listing stands after it was told `event`. An event that does not
/// report on the work that is due changes nothing.
pub open spec fn members_next(state: MembersState, event: MembersEvent) -> MembersState {
    match (state.rows, event) {
        (None, MembersEvent::Listed(rows)) => MembersState { rows: Some(rows@), ..state },
        (Some(rows), MembersEvent::UserFound(account)) => if state.done < rows.len() {
            MembersState {
                done: state.done + 1,
                members: match account {
                    Some(account) => state.members.push(shown(rows[state.done as int], account)),
                    None => state.members,
                },
                ..state
            }
        } else {
            state
        },
        _ => state,
    }
}

/// A listing on its way.
#[derive(Debug)]
pub struct MembersRun {
    org_id: String,
    rows: Option<Vec<MemberRow>>,
    done: usize,
    members: Vec<PublicMember>,
}

impl View for MembersRun {
    type V = MembersState;

    closed spec fn view(&self) -> MembersState {
        MembersState {
            org_id: self.org_id,
            rows: match self.rows {
                Some(rows) => Some(rows@),
                None => None,
            },
            done: self.done as nat,
            members: self.members@,
        }
    }
}

impl MembersRun {
    /// No more memberships are done than there are.
    pub open spec fn wf(self) -> bool {
        match self@.rows {
            Some(rows) => self@.done <= rows.len(),
            None => self@.done == 0 && self@.members.len() == 0,
        }
    }

    /// The organization that is listed.
    pub fn org_id(&self) -> (org_id: &String)
        ensures
            *org_id == self@.org_id,
    {
        &self.org_id
    }

    /// The members found so far.
    pub fn members(&self) -> (members: &Vec<PublicMember>)
        ensures
            members@ == self@.members,
    {
        &self.members
    }

    /// The work that is due.
    pub fn pending(&self) -> (action: MembersAction)
        requires
            self.wf(),
        ensures
            match self@.rows {
                None => action == MembersAction::ListMembers,
                Some(rows) => if self@.done < rows.len() {
                    action == (MembersAction::FindUser {
                        user_uuid: rows[self@.done as int].user_uuid,
                    })
                } else {
                    action == MembersAction::Finish
                },
            },
    {
        match &self.rows {
            None => MembersAction::ListMembers,
            Some(rows) => {
                if self.done < rows.len() {
                    MembersAction::FindUser { user_uuid: rows[self.done].user_uuid.clone() }
                } else {
                    MembersAction::Finish
                }
            },
        }
    }

    /// Moves on, now that `event` reports on the work that was due.
    pub fn advance(self, event: MembersEvent) -> (run: MembersRun)
        requires
            self.wf(),
        ensures
            run.wf(),
            run@ == members_next(self@, event),
    {
        let mut run = self;
        match event {
            MembersEvent::Listed(rows) => {
                if run.rows.is_none() {
                    run.rows = Some(rows);
                }
            },
            MembersEvent::UserFound(account) => {
                if let Some(rows) = &run.rows {
                    if run.done < rows.len() {
                        if let Some(account) = account {
                            let row = &rows[run.done];
                            let external_id = match &row.external_id {
                                Some(id) => Some(id.clone()),
                                None => None,
                            };
                            let member = PublicMember {
                                id: row.uuid.clone(),
                                user_id: row.user_uuid.clone(),
                                email: account.email,
                                name: account.name,
                                status: row.status,
                                named: row.named,
                                atype: row.atype,
                                access_all: row.access_all,
                                external_id,
                            };
                            run.members.push(member);
                        }
                        run.done += 1;
                    }
                }
            },
        }
        run
    }
}

/// A listing at its beginning.
pub open spec fn members_start(org_id: String) -> MembersState {
    MembersState { org_id, rows: None, done: 0, members: Seq::empty() }
}

/// Starts to list the members of the organization.
pub fn get_public_members(org_id: String) -> (run: MembersRun)
    ensures
        run.wf(),
        run@ == members_start(org_id),
        run@.org_id == org_id,
        run@.rows is None,
        run@.members.len() == 0,
{
    MembersRun { org_id, rows: None, done: 0, members: Vec::new() }
}

/// Where a listing stands after the accounts of its first members were looked
/// up.
pub open spec fn after_lookups(
    state: MembersState,
    accounts: Seq<Option<MemberAccount>>,
) -> MembersState
    decreases accounts.len(),
{
    if accounts.len() == 0 {
        state
    } else {
        members_next(
            after_lookups(state, accounts.drop_last()),
            MembersEvent::UserFound(accounts.last()),
        )
    }
}

proof fn lemma_lookups(
    org_id: String,
    rows: Seq<MemberRow>,
    accounts: Seq<Option<MemberAccount>>,
)
    requires
        accounts.len() <= rows.len(),
    ensures
        after_lookups(
            MembersState { rows: Some(rows), ..members_start(org_id) },
            accounts,
        ) == (MembersState {
            org_id,
            rows: Some(rows),
            done: accounts.len(),
            members: listing(rows.take(accounts.len() as int), accounts),
        }),
    decreases accounts.len(),
{
    let n = accounts.len() as int;
    if n > 0 {
        lemma_lookups(org_id, rows, accounts.drop_last());
        assert(rows.take(n).drop_last() =~= rows.take(n - 1));
        assert(rows.take(n).last() == rows[n - 1]);
    } else {
        assert(listing(rows.take(0), accounts) =~= Seq::empty());
    }
}

/// Once every account has been looked up, the listing shows the members whose
/// accounts are there, in the order of the memberships, and leaves out those
/// without an account.
pub proof fn listing_shows_members_with_accounts(
    org_id: String,
    rows: Vec<MemberRow>,
    accounts: Seq<Option<MemberAccount>>,
)
    requires
        accounts.len() == rows@.len(),
    ensures
        ({
            let start = members_start(org_id);
            let end = after_lookups(members_next(start, MembersEvent::Listed(rows)), accounts);
            end.done == rows@.len() && end.members == listing(rows@, accounts)
        }),
{
    lemma_lookups(org_id, rows@, accounts);
    assert(rows@.take(accounts.len() as int) =~= rows@);
}

proof fn lemma_listing_fields(
    rows: Seq<MemberRow>,
    accounts: Seq<Option<MemberAccount>>,
    i: int,
)
    requires
        rows.len() == accounts.len(),
    ensures
        listing(rows, accounts).len() == accounts.filter(|a: Option<MemberAccount>| a is Some).len(),
        0 <= i < rows.len() && accounts[i] is Some ==> {
            let place = accounts.take(i).filter(|a: Option<MemberAccount>| a is Some).len() as int;
            &&& 0 <= place < listing(rows, accounts).len()
            &&& listing(rows, accounts)[place] == shown(rows[i], accounts[i]->0)
        },
    decreases rows.len(),
{
    let there = |a: Option<MemberAccount>| a is Some;
    reveal(Seq::filter);
    if rows.len() > 0 {
        let n = rows.len() - 1;
        lemma_listing_fields(rows.drop_last(), accounts.drop_last(), i);
        assert(accounts.drop_last() =~= accounts.take(n));
        if 0 <= i < n {
            assert(accounts.drop_last().take(i) =~= accounts.take(i));
        }
    }
}

/// Once every account has been looked up, the listing has one entry for each
/// membership whose account is there, in the order of the memberships. The entry
/// has the ids, status, type, access and external id of the membership, and the
/// email and name of the account.
pub proof fn entries_show_their_membership_and_account(
    org_id: String,
    rows: Vec<MemberRow>,
    accounts: Seq<Option<MemberAccount>>,
    i: int,
)
    requires
        accounts.len() == rows@.len(),
    ensures
        ({
            let start = MembersState { org_id, rows: None, done: 0, members: Seq::empty() };
            let end = after_lookups(members_next(start, MembersEvent::Listed(rows)), accounts);
            let there = |a: Option<MemberAccount>| a is Some;
            let place = accounts.take(i).filter(there).len() as int;
            &&& end.org_id == org_id
            &&& end.rows == Some(rows@)
            &&& end.done == rows@.len()
            &&& end.members.len() == accounts.filter(there).len()
            &&& 0 <= i < rows@.len() ==> (accounts[i] matches Some(account) ==> {
                let member = end.members[place];
                &&& 0 <= place < end.members.len()
                &&& member.id == rows@[i].uuid
                &&& member.user_id == rows@[i].user_uuid
                &&& member.email == account.email
                &&& member.name == account.name
                &&& member.status == rows@[i].status
                &&& member.named == rows@[i].named
                &&& member.atype == rows@[i].atype
                &&& member.access_all == rows@[i].access_all
                &&& member.external_id == rows@[i].external_id
            })
        }),
{
    lemma_lookups(org_id, rows@, accounts);
    assert(rows@.take(accounts.len() as int) =~= rows@);
    lemma_listing_fields(rows@, accounts, i);
}

/// A listing takes the memberships once, and an account only for a membership that
/// still waits for one; each account that comes in settles just one membership.
pub proof fn reports_move_the_listing_by_one(state: MembersState, event: MembersEvent)
    ensures
        ({
            let after = members_next(state, event);
            &&& after.org_id == state.org_id
            &&& state.members.is_prefix_of(after.members)
            &&& state.rows is None ==> (event matches MembersEvent::Listed(rows) ==> after.rows
                == Some(rows@) && after.done == state.done && after.members == state.members)
            &&& state.rows matches Some(rows) ==> (event matches MembersEvent::UserFound(account)
                ==> state.done < rows.len() ==> after.rows == state.rows && after.done == state.done
                + 1 && after.members.len() == state.members.len() + (if account is Some {
                1int
            } else {
                0
            }))
            &&& state.rows is Some && event is Listed ==> after == state
            &&& state.rows is None && event is UserFound ==> after == state
            &&& state.rows matches Some(rows) ==> (state.done >= rows.len() ==> after == state)
        }),
{
}

} // verus!
