//! The list of users, put together from the rows that storage holds: one row
//! for each role of a user, and one row for a user without any role.

use vstd::prelude::*;
use crate::ids::UserId;
use crate::types::{UserType, UsersTypes};

verus! {

/// A user as everybody may see them: without e-mail address and password.
#[derive(Clone, Debug)]
pub struct UserPublic {
    pub uid: UserId,
    pub username: String,
    pub user_types: UsersTypes,
}

/// A user as a value: the name as text, the roles as a sequence.
pub struct UserPublicView {
    pub uid: UserId,
    pub username: Seq<char>,
    pub user_types: Seq<UserType>,
}

impl View for UserPublic {
    type V = UserPublicView;

    open spec fn view(&self) -> UserPublicView {
        UserPublicView {
            uid: self.uid,
            username: self.username@,
            user_types: self.user_types@,
        }
    }
}

/// One row of the list of users: a user, and one of their roles if they have
/// any.
#[derive(Clone, Debug)]
pub struct UserTypeRow {
    pub uid: UserId,
    pub username: String,
    pub user_type: Option<UserType>,
}

/// The users as values, in their order.
pub open spec fn user_views(users: Seq<UserPublic>) -> Seq<UserPublicView> {
    users.map_values(|u: UserPublic| u@)
}

/// Whether `k` is the place of the user `uid` among `users`: of the first
/// with that id.
pub open spec fn is_user_at(users: Seq<UserPublicView>, uid: UserId, k: int) -> bool {
    &&& 0 <= k < users.len()
    &&& users[k].uid == uid
    &&& forall|j: int| 0 <= j < k ==> (#[trigger] users[j]).uid != uid
}

/// Whether the user `uid` is among `users`.
pub open spec fn has_user(users: Seq<UserPublicView>, uid: UserId) -> bool {
    exists|k: int| 0 <= k < users.len() && (#[trigger] users[k]).uid == uid
}

/// The place of the user `uid` among `users`: of the first with that id.
pub open spec fn user_index(users: Seq<UserPublicView>, uid: UserId) -> int {
    choose|k: int| is_user_at(users, uid, k)
}

/// The user with one more role, where the row holds one.
pub open spec fn with_role(user: UserPublicView, role: Option<UserType>) -> UserPublicView {
    match role {
        Some(r) => UserPublicView { user_types: user.user_types.push(r), ..user },
        None => user,
    }
}

/// The user that a row stands for where it is the first row of the user.
pub open spec fn new_user(row: UserTypeRow) -> UserPublicView {
    UserPublicView {
        uid: row.uid,
        username: row.username@,
        user_types: match row.user_type {
            Some(r) => seq![r],
            None => Seq::empty(),
        },
    }
}

/// The users after one more row: the row's role goes to its user where the
/// user is listed already, and else the user is added at the end.
pub open spec fn add_row(users: Seq<UserPublicView>, row: UserTypeRow) -> Seq<UserPublicView> {
    if has_user(users, row.uid) {
        let k = user_index(users, row.uid);
        users.update(k, with_role(users[k], row.user_type))
    } else {
        users.push(new_user(row))
    }
}

/// The users that the rows stand for: each user once, in the order in which
/// the rows first name them, with the roles of all their rows in the order
/// of the rows.
pub open spec fn grouped_users(rows: Seq<UserTypeRow>) -> Seq<UserPublicView>
    decreases rows.len(),
{
    if rows.len() == 0 {
        Seq::empty()
    } else {
        add_row(grouped_users(rows.drop_last()), rows.last())
    }
}

/// The roles that the rows hold for the user `uid`, in the order of the
/// rows.
pub open spec fn roles_in_rows(rows: Seq<UserTypeRow>, uid: UserId) -> Seq<UserType>
    decreases rows.len(),
{
    if rows.len() == 0 {
        Seq::empty()
    } else {
        let before = roles_in_rows(rows.drop_last(), uid);
        if rows.last().uid == uid && rows.last().user_type is Some {
            before.push(rows.last().user_type->Some_0)
        } else {
            before
        }
    }
}

/// Whether one of the rows names the user `uid`.
pub open spec fn names_user(rows: Seq<UserTypeRow>, uid: UserId) -> bool {
    exists|i: int| 0 <= i < rows.len() && (#[trigger] rows[i]).uid == uid
}

proof fn lemma_user_index(users: Seq<UserPublicView>, uid: UserId)
    requires
        has_user(users, uid),
    ensures
        is_user_at(users, uid, user_index(users, uid)),
    decreases users.len(),
{
    let k = choose|k: int| 0 <= k < users.len() && (#[trigger] users[k]).uid == uid;
    lemma_first_user(users, uid, k);
}

proof fn lemma_first_user(users: Seq<UserPublicView>, uid: UserId, k: int)
    requires
        0 <= k < users.len(),
        users[k].uid == uid,
    ensures
        exists|f: int| is_user_at(users, uid, f),
    decreases k,
{
    if forall|j: int| 0 <= j < k ==> (#[trigger] users[j]).uid != uid {
        assert(is_user_at(users, uid, k));
    } else {
        let j = choose|j: int| 0 <= j < k && (#[trigger] users[j]).uid == uid;
        lemma_first_user(users, uid, j);
    }
}

/// The list of users names every user once; it names exactly the users that
/// the rows name; and each user has the roles of their rows, in the order
/// of the rows.
pub proof fn lemma_grouped_users(rows: Seq<UserTypeRow>)
    ensures
        forall|i: int, j: int|
            0 <= i < j < grouped_users(rows).len() ==> (#[trigger] grouped_users(rows)[i]).uid != (
            #[trigger] grouped_users(rows)[j]).uid,
        forall|uid: UserId| #[trigger]
            has_user(grouped_users(rows), uid) <==> names_user(rows, uid),
        forall|k: int|
            0 <= k < grouped_users(rows).len() ==> (#[trigger] grouped_users(rows)[k]).user_types
                == roles_in_rows(rows, grouped_users(rows)[k].uid),
    decreases rows.len(),
{
    if rows.len() > 0 {
        let before = rows.drop_last();
        let row = rows.last();
        lemma_grouped_users(before);
        let users = grouped_users(before);
        let after = grouped_users(rows);
        assert(after == add_row(users, row));
        assert forall|i: int| 0 <= i < before.len() implies #[trigger] before[i] == rows[i] by {}
        if has_user(users, row.uid) {
            lemma_user_index(users, row.uid);
            let k = user_index(users, row.uid);
            assert forall|i: int| 0 <= i < after.len() implies (#[trigger] after[i]).uid
                == users[i].uid by {}
            assert forall|uid: UserId| #[trigger]
                has_user(after, uid) <==> names_user(rows, uid) by {
                if has_user(after, uid) {
                    let a = choose|a: int| 0 <= a < after.len() && (#[trigger] after[a]).uid == uid;
                    assert(users[a].uid == uid);
                    assert(has_user(users, uid));
                    assert(names_user(before, uid));
                    let i = choose|i: int| 0 <= i < before.len() && (#[trigger] before[i]).uid == uid;
                    assert(rows[i].uid == uid);
                }
                if names_user(rows, uid) {
                    let i = choose|i: int| 0 <= i < rows.len() && (#[trigger] rows[i]).uid == uid;
                    if i < before.len() {
                        assert(before[i].uid == uid);
                        assert(names_user(before, uid));
                    } else {
                        assert(uid == row.uid);
                    }
                    assert(has_user(users, uid));
                    let a = choose|a: int| 0 <= a < users.len() && (#[trigger] users[a]).uid == uid;
                    assert(after[a].uid == uid);
                }
            }
            assert forall|j: int| 0 <= j < after.len() implies (#[trigger] after[j]).user_types
                == roles_in_rows(rows, after[j].uid) by {
                assert(users[j].user_types == roles_in_rows(before, users[j].uid));
                if j != k {
                    if j < k {
                        assert(users[j].uid != row.uid);
                    } else {
                        assert(users[k].uid != users[j].uid);
                    }
                }
            }
        } else {
            assert forall|i: int| 0 <= i < users.len() implies (#[trigger] after[i]) == users[i] by {}
            assert forall|i: int, j: int| 0 <= i < j < after.len() implies (#[trigger] after[i]).uid
                != (#[trigger] after[j]).uid by {
                if j == users.len() {
                    assert(users[i].uid != row.uid);
                }
            }
            assert forall|uid: UserId| #[trigger]
                has_user(after, uid) <==> names_user(rows, uid) by {
                if has_user(after, uid) {
                    let a = choose|a: int| 0 <= a < after.len() && (#[trigger] after[a]).uid == uid;
                    if a < users.len() {
                        assert(users[a].uid == uid);
                        assert(has_user(users, uid));
                        assert(names_user(before, uid));
                        let i = choose|i: int|
                            0 <= i < before.len() && (#[trigger] before[i]).uid == uid;
                        assert(rows[i].uid == uid);
                    } else {
                        assert(rows[rows.len() - 1].uid == uid);
                    }
                }
                if names_user(rows, uid) {
                    let i = choose|i: int| 0 <= i < rows.len() && (#[trigger] rows[i]).uid == uid;
                    if i < before.len() {
                        assert(before[i].uid == uid);
                        assert(names_user(before, uid));
                        assert(has_user(users, uid));
                        let a = choose|a: int|
                            0 <= a < users.len() && (#[trigger] users[a]).uid == uid;
                        assert(after[a].uid == uid);
                    } else {
                        assert(after[users.len() as int].uid == uid);
                    }
                }
            }
            lemma_no_rows_no_roles(before, row.uid);
            assert forall|j: int| 0 <= j < after.len() implies (#[trigger] after[j]).user_types
                == roles_in_rows(rows, after[j].uid) by {
                if j < users.len() {
                    assert(users[j].user_types == roles_in_rows(before, users[j].uid));
                    assert(users[j].uid != row.uid);
                }
            }
        }
    }
}

proof fn lemma_no_rows_no_roles(rows: Seq<UserTypeRow>, uid: UserId)
    requires
        !names_user(rows, uid),
    ensures
        roles_in_rows(rows, uid) == Seq::<UserType>::empty(),
    decreases rows.len(),
{
    if rows.len() > 0 {
        let before = rows.drop_last();
        assert(rows[rows.len() - 1].uid != uid);
        assert forall|i: int| 0 <= i < before.len() implies (#[trigger] before[i]).uid != uid by {
            assert(rows[i].uid != uid);
        }
        lemma_no_rows_no_roles(before, uid);
    }
}

fn find_user(users: &Vec<UserPublic>, uid: UserId) -> (r: Option<usize>)
    ensures
        match r {
            Some(k) => is_user_at(user_views(users@), uid, k as int),
            None => !has_user(user_views(users@), uid),
        },
{
    let mut k: usize = 0;
    while k < users.len()
        invariant
            0 <= k <= users.len(),
            forall|j: int| 0 <= j < k ==> (#[trigger] user_views(users@)[j]).uid != uid,
        decreases users.len() - k,
    {
        if users[k].uid == uid {
            return Some(k);
        }
        k += 1;
    }
    None
}

/// Puts the list of users together from its rows: each user once, in the
/// order in which the rows first name them, with all their roles.
pub fn get_users(rows: &Vec<UserTypeRow>) -> (r: Vec<UserPublic>)
    ensures
        user_views(r@) == grouped_users(rows@),
{
    let mut users: Vec<UserPublic> = Vec::new();
    let mut i: usize = 0;
    assert(rows@.take(0) =~= Seq::<UserTypeRow>::empty());
    assert(user_views(users@) =~= grouped_users(rows@.take(0)));
    while i < rows.len()
        invariant
            0 <= i <= rows.len(),
            user_views(users@) == grouped_users(rows@.take(i as int)),
        decreases rows.len() - i,
    {
        let row = &rows[i];
        let ghost before = user_views(users@);
        proof {
            assert(rows@.take(i + 1).drop_last() =~= rows@.take(i as int));
            assert(rows@.take(i + 1).last() == *row);
        }
        match find_user(&users, row.uid) {
            Some(k) => {
                proof {
                    lemma_user_index(before, row.uid);
                    assert(user_index(before, row.uid) == k);
                }
                if let Some(role) = row.user_type {
                    users[k].user_types.push(role);
                }
                assert(user_views(users@) =~= add_row(before, *row));
            },
            None => {
                let mut user_types = UsersTypes::new();
                if let Some(role) = row.user_type {
                    user_types.push(role);
                }
                users.push(UserPublic { uid: row.uid, username: row.username.clone(), user_types });
                assert(user_views(users@) =~= add_row(before, *row));
            },
        }
        i += 1;
    }
    assert(rows@.take(i as int) =~= rows@);
    users
}

} // verus!
