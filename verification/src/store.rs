use vstd::prelude::*;

use crate::error::AppError;
use crate::models::nasaquery::NasaQuery;
use crate::models::post::{CreatePost, Post, PostId, UpdatePost};
use crate::models::user::{User, UserSignup};
use crate::models::vote::{CreateVote, Vote, VoteId};

verus! {

use vstd::pervasive::VecAdditionalExecFns;

// ---------------------------------------------------------------------------
// Helper lemmas about filtered sequences.
// ---------------------------------------------------------------------------

/// Filtering a sequence extended by one element keeps the filtered prefix and
/// appends the new element exactly when it satisfies the predicate.
pub proof fn lemma_filter_push<A>(s: Seq<A>, pred: spec_fn(A) -> bool, x: A)
    ensures
        s.push(x).filter(pred) == if pred(x) {
            s.filter(pred).push(x)
        } else {
            s.filter(pred)
        },
{
    reveal(Seq::filter);
    assert(s.push(x).drop_last() =~= s);
}

/// A sequence in which nothing satisfies the predicate filters to nothing.
pub proof fn lemma_filter_empty<A>(s: Seq<A>, pred: spec_fn(A) -> bool)
    requires
        forall|k: int| 0 <= k < s.len() ==> !pred(s[k]),
    ensures
        s.filter(pred).len() == 0,
    decreases s.len(),
{
    reveal(Seq::filter);
    if s.len() > 0 {
        lemma_filter_empty(s.drop_last(), pred);
    }
}

/// Every element of a filtered sequence occurs in the sequence it was
/// filtered from.
pub proof fn lemma_filter_membership<A>(s: Seq<A>, pred: spec_fn(A) -> bool)
    ensures
        forall|i: int|
            0 <= i < s.filter(pred).len() ==> s.contains(#[trigger] s.filter(pred)[i]),
    decreases s.len(),
{
    reveal(Seq::filter);
    if s.len() > 0 {
        lemma_filter_membership(s.drop_last(), pred);
        assert forall|i: int|
            0 <= i < s.filter(pred).len() implies s.contains(#[trigger] s.filter(pred)[i]) by {
            if i < s.drop_last().filter(pred).len() {
                let x = s.drop_last().filter(pred)[i];
                let j = choose|j: int| 0 <= j < s.drop_last().len() && s.drop_last()[j] == x;
                assert(s[j] == x);
            } else {
                assert(s[s.len() - 1] == s.filter(pred)[i]);
            }
        }
    }
}

/// Filtering keeps elements pairwise distinct under any key function.
pub proof fn lemma_filter_distinct_keys<A>(
    s: Seq<A>,
    pred: spec_fn(A) -> bool,
    key: spec_fn(A) -> i32,
)
    requires
        forall|i: int, j: int| 0 <= i < j < s.len() ==> key(s[i]) != key(s[j]),
    ensures
        forall|i: int, j: int|
            0 <= i < j < s.filter(pred).len() ==> key(s.filter(pred)[i]) != key(
                s.filter(pred)[j],
            ),
    decreases s.len(),
{
    reveal(Seq::filter);
    if s.len() > 0 {
        let rest = s.drop_last();
        lemma_filter_distinct_keys(rest, pred, key);
        lemma_filter_membership(rest, pred);
        if pred(s.last()) {
            assert forall|i: int, j: int|
                0 <= i < j < s.filter(pred).len() implies key(s.filter(pred)[i]) != key(
                s.filter(pred)[j],
            ) by {
                if j == s.filter(pred).len() - 1 {
                    let x = rest.filter(pred)[i];
                    let m = choose|m: int| 0 <= m < rest.len() && rest[m] == x;
                    assert(key(s[m]) != key(s[s.len() - 1]));
                }
            }
        }
    }
}

// ---------------------------------------------------------------------------
// The store model and its invariant.
// ---------------------------------------------------------------------------

/// A stored user row: the registered credentials together with the ban flag.
#[derive(Debug)]
pub struct UserRecord {
    pub id: i32,
    pub email: String,
    pub password: String,
    pub is_banned: bool,
}

/// Whether some row holds the given email.
pub open spec fn has_email(users: Seq<UserRecord>, email: Seq<char>) -> bool {
    exists|i: int| 0 <= i < users.len() && users[i].email@ == email
}

/// The index of the row holding the given email (meaningful only under
/// `has_email` and unique emails).
pub open spec fn email_index(users: Seq<UserRecord>, email: Seq<char>) -> int {
    choose|i: int| 0 <= i < users.len() && users[i].email@ == email
}

/// How many rows hold the given email.
pub open spec fn email_count(users: Seq<UserRecord>, email: Seq<char>) -> nat {
    users.filter(|u: UserRecord| u.email@ == email).len()
}

/// When emails are pairwise unique, any row holding an email sits at
/// `email_index` — the index the login lookup resolves an email to.
pub proof fn lemma_email_index_unique(users: Seq<UserRecord>, email: Seq<char>, i: int)
    requires
        forall|a: int, b: int| 0 <= a < b < users.len() ==> users[a].email@ != users[b].email@,
        0 <= i < users.len(),
        users[i].email@ == email,
    ensures
        email_index(users, email) == i,
{
    let j = email_index(users, email);
    assert(has_email(users, email));
    if j < i {
        assert(users[j].email@ != users[i].email@);
    } else if j > i {
        assert(users[i].email@ != users[j].email@);
    }
}

/// Whether an admin row references the given user id.
pub open spec fn admin_contains(admins: Seq<i32>, id: i32) -> bool {
    exists|i: int| 0 <= i < admins.len() && admins[i] == id
}

/// Whether some post has the given id.
pub open spec fn has_post_id(posts: Seq<Post>, id: i32) -> bool {
    exists|i: int| 0 <= i < posts.len() && posts[i].id.0 == id
}

/// The index of the post with the given id (meaningful only under
/// `has_post_id` and unique ids).
pub open spec fn post_index(posts: Seq<Post>, id: i32) -> int {
    choose|i: int| 0 <= i < posts.len() && posts[i].id.0 == id
}

/// Whether some post is cached under the given query string.
pub open spec fn has_query(posts: Seq<Post>, q: Seq<char>) -> bool {
    exists|i: int| 0 <= i < posts.len() && posts[i].query_string@ == q
}

/// How many posts are cached under the given query string.
pub open spec fn query_count(posts: Seq<Post>, q: Seq<char>) -> nat {
    posts.filter(|p: Post| p.query_string@ == q).len()
}

/// Extending the post table by one row raises the count of its key by one
/// and leaves every other count alone.
pub proof fn lemma_query_count_push(posts: Seq<Post>, x: Post, q: Seq<char>)
    ensures
        query_count(posts.push(x), q) == query_count(posts, q) + (if x.query_string@ == q {
            1nat
        } else {
            0nat
        }),
{
    reveal(Seq::filter);
    assert(posts.push(x).drop_last() =~= posts);
}

/// A key that no post holds has count zero.
pub proof fn lemma_query_count_absent(posts: Seq<Post>, q: Seq<char>)
    requires
        !has_query(posts, q),
    ensures
        query_count(posts, q) == 0,
    decreases posts.len(),
{
    reveal(Seq::filter);
    if posts.len() > 0 {
        assert(!has_query(posts.drop_last(), q)) by {
            if has_query(posts.drop_last(), q) {
                let w = choose|w: int|
                    0 <= w < posts.drop_last().len() && posts.drop_last()[w].query_string@ == q;
                assert(posts[w].query_string@ == q);
            }
        }
        lemma_query_count_absent(posts.drop_last(), q);
    }
}

/// Whether the given user has a vote for the given post.
pub open spec fn spec_liked(votes: Seq<Vote>, user_id: i32, post_id: i32) -> bool {
    exists|i: int| 0 <= i < votes.len() && votes[i].user_id == user_id && votes[i].post_id.0 == post_id
}

/// The vote tally of a post: how many vote rows reference it.
pub open spec fn votes_for(votes: Seq<Vote>, post_id: i32) -> nat {
    votes.filter(|v: Vote| v.post_id.0 == post_id).len()
}

/// Whether any vote references the given post id.
pub open spec fn voted(votes: Seq<Vote>, post_id: i32) -> bool {
    exists|i: int| 0 <= i < votes.len() && votes[i].post_id.0 == post_id
}

/// Whether an id occurs in a sequence of ids.
pub open spec fn id_in(ids: Seq<i32>, id: i32) -> bool {
    exists|i: int| 0 <= i < ids.len() && ids[i] == id
}

/// The persistent state: users with their ban flags, the admin relation,
/// cached posts, and votes, together with the id counters the store assigns
/// surrogate keys from.
pub struct Store {
    pub users: Vec<UserRecord>,
    pub admins: Vec<i32>,
    pub posts: Vec<Post>,
    pub votes: Vec<Vote>,
    pub next_user_id: i32,
    pub next_post_id: i32,
    pub next_vote_id: i32,
}

impl Store {
    /// The store's invariant: emails are unique, surrogate keys are unique
    /// and below their counters, and the vote table stays countable in an
    /// `i64`.
    pub open spec fn wf(self) -> bool {
        &&& forall|i: int, j: int|
            0 <= i < j < self.users@.len() ==> self.users@[i].email@ != self.users@[j].email@
        &&& forall|i: int, j: int|
            0 <= i < j < self.users@.len() ==> self.users@[i].id != self.users@[j].id
        &&& forall|i: int|
            0 <= i < self.users@.len() ==> 0 <= #[trigger] self.users@[i].id < self.next_user_id
        &&& forall|i: int, j: int|
            0 <= i < j < self.posts@.len() ==> self.posts@[i].id.0 != self.posts@[j].id.0
        &&& forall|i: int|
            0 <= i < self.posts@.len() ==> 0 <= #[trigger] self.posts@[i].id.0 < self.next_post_id
        &&& forall|i: int, j: int|
            0 <= i < j < self.votes@.len() ==> self.votes@[i].id.0 != self.votes@[j].id.0
        &&& forall|i: int|
            0 <= i < self.votes@.len() ==> 0 <= #[trigger] self.votes@[i].id.0 < self.next_vote_id
        &&& self.votes@.len() < 0x7fff_ffff_ffff_ffff
        &&& 0 <= self.next_user_id
        &&& 0 <= self.next_post_id
        &&& 0 <= self.next_vote_id
    }

    /// Whether the user with the given email is an admin: the user exists
    /// and an admin row references their id.
    pub open spec fn spec_is_admin(self, email: Seq<char>) -> bool {
        has_email(self.users@, email) && admin_contains(
            self.admins@,
            self.users@[email_index(self.users@, email)].id,
        )
    }

    /// Whether the user with the given email is banned.
    pub open spec fn spec_is_banned(self, email: Seq<char>) -> bool {
        has_email(self.users@, email)
            && self.users@[email_index(self.users@, email)].is_banned
    }

    /// The vote tally a post shows: its votes when it exists, 0 otherwise.
    pub open spec fn spec_num_votes(self, post_id: i32) -> int {
        if has_post_id(self.posts@, post_id) {
            votes_for(self.votes@, post_id) as int
        } else {
            0
        }
    }

    /// An empty store.
    pub fn new() -> (r: Store)
        ensures
            r.wf(),
            r.users@.len() == 0,
            r.admins@.len() == 0,
            r.posts@.len() == 0,
            r.votes@.len() == 0,
            r.next_user_id == 0,
            r.next_post_id == 0,
            r.next_vote_id == 0,
    {
        Store {
            users: Vec::new(),
            admins: Vec::new(),
            posts: Vec::new(),
            votes: Vec::new(),
            next_user_id: 0,
            next_post_id: 0,
            next_vote_id: 0,
        }
    }

    /// The position of the user row holding the given email, if any.
    fn user_position(&self, email: &str) -> (r: Option<usize>)
        ensures
            r matches Some(i) ==> i < self.users@.len() && self.users@[i as int].email@ == email@,
            r is None ==> !has_email(self.users@, email@),
    {
        let target: String = email.to_owned();
        let n = self.users.len();
        let mut i: usize = 0;
        while i < n
            invariant
                n == self.users@.len(),
                i <= n,
                target@ == email@,
                forall|k: int| 0 <= k < i ==> self.users@[k].email@ != email@,
            decreases n - i,
        {
            if self.users[i].email == target {
                return Some(i);
            }
            i += 1;
        }
        None
    }

    /// When emails are unique, any row holding an email sits at `email_index`.
    proof fn lemma_email_index(self, email: Seq<char>, i: int)
        requires
            forall|a: int, b: int|
                0 <= a < b < self.users@.len() ==> self.users@[a].email@ != self.users@[b].email@,
            0 <= i < self.users@.len(),
            self.users@[i].email@ == email,
        ensures
            email_index(self.users@, email) == i,
    {
        lemma_email_index_unique(self.users@, email, i);
    }

    /// When ids are unique, any post holding an id sits at `post_index`.
    proof fn lemma_post_index(self, id: i32, i: int)
        requires
            forall|a: int, b: int|
                0 <= a < b < self.posts@.len() ==> self.posts@[a].id.0 != self.posts@[b].id.0,
            0 <= i < self.posts@.len(),
            self.posts@[i].id.0 == id,
        ensures
            post_index(self.posts@, id) == i,
    {
        let j = post_index(self.posts@, id);
        assert(has_post_id(self.posts@, id));
        if j < i {
            assert(self.posts@[j].id.0 != self.posts@[i].id.0);
        } else if j > i {
            assert(self.posts@[i].id.0 != self.posts@[j].id.0);
        }
    }

    // Users ----------------------------------------------------------------

    /// The stored credentials for the given email.
    pub fn get_user(&self, email: &str) -> (r: Result<User, AppError>)
        requires
            self.wf(),
        ensures
            has_email(self.users@, email@) ==> (r matches Ok(u) && u.email@ == email@
                && u.password@ == self.users@[email_index(self.users@, email@)].password@),
            !has_email(self.users@, email@) ==> r == Err::<User, AppError>(
                AppError::UserDoesNotExist,
            ),
    {
        match self.user_position(email) {
            Some(i) => {
                proof {
                    self.lemma_email_index(email@, i as int);
                }
                Ok(User {
                    email: self.users[i].email.clone(),
                    password: self.users[i].password.clone(),
                })
            },
            None => Err(AppError::UserDoesNotExist),
        }
    }

    /// The surrogate key of the user with the given email.
    pub fn get_user_id_by_email(&self, email: String) -> (r: Result<i32, AppError>)
        requires
            self.wf(),
        ensures
            has_email(self.users@, email@) ==> r == Ok::<i32, AppError>(
                self.users@[email_index(self.users@, email@)].id,
            ),
            !has_email(self.users@, email@) ==> r == Err::<i32, AppError>(
                AppError::UserDoesNotExist,
            ),
    {
        match self.user_position(email.as_str()) {
            Some(i) => {
                proof {
                    self.lemma_email_index(email@, i as int);
                }
                Ok(self.users[i].id)
            },
            None => Err(AppError::UserDoesNotExist),
        }
    }

    /// Insert a fresh user row. Fails with `UserAlreadyExists` when the email
    /// is taken, and with a storage error when the id space is exhausted.
    pub fn create_user(&mut self, user: UserSignup) -> (r: Result<String, AppError>)
        requires
            old(self).wf(),
        ensures
            final(self).wf(),
            has_email(old(self).users@, user.email@) ==> r == Err::<String, AppError>(
                AppError::UserAlreadyExists,
            ) && *final(self) == *old(self),
            !has_email(old(self).users@, user.email@) && old(self).next_user_id == i32::MAX
                ==> (r matches Err(e) && e matches AppError::Database(m) && m@
                == "user id space exhausted"@) && *final(self) == *old(self),
            !has_email(old(self).users@, user.email@) && old(self).next_user_id < i32::MAX ==> {
                &&& r matches Ok(m) && m@ == "User created successfully!"@
                &&& final(self).users@ == old(self).users@.push(
                    (UserRecord {
                        id: old(self).next_user_id,
                        email: user.email,
                        password: user.password,
                        is_banned: false,
                    }),
                )
                &&& final(self).next_user_id == old(self).next_user_id + 1
                &&& final(self).admins@ == old(self).admins@
                &&& final(self).posts@ == old(self).posts@
                &&& final(self).votes@ == old(self).votes@
                &&& final(self).next_post_id == old(self).next_post_id
                &&& final(self).next_vote_id == old(self).next_vote_id
            },
    {
        match self.user_position(user.email.as_str()) {
            Some(_) => Err(AppError::UserAlreadyExists),
            None => {
                if self.next_user_id == i32::MAX {
                    return Err(AppError::Database("user id space exhausted".to_owned()));
                }
                let record = UserRecord {
                    id: self.next_user_id,
                    email: user.email,
                    password: user.password,
                    is_banned: false,
                };
                self.users.push(record);
                self.next_user_id = self.next_user_id + 1;
                proof {
                    let users0 = old(self).users@;
                    let users1 = self.users@;
                    assert forall|a: int, b: int|
                        0 <= a < b < users1.len() implies users1[a].email@
                        != users1[b].email@ by {
                        assert(users1[a] == users0[a]);
                        if b < users1.len() - 1 {
                            assert(users1[b] == users0[b]);
                        }
                    }
                    assert forall|a: int, b: int|
                        0 <= a < b < users1.len() implies users1[a].id != users1[b].id by {
                        assert(users1[a] == users0[a]);
                        if b < users1.len() - 1 {
                            assert(users1[b] == users0[b]);
                        }
                    }
                    assert forall|a: int|
                        0 <= a < users1.len() implies 0 <= #[trigger] users1[a].id
                        < self.next_user_id by {
                        if a < users1.len() - 1 {
                            assert(users1[a] == users0[a]);
                        }
                    }
                }
                Ok("User created successfully!".to_owned())
            },
        }
    }

    /// Whether the user with the given email is banned; fails when no such
    /// user exists.
    pub fn determine_if_user_banned(&mut self, email: String) -> (r: Result<bool, AppError>)
        requires
            old(self).wf(),
        ensures
            *final(self) == *old(self),
            has_email(old(self).users@, email@) ==> r == Ok::<bool, AppError>(
                old(self).spec_is_banned(email@),
            ),
            !has_email(old(self).users@, email@) ==> r == Err::<bool, AppError>(
                AppError::UserDoesNotExist,
            ),
    {
        match self.user_position(email.as_str()) {
            Some(i) => {
                proof {
                    self.lemma_email_index(email@, i as int);
                }
                Ok(self.users[i].is_banned)
            },
            None => Err(AppError::UserDoesNotExist),
        }
    }

    /// The position of an admin row referencing the given user id, if any.
    fn admin_position(&self, id: i32) -> (r: Option<usize>)
        ensures
            r matches Some(i) ==> i < self.admins@.len() && self.admins@[i as int] == id,
            r is None ==> !admin_contains(self.admins@, id),
    {
        let n = self.admins.len();
        let mut i: usize = 0;
        while i < n
            invariant
                n == self.admins@.len(),
                i <= n,
                forall|k: int| 0 <= k < i ==> self.admins@[k] != id,
            decreases n - i,
        {
            if self.admins[i] == id {
                return Some(i);
            }
            i += 1;
        }
        None
    }

    /// Whether the user with the given email is an admin. A missing user is
    /// simply not an admin.
    pub fn determine_if_user_admin(&mut self, email: String) -> (r: Result<bool, AppError>)
        requires
            old(self).wf(),
        ensures
            *final(self) == *old(self),
            r == Ok::<bool, AppError>(old(self).spec_is_admin(email@)),
    {
        match self.user_position(email.as_str()) {
            Some(i) => {
                proof {
                    self.lemma_email_index(email@, i as int);
                }
                match self.admin_position(self.users[i].id) {
                    Some(_) => Ok(true),
                    None => Ok(false),
                }
            },
            None => Ok(false),
        }
    }

    // Admin ----------------------------------------------------------------

    /// Set the ban flag of the user with the given email; a missing email
    /// changes nothing, as an update matching no row.
    pub fn ban_user_by_email(&mut self, email_to_ban: String) -> (r: Result<(), AppError>)
        requires
            old(self).wf(),
        ensures
            final(self).wf(),
            r == Ok::<(), AppError>(()),
            has_email(old(self).users@, email_to_ban@) ==> {
                &&& final(self).users@ == old(self).users@.update(
                    email_index(old(self).users@, email_to_ban@),
                    (UserRecord {
                        is_banned: true,
                        ..old(self).users@[email_index(old(self).users@, email_to_ban@)]
                    }),
                )
                &&& final(self).admins@ == old(self).admins@
                &&& final(self).posts@ == old(self).posts@
                &&& final(self).votes@ == old(self).votes@
                &&& final(self).next_user_id == old(self).next_user_id
                &&& final(self).next_post_id == old(self).next_post_id
                &&& final(self).next_vote_id == old(self).next_vote_id
            },
            !has_email(old(self).users@, email_to_ban@) ==> *final(self) == *old(self),
    {
        match self.user_position(email_to_ban.as_str()) {
            Some(i) => {
                proof {
                    self.lemma_email_index(email_to_ban@, i as int);
                }
                let updated = UserRecord {
                    id: self.users[i].id,
                    email: self.users[i].email.clone(),
                    password: self.users[i].password.clone(),
                    is_banned: true,
                };
                self.users.set(i, updated);
                Ok(())
            },
            None => Ok(()),
        }
    }

    /// Clear the ban flag of the user with the given email; a missing email
    /// changes nothing.
    pub fn unban_user_by_email(&mut self, email_to_ban: String) -> (r: Result<(), AppError>)
        requires
            old(self).wf(),
        ensures
            final(self).wf(),
            r == Ok::<(), AppError>(()),
            has_email(old(self).users@, email_to_ban@) ==> {
                &&& final(self).users@ == old(self).users@.update(
                    email_index(old(self).users@, email_to_ban@),
                    (UserRecord {
                        is_banned: false,
                        ..old(self).users@[email_index(old(self).users@, email_to_ban@)]
                    }),
                )
                &&& final(self).admins@ == old(self).admins@
                &&& final(self).posts@ == old(self).posts@
                &&& final(self).votes@ == old(self).votes@
                &&& final(self).next_user_id == old(self).next_user_id
                &&& final(self).next_post_id == old(self).next_post_id
                &&& final(self).next_vote_id == old(self).next_vote_id
            },
            !has_email(old(self).users@, email_to_ban@) ==> *final(self) == *old(self),
    {
        match self.user_position(email_to_ban.as_str()) {
            Some(i) => {
                proof {
                    self.lemma_email_index(email_to_ban@, i as int);
                }
                let updated = UserRecord {
                    id: self.users[i].id,
                    email: self.users[i].email.clone(),
                    password: self.users[i].password.clone(),
                    is_banned: false,
                };
                self.users.set(i, updated);
                Ok(())
            },
            None => Ok(()),
        }
    }

    /// Add an admin row for the user with the given email; fails when the
    /// user does not exist. The insert is unconditional, as the admin check
    /// is existence-based.
    pub fn promote_admin_by_email(&mut self, email_to_promote: String) -> (r: Result<
        (),
        AppError,
    >)
        requires
            old(self).wf(),
        ensures
            final(self).wf(),
            has_email(old(self).users@, email_to_promote@) ==> {
                &&& r == Ok::<(), AppError>(())
                &&& final(self).admins@ == old(self).admins@.push(
                    old(self).users@[email_index(old(self).users@, email_to_promote@)].id,
                )
                &&& final(self).users@ == old(self).users@
                &&& final(self).posts@ == old(self).posts@
                &&& final(self).votes@ == old(self).votes@
                &&& final(self).next_user_id == old(self).next_user_id
                &&& final(self).next_post_id == old(self).next_post_id
                &&& final(self).next_vote_id == old(self).next_vote_id
            },
            !has_email(old(self).users@, email_to_promote@) ==> (r matches Err(e)
                && e matches AppError::Database(m) && m@ == "row not found"@) && *final(self)
                == *old(self),
    {
        match self.user_position(email_to_promote.as_str()) {
            Some(i) => {
                proof {
                    self.lemma_email_index(email_to_promote@, i as int);
                }
                let id = self.users[i].id;
                self.admins.push(id);
                Ok(())
            },
            None => Err(AppError::Database("row not found".to_owned())),
        }
    }

    /// Remove every admin row referencing the user with the given email;
    /// fails when the user does not exist.
    pub fn demote_admin_by_email(&mut self, email_to_demote: String) -> (r: Result<(), AppError>)
        requires
            old(self).wf(),
        ensures
            final(self).wf(),
            has_email(old(self).users@, email_to_demote@) ==> {
                &&& r == Ok::<(), AppError>(())
                &&& final(self).admins@ == old(self).admins@.filter(
                    |a: i32|
                        a != old(self).users@[email_index(
                            old(self).users@,
                            email_to_demote@,
                        )].id,
                )
                &&& final(self).users@ == old(self).users@
                &&& final(self).posts@ == old(self).posts@
                &&& final(self).votes@ == old(self).votes@
                &&& final(self).next_user_id == old(self).next_user_id
                &&& final(self).next_post_id == old(self).next_post_id
                &&& final(self).next_vote_id == old(self).next_vote_id
            },
            !has_email(old(self).users@, email_to_demote@) ==> (r matches Err(e)
                && e matches AppError::Database(m) && m@ == "row not found"@) && *final(self)
                == *old(self),
    {
        match self.user_position(email_to_demote.as_str()) {
            Some(i) => {
                proof {
                    self.lemma_email_index(email_to_demote@, i as int);
                }
                let id = self.users[i].id;
                let ghost pred = |a: i32| a != id;
                let n = self.admins.len();
                let mut kept: Vec<i32> = Vec::new();
                let mut k: usize = 0;
                proof {
                    assert(self.admins@.take(0int).filter(pred) =~= Seq::<i32>::empty());
                }
                while k < n
                    invariant
                        n == self.admins@.len(),
                        k <= n,
                        kept@ == self.admins@.take(k as int).filter(pred),
                        pred == (|a: i32| a != id),
                    decreases n - k,
                {
                    let a = self.admins[k];
                    proof {
                        assert(self.admins@.take(k as int + 1) =~= self.admins@.take(
                            k as int,
                        ).push(a));
                        lemma_filter_push(self.admins@.take(k as int), pred, a);
                    }
                    if a != id {
                        kept.push(a);
                    }
                    k += 1;
                }
                proof {
                    assert(self.admins@.take(n as int) =~= self.admins@);
                }
                self.admins = kept;
                Ok(())
            },
            None => Err(AppError::Database("row not found".to_owned())),
        }
    }

    // Posts ----------------------------------------------------------------

    /// The position of the post with the given id, if any.
    fn post_position(&self, post_id: i32) -> (r: Option<usize>)
        ensures
            r matches Some(i) ==> i < self.posts@.len() && self.posts@[i as int].id.0 == post_id,
            r is None ==> !has_post_id(self.posts@, post_id),
    {
        let n = self.posts.len();
        let mut i: usize = 0;
        while i < n
            invariant
                n == self.posts@.len(),
                i <= n,
                forall|k: int| 0 <= k < i ==> self.posts@[k].id.0 != post_id,
            decreases n - i,
        {
            if self.posts[i].id.0 == post_id {
                return Some(i);
            }
            i += 1;
        }
        None
    }

    /// Every stored post, in storage order.
    pub fn get_all_posts(&mut self) -> (r: Result<Vec<Post>, AppError>)
        requires
            old(self).wf(),
        ensures
            *final(self) == *old(self),
            r matches Ok(ps) && ps@ == old(self).posts@,
    {
        let n = self.posts.len();
        let mut ps: Vec<Post> = Vec::new();
        let mut i: usize = 0;
        while i < n
            invariant
                n == self.posts@.len(),
                i <= n,
                ps@ =~= self.posts@.take(i as int),
            decreases n - i,
        {
            ps.push(self.posts[i].duplicate());
            proof {
                assert(self.posts@.take(i as int + 1) =~= self.posts@.take(i as int).push(
                    self.posts@[i as int],
                ));
            }
            i += 1;
        }
        proof {
            assert(self.posts@.take(n as int) =~= self.posts@);
        }
        Ok(ps)
    }

    /// The post with the given id; fails with a storage error when no row
    /// has it.
    pub fn get_post_by_id(&mut self, post_id: i32) -> (r: Result<Post, AppError>)
        requires
            old(self).wf(),
        ensures
            *final(self) == *old(self),
            has_post_id(old(self).posts@, post_id) ==> r == Ok::<Post, AppError>(
                old(self).posts@[post_index(old(self).posts@, post_id)],
            ),
            !has_post_id(old(self).posts@, post_id) ==> (r matches Err(e)
                && e matches AppError::Database(m) && m@ == "row not found"@),
    {
        match self.post_position(post_id) {
            Some(i) => {
                proof {
                    self.lemma_post_index(post_id, i as int);
                }
                Ok(self.posts[i].duplicate())
            },
            None => Err(AppError::Database("row not found".to_owned())),
        }
    }

    /// Insert a fresh post row under the next free id and return it. Fails
    /// with a storage error when the id space is exhausted.
    pub fn add_post(&mut self, new_post: CreatePost) -> (r: Result<Post, AppError>)
        requires
            old(self).wf(),
        ensures
            final(self).wf(),
            old(self).next_post_id == i32::MAX ==> (r matches Err(e)
                && e matches AppError::Database(m) && m@ == "post id space exhausted"@)
                && *final(self) == *old(self),
            old(self).next_post_id < i32::MAX ==> {
                &&& r == Ok::<Post, AppError>(
                    (Post {
                        id: PostId(old(self).next_post_id),
                        title: new_post.title,
                        query_string: new_post.query_string,
                        explanation: new_post.explanation,
                        img_url: new_post.img_url,
                        apod_date: new_post.apod_date,
                    }),
                )
                &&& final(self).posts@ == old(self).posts@.push(
                    (Post {
                        id: PostId(old(self).next_post_id),
                        title: new_post.title,
                        query_string: new_post.query_string,
                        explanation: new_post.explanation,
                        img_url: new_post.img_url,
                        apod_date: new_post.apod_date,
                    }),
                )
                &&& final(self).next_post_id == old(self).next_post_id + 1
                &&& final(self).users@ == old(self).users@
                &&& final(self).admins@ == old(self).admins@
                &&& final(self).votes@ == old(self).votes@
                &&& final(self).next_user_id == old(self).next_user_id
                &&& final(self).next_vote_id == old(self).next_vote_id
            },
    {
        if self.next_post_id == i32::MAX {
            return Err(AppError::Database("post id space exhausted".to_owned()));
        }
        let post = Post {
            id: PostId(self.next_post_id),
            title: new_post.title,
            query_string: new_post.query_string,
            explanation: new_post.explanation,
            img_url: new_post.img_url,
            apod_date: new_post.apod_date,
        };
        let copy = post.duplicate();
        self.posts.push(post);
        self.next_post_id = self.next_post_id + 1;
        proof {
            let posts0 = old(self).posts@;
            let posts1 = self.posts@;
            assert forall|a: int, b: int|
                0 <= a < b < posts1.len() implies posts1[a].id.0 != posts1[b].id.0 by {
                assert(posts1[a] == posts0[a]);
                if b < posts1.len() - 1 {
                    assert(posts1[b] == posts0[b]);
                }
            }
            assert forall|a: int|
                0 <= a < posts1.len() implies 0 <= #[trigger] posts1[a].id.0
                < self.next_post_id by {
                if a < posts1.len() - 1 {
                    assert(posts1[a] == posts0[a]);
                }
            }
        }
        Ok(copy)
    }

    /// Delete the post with the given id; deleting a missing id changes
    /// nothing.
    pub fn delete_post_by_id(&mut self, post_id: i32) -> (r: Result<(), AppError>)
        requires
            old(self).wf(),
        ensures
            final(self).wf(),
            r == Ok::<(), AppError>(()),
            final(self).posts@ == old(self).posts@.filter(|p: Post| p.id.0 != post_id),
            final(self).users@ == old(self).users@,
            final(self).admins@ == old(self).admins@,
            final(self).votes@ == old(self).votes@,
            final(self).next_user_id == old(self).next_user_id,
            final(self).next_post_id == old(self).next_post_id,
            final(self).next_vote_id == old(self).next_vote_id,
    {
        let ghost pred = |p: Post| p.id.0 != post_id;
        let n = self.posts.len();
        let mut kept: Vec<Post> = Vec::new();
        let mut k: usize = 0;
        proof {
            assert(self.posts@.take(0int).filter(pred) =~= Seq::<Post>::empty());
        }
        while k < n
            invariant
                n == self.posts@.len(),
                k <= n,
                kept@ == self.posts@.take(k as int).filter(pred),
                pred == (|p: Post| p.id.0 != post_id),
            decreases n - k,
        {
            proof {
                assert(self.posts@.take(k as int + 1) =~= self.posts@.take(k as int).push(
                    self.posts@[k as int],
                ));
                lemma_filter_push(self.posts@.take(k as int), pred, self.posts@[k as int]);
            }
            if self.posts[k].id.0 != post_id {
                kept.push(self.posts[k].duplicate());
            }
            k += 1;
        }
        proof {
            assert(self.posts@.take(n as int) =~= self.posts@);
            lemma_filter_membership(self.posts@, pred);
            lemma_filter_distinct_keys(self.posts@, pred, |p: Post| p.id.0);
            assert forall|a: int|
                0 <= a < kept@.len() implies 0 <= #[trigger] kept@[a].id.0
                < self.next_post_id by {
                let x = kept@[a];
                let m = choose|m: int| 0 <= m < self.posts@.len() && self.posts@[m] == x;
                assert(0 <= self.posts@[m].id.0 < self.next_post_id);
            }
        }
        self.posts = kept;
        Ok(())
    }

    /// Overwrite the fields of the post named by `new_post.id`; fails with a
    /// storage error when no row has that id.
    pub fn update_post_by_id(&mut self, new_post: UpdatePost) -> (r: Result<Post, AppError>)
        requires
            old(self).wf(),
        ensures
            final(self).wf(),
            has_post_id(old(self).posts@, new_post.id.0) ==> {
                &&& r == Ok::<Post, AppError>(
                    (Post {
                        id: new_post.id,
                        title: new_post.title,
                        query_string: new_post.query_string,
                        explanation: new_post.explanation,
                        img_url: new_post.img_url,
                        apod_date: new_post.apod_date,
                    }),
                )
                &&& final(self).posts@ == old(self).posts@.update(
                    post_index(old(self).posts@, new_post.id.0),
                    (Post {
                        id: new_post.id,
                        title: new_post.title,
                        query_string: new_post.query_string,
                        explanation: new_post.explanation,
                        img_url: new_post.img_url,
                        apod_date: new_post.apod_date,
                    }),
                )
                &&& final(self).users@ == old(self).users@
                &&& final(self).admins@ == old(self).admins@
                &&& final(self).votes@ == old(self).votes@
                &&& final(self).next_user_id == old(self).next_user_id
                &&& final(self).next_post_id == old(self).next_post_id
                &&& final(self).next_vote_id == old(self).next_vote_id
            },
            !has_post_id(old(self).posts@, new_post.id.0) ==> (r matches Err(e)
                && e matches AppError::Database(m) && m@ == "row not found"@) && *final(self)
                == *old(self),
    {
        match self.post_position(new_post.id.0) {
            Some(i) => {
                proof {
                    self.lemma_post_index(new_post.id.0, i as int);
                }
                let updated = Post {
                    id: new_post.id,
                    title: new_post.title,
                    query_string: new_post.query_string,
                    explanation: new_post.explanation,
                    img_url: new_post.img_url,
                    apod_date: new_post.apod_date,
                };
                let copy = updated.duplicate();
                self.posts.set(i, updated);
                Ok(copy)
            },
            None => Err(AppError::Database("row not found".to_owned())),
        }
    }

    /// The position of the first post cached under the given query string.
    fn query_position(&self, q: &str) -> (r: Option<usize>)
        ensures
            r matches Some(i) ==> i < self.posts@.len() && self.posts@[i as int].query_string@
                == q@,
            r is None ==> !has_query(self.posts@, q@),
    {
        let target: String = q.to_owned();
        let n = self.posts.len();
        let mut i: usize = 0;
        while i < n
            invariant
                n == self.posts@.len(),
                i <= n,
                target@ == q@,
                forall|k: int| 0 <= k < i ==> self.posts@[k].query_string@ != q@,
            decreases n - i,
        {
            if self.posts[i].query_string == target {
                return Some(i);
            }
            i += 1;
        }
        None
    }

    /// The cached post for a query string; fails with a storage error on a
    /// cache miss.
    pub fn get_post_by_query_string(&mut self, query: NasaQuery) -> (r: Result<Post, AppError>)
        requires
            old(self).wf(),
        ensures
            *final(self) == *old(self),
            has_query(old(self).posts@, query.query_string@) ==> (r matches Ok(p)
                && p.query_string@ == query.query_string@ && (exists|k: int|
                0 <= k < old(self).posts@.len() && old(self).posts@[k] == p)),
            !has_query(old(self).posts@, query.query_string@) ==> (r matches Err(e)
                && e matches AppError::Database(m) && m@ == "row not found"@),
    {
        match self.query_position(query.query_string.as_str()) {
            Some(i) => Ok(self.posts[i].duplicate()),
            None => Err(AppError::Database("row not found".to_owned())),
        }
    }

    /// Whether a post is already cached under the given query string.
    pub fn check_cache_by_query_string(&mut self, query: NasaQuery) -> (r: Result<
        bool,
        AppError,
    >)
        requires
            old(self).wf(),
        ensures
            *final(self) == *old(self),
            r == Ok::<bool, AppError>(has_query(old(self).posts@, query.query_string@)),
    {
        match self.query_position(query.query_string.as_str()) {
            Some(_) => Ok(true),
            None => Ok(false),
        }
    }

    // Votes ----------------------------------------------------------------

    /// Whether the given user has a vote for the given post.
    fn vote_exists(&self, user_id: i32, post_id: i32) -> (r: bool)
        ensures
            r == spec_liked(self.votes@, user_id, post_id),
    {
        let n = self.votes.len();
        let mut i: usize = 0;
        while i < n
            invariant
                n == self.votes@.len(),
                i <= n,
                forall|k: int|
                    0 <= k < i ==> !(self.votes@[k].user_id == user_id && self.votes@[k].post_id.0
                        == post_id),
            decreases n - i,
        {
            if self.votes[i].user_id == user_id && self.votes[i].post_id.0 == post_id {
                return true;
            }
            i += 1;
        }
        false
    }

    /// The vote rows referencing the given post, counted.
    fn count_votes_for(&self, post_id: i32) -> (c: i64)
        requires
            self.wf(),
        ensures
            c == votes_for(self.votes@, post_id),
    {
        let ghost pred = |v: Vote| v.post_id.0 == post_id;
        let n = self.votes.len();
        let mut c: i64 = 0;
        let mut i: usize = 0;
        proof {
            assert(self.votes@.take(0int).filter(pred) =~= Seq::<Vote>::empty());
        }
        while i < n
            invariant
                n == self.votes@.len(),
                i <= n,
                n < 0x7fff_ffff_ffff_ffff,
                0 <= c <= i,
                c == self.votes@.take(i as int).filter(pred).len(),
                pred == (|v: Vote| v.post_id.0 == post_id),
            decreases n - i,
        {
            proof {
                assert(self.votes@.take(i as int + 1) =~= self.votes@.take(i as int).push(
                    self.votes@[i as int],
                ));
                lemma_filter_push(self.votes@.take(i as int), pred, self.votes@[i as int]);
            }
            if self.votes[i].post_id.0 == post_id {
                c = c + 1;
            }
            i += 1;
        }
        proof {
            assert(self.votes@.take(n as int) =~= self.votes@);
        }
        c
    }

    /// Whether the given user already voted for the given post.
    pub fn determine_if_user_liked_post(&mut self, user_id: i32, post_id: i32) -> (r: Result<
        bool,
        AppError,
    >)
        requires
            old(self).wf(),
        ensures
            *final(self) == *old(self),
            r == Ok::<bool, AppError>(spec_liked(old(self).votes@, user_id, post_id)),
    {
        Ok(self.vote_exists(user_id, post_id))
    }

    /// Insert a vote row under the next free id and return it. Fails with a
    /// storage error when the id space or the vote table is exhausted.
    pub fn create_vote(&mut self, new_vote: CreateVote) -> (r: Result<Vote, AppError>)
        requires
            old(self).wf(),
        ensures
            final(self).wf(),
            old(self).next_vote_id == i32::MAX || old(self).votes@.len()
                >= 0x7fff_ffff_ffff_fffe ==> (r matches Err(e) && e matches AppError::Database(m)
                && m@ == "vote id space exhausted"@) && *final(self) == *old(self),
            old(self).next_vote_id < i32::MAX && old(self).votes@.len() < 0x7fff_ffff_ffff_fffe
                ==> {
                &&& r == Ok::<Vote, AppError>(
                    (Vote {
                        id: VoteId(old(self).next_vote_id),
                        post_id: new_vote.post_id,
                        user_id: new_vote.user_id,
                    }),
                )
                &&& final(self).votes@ == old(self).votes@.push(
                    (Vote {
                        id: VoteId(old(self).next_vote_id),
                        post_id: new_vote.post_id,
                        user_id: new_vote.user_id,
                    }),
                )
                &&& final(self).next_vote_id == old(self).next_vote_id + 1
                &&& final(self).users@ == old(self).users@
                &&& final(self).admins@ == old(self).admins@
                &&& final(self).posts@ == old(self).posts@
                &&& final(self).next_user_id == old(self).next_user_id
                &&& final(self).next_post_id == old(self).next_post_id
            },
    {
        if self.next_vote_id == i32::MAX || self.votes.len() as u64 >= 0x7fff_ffff_ffff_fffe {
            return Err(AppError::Database("vote id space exhausted".to_owned()));
        }
        let vote = Vote {
            id: VoteId(self.next_vote_id),
            post_id: new_vote.post_id,
            user_id: new_vote.user_id,
        };
        self.votes.push(vote);
        self.next_vote_id = self.next_vote_id + 1;
        proof {
            let votes0 = old(self).votes@;
            let votes1 = self.votes@;
            assert forall|a: int, b: int|
                0 <= a < b < votes1.len() implies votes1[a].id.0 != votes1[b].id.0 by {
                assert(votes1[a] == votes0[a]);
                if b < votes1.len() - 1 {
                    assert(votes1[b] == votes0[b]);
                }
            }
            assert forall|a: int|
                0 <= a < votes1.len() implies 0 <= #[trigger] votes1[a].id.0
                < self.next_vote_id by {
                if a < votes1.len() - 1 {
                    assert(votes1[a] == votes0[a]);
                }
            }
        }
        Ok(vote)
    }

    /// Delete every vote the given user cast for the given post; deleting
    /// when none exists changes nothing.
    pub fn delete_vote(&mut self, old_vote: CreateVote) -> (r: Result<(), AppError>)
        requires
            old(self).wf(),
        ensures
            final(self).wf(),
            r == Ok::<(), AppError>(()),
            final(self).votes@ == old(self).votes@.filter(
                |v: Vote| !(v.user_id == old_vote.user_id && v.post_id.0 == old_vote.post_id.0),
            ),
            final(self).users@ == old(self).users@,
            final(self).admins@ == old(self).admins@,
            final(self).posts@ == old(self).posts@,
            final(self).next_user_id == old(self).next_user_id,
            final(self).next_post_id == old(self).next_post_id,
            final(self).next_vote_id == old(self).next_vote_id,
    {
        let ghost pred = |v: Vote|
            !(v.user_id == old_vote.user_id && v.post_id.0 == old_vote.post_id.0);
        let n = self.votes.len();
        let mut kept: Vec<Vote> = Vec::new();
        let mut k: usize = 0;
        proof {
            assert(self.votes@.take(0int).filter(pred) =~= Seq::<Vote>::empty());
        }
        while k < n
            invariant
                n == self.votes@.len(),
                k <= n,
                kept@ == self.votes@.take(k as int).filter(pred),
                pred == (|v: Vote|
                    !(v.user_id == old_vote.user_id && v.post_id.0 == old_vote.post_id.0)),
            decreases n - k,
        {
            proof {
                assert(self.votes@.take(k as int + 1) =~= self.votes@.take(k as int).push(
                    self.votes@[k as int],
                ));
                lemma_filter_push(self.votes@.take(k as int), pred, self.votes@[k as int]);
            }
            let v = self.votes[k];
            if !(v.user_id == old_vote.user_id && v.post_id.0 == old_vote.post_id.0) {
                kept.push(v);
            }
            k += 1;
        }
        proof {
            assert(self.votes@.take(n as int) =~= self.votes@);
            lemma_filter_membership(self.votes@, pred);
            lemma_filter_distinct_keys(self.votes@, pred, |v: Vote| v.id.0);
            assert forall|a: int|
                0 <= a < kept@.len() implies 0 <= #[trigger] kept@[a].id.0
                < self.next_vote_id by {
                let x = kept@[a];
                let m = choose|m: int| 0 <= m < self.votes@.len() && self.votes@[m] == x;
                assert(0 <= self.votes@[m].id.0 < self.next_vote_id);
            }
            assert(kept@.len() <= self.votes@.len());
        }
        self.votes = kept;
        Ok(())
    }

    /// Delete the vote with the given id; deleting a missing id changes
    /// nothing.
    pub fn delete_vote_by_id(&mut self, vote_id: i32) -> (r: Result<(), AppError>)
        requires
            old(self).wf(),
        ensures
            final(self).wf(),
            r == Ok::<(), AppError>(()),
            final(self).votes@ == old(self).votes@.filter(|v: Vote| v.id.0 != vote_id),
            final(self).users@ == old(self).users@,
            final(self).admins@ == old(self).admins@,
            final(self).posts@ == old(self).posts@,
            final(self).next_user_id == old(self).next_user_id,
            final(self).next_post_id == old(self).next_post_id,
            final(self).next_vote_id == old(self).next_vote_id,
    {
        let ghost pred = |v: Vote| v.id.0 != vote_id;
        let n = self.votes.len();
        let mut kept: Vec<Vote> = Vec::new();
        let mut k: usize = 0;
        proof {
            assert(self.votes@.take(0int).filter(pred) =~= Seq::<Vote>::empty());
        }
        while k < n
            invariant
                n == self.votes@.len(),
                k <= n,
                kept@ == self.votes@.take(k as int).filter(pred),
                pred == (|v: Vote| v.id.0 != vote_id),
            decreases n - k,
        {
            proof {
                assert(self.votes@.take(k as int + 1) =~= self.votes@.take(k as int).push(
                    self.votes@[k as int],
                ));
                lemma_filter_push(self.votes@.take(k as int), pred, self.votes@[k as int]);
            }
            let v = self.votes[k];
            if v.id.0 != vote_id {
                kept.push(v);
            }
            k += 1;
        }
        proof {
            assert(self.votes@.take(n as int) =~= self.votes@);
            lemma_filter_membership(self.votes@, pred);
            lemma_filter_distinct_keys(self.votes@, pred, |v: Vote| v.id.0);
            assert forall|a: int|
                0 <= a < kept@.len() implies 0 <= #[trigger] kept@[a].id.0
                < self.next_vote_id by {
                let x = kept@[a];
                let m = choose|m: int| 0 <= m < self.votes@.len() && self.votes@[m] == x;
                assert(0 <= self.votes@[m].id.0 < self.next_vote_id);
            }
            assert(kept@.len() <= self.votes@.len());
        }
        self.votes = kept;
        Ok(())
    }

    /// The vote tally a post shows: its vote rows when the post exists, 0
    /// otherwise (the tally joins votes against posts).
    pub fn get_number_of_votes_for_post(&mut self, post_id: i32) -> (r: Result<i64, AppError>)
        requires
            old(self).wf(),
        ensures
            *final(self) == *old(self),
            r == Ok::<i64, AppError>(old(self).spec_num_votes(post_id) as i64),
    {
        match self.post_position(post_id) {
            Some(_) => Ok(self.count_votes_for(post_id)),
            None => Ok(0),
        }
    }

    /// The posts the given user voted for, in storage order, each listed
    /// once. The original query joins votes against posts, one row per vote;
    /// under the intended storage invariant that a user votes for a post at
    /// most once, that is one row per voted post, and this listing fixes
    /// that reading (deliberately deduplicating where duplicate votes slip
    /// in, since vote creation does not guard against them).
    pub fn get_user_posts_by_id(&mut self, user_id: i32) -> (r: Result<Vec<Post>, AppError>)
        requires
            old(self).wf(),
        ensures
            *final(self) == *old(self),
            r matches Ok(ps) && ps@ == old(self).posts@.filter(
                |p: Post| spec_liked(old(self).votes@, user_id, p.id.0),
            ),
    {
        let ghost pred = |p: Post| spec_liked(self.votes@, user_id, p.id.0);
        let n = self.posts.len();
        let mut ps: Vec<Post> = Vec::new();
        let mut i: usize = 0;
        proof {
            assert(self.posts@.take(0int).filter(pred) =~= Seq::<Post>::empty());
        }
        while i < n
            invariant
                n == self.posts@.len(),
                i <= n,
                ps@ == self.posts@.take(i as int).filter(pred),
                pred == (|p: Post| spec_liked(self.votes@, user_id, p.id.0)),
            decreases n - i,
        {
            proof {
                assert(self.posts@.take(i as int + 1) =~= self.posts@.take(i as int).push(
                    self.posts@[i as int],
                ));
                lemma_filter_push(self.posts@.take(i as int), pred, self.posts@[i as int]);
            }
            if self.vote_exists(user_id, self.posts[i].id.0) {
                ps.push(self.posts[i].duplicate());
            }
            i += 1;
        }
        proof {
            assert(self.posts@.take(n as int) =~= self.posts@);
        }
        Ok(ps)
    }

    /// The ids of the posts ranked highest by vote tally: at most ten,
    /// ordered by descending tally, only posts with at least one vote, and
    /// no post left out in favour of a lower tally. Ties may come out in
    /// either order.
    pub fn get_top_posts(&mut self) -> (r: Result<Vec<i32>, AppError>)
        requires
            old(self).wf(),
        ensures
            *final(self) == *old(self),
            r matches Ok(ids) && {
                let votes = old(self).votes@;
                &&& ids@.len() <= 10
                &&& (forall|a: int, b: int|
                    #![trigger ids@[a], ids@[b]]
                    0 <= a < b < ids@.len() ==> votes_for(votes, ids@[a]) >= votes_for(
                        votes,
                        ids@[b],
                    ))
                &&& (forall|a: int, b: int| 0 <= a < b < ids@.len() ==> ids@[a] != ids@[b])
                &&& (forall|a: int| 0 <= a < ids@.len() ==> voted(votes, #[trigger] ids@[a]))
                &&& (forall|id: i32|
                    voted(votes, id) && !id_in(ids@, id) ==> ids@.len() == 10 && #[trigger]
                    votes_for(votes, id) <= votes_for(votes, ids@[9]))
            },
    {
        let ghost votes = self.votes@;

        // Collect the distinct post ids that occur in votes.
        let n = self.votes.len();
        let mut pool_ids: Vec<i32> = Vec::new();
        let mut i: usize = 0;
        while i < n
            invariant
                n == self.votes@.len(),
                votes == self.votes@,
                i <= n,
                forall|a: int, b: int|
                    0 <= a < b < pool_ids@.len() ==> pool_ids@[a] != pool_ids@[b],
                forall|a: int|
                    0 <= a < pool_ids@.len() ==> voted(votes, #[trigger] pool_ids@[a]),
                forall|k: int| 0 <= k < i ==> id_in(pool_ids@, #[trigger] votes[k].post_id.0),
            decreases n - i,
        {
            let ghost ids0 = pool_ids@;
            let id = self.votes[i].post_id.0;
            if !id_vec_contains(&pool_ids, id) {
                pool_ids.push(id);
            }
            proof {
                assert forall|k: int|
                    0 <= k < i + 1 implies id_in(pool_ids@, #[trigger] votes[k].post_id.0) by {
                    if k < i {
                        let w = choose|w: int|
                            0 <= w < ids0.len() && ids0[w] == votes[k].post_id.0;
                        assert(pool_ids@[w] == votes[k].post_id.0);
                    } else {
                        assert(pool_ids@[pool_ids@.len() - 1] == id || id_in(ids0, id));
                        if id_in(ids0, id) {
                            let w = choose|w: int| 0 <= w < ids0.len() && ids0[w] == id;
                            assert(pool_ids@[w] == id);
                        }
                    }
                }
            }
            i += 1;
        }

        // Pair each distinct id with its tally.
        let m = pool_ids.len();
        let mut pool: Vec<(i32, i64)> = Vec::new();
        let mut j: usize = 0;
        while j < m
            invariant
                m == pool_ids@.len(),
                votes == self.votes@,
                self.wf(),
                j <= m,
                pool@.len() == j,
                forall|k: int|
                    0 <= k < j ==> (#[trigger] pool@[k]).0 == pool_ids@[k] && pool@[k].1
                        == votes_for(votes, pool_ids@[k]),
            decreases m - j,
        {
            let id = pool_ids[j];
            let c = self.count_votes_for(id);
            pool.push((id, c));
            j += 1;
        }

        proof {
            assert forall|id: i32| voted(votes, id) implies pair_in(pool@, id) by {
                let k = choose|k: int| 0 <= k < votes.len() && votes[k].post_id.0 == id;
                let w = choose|w: int| 0 <= w < pool_ids@.len() && pool_ids@[w] == id;
                assert(pool@[w].0 == id);
            }
            assert forall|a: int, b: int|
                0 <= a < b < pool@.len() implies (#[trigger] pool@[a]).0 != (#[trigger]
            pool@[b]).0 by {
                assert(pool_ids@[a] != pool_ids@[b]);
            }
        }

        // Repeatedly move the highest tally over, up to ten times.
        let mut result: Vec<i32> = Vec::new();
        while result.len() < 10 && pool.len() > 0
            invariant
                votes == self.votes@,
                result@.len() <= 10,
                forall|k: int|
                    0 <= k < pool@.len() ==> (#[trigger] pool@[k]).1 == votes_for(
                        votes,
                        pool@[k].0,
                    ) && voted(votes, pool@[k].0),
                forall|a: int, b: int|
                    0 <= a < b < pool@.len() ==> (#[trigger] pool@[a]).0 != (#[trigger]
                    pool@[b]).0,
                forall|a: int, b: int|
                    0 <= a < b < result@.len() ==> result@[a] != result@[b],
                forall|a: int| 0 <= a < result@.len() ==> voted(votes, #[trigger] result@[a]),
                forall|a: int, k: int|
                    #![trigger result@[a], pool@[k]]
                    0 <= a < result@.len() && 0 <= k < pool@.len() ==> result@[a] != pool@[k].0,
                forall|a: int, b: int|
                    #![trigger result@[a], result@[b]]
                    0 <= a < b < result@.len() ==> votes_for(votes, result@[a]) >= votes_for(
                        votes,
                        result@[b],
                    ),
                forall|a: int, k: int|
                    #![trigger result@[a], pool@[k]]
                    0 <= a < result@.len() && 0 <= k < pool@.len() ==> votes_for(
                        votes,
                        result@[a],
                    ) >= pool@[k].1,
                forall|id: i32|
                    #[trigger] voted(votes, id) ==> id_in(result@, id) || pair_in(pool@, id),
            decreases pool@.len(),
        {
            let ghost pool0 = pool@;
            let ghost result0 = result@;
            let mut best: usize = 0;
            let mut j2: usize = 1;
            while j2 < pool.len()
                invariant
                    pool@ == pool0,
                    pool@.len() > 0,
                    best < j2 <= pool@.len(),
                    forall|k: int| 0 <= k < j2 ==> (#[trigger] pool@[k]).1 <= pool@[best as int].1,
                decreases pool@.len() - j2,
            {
                if pool[j2].1 > pool[best].1 {
                    best = j2;
                }
                j2 += 1;
            }
            let pair = pool.remove(best);
            result.push(pair.0);
            proof {
                pool0.remove_ensures(best as int);
                assert(result@[result@.len() - 1] == pair.0);
                assert forall|a: int, k: int|
                    #![trigger result@[a], pool@[k]]
                    0 <= a < result@.len() && 0 <= k < pool@.len() implies result@[a]
                    != pool@[k].0 by {
                    let korig: int = if k < best { k } else { k + 1 };
                    assert(pool@[k] == pool0[korig]);
                    if a < result@.len() - 1 {
                        assert(result@[a] == result0[a]);
                    } else {
                        assert(result@[a] == pool0[best as int].0);
                    }
                }
                assert forall|a: int, k: int|
                    #![trigger result@[a], pool@[k]]
                    0 <= a < result@.len() && 0 <= k < pool@.len() implies votes_for(
                    votes,
                    result@[a],
                ) >= pool@[k].1 by {
                    let korig: int = if k < best { k } else { k + 1 };
                    assert(pool@[k] == pool0[korig]);
                    assert(pool0[korig].1 <= pool0[best as int].1);
                    if a < result@.len() - 1 {
                        assert(result@[a] == result0[a]);
                    }
                }
                assert forall|a: int, b: int|
                    #![trigger result@[a], result@[b]]
                    0 <= a < b < result@.len() implies votes_for(votes, result@[a])
                    >= votes_for(votes, result@[b]) by {
                    assert(result@[a] == result0[a]);
                    if b < result@.len() - 1 {
                        assert(result@[b] == result0[b]);
                    }
                }
                assert forall|id: i32| #[trigger]
                    voted(votes, id) implies id_in(result@, id) || pair_in(pool@, id) by {
                    if id_in(result0, id) {
                        let w = choose|w: int| 0 <= w < result0.len() && result0[w] == id;
                        assert(result@[w] == id);
                    } else if pair_in(pool0, id) {
                        let w = choose|w: int| 0 <= w < pool0.len() && pool0[w].0 == id;
                        if w == best {
                            assert(result@[result@.len() - 1] == id);
                        } else if w < best {
                            assert(pool@[w] == pool0[w]);
                            assert(pool@[w].0 == id);
                        } else {
                            assert(pool@[w - 1] == pool0[w]);
                            assert(pool@[w - 1].0 == id);
                        }
                    }
                }
            }
        }
        proof {
            assert forall|id: i32|
                voted(votes, id) && !id_in(result@, id) implies result@.len() == 10
                && #[trigger] votes_for(votes, id) <= votes_for(votes, result@[9]) by {
                assert(pair_in(pool@, id));
                let w = choose|w: int| 0 <= w < pool@.len() && pool@[w].0 == id;
                assert(pool@.len() > 0);
                assert(result@.len() == 10);
                assert(votes_for(votes, result@[9]) >= pool@[w].1);
            }
        }
        Ok(result)
    }
}

/// Whether a pool entry carries the given post id.
pub open spec fn pair_in(pairs: Seq<(i32, i64)>, id: i32) -> bool {
    exists|i: int| 0 <= i < pairs.len() && pairs[i].0 == id
}

/// Whether an id occurs in a vector of ids.
fn id_vec_contains(ids: &Vec<i32>, id: i32) -> (r: bool)
    ensures
        r == id_in(ids@, id),
{
    let n = ids.len();
    let mut i: usize = 0;
    while i < n
        invariant
            n == ids@.len(),
            i <= n,
            forall|k: int| 0 <= k < i ==> ids@[k] != id,
        decreases n - i,
    {
        if ids[i] == id {
            return true;
        }
        i += 1;
    }
    false
}

} // verus!
