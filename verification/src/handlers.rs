use vstd::prelude::*;

use crate::auth;
use crate::error::AppError;
use crate::models::displaypost::{DisplayPost, DisplayPostId};
use crate::models::nasaquery::NasaQuery;
use crate::models::post::Post;
use crate::models::user::{Claims, Keys, OptionalClaims, User, UserSignup};
use crate::store::Store;
use crate::store::UserRecord;

verus! {

use crate::auth::{argon2_hash_of, argon2_verify_of, is_argon2_hash, jwt_of};
use crate::store::{
    admin_contains, email_count, email_index, has_email, has_post_id, has_query, id_in,
    post_index, query_count, spec_liked, voted, votes_for,
};

/// Whether a signup carries usable credentials: nothing empty and the
/// password confirmed.
pub open spec fn signup_acceptable(c: UserSignup) -> bool {
    c.email@.len() > 0 && c.password@.len() > 0 && c.password@ == c.confirm_password@
}

/// The Set-Cookie text a fresh session for `email`, issued at `now` against
/// `keys`, is carried in.
pub open spec fn session_cookie_for(email: Seq<char>, now: u64, keys: Keys) -> Seq<char> {
    "jwt="@ + jwt_of(0, email, crate::spec_timestamp_after_8_hours_from(now), keys.secret@)
        + "; HttpOnly"@
}

// ---------------------------------------------------------------------------
// User registration and login.
// ---------------------------------------------------------------------------

/// Register a new account: validate the signup, hash the password, store the
/// row, and answer with the Set-Cookie text of a fresh session.
///
/// Mismatched or missing credentials fail with `MissingCredentials` and store
/// nothing; a taken email fails with `UserAlreadyExists` and stores nothing.
pub fn register(
    database: &mut Store,
    credentials: UserSignup,
    salt: &[u8],
    keys: &Keys,
    now: u64,
) -> (r: Result<String, AppError>)
    requires
        old(database).wf(),
    ensures
        final(database).wf(),
        !signup_acceptable(credentials) ==> r == Err::<String, AppError>(
            AppError::MissingCredentials,
        ) && *final(database) == *old(database),
        signup_acceptable(credentials) && has_email(old(database).users@, credentials.email@)
            ==> r == Err::<String, AppError>(AppError::UserAlreadyExists) && *final(database)
            == *old(database),
        signup_acceptable(credentials) && !has_email(old(database).users@, credentials.email@)
            && !(8 <= salt@.len() <= 0xffff_ffff) ==> (r matches Err(e)
            && e matches AppError::Any(m) && m@ == "Password hashing failed"@)
            && *final(database) == *old(database),
        signup_acceptable(credentials) && !has_email(old(database).users@, credentials.email@)
            && (8 <= salt@.len() <= 0xffff_ffff && credentials.password@.len() <= 0x3fff_ffff)
            && old(database).next_user_id < i32::MAX ==> {
            &&& r matches Ok(c) && c@ == session_cookie_for(credentials.email@, now, *keys)
            &&& final(database).users@.len() == old(database).users@.len() + 1
            &&& final(database).users@.take(old(database).users@.len() as int) == old(
                database,
            ).users@
            &&& final(database).users@.last().email == credentials.email
            &&& final(database).users@.last().password@ == argon2_hash_of(
                credentials.password@,
                salt@,
            )
            &&& is_argon2_hash(final(database).users@.last().password@)
            &&& argon2_verify_of(final(database).users@.last().password@, credentials.password@)
            &&& !final(database).users@.last().is_banned
            &&& final(database).admins@ == old(database).admins@
            &&& final(database).posts@ == old(database).posts@
            &&& final(database).votes@ == old(database).votes@
        },
        signup_acceptable(credentials) && !has_email(old(database).users@, credentials.email@)
            && (8 <= salt@.len() <= 0xffff_ffff) && credentials.password@.len() > 0xffff_ffff
            ==> (r matches Err(e) && e matches AppError::Any(m) && m@
            == "Password hashing failed"@),
        signup_acceptable(credentials) && !has_email(old(database).users@, credentials.email@)
            && (8 <= salt@.len() <= 0xffff_ffff && credentials.password@.len() <= 0x3fff_ffff)
            && old(database).next_user_id == i32::MAX ==> (r matches Err(e)
            && e matches AppError::Database(m) && m@ == "user id space exhausted"@),
        r is Err ==> *final(database) == *old(database),
        r is Ok ==> signup_acceptable(credentials) && !has_email(
            old(database).users@,
            credentials.email@,
        ),
{
    if credentials.email.as_str().is_empty() || credentials.password.as_str().is_empty() {
        return Err(AppError::MissingCredentials);
    }
    if !(credentials.password == credentials.confirm_password) {
        return Err(AppError::MissingCredentials);
    }
    let existing_user = database.get_user(credentials.email.as_str());
    if let Ok(_) = existing_user {
        return Err(AppError::UserAlreadyExists);
    }
    let hashed_password = match auth::hash_password(credentials.password.as_str(), salt) {
        Some(h) => h,
        None => {
            return Err(AppError::Any("Password hashing failed".to_owned()));
        },
    };
    let stored = UserSignup {
        email: credentials.email.clone(),
        password: hashed_password,
        confirm_password: credentials.confirm_password,
    };
    match database.create_user(stored) {
        Ok(_) => {},
        Err(e) => {
            return Err(e);
        },
    }
    proof {
        assert(final(database).users@.take(old(database).users@.len() as int) =~= old(
            database,
        ).users@);
    }
    let claims = Claims {
        id: 0,
        email: credentials.email,
        exp: crate::timestamp_after_8_hours_from(now),
    };
    let token = match auth::issue_token(&claims, keys) {
        Ok(t) => t,
        Err(e) => {
            return Err(e);
        },
    };
    Ok(auth::jwt_cookie(token.as_str()))
}

/// Log an existing account in: look the user up, check the password against
/// the stored hash, and answer with the Set-Cookie text of a fresh session.
///
/// Missing credentials fail with `MissingCredentials`, an unknown email with
/// `UserDoesNotExist`, and a wrong password with `InvalidPassword`; no token
/// is issued in any failing case.
pub fn login(database: &Store, creds: User, keys: &Keys, now: u64) -> (r: Result<
    String,
    AppError,
>)
    requires
        database.wf(),
    ensures
        (creds.email@.len() == 0 || creds.password@.len() == 0) ==> r == Err::<String, AppError>(
            AppError::MissingCredentials,
        ),
        creds.email@.len() > 0 && creds.password@.len() > 0 && !has_email(
            database.users@,
            creds.email@,
        ) ==> r == Err::<String, AppError>(AppError::UserDoesNotExist),
        r matches Ok(c) ==> has_email(database.users@, creds.email@) && argon2_verify_of(
            database.users@[email_index(database.users@, creds.email@)].password@,
            creds.password@,
        ) && c@ == session_cookie_for(creds.email@, now, *keys),
        creds.email@.len() > 0 && 0 < creds.password@.len() <= 0x3fff_ffff && has_email(
            database.users@,
            creds.email@,
        ) && is_argon2_hash(
            database.users@[email_index(database.users@, creds.email@)].password@,
        ) ==> {
            let hash = database.users@[email_index(database.users@, creds.email@)].password@;
            if argon2_verify_of(hash, creds.password@) {
                r is Ok
            } else {
                r == Err::<String, AppError>(AppError::InvalidPassword)
            }
        },
        creds.email@.len() > 0 && creds.password@.len() > 0 && has_email(
            database.users@,
            creds.email@,
        ) && !argon2_verify_of(
            database.users@[email_index(database.users@, creds.email@)].password@,
            creds.password@,
        ) ==> (r == Err::<String, AppError>(AppError::InvalidPassword) || r == Err::<
            String,
            AppError,
        >(AppError::InternalServerError)),
{
    if creds.email.as_str().is_empty() || creds.password.as_str().is_empty() {
        return Err(AppError::MissingCredentials);
    }
    let existing_user = match database.get_user(creds.email.as_str()) {
        Ok(u) => u,
        Err(e) => {
            return Err(e);
        },
    };
    let is_password_correct = match auth::check_password(
        existing_user.password.as_str(),
        creds.password.as_str(),
    ) {
        Some(b) => b,
        None => {
            return Err(AppError::InternalServerError);
        },
    };
    if !is_password_correct {
        return Err(AppError::InvalidPassword);
    }
    let claims = Claims {
        id: 0,
        email: creds.email,
        exp: crate::timestamp_after_8_hours_from(now),
    };
    let token = match auth::issue_token(&claims, keys) {
        Ok(t) => t,
        Err(e) => {
            return Err(e);
        },
    };
    Ok(auth::jwt_cookie(token.as_str()))
}

/// Log out: the Set-Cookie text that replaces the session cookie with an
/// empty value already expired, so the client stops presenting it.
pub fn logout() -> (r: String)
    ensures
        r@ == "jwt=; path=/; expires=Thu, 01 Jan 1970 00:00:00 UTC;"@,
{
    "jwt=; path=/; expires=Thu, 01 Jan 1970 00:00:00 UTC;".to_owned()
}

// ---------------------------------------------------------------------------
// The external-resource cache.
// ---------------------------------------------------------------------------

/// What came back from the external picture-of-the-day provider for a query
/// that was not cached. The caller performs the network exchange and reports
/// it here as plain values.
pub enum ApodFetchOutcome {
    /// The exchange itself failed.
    NetworkError,
    /// The provider reported the query outside its legal date range.
    OutOfRange,
    /// The provider's payload did not carry the expected fields.
    Malformed,
    /// The fields of a successful response.
    Fetched { title: String, explanation: String, img_url: String, apod_date: String },
}

/// Serve a picture-of-the-day query from the cache, or store what the
/// external provider returned for it.
///
/// A cached query is answered from the store, whatever `fetched` holds. An
/// uncached one is answered from `fetched`: a successful fetch is persisted
/// as one new post keyed by the query string; every failure is typed and
/// persists nothing.
pub fn get_nasa_post(database: &mut Store, query: NasaQuery, fetched: ApodFetchOutcome) -> (r:
    Result<Post, AppError>)
    requires
        old(database).wf(),
    ensures
        final(database).wf(),
        has_query(old(database).posts@, query.query_string@) ==> *final(database) == *old(
            database,
        ) && (r matches Ok(p) && p.query_string@ == query.query_string@ && (exists|k: int|
            0 <= k < old(database).posts@.len() && old(database).posts@[k] == p)),
        !has_query(old(database).posts@, query.query_string@) ==> match fetched {
            ApodFetchOutcome::NetworkError => r == Err::<Post, AppError>(
                AppError::InternalServerError,
            ) && *final(database) == *old(database),
            ApodFetchOutcome::OutOfRange => r == Err::<Post, AppError>(
                AppError::InvalidDateRange,
            ) && *final(database) == *old(database),
            ApodFetchOutcome::Malformed => r == Err::<Post, AppError>(AppError::NASAError)
                && *final(database) == *old(database),
            ApodFetchOutcome::Fetched { title, explanation, img_url, apod_date } => {
                if old(database).next_post_id < i32::MAX {
                    &&& r matches Ok(p) && p == (Post {
                        id: crate::models::post::PostId(old(database).next_post_id),
                        title: title,
                        query_string: query.query_string,
                        explanation: explanation,
                        img_url: img_url,
                        apod_date: apod_date,
                    })
                    &&& final(database).posts@ == old(database).posts@.push(
                        (Post {
                            id: crate::models::post::PostId(old(database).next_post_id),
                            title: title,
                            query_string: query.query_string,
                            explanation: explanation,
                            img_url: img_url,
                            apod_date: apod_date,
                        }),
                    )
                    &&& final(database).users@ == old(database).users@
                    &&& final(database).admins@ == old(database).admins@
                    &&& final(database).votes@ == old(database).votes@
                } else {
                    (r matches Err(e) && e matches AppError::Database(_)) && *final(database)
                        == *old(database)
                }
            },
        },
{
    let is_cached = match database.check_cache_by_query_string(query.duplicate()) {
        Ok(b) => b,
        Err(e) => {
            return Err(e);
        },
    };
    if is_cached {
        return database.get_post_by_query_string(query);
    }
    match fetched {
        ApodFetchOutcome::NetworkError => Err(AppError::InternalServerError),
        ApodFetchOutcome::OutOfRange => Err(AppError::InvalidDateRange),
        ApodFetchOutcome::Malformed => Err(AppError::NASAError),
        ApodFetchOutcome::Fetched { title, explanation, img_url, apod_date } => {
            let post_to_add = crate::models::post::CreatePost {
                title,
                explanation,
                query_string: query.query_string,
                img_url,
                apod_date,
            };
            database.add_post(post_to_add)
        },
    }
}

// ---------------------------------------------------------------------------
// Laws relating the flows above.
// ---------------------------------------------------------------------------

/// Law: registering an email that no row holds leaves exactly one row with
/// that email, so a second registration of it finds the account taken.
pub proof fn lemma_register_unique_email(users: Seq<UserRecord>, rec: UserRecord)
    requires
        !has_email(users, rec.email@),
    ensures
        email_count(users.push(rec), rec.email@) == 1,
        has_email(users.push(rec), rec.email@),
{
    let pred = |u: UserRecord| u.email@ == rec.email@;
    crate::store::lemma_filter_empty(users, pred);
    crate::store::lemma_filter_push(users, pred, rec);
    assert(users.push(rec)[users.len() as int] == rec);
}

/// Law: filling the cache for a query string that misses stores exactly one
/// post under that key, and any later lookup of the key can only find that
/// post.
pub proof fn lemma_cache_fill_once(posts: Seq<Post>, new_post: Post, q: Seq<char>)
    requires
        !has_query(posts, q),
        new_post.query_string@ == q,
    ensures
        query_count(posts.push(new_post), q) == 1,
        has_query(posts.push(new_post), q),
        forall|k: int|
            0 <= k < posts.push(new_post).len() && (#[trigger] posts.push(new_post)[k]).query_string@
                == q ==> posts.push(new_post)[k] == new_post,
{
    crate::store::lemma_query_count_absent(posts, q);
    crate::store::lemma_query_count_push(posts, new_post, q);
    assert(posts.push(new_post)[posts.len() as int] == new_post);
    assert forall|k: int|
        0 <= k < posts.push(new_post).len() && (#[trigger] posts.push(new_post)[k]).query_string@
            == q implies posts.push(new_post)[k] == new_post by {
        if k < posts.len() {
            assert(!has_query(posts, q));
            assert(posts[k] == posts.push(new_post)[k]);
        }
    }
}

/// Law: promoting an email then demoting it returns the user to non-admin
/// status, and promoting twice changes nothing the admin check can see —
/// duplicate admin rows do not leak into it.
pub proof fn lemma_promote_then_demote(admins: Seq<i32>, id: i32)
    ensures
        admin_contains(admins.push(id), id),
        !admin_contains(admins.push(id).filter(|a: i32| a != id), id),
        admin_contains(admins.push(id).push(id), id) == admin_contains(admins.push(id), id),
{
    let pushed = admins.push(id);
    assert(pushed[admins.len() as int] == id);
    assert(pushed.push(id)[pushed.len() as int] == id);
    let pred = |a: i32| a != id;
    if admin_contains(pushed.filter(pred), id) {
        let w = choose|w: int|
            0 <= w < pushed.filter(pred).len() && pushed.filter(pred)[w] == id;
        pushed.lemma_filter_pred(pred, w);
    }
}

// ---------------------------------------------------------------------------
// The landing page.
// ---------------------------------------------------------------------------

/// What the landing page shows, depending on the resolved identity and the
/// access policy: the anonymous page, the banned page, or the main page with
/// the post listing and the top-ranked posts.
pub enum RootView {
    Anonymous,
    Banned { claims: Claims, current_user_id: i32 },
    Main {
        claims: Claims,
        current_user_id: i32,
        is_admin: bool,
        all_posts: Vec<DisplayPost>,
        top_posts: Vec<DisplayPost>,
    },
}

/// How a stored post is displayed to the given viewer: its fields together
/// with its tally and whether the viewer already voted for it.
pub open spec fn display_of(s: Store, p: Post, user_id: i32) -> DisplayPost {
    DisplayPost {
        id: DisplayPostId(p.id.0),
        title: p.title,
        query_string: p.query_string,
        explanation: p.explanation,
        img_url: p.img_url,
        apod_date: p.apod_date,
        already_liked: spec_liked(s.votes@, user_id, p.id.0),
        num_likes: s.spec_num_votes(p.id.0) as i64,
    }
}

/// Build one display entry for a post, against the live store.
fn display_post(database: &mut Store, p: &Post, user_id: i32) -> (r: Result<
    DisplayPost,
    AppError,
>)
    requires
        old(database).wf(),
    ensures
        *final(database) == *old(database),
        r matches Ok(d) && d == display_of(*old(database), *p, user_id),
{
    let num_likes = match database.get_number_of_votes_for_post(p.id.0) {
        Ok(n) => n,
        Err(e) => {
            return Err(e);
        },
    };
    let already_liked = match database.determine_if_user_liked_post(user_id, p.id.0) {
        Ok(b) => b,
        Err(e) => {
            return Err(e);
        },
    };
    Ok(DisplayPost {
        id: DisplayPostId(p.id.0),
        title: p.title.clone(),
        query_string: p.query_string.clone(),
        explanation: p.explanation.clone(),
        img_url: p.img_url.clone(),
        apod_date: p.apod_date.clone(),
        already_liked,
        num_likes,
    })
}

/// Resolve the landing page: anonymous callers get the anonymous page; a
/// banned user always gets the banned page, admin or not; everyone else gets
/// the main page, with every post displayed for them and the top-ranked
/// posts ordered by descending tally.
pub fn root(am_database: &mut Store, claims: OptionalClaims) -> (r: Result<RootView, AppError>)
    requires
        old(am_database).wf(),
    ensures
        *final(am_database) == *old(am_database),
        claims.0 is None ==> (r matches Ok(v) && v is Anonymous),
        claims.0 matches Some(c) ==> (!has_email(old(am_database).users@, c.email@) ==> r
            == Err::<RootView, AppError>(AppError::UserDoesNotExist)),
        claims.0 matches Some(c) ==> (old(am_database).spec_is_banned(c.email@) ==> (r matches Ok(
            v,
        ) && v == (RootView::Banned {
            claims: c,
            current_user_id: old(am_database).users@[email_index(
                old(am_database).users@,
                c.email@,
            )].id,
        }))),
        claims.0 matches Some(c) ==> (has_email(old(am_database).users@, c.email@) && !old(
            am_database,
        ).spec_is_banned(c.email@) ==> {
            let s = *old(am_database);
            let uid = s.users@[email_index(s.users@, c.email@)].id;
            &&& (r matches Ok(v) ==> v matches RootView::Main {
                claims: c2,
                current_user_id,
                is_admin,
                all_posts,
                top_posts,
            } && {
                &&& c2 == c
                &&& current_user_id == uid
                &&& is_admin == s.spec_is_admin(c.email@)
                &&& all_posts@.len() == s.posts@.len()
                &&& (forall|k: int|
                    0 <= k < all_posts@.len() ==> all_posts@[k] == display_of(
                        s,
                        s.posts@[k],
                        uid,
                    ))
                &&& top_posts@.len() <= 10
                &&& (forall|a: int, b: int|
                    #![trigger top_posts@[a], top_posts@[b]]
                    0 <= a < b < top_posts@.len() ==> votes_for(s.votes@, top_posts@[a].id.0)
                        >= votes_for(s.votes@, top_posts@[b].id.0))
                &&& (forall|a: int, b: int|
                    #![trigger top_posts@[a], top_posts@[b]]
                    0 <= a < b < top_posts@.len() ==> top_posts@[a].id.0 != top_posts@[b].id.0)
                &&& (forall|a: int|
                    0 <= a < top_posts@.len() ==> voted(s.votes@, (#[trigger] top_posts@[a]).id.0)
                        && has_post_id(s.posts@, top_posts@[a].id.0) && top_posts@[a]
                        == display_of(
                        s,
                        s.posts@[post_index(s.posts@, top_posts@[a].id.0)],
                        uid,
                    ))
            })
            &&& (r is Err ==> exists|id: i32|
                #[trigger] voted(s.votes@, id) && !has_post_id(s.posts@, id))
            &&& ((forall|id: i32|
                #[trigger] voted(s.votes@, id) ==> has_post_id(s.posts@, id)) ==> r is Ok)
        }),
{
    let claims_data = match claims.0 {
        None => {
            return Ok(RootView::Anonymous);
        },
        Some(c) => c,
    };
    let current_user_id = match am_database.get_user_id_by_email(claims_data.email.clone()) {
        Ok(id) => id,
        Err(e) => {
            return Err(e);
        },
    };
    let is_banned = match am_database.determine_if_user_banned(claims_data.email.clone()) {
        Ok(b) => b,
        Err(e) => {
            return Err(e);
        },
    };
    if is_banned {
        return Ok(RootView::Banned { claims: claims_data, current_user_id });
    }
    let is_admin = match am_database.determine_if_user_admin(claims_data.email.clone()) {
        Ok(b) => b,
        Err(e) => {
            return Err(e);
        },
    };
    let ghost s = *am_database;

    let posts = match am_database.get_all_posts() {
        Ok(ps) => ps,
        Err(e) => {
            return Err(e);
        },
    };
    let n = posts.len();
    let mut display_posts: Vec<DisplayPost> = Vec::new();
    let mut i: usize = 0;
    while i < n
        invariant
            *am_database == s,
            s == *old(am_database),
            s.wf(),
            claims.0 == Some(claims_data),
            has_email(s.users@, claims_data.email@),
            !s.spec_is_banned(claims_data.email@),
            n == posts@.len(),
            posts@ == s.posts@,
            i <= n,
            display_posts@.len() == i,
            forall|k: int|
                0 <= k < i ==> display_posts@[k] == display_of(s, s.posts@[k], current_user_id),
        decreases n - i,
    {
        let d = match display_post(am_database, &posts[i], current_user_id) {
            Ok(d) => d,
            Err(e) => {
                return Err(e);
            },
        };
        display_posts.push(d);
        i += 1;
    }

    let top_ids = match am_database.get_top_posts() {
        Ok(ids) => ids,
        Err(e) => {
            return Err(e);
        },
    };
    proof {
        assert forall|id: i32|
            #[trigger] voted(s.votes@, id) && !id_in(top_ids@, id) implies top_ids@.len() == 10
            && votes_for(s.votes@, id) <= votes_for(s.votes@, top_ids@[9]) by {
            assert(votes_for(s.votes@, id) <= votes_for(s.votes@, top_ids@[9]));
        }
    }
    let m = top_ids.len();
    let mut top_display_posts: Vec<DisplayPost> = Vec::new();
    let mut j: usize = 0;
    while j < m
        invariant
            *am_database == s,
            s == *old(am_database),
            s.wf(),
            claims.0 == Some(claims_data),
            has_email(s.users@, claims_data.email@),
            !s.spec_is_banned(claims_data.email@),
            m == top_ids@.len(),
            m <= 10,
            j <= m,
            top_display_posts@.len() == j,
            forall|a: int, b: int|
                #![trigger top_ids@[a], top_ids@[b]]
                0 <= a < b < m ==> votes_for(s.votes@, top_ids@[a]) >= votes_for(
                    s.votes@,
                    top_ids@[b],
                ),
            forall|a: int, b: int| 0 <= a < b < m ==> top_ids@[a] != top_ids@[b],
            forall|a: int| 0 <= a < m ==> voted(s.votes@, #[trigger] top_ids@[a]),
            forall|id: i32|
                #[trigger] voted(s.votes@, id) && !id_in(top_ids@, id) ==> m == 10 && votes_for(
                    s.votes@,
                    id,
                ) <= votes_for(s.votes@, top_ids@[9]),
            forall|a: int|
                0 <= a < j ==> has_post_id(s.posts@, #[trigger] top_ids@[a])
                    && top_display_posts@[a] == display_of(
                    s,
                    s.posts@[post_index(s.posts@, top_ids@[a])],
                    current_user_id,
                ) && top_display_posts@[a].id.0 == top_ids@[a],
        decreases m - j,
    {
        let post = match am_database.get_post_by_id(top_ids[j]) {
            Ok(p) => p,
            Err(e) => {
                proof {
                    assert(voted(s.votes@, top_ids@[j as int]));
                    assert(!has_post_id(s.posts@, top_ids@[j as int]));
                }
                return Err(e);
            },
        };
        let d = match display_post(am_database, &post, current_user_id) {
            Ok(d) => d,
            Err(e) => {
                return Err(e);
            },
        };
        top_display_posts.push(d);
        j += 1;
    }

    proof {
        assert forall|a: int, b: int|
            #![trigger top_display_posts@[a], top_display_posts@[b]]
            0 <= a < b < top_display_posts@.len() implies votes_for(
            s.votes@,
            top_display_posts@[a].id.0,
        ) >= votes_for(s.votes@, top_display_posts@[b].id.0) && top_display_posts@[a].id.0
            != top_display_posts@[b].id.0 by {
            assert(top_display_posts@[a].id.0 == top_ids@[a]);
            assert(top_display_posts@[b].id.0 == top_ids@[b]);
        }
        assert forall|a: int|
            0 <= a < top_display_posts@.len() implies voted(
            s.votes@,
            (#[trigger] top_display_posts@[a]).id.0,
        ) && has_post_id(s.posts@, top_display_posts@[a].id.0) && top_display_posts@[a]
            == display_of(
            s,
            s.posts@[post_index(s.posts@, top_display_posts@[a].id.0)],
            current_user_id,
        ) by {
            assert(top_display_posts@[a].id.0 == top_ids@[a]);
            assert(voted(s.votes@, top_ids@[a]));
        }
    }
    Ok(RootView::Main {
        claims: claims_data,
        current_user_id,
        is_admin,
        all_posts: display_posts,
        top_posts: top_display_posts,
    })
}

} // verus!
