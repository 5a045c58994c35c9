use apod_backend::error::AppError;
use apod_backend::handlers::{get_nasa_post, ApodFetchOutcome};
use apod_backend::models::nasaquery::NasaQuery;
use apod_backend::models::post::{CreatePost, PostId, UpdatePost};
use apod_backend::models::vote::CreateVote;
use apod_backend::store::Store;

fn query(q: &str) -> NasaQuery {
    NasaQuery { query_string: q.to_owned() }
}

fn sample_post(q: &str) -> CreatePost {
    CreatePost {
        title: format!("title for {}", q),
        query_string: q.to_owned(),
        explanation: "an explanation".to_owned(),
        img_url: "https://example.com/image.jpg".to_owned(),
        apod_date: q.to_owned(),
    }
}

fn fetched(q: &str) -> ApodFetchOutcome {
    ApodFetchOutcome::Fetched {
        title: format!("title for {}", q),
        explanation: "an explanation".to_owned(),
        img_url: "https://example.com/image.jpg".to_owned(),
        apod_date: q.to_owned(),
    }
}

#[test]
fn it_works() {
    let result = 2 + 2;
    assert_eq!(result, 4);
}

#[test]
fn apod_miss_fetches_and_caches_one_post() {
    let mut store = Store::new();
    let first = get_nasa_post(&mut store, query("1999-08-09"), fetched("1999-08-09")).unwrap();
    assert_eq!(first.query_string, "1999-08-09");
    let cached_rows = store.posts.iter().filter(|p| p.query_string == "1999-08-09").count();
    assert_eq!(cached_rows, 1);

    // A second fetch of the same key is served from the cache: it returns the
    // same post id whatever the provider would have answered.
    let second = get_nasa_post(
        &mut store,
        query("1999-08-09"),
        ApodFetchOutcome::NetworkError,
    )
    .unwrap();
    assert_eq!(second.id, first.id);
    assert_eq!(store.posts.len(), 1);
}

#[test]
fn apod_out_of_range_is_typed_and_caches_nothing() {
    let mut store = Store::new();
    let r = get_nasa_post(&mut store, query("1066-01-01"), ApodFetchOutcome::OutOfRange);
    assert!(matches!(r, Err(AppError::InvalidDateRange)));
    assert_eq!(store.posts.len(), 0);
}

#[test]
fn apod_malformed_payload_is_a_nasa_error() {
    let mut store = Store::new();
    let r = get_nasa_post(&mut store, query("2002-02-02"), ApodFetchOutcome::Malformed);
    assert!(matches!(r, Err(AppError::NASAError)));
    assert_eq!(store.posts.len(), 0);
}

#[test]
fn apod_network_failure_is_internal() {
    let mut store = Store::new();
    let r = get_nasa_post(&mut store, query("2002-02-02"), ApodFetchOutcome::NetworkError);
    assert!(matches!(r, Err(AppError::InternalServerError)));
    assert_eq!(store.posts.len(), 0);
}

#[test]
fn top_posts_ranks_by_descending_tally() {
    let mut store = Store::new();
    let mut ids = Vec::new();
    for q in ["2000-01-01", "2000-01-02", "2000-01-03", "2000-01-04"] {
        ids.push(store.add_post(sample_post(q)).unwrap().id);
    }
    let counts: [usize; 4] = [5, 3, 3, 1];
    for (post, n) in ids.iter().zip(counts.iter()) {
        for user in 0..*n {
            store
                .create_vote(CreateVote { post_id: *post, user_id: user as i32 })
                .unwrap();
        }
    }

    let top = store.get_top_posts().unwrap();
    assert_eq!(top.len(), 4);
    assert_eq!(top[0], ids[0].0);
    // The two tally-3 posts may come out in either relative order.
    assert!(
        (top[1] == ids[1].0 && top[2] == ids[2].0)
            || (top[1] == ids[2].0 && top[2] == ids[1].0)
    );
    assert_eq!(top[3], ids[3].0);
}

#[test]
fn top_posts_caps_at_ten() {
    let mut store = Store::new();
    for i in 0..12 {
        let post = store.add_post(sample_post(&format!("2003-01-{:02}", i + 1))).unwrap();
        store.create_vote(CreateVote { post_id: post.id, user_id: 1 }).unwrap();
    }
    let top = store.get_top_posts().unwrap();
    assert_eq!(top.len(), 10);
}

#[test]
fn promote_then_demote_returns_to_non_admin() {
    let mut store = Store::new();
    store
        .create_user(apod_backend::models::user::UserSignup {
            email: "adm@example.com".to_owned(),
            password: "hash".to_owned(),
            confirm_password: "hash".to_owned(),
        })
        .unwrap();

    store.promote_admin_by_email("adm@example.com".to_owned()).unwrap();
    assert!(store.determine_if_user_admin("adm@example.com".to_owned()).unwrap());

    // Promoting twice does not error, and the admin check is unchanged.
    store.promote_admin_by_email("adm@example.com".to_owned()).unwrap();
    assert!(store.determine_if_user_admin("adm@example.com".to_owned()).unwrap());

    store.demote_admin_by_email("adm@example.com".to_owned()).unwrap();
    assert!(!store.determine_if_user_admin("adm@example.com".to_owned()).unwrap());
}

#[test]
fn promote_unknown_email_is_a_storage_error() {
    let mut store = Store::new();
    let r = store.promote_admin_by_email("nobody@example.com".to_owned());
    assert!(matches!(r, Err(AppError::Database(_))));
}

#[test]
fn ban_and_unban_flip_the_flag() {
    let mut store = Store::new();
    store
        .create_user(apod_backend::models::user::UserSignup {
            email: "b@example.com".to_owned(),
            password: "hash".to_owned(),
            confirm_password: "hash".to_owned(),
        })
        .unwrap();
    assert!(!store.determine_if_user_banned("b@example.com".to_owned()).unwrap());
    store.ban_user_by_email("b@example.com".to_owned()).unwrap();
    assert!(store.determine_if_user_banned("b@example.com".to_owned()).unwrap());
    store.unban_user_by_email("b@example.com".to_owned()).unwrap();
    assert!(!store.determine_if_user_banned("b@example.com".to_owned()).unwrap());
}

#[test]
fn post_crud_round_trip() {
    let mut store = Store::new();
    let created = store.add_post(sample_post("2004-04-04")).unwrap();
    let looked_up = store.get_post_by_id(created.id.0).unwrap();
    assert_eq!(looked_up.title, "title for 2004-04-04");

    let updated = store
        .update_post_by_id(UpdatePost {
            id: created.id,
            title: "new title".to_owned(),
            query_string: "2004-04-04".to_owned(),
            explanation: "new explanation".to_owned(),
            img_url: "https://example.com/new.jpg".to_owned(),
            apod_date: "2004-04-04".to_owned(),
        })
        .unwrap();
    assert_eq!(updated.title, "new title");
    assert_eq!(store.get_post_by_id(created.id.0).unwrap().title, "new title");

    store.delete_post_by_id(created.id.0).unwrap();
    let r = store.get_post_by_id(created.id.0);
    assert!(matches!(r, Err(AppError::Database(_))));
    assert_eq!(store.get_all_posts().unwrap().len(), 0);
}

#[test]
fn cache_check_and_query_lookup() {
    let mut store = Store::new();
    assert!(!store.check_cache_by_query_string(query("2005-05-05")).unwrap());
    store.add_post(sample_post("2005-05-05")).unwrap();
    assert!(store.check_cache_by_query_string(query("2005-05-05")).unwrap());
    let p = store.get_post_by_query_string(query("2005-05-05")).unwrap();
    assert_eq!(p.query_string, "2005-05-05");
    let r = store.get_post_by_query_string(query("2005-05-06"));
    assert!(matches!(r, Err(AppError::Database(_))));
}

#[test]
fn votes_count_and_delete() {
    let mut store = Store::new();
    let post = store.add_post(sample_post("2006-06-06")).unwrap();
    assert_eq!(store.get_number_of_votes_for_post(post.id.0).unwrap(), 0);

    store.create_vote(CreateVote { post_id: post.id, user_id: 7 }).unwrap();
    store.create_vote(CreateVote { post_id: post.id, user_id: 8 }).unwrap();
    assert_eq!(store.get_number_of_votes_for_post(post.id.0).unwrap(), 2);
    assert!(store.determine_if_user_liked_post(7, post.id.0).unwrap());
    assert!(!store.determine_if_user_liked_post(9, post.id.0).unwrap());

    store.delete_vote(CreateVote { post_id: post.id, user_id: 7 }).unwrap();
    assert_eq!(store.get_number_of_votes_for_post(post.id.0).unwrap(), 1);
    assert!(!store.determine_if_user_liked_post(7, post.id.0).unwrap());

    // Votes for a missing post count as zero, as the tally joins on posts.
    assert_eq!(store.get_number_of_votes_for_post(999).unwrap(), 0);
}

#[test]
fn delete_vote_by_id_removes_only_that_vote() {
    let mut store = Store::new();
    let post = store.add_post(sample_post("2007-07-07")).unwrap();
    let v1 = store.create_vote(CreateVote { post_id: post.id, user_id: 1 }).unwrap();
    store.create_vote(CreateVote { post_id: post.id, user_id: 2 }).unwrap();
    store.delete_vote_by_id(v1.id.0).unwrap();
    assert_eq!(store.get_number_of_votes_for_post(post.id.0).unwrap(), 1);
}

#[test]
fn user_posts_lists_what_the_user_voted_for() {
    let mut store = Store::new();
    let p1 = store.add_post(sample_post("2008-08-08")).unwrap();
    let p2 = store.add_post(sample_post("2008-08-09")).unwrap();
    store.create_vote(CreateVote { post_id: p2.id, user_id: 3 }).unwrap();
    let posts = store.get_user_posts_by_id(3).unwrap();
    assert_eq!(posts.len(), 1);
    assert_eq!(posts[0].id, p2.id);
    assert_ne!(posts[0].id, p1.id);
}

#[test]
fn get_user_returns_stored_credentials() {
    let mut store = Store::new();
    store
        .create_user(apod_backend::models::user::UserSignup {
            email: "u@example.com".to_owned(),
            password: "stored-hash".to_owned(),
            confirm_password: "stored-hash".to_owned(),
        })
        .unwrap();
    let user = store.get_user("u@example.com").unwrap();
    assert_eq!(user.email, "u@example.com");
    assert_eq!(user.password, "stored-hash");
    let id = store.get_user_id_by_email("u@example.com".to_owned()).unwrap();
    assert_eq!(id, 0);
    assert!(matches!(store.get_user("missing@example.com"), Err(AppError::UserDoesNotExist)));
}

#[test]
fn model_constructors_keep_their_fields() {
    let post = apod_backend::models::post::Post::new(
        PostId(4),
        "t".to_owned(),
        "q".to_owned(),
        "e".to_owned(),
        "u".to_owned(),
        "d".to_owned(),
    );
    assert_eq!(post.id, PostId(4));
    assert_eq!(post.query_string, "q");

    let display = apod_backend::models::displaypost::DisplayPost::new(
        apod_backend::models::displaypost::DisplayPostId(4),
        "t".to_owned(),
        "q".to_owned(),
        "e".to_owned(),
        "u".to_owned(),
        "d".to_owned(),
        true,
        9,
    );
    assert_eq!(display.num_likes, 9);
    assert!(display.already_liked);
}
