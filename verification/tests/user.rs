use twitch::user::{CacheError, User, UserIdCache, UserLookup, Users, CHUNK};
use twitch::{ClientOptions, FetchError};

fn user(id: &str, name: &str) -> User {
    User {
        _id: id.to_string(),
        bio: None,
        created_at: "2016-01-01T00:00:00Z".to_string(),
        display_name: name.to_string(),
        logo: String::new(),
        name: name.to_lowercase(),
        type_: "user".to_string(),
        updated_at: "2018-01-01T00:00:00Z".to_string(),
    }
}

fn users(ids: &[String]) -> Users {
    Users { users: ids.iter().map(|id| user(id, &format!("User{}", id))).collect() }
}

fn new_cache() -> UserIdCache {
    UserIdCache::new(ClientOptions::new("client".to_string(), None))
}

fn numbered(from: usize, to: usize) -> Vec<String> {
    (from..to).map(|n| n.to_string()).collect()
}

fn strs(ids: &[String]) -> Vec<&str> {
    ids.iter().map(|id| id.as_str()).collect()
}

fn is_cached(cache: &UserIdCache, id: &str) -> bool {
    matches!(cache.user(id), UserLookup::Cached(_))
}

fn ids_in(endpoint: &str) -> Vec<String> {
    let list = endpoint.strip_prefix("kraken/users?id=").expect("an endpoint of users by id");
    list.split(',').map(|id| id.to_string()).collect()
}

#[test]
fn chunk_holds_a_hundred_ids() {
    assert_eq!(CHUNK, 100);
}

#[test]
fn names_endpoint_of_one_name() {
    assert_eq!(Users::by_names(&["shroud"]), "kraken/users?login=shroud");
}

#[test]
fn names_endpoint_of_many_names() {
    assert_eq!(Users::by_names(&["a", "b", "c"]), "kraken/users?login=a,b,c");
}

#[test]
fn names_endpoint_of_no_name() {
    assert_eq!(Users::by_names(&[]), "kraken/users?login");
}

#[test]
fn name_endpoint_is_that_of_one_name() {
    assert_eq!(User::by_name("shroud"), "kraken/users?login=shroud");
}

#[test]
fn ids_endpoint_of_no_id_is_one_request() {
    assert_eq!(Users::by_ids(&[]), vec!["kraken/users?id"]);
}

#[test]
fn ids_endpoint_of_few_ids_is_one_request() {
    assert_eq!(Users::by_ids(&["1", "22", "333"]), vec!["kraken/users?id=1,22,333"]);
}

#[test]
fn hundred_ids_are_one_request() {
    let ids = numbered(0, 100);
    let requests = Users::by_ids(&strs(&ids));
    assert_eq!(requests.len(), 1);
    assert_eq!(ids_in(&requests[0]), ids);
}

#[test]
fn hundred_and_one_ids_are_two_requests() {
    let ids = numbered(0, 101);
    let requests = Users::by_ids(&strs(&ids));
    assert_eq!(requests.len(), 2);
    assert_eq!(ids_in(&requests[0]), numbered(0, 100));
    assert_eq!(ids_in(&requests[1]), numbered(100, 101));
}

#[test]
fn two_hundred_ids_are_two_full_requests() {
    let ids = numbered(0, 200);
    let requests = Users::by_ids(&strs(&ids));
    assert_eq!(requests.len(), 2);
    assert_eq!(ids_in(&requests[0]), numbered(0, 100));
    assert_eq!(ids_in(&requests[1]), numbered(100, 200));
}

#[test]
fn chunks_keep_every_id_in_order() {
    let ids = numbered(0, 731);
    let requests = Users::by_ids(&strs(&ids));
    assert_eq!(requests.len(), 8);
    let mut all: Vec<String> = Vec::new();
    for (k, request) in requests.iter().enumerate() {
        let part = ids_in(request);
        assert_eq!(part.len(), if k < 7 { 100 } else { 31 });
        all.extend(part);
    }
    assert_eq!(all, ids);
}

#[test]
fn single_answer_is_handed_on() {
    let merged = Users::by_ids_fetched(vec![Ok(users(&numbered(0, 3)))]).expect("users");
    let ids: Vec<&str> = merged.users.iter().map(|u| u._id.as_str()).collect();
    assert_eq!(ids, vec!["0", "1", "2"]);
}

#[test]
fn single_failure_fails_the_query() {
    match Users::by_ids_fetched(vec![Err(FetchError::Transport("down".to_string()))]) {
        Err(FetchError::Transport(account)) => assert_eq!(account, "down"),
        _ => panic!("the failure was not handed on"),
    }
}

#[test]
fn failures_among_several_answers_are_passed_over() {
    let merged = Users::by_ids_fetched(vec![
        Ok(users(&numbered(0, 2))),
        Err(FetchError::Decode("bad".to_string())),
        Ok(users(&numbered(5, 7))),
    ])
    .expect("users");
    let ids: Vec<&str> = merged.users.iter().map(|u| u._id.as_str()).collect();
    assert_eq!(ids, vec!["0", "1", "5", "6"]);
}

#[test]
fn several_failures_bring_no_users_and_no_error() {
    let merged = Users::by_ids_fetched(vec![
        Err(FetchError::Transport("a".to_string())),
        Err(FetchError::Transport("b".to_string())),
    ])
    .expect("no error");
    assert!(merged.users.is_empty());
}

#[test]
fn no_answers_bring_no_users() {
    let merged = Users::by_ids_fetched(Vec::new()).expect("no error");
    assert!(merged.users.is_empty());
}

#[test]
fn first_user_by_name() {
    let found = User::by_name_fetched(Ok(users(&numbered(4, 6)))).expect("no error");
    assert_eq!(found.expect("a user")._id, "4");
}

#[test]
fn no_user_by_name() {
    let found = User::by_name_fetched(Ok(Users { users: Vec::new() })).expect("no error");
    assert!(found.is_none());
}

#[test]
fn failure_by_name_is_handed_on() {
    match User::by_name_fetched(Err(FetchError::Decode("bad".to_string()))) {
        Err(FetchError::Decode(account)) => assert_eq!(account, "bad"),
        _ => panic!("the failure was not handed on"),
    }
}

#[test]
fn new_cache_holds_nobody() {
    let cache = new_cache();
    assert!(!is_cached(&cache, "1"));
    assert!(cache.missing(&["1", "2"]) == vec!["1", "2"]);
}

#[test]
fn cache_keeps_its_credentials() {
    let cache = UserIdCache::new(ClientOptions::new("client".to_string(), Some("t".to_string())));
    let headers = cache.client_options().headers();
    assert_eq!(headers[0].1, "client");
    assert_eq!(headers[1].1, "Bearer: t");
}

#[test]
fn missing_ids_come_once_in_order_of_first_appearance() {
    let mut cache = new_cache();
    cache.batch_fetched(vec![Ok(users(&["b".to_string()]))]);
    assert_eq!(cache.missing(&["c", "a", "b", "c", "a", "d"]), vec!["c", "a", "d"]);
}

#[test]
fn batch_for_uncached_ids_asks_once_for_each_id() {
    let cache = new_cache();
    assert_eq!(cache.batch_ids(&["7", "8", "7", "9", "8"]), vec!["kraken/users?id=7,8,9"]);
}

#[test]
fn batch_for_no_ids_makes_no_request() {
    let cache = new_cache();
    assert!(cache.batch_ids(&[]).is_empty());
}

#[test]
fn batch_for_cached_ids_makes_no_request() {
    let mut cache = new_cache();
    let ids = numbered(0, 5);
    cache.batch_fetched(vec![Ok(users(&ids))]);
    assert!(cache.batch_ids(&strs(&ids)).is_empty());
    assert!(cache.batch_ids(&["3", "3", "1"]).is_empty());
}

#[test]
fn batch_asks_only_for_what_is_not_cached() {
    let mut cache = new_cache();
    cache.batch_fetched(vec![Ok(users(&numbered(0, 5)))]);
    assert_eq!(cache.batch_ids(&["3", "9", "1", "12"]), vec!["kraken/users?id=9,12"]);
}

#[test]
fn batch_of_250_ids_is_three_requests_and_a_failed_one_is_passed_over() {
    let mut cache = new_cache();
    let ids = numbered(0, 250);
    let requests = cache.batch_ids(&strs(&ids));
    assert_eq!(requests.len(), 3);
    let parts: Vec<Vec<String>> = requests.iter().map(|r| ids_in(r)).collect();
    assert_eq!(parts[0].len(), 100);
    assert_eq!(parts[1].len(), 100);
    assert_eq!(parts[2].len(), 50);
    let answers = vec![
        Ok(users(&parts[0])),
        Err(FetchError::Transport("timed out".to_string())),
        Ok(users(&parts[2])),
    ];
    cache.batch_fetched(answers);
    for id in &parts[0] {
        assert!(is_cached(&cache, id));
    }
    for id in &parts[1] {
        assert!(!is_cached(&cache, id));
    }
    for id in &parts[2] {
        assert!(is_cached(&cache, id));
    }
    assert_eq!(cache.missing(&strs(&ids)), strs(&parts[1]));
}

#[test]
fn batch_whose_only_request_failed_changes_nothing() {
    let mut cache = new_cache();
    cache.batch_fetched(vec![Ok(users(&["1".to_string()]))]);
    assert_eq!(cache.batch_ids(&["1", "2"]), vec!["kraken/users?id=2"]);
    cache.batch_fetched(vec![Err(FetchError::Transport("down".to_string()))]);
    assert!(is_cached(&cache, "1"));
    assert!(!is_cached(&cache, "2"));
    assert_eq!(cache.batch_ids(&["1", "2"]), vec!["kraken/users?id=2"]);
}

#[test]
fn batch_whose_requests_all_failed_changes_nothing() {
    let mut cache = new_cache();
    cache.batch_fetched(vec![
        Err(FetchError::Transport("down".to_string())),
        Err(FetchError::Decode("bad".to_string())),
    ]);
    assert!(cache.batch_ids(&["1"]) == vec!["kraken/users?id=1"]);
}

#[test]
fn batch_enters_users_under_their_own_id() {
    let mut cache = new_cache();
    let requests = cache.batch_ids(&["asked"]);
    assert_eq!(requests, vec!["kraken/users?id=asked"]);
    cache.batch_fetched(vec![Ok(Users { users: vec![user("given", "Given")] })]);
    assert!(is_cached(&cache, "given"));
    assert!(!is_cached(&cache, "asked"));
}

#[test]
fn later_user_with_the_same_id_stays() {
    let mut cache = new_cache();
    let answers = vec![
        Ok(Users { users: vec![user("1", "Early")] }),
        Ok(Users { users: vec![user("1", "Late")] }),
    ];
    cache.batch_fetched(answers);
    match cache.user("1") {
        UserLookup::Cached(found) => assert_eq!(found.display_name, "Late"),
        UserLookup::Fetch(_) => panic!("the user is cached"),
    }
}

#[test]
fn batch_twice_is_batch_once() {
    let ids = numbered(0, 120);
    let id_list = strs(&ids);
    let mut cache = new_cache();
    let requests = cache.batch_ids(&id_list);
    let answers: Vec<Result<Users, FetchError>> =
        requests.iter().map(|r| Ok(users(&ids_in(r)))).collect();
    cache.batch_fetched(answers);
    assert!(cache.batch_ids(&id_list).is_empty());
    cache.batch_fetched(Vec::new());
    for id in &id_list {
        match cache.user(id) {
            UserLookup::Cached(found) => assert_eq!(found.display_name, format!("User{}", id)),
            UserLookup::Fetch(_) => panic!("the user is cached"),
        }
    }
    assert!(!is_cached(&cache, "120"));
}

#[test]
fn lookup_of_a_cached_id_names_no_request() {
    let mut cache = new_cache();
    cache.batch_fetched(vec![Ok(Users { users: vec![user("5", "Five")] })]);
    match cache.user("5") {
        UserLookup::Cached(found) => {
            assert_eq!(found._id, "5");
            assert_eq!(found.display_name, "Five");
        },
        UserLookup::Fetch(_) => panic!("a cached user needs no request"),
    }
}

#[test]
fn lookup_of_an_uncached_id_names_its_request() {
    let cache = new_cache();
    match cache.user("5") {
        UserLookup::Fetch(endpoint) => assert_eq!(endpoint, "kraken/users?id=5"),
        UserLookup::Cached(_) => panic!("the cache is empty"),
    }
}

#[test]
fn fetched_user_is_entered_and_returned() {
    let mut cache = new_cache();
    let found = cache
        .user_fetched("5", Ok(Users { users: vec![user("5", "Five"), user("6", "Six")] }))
        .expect("a user");
    assert_eq!(found.display_name, "Five");
    assert!(is_cached(&cache, "5"));
    assert!(!is_cached(&cache, "6"));
}

#[test]
fn fetched_user_is_entered_under_the_id_asked_for() {
    let mut cache = new_cache();
    let found = cache
        .user_fetched("asked", Ok(Users { users: vec![user("given", "Given")] }))
        .expect("a user");
    assert_eq!(found._id, "given");
    assert!(is_cached(&cache, "asked"));
    assert!(!is_cached(&cache, "given"));
}

#[test]
fn lookup_that_finds_nobody_fails_and_changes_nothing() {
    let mut cache = new_cache();
    cache.batch_fetched(vec![Ok(Users { users: vec![user("1", "One")] })]);
    match cache.user_fetched("404", Ok(Users { users: Vec::new() })) {
        Err(CacheError::UserNotFound(id)) => assert_eq!(id, "404"),
        _ => panic!("nobody was found"),
    }
    assert!(!is_cached(&cache, "404"));
    assert!(is_cached(&cache, "1"));
    assert_eq!(cache.missing(&["1", "404"]), vec!["404"]);
}

#[test]
fn lookup_whose_request_failed_hands_the_failure_on() {
    let mut cache = new_cache();
    match cache.user_fetched("5", Err(FetchError::Transport("down".to_string()))) {
        Err(CacheError::Fetch(FetchError::Transport(account))) => assert_eq!(account, "down"),
        _ => panic!("the failure was not handed on"),
    }
    assert!(!is_cached(&cache, "5"));
}

#[test]
fn cache_error_messages() {
    assert_eq!(CacheError::UserNotFound("42".to_string()).message(), "Could not find user 42");
    assert_eq!(
        CacheError::Fetch(FetchError::Decode("bad body".to_string())).message(),
        "bad body"
    );
}

#[test]
fn cloned_user_has_the_same_fields() {
    let mut u = user("1", "One");
    u.bio = Some("hello".to_string());
    let v = u.clone();
    assert_eq!(v._id, "1");
    assert_eq!(v.bio, Some("hello".to_string()));
    assert_eq!(v.display_name, "One");
    assert_eq!(v.name, "one");
    assert_eq!(v.type_, "user");
    assert_eq!(v.created_at, u.created_at);
    assert_eq!(v.updated_at, u.updated_at);
    assert_eq!(v.logo, u.logo);
}
