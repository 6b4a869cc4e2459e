use twitch::clips::{ClipsOptions, ClipsProgress, PaginatedClips, Pagination};
use twitch::config::Config;
use twitch::user::{User, UserLookup, Users};
use twitch::{ClientOptions, FetchError, Twitch, TwitchError};

fn session() -> Twitch {
    Twitch::new(ClientOptions::new("client".to_string(), Some("token".to_string())))
}

fn profile(id: &str) -> User {
    User {
        _id: id.to_string(),
        bio: Some("bio".to_string()),
        created_at: String::new(),
        display_name: id.to_uppercase(),
        logo: String::new(),
        name: id.to_string(),
        type_: "user".to_string(),
        updated_at: String::new(),
    }
}

fn empty_page(cursor: Option<&str>) -> PaginatedClips {
    PaginatedClips {
        data: Vec::new(),
        pagination: Pagination { cursor: cursor.map(|c| c.to_string()) },
    }
}

#[test]
fn session_keeps_its_credentials() {
    let twitch = session();
    let headers = twitch.client_options().headers();
    assert_eq!(headers[0], ("Client-ID".to_string(), "client".to_string()));
    assert_eq!(headers[1], ("Authorization".to_string(), "Bearer: token".to_string()));
}

#[test]
fn cache_of_a_session_is_empty_and_has_its_credentials() {
    let mut twitch = session();
    let cache = twitch.create_user_id_cache();
    assert!(matches!(cache.user("1"), UserLookup::Fetch(_)));
    assert_eq!(cache.client_options().headers(), twitch.client_options().headers());
}

#[test]
fn session_reads_clips_from_the_most_recent_on() {
    let twitch = session();
    let options = ClipsOptions { per_page: 100, after: Pagination { cursor: None } };
    let walk = twitch.get_clips_by_broardcaster("31", options);
    assert_eq!(walk.endpoint(), "helix/clips?broadcaster_id=31&first=100");
}

#[test]
fn session_walks_on_after_a_cursor() {
    let twitch = session();
    let options = ClipsOptions { per_page: 100, after: Pagination { cursor: None } };
    let walk = twitch.get_clips_by_broardcaster("31", options);
    match twitch.get_clips_by_broardcaster_fetched(walk, Ok(empty_page(Some("next")))) {
        Ok(ClipsProgress::Pending(walk)) => {
            assert_eq!(walk.endpoint(), "helix/clips?broadcaster_id=31&first=100&after=next")
        },
        _ => panic!("the walk goes on"),
    }
}

#[test]
fn session_completes_at_a_page_without_cursor() {
    let twitch = session();
    let options = ClipsOptions { per_page: 100, after: Pagination { cursor: None } };
    let walk = twitch.get_clips_by_broardcaster("31", options);
    match twitch.get_clips_by_broardcaster_fetched(walk, Ok(empty_page(None))) {
        Ok(ClipsProgress::Complete(clips)) => assert_eq!(clips.paginated_clips.len(), 1),
        _ => panic!("the walk is complete"),
    }
}

#[test]
fn session_reports_a_failed_page_as_clips_error() {
    let twitch = session();
    let options = ClipsOptions { per_page: 100, after: Pagination { cursor: None } };
    let walk = twitch.get_clips_by_broardcaster("31", options);
    let failure = FetchError::Transport("connection reset".to_string());
    match twitch.get_clips_by_broardcaster_fetched(walk, Err(failure)) {
        Err(TwitchError::ClipsError(account)) => assert_eq!(account, "connection reset"),
        _ => panic!("the walk failed"),
    }
}

#[test]
fn session_names_the_endpoint_of_users_by_name() {
    let twitch = session();
    assert_eq!(twitch.get_users_by_name(&["a", "b"]), "kraken/users?login=a,b");
    assert_eq!(twitch.get_user_by_name("a"), "kraken/users?login=a");
}

#[test]
fn session_hands_users_on() {
    let twitch = session();
    let answer = Ok(Users { users: vec![profile("a"), profile("b")] });
    let users = twitch.get_users_by_name_fetched(answer).expect("users");
    assert_eq!(users.users.len(), 2);
    assert_eq!(users.users[1]._id, "b");
}

#[test]
fn session_reports_failed_users_as_retrieving_users_error() {
    let twitch = session();
    match twitch.get_users_by_name_fetched(Err(FetchError::Decode("no json".to_string()))) {
        Err(TwitchError::RetrievingUsersError(account)) => assert_eq!(account, "no json"),
        _ => panic!("the request failed"),
    }
}

#[test]
fn session_gives_the_first_user_by_name() {
    let twitch = session();
    let answer = Ok(Users { users: vec![profile("a"), profile("b")] });
    let user = twitch.get_user_by_name_fetched("a", answer).expect("a user");
    assert_eq!(user._id, "a");
    assert_eq!(user.display_name, "A");
    assert_eq!(user.bio, Some("bio".to_string()));
}

#[test]
fn session_reports_a_name_that_nobody_has() {
    let twitch = session();
    match twitch.get_user_by_name_fetched("ghost", Ok(Users { users: Vec::new() })) {
        Err(TwitchError::UserNotFoundError(name)) => assert_eq!(name, "ghost"),
        _ => panic!("nobody has the name"),
    }
}

#[test]
fn session_reports_a_failed_lookup_by_name() {
    let twitch = session();
    match twitch.get_user_by_name_fetched("a", Err(FetchError::Transport("down".to_string()))) {
        Err(TwitchError::RetrievingUsersError(account)) => assert_eq!(account, "down"),
        _ => panic!("the request failed"),
    }
}

#[test]
fn twitch_error_messages() {
    assert_eq!(
        TwitchError::ClipsError("boom".to_string()).message(),
        "Error retrieving clips boom"
    );
    assert_eq!(
        TwitchError::RetrievingUsersError("boom".to_string()).message(),
        "Error retrieving users boom"
    );
    assert_eq!(
        TwitchError::UserNotFoundError("ghost".to_string()).message(),
        "User not found ghost"
    );
}

#[test]
fn fetch_error_message_is_its_account() {
    assert_eq!(FetchError::Transport("down".to_string()).message(), "down");
    assert_eq!(FetchError::Decode("bad".to_string()).message(), "bad");
    let copy = FetchError::Decode("bad".to_string()).clone();
    assert!(matches!(copy, FetchError::Decode(account) if account == "bad"));
}

#[test]
fn config_names_the_credentials() {
    let config = Config {
        client_id: "client".to_string(),
        bearer: Some("token".to_string()),
        channel: "channel".to_string(),
    };
    let headers = config.client_options().headers();
    assert_eq!(headers[0].1, "client");
    assert_eq!(headers[1].1, "Bearer: token");
    let bare = Config { client_id: "c".to_string(), bearer: None, channel: String::new() };
    assert_eq!(bare.client_options().headers().len(), 1);
}
