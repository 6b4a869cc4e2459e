//! A session with the service: the queries it offers, and what it reports when
//! one fails.

use crate::client::ClientOptions;
use crate::clips::{
    outcome, start, step, Clips, ClipsFetch, ClipsOptions, ClipsProgress, PaginatedClips, Step,
};
use crate::error::{FetchError, TwitchError};
use crate::text::texts;
use crate::user::{users_endpoint, User, UserIdCache, Users};
use vstd::prelude::*;
use vstd::string::*;

verus! {

/// A session with the service under one set of credentials.
pub struct Twitch {
    client_options: ClientOptions,
}

impl Twitch {
    /// The credentials of the session.
    pub closed spec fn options(&self) -> ClientOptions {
        self.client_options
    }

    /// A session under the credentials `client_options`.
    pub fn new(client_options: ClientOptions) -> (session: Self)
        ensures
            session.options() == client_options,
    {
        Self { client_options }
    }

    /// The credentials of the session.
    pub fn client_options(&self) -> (client_options: &ClientOptions)
        ensures
            *client_options == self.options(),
    {
        &self.client_options
    }

    /// An empty cache of users whose requests are to be made under the session's
    /// credentials.
    pub fn create_user_id_cache(&mut self) -> (cache: UserIdCache)
        ensures
            cache@ == Map::<Seq<char>, User>::empty(),
            cache.options()@ == old(self).options()@,
            final(self).options() == old(self).options(),
    {
        UserIdCache::new(self.client_options.clone())
    }

    /// Begins reading the clips of broadcaster `id`, `options.per_page` to a page,
    /// at the most recent clip, as `Clips::from_broadcaster` does.
    pub fn get_clips_by_broardcaster(&self, id: &str, options: ClipsOptions) -> (walk: ClipsFetch)
        ensures
            walk@ == start(id@, options.per_page as nat),
    {
        Clips::from_broadcaster(id, options)
    }

    /// Takes the answer to the request for `walk.endpoint()`, as `ClipsFetch::advance`
    /// does. A failure is reported as a `ClipsError` with the failure's account.
    pub fn get_clips_by_broardcaster_fetched(
        &self,
        walk: ClipsFetch,
        answer: Result<PaginatedClips, FetchError>,
    ) -> (result: Result<ClipsProgress, TwitchError>)
        ensures
            match result {
                Ok(progress) => outcome(Ok(progress)) == step(walk@, answer),
                Err(error) => {
                    &&& step(walk@, answer) matches Step::Failed(failure)
                    &&& error matches TwitchError::ClipsError(account)
                    &&& account@ == failure.detail()
                },
            },
    {
        match walk.advance(answer) {
            Ok(progress) => Ok(progress),
            Err(failure) => Err(TwitchError::ClipsError(failure.message())),
        }
    }

    /// The endpoint of the users with the login names `names`.
    pub fn get_users_by_name(&self, names: &[&str]) -> (endpoint: String)
        ensures
            endpoint@ == users_endpoint("login"@, texts(names@)),
    {
        Users::by_names(names)
    }

    /// Takes the answer to the request of `get_users_by_name`. A failure is reported
    /// as a `RetrievingUsersError` with the failure's account.
    pub fn get_users_by_name_fetched(&self, answer: Result<Users, FetchError>) -> (result: Result<
        Users,
        TwitchError,
    >)
        ensures
            match answer {
                Ok(users) => result == Ok::<Users, TwitchError>(users),
                Err(failure) => {
                    &&& result matches Err(TwitchError::RetrievingUsersError(account))
                    &&& account@ == failure.detail()
                },
            },
    {
        match answer {
            Ok(users) => Ok(users),
            Err(failure) => Err(TwitchError::RetrievingUsersError(failure.message())),
        }
    }

    /// The endpoint of the user with the login name `name`.
    pub fn get_user_by_name(&self, name: &str) -> (endpoint: String)
        ensures
            endpoint@ == users_endpoint("login"@, seq![name@]),
    {
        User::by_name(name)
    }

    /// Takes the answer to the request of `get_user_by_name`: the first user that it
    /// names. Where it names none, a `UserNotFoundError` with `name`. A failure is
    /// reported as a `RetrievingUsersError` with the failure's account.
    pub fn get_user_by_name_fetched(
        &self,
        name: &str,
        answer: Result<Users, FetchError>,
    ) -> (result: Result<User, TwitchError>)
        ensures
            match answer {
                Ok(users) => if users.users.len() > 0 {
                    result == Ok::<User, TwitchError>(users.users[0])
                } else {
                    &&& result matches Err(TwitchError::UserNotFoundError(missed))
                    &&& missed@ == name@
                },
                Err(failure) => {
                    &&& result matches Err(TwitchError::RetrievingUsersError(account))
                    &&& account@ == failure.detail()
                },
            },
    {
        match self.get_users_by_name_fetched(answer) {
            Ok(users) => {
                let mut users = users.users;
                if users.len() > 0 {
                    Ok(users.swap_remove(0))
                } else {
                    Err(TwitchError::UserNotFoundError(String::from_str(name)))
                }
            },
            Err(error) => Err(error),
        }
    }
}

} // verus!
