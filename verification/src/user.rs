//! Users, the requests that look them up, and a cache of users by id.

use crate::client::ClientOptions;
use crate::error::FetchError;
use crate::text::{join, push_comma_separated, string_texts, texts};
use vstd::hash_map::StringHashMap;
use vstd::prelude::*;
use vstd::string::*;

verus! {

/// A single user.
#[derive(Debug)]
pub struct User {
    pub _id: String,
    pub bio: Option<String>,
    pub created_at: String,
    pub display_name: String,
    pub logo: String,
    pub name: String,
    pub type_: String,
    pub updated_at: String,
}

impl Clone for User {
    fn clone(&self) -> (r: Self)
        ensures
            r == *self,
    {
        let bio = match &self.bio {
            Some(b) => Some(b.clone()),
            None => None,
        };
        User {
            _id: self._id.clone(),
            bio,
            created_at: self.created_at.clone(),
            display_name: self.display_name.clone(),
            logo: self.logo.clone(),
            name: self.name.clone(),
            type_: self.type_.clone(),
            updated_at: self.updated_at.clone(),
        }
    }
}

/// A series of users.
#[derive(Debug)]
pub struct Users {
    pub users: Vec<User>,
}

/// The most ids that one request may name.
pub const CHUNK: usize = 100;

/// The path of the users whose `key` is one of `values`. With no value at all the
/// path names the key alone.
pub open spec fn users_path(key: Seq<char>, values: Seq<Seq<char>>) -> Seq<char> {
    if values.len() == 0 {
        "users?"@ + key
    } else {
        "users?"@ + key + "="@ + join(values, seq![','])
    }
}

/// The endpoint of users: its path under the root `kraken/`.
pub open spec fn users_endpoint(key: Seq<char>, values: Seq<Seq<char>>) -> Seq<char> {
    "kraken/"@ + users_path(key, values)
}

/// The `k`-th run of at most `CHUNK` ids of `ids`.
pub open spec fn chunk(ids: Seq<Seq<char>>, k: int) -> Seq<Seq<char>> {
    ids.subrange(
        CHUNK * k,
        if CHUNK * k + CHUNK <= ids.len() {
            CHUNK * k + CHUNK
        } else {
            ids.len() as int
        },
    )
}

/// Into how many runs of at most `CHUNK` a list of `n` ids falls.
pub open spec fn chunk_count(n: nat) -> nat {
    (n + CHUNK - 1) as nat / (CHUNK as nat)
}

/// `ids` cut into runs of `CHUNK`, the last of which may be shorter.
pub open spec fn chunks(ids: Seq<Seq<char>>) -> Seq<Seq<Seq<char>>> {
    Seq::new(chunk_count(ids.len()), |k: int| chunk(ids, k))
}

/// The endpoints through which the users with the ids `ids` are asked for: one for
/// all of them where they are at most `CHUNK`, else one for each run of `CHUNK`.
pub open spec fn ids_requests(ids: Seq<Seq<char>>) -> Seq<Seq<char>> {
    if ids.len() <= CHUNK {
        seq![users_endpoint("id"@, ids)]
    } else {
        chunks(ids).map_values(|part: Seq<Seq<char>>| users_endpoint("id"@, part))
    }
}

fn endpoint_for(key: &str, values: &[&str]) -> (endpoint: String)
    ensures
        endpoint@ == users_endpoint(key@, texts(values@)),
{
    let mut path = String::from_str("users?");
    path.append(key);
    if values.len() > 0 {
        path.append("=");
        push_comma_separated(&mut path, values);
    }
    String::from_str("kraken/").concat(path.as_str())
}

impl Users {
    /// The endpoint of the users with the login names `names`.
    pub fn by_names(names: &[&str]) -> (endpoint: String)
        ensures
            endpoint@ == users_endpoint("login"@, texts(names@)),
    {
        endpoint_for("login", names)
    }

    /// The endpoints through which the users with the ids `ids` are asked for, in
    /// the order of the ids.
    pub fn by_ids(ids: &[&str]) -> (endpoints: Vec<String>)
        ensures
            string_texts(endpoints@) == ids_requests(texts(ids@)),
    {
        let mut endpoints: Vec<String> = Vec::new();
        if ids.len() <= CHUNK {
            endpoints.push(endpoint_for("id", ids));
            assert(string_texts(endpoints@) =~= ids_requests(texts(ids@)));
            return endpoints;
        }
        let ghost all = texts(ids@);
        let count: usize = (ids.len() - 1) / CHUNK + 1;
        let mut k: usize = 0;
        while k < count
            invariant
                ids.len() > CHUNK,
                all == texts(ids@),
                count == chunk_count(all.len()),
                k <= count,
                endpoints.len() == k,
                forall|j: int|
                    0 <= j < k ==> (#[trigger] endpoints[j])@ == users_endpoint(
                        "id"@,
                        chunk(all, j),
                    ),
            decreases count - k,
        {
            let start: usize = k * CHUNK;
            let end: usize = if ids.len() - start > CHUNK {
                start + CHUNK
            } else {
                ids.len()
            };
            let part = &ids[start..end];
            proof {
                assert(texts(part@) =~= chunk(all, k as int));
            }
            endpoints.push(endpoint_for("id", part));
            k = k + 1;
        }
        assert(string_texts(endpoints@) =~= ids_requests(texts(ids@)));
        endpoints
    }
}

/// The users that one answer brings: none where the request failed.
pub open spec fn answered(answer: Result<Users, FetchError>) -> Seq<User> {
    match answer {
        Ok(users) => users.users@,
        Err(_) => Seq::empty(),
    }
}

/// The users that `answers` bring, answer after answer.
pub open spec fn all_users(answers: Seq<Result<Users, FetchError>>) -> Seq<User> {
    answers.map_values(|answer: Result<Users, FetchError>| answered(answer)).flatten()
}

/// What the answers to the requests of one query amount to. A single request that
/// failed fails the query. Of several requests those that failed bring no users
/// and the others bring theirs.
pub open spec fn merged(answers: Seq<Result<Users, FetchError>>) -> Result<Seq<User>, FetchError> {
    if answers.len() == 1 && answers[0] is Err {
        Err(answers[0]->Err_0)
    } else {
        Ok(all_users(answers))
    }
}

proof fn all_users_push(answers: Seq<Result<Users, FetchError>>, answer: Result<Users, FetchError>)
    ensures
        all_users(answers.push(answer)) == all_users(answers) + answered(answer),
{
    let brought = |answer: Result<Users, FetchError>| answered(answer);
    let one = seq![answered(answer)];
    assert(answers.push(answer).map_values(brought) =~= answers.map_values(brought) + one);
    vstd::seq_lib::lemma_flatten_concat(answers.map_values(brought), one);
    one.lemma_flatten_one_element();
}

/// The users that `answers` bring, answer after answer.
fn collect_users(answers: Vec<Result<Users, FetchError>>) -> (users: Vec<User>)
    ensures
        users@ == all_users(answers@),
{
    let ghost all = answers@;
    let mut users: Vec<User> = Vec::new();
    for answer in it: answers
        invariant
            it.seq() == all,
            users@ == all_users(all.take(it.index())),
    {
        proof {
            all_users_push(all.take(it.index()), answer);
            assert(all.take(it.index()).push(answer) =~= all.take(it.index() + 1));
        }
        match answer {
            Ok(brought) => {
                let mut brought = brought.users;
                users.append(&mut brought);
            },
            Err(_) => {},
        }
    }
    assert(all.take(all.len() as int) =~= all);
    users
}

impl Users {
    /// The users that the answers to the requests of `by_ids` bring, in the order of
    /// the requests. Where there was one request and it failed, its failure.
    pub fn by_ids_fetched(answers: Vec<Result<Users, FetchError>>) -> (result: Result<
        Users,
        FetchError,
    >)
        ensures
            match result {
                Ok(users) => merged(answers@) == Ok::<Seq<User>, FetchError>(users.users@),
                Err(failure) => merged(answers@) == Err::<Seq<User>, FetchError>(failure),
            },
    {
        let mut answers = answers;
        if answers.len() == 1 && answers[0].is_err() {
            match answers.pop() {
                Some(Err(failure)) => {
                    return Err(failure);
                },
                _ => {
                    assert(false);
                },
            }
        }
        Ok(Users { users: collect_users(answers) })
    }
}

impl User {
    /// The endpoint of the user with the login name `name`.
    pub fn by_name(name: &str) -> (endpoint: String)
        ensures
            endpoint@ == users_endpoint("login"@, seq![name@]),
    {
        let mut names: Vec<&str> = Vec::new();
        names.push(name);
        assert(texts(names@) =~= seq![name@]);
        endpoint_for("login", names.as_slice())
    }

    /// The user that the answer to the request of `by_name` brings: the first it
    /// names, if it names any.
    pub fn by_name_fetched(answer: Result<Users, FetchError>) -> (result: Result<
        Option<User>,
        FetchError,
    >)
        ensures
            match answer {
                Ok(users) => result == Ok::<Option<User>, FetchError>(
                    if users.users.len() > 0 {
                        Some(users.users[0])
                    } else {
                        None
                    },
                ),
                Err(failure) => result == Err::<Option<User>, FetchError>(failure),
            },
    {
        match answer {
            Ok(users) => {
                let mut users = users.users;
                if users.len() > 0 {
                    Ok(Some(users.swap_remove(0)))
                } else {
                    Ok(None)
                }
            },
            Err(failure) => Err(failure),
        }
    }
}

/// Why the cache could not name a user.
#[derive(Debug)]
pub enum CacheError {
    /// The service knows no user with the id that it holds.
    UserNotFound(String),
    /// The request for the user failed.
    Fetch(FetchError),
}

impl CacheError {
    /// The text that `message` gives.
    pub open spec fn text(&self) -> Seq<char> {
        match self {
            CacheError::UserNotFound(id) => "Could not find user "@ + id@,
            CacheError::Fetch(failure) => failure.detail(),
        }
    }

    /// The error as a line of text.
    pub fn message(&self) -> (s: String)
        ensures
            s@ == self.text(),
    {
        match self {
            CacheError::UserNotFound(id) => String::from_str("Could not find user ").concat(
                id.as_str(),
            ),
            CacheError::Fetch(failure) => failure.message(),
        }
    }
}

/// The ids of `ids` that `cache` does not hold, each once, in the order in which
/// they first appear.
pub open spec fn missing(cache: Map<Seq<char>, User>, ids: Seq<Seq<char>>) -> Seq<Seq<char>>
    decreases ids.len(),
{
    if ids.len() == 0 {
        Seq::empty()
    } else {
        let before = missing(cache, ids.drop_last());
        if cache.contains_key(ids.last()) || before.contains(ids.last()) {
            before
        } else {
            before.push(ids.last())
        }
    }
}

/// The requests through which a cache that holds `cache` fills in the users with
/// the ids `ids`: none where it holds them all, else those for the missing ids.
pub open spec fn batch_requests(cache: Map<Seq<char>, User>, ids: Seq<Seq<char>>) -> Seq<
    Seq<char>,
> {
    if missing(cache, ids).len() == 0 {
        Seq::empty()
    } else {
        ids_requests(missing(cache, ids))
    }
}

/// `cache` with each user of `users` entered under their own id, in order: of two
/// users with one id the later stays.
pub open spec fn insert_all(cache: Map<Seq<char>, User>, users: Seq<User>) -> Map<Seq<char>, User>
    decreases users.len(),
{
    if users.len() == 0 {
        cache
    } else {
        insert_all(cache, users.drop_last()).insert(users.last()._id@, users.last())
    }
}

/// What a cache that holds `cache` holds once the answers `answers` to the requests
/// of one batch are in: the users that they bring are entered. A request that
/// failed brings none.
pub open spec fn batch_fetched(
    cache: Map<Seq<char>, User>,
    answers: Seq<Result<Users, FetchError>>,
) -> Map<Seq<char>, User> {
    insert_all(cache, all_users(answers))
}

/// `missing` holds exactly the ids of `ids` that `cache` lacks, each once.
pub proof fn missing_is_exact(cache: Map<Seq<char>, User>, ids: Seq<Seq<char>>)
    ensures
        missing(cache, ids).no_duplicates(),
        forall|id: Seq<char>| #[trigger]
            missing(cache, ids).contains(id) <==> ids.contains(id) && !cache.contains_key(id),
    decreases ids.len(),
{
    if ids.len() > 0 {
        let before = missing(cache, ids.drop_last());
        let last = ids.last();
        missing_is_exact(cache, ids.drop_last());
        assert forall|id: Seq<char>| #[trigger]
            missing(cache, ids).contains(id) <==> ids.contains(id) && !cache.contains_key(
                id,
            ) by {
            if ids.contains(id) {
                let i = choose|i: int| 0 <= i < ids.len() && ids[i] == id;
                if i < ids.len() - 1 {
                    assert(ids.drop_last()[i] == id);
                }
            }
            if ids.drop_last().contains(id) {
                let i = choose|i: int| 0 <= i < ids.drop_last().len() && ids.drop_last()[i] == id;
                assert(ids[i] == id);
            }
            if before.contains(id) {
                let i = choose|i: int| 0 <= i < before.len() && before[i] == id;
                assert(missing(cache, ids)[i] == id);
            }
            if !(cache.contains_key(last) || before.contains(last)) {
                assert(missing(cache, ids)[before.len() as int] == last);
                if missing(cache, ids).contains(id) && id != last {
                    let i = choose|i: int|
                        0 <= i < missing(cache, ids).len() && missing(cache, ids)[i] == id;
                    assert(before[i] == id);
                }
            }
        }
    }
}

/// What a lookup in the cache comes to.
pub enum UserLookup {
    /// The cache holds the user.
    Cached(User),
    /// The cache does not hold the user: request the endpoint and hand the answer
    /// to `user_fetched`.
    Fetch(String),
}

/// The users already known, by id, so that no user is asked for twice.
pub struct UserIdCache {
    client_options: ClientOptions,
    cache: StringHashMap<User>,
}

impl View for UserIdCache {
    type V = Map<Seq<char>, User>;

    closed spec fn view(&self) -> Map<Seq<char>, User> {
        self.cache@
    }
}

impl UserIdCache {
    /// The credentials under which the cache's requests are to be made.
    pub closed spec fn options(&self) -> ClientOptions {
        self.client_options
    }

    /// An empty cache whose requests are to be made under `client_options`.
    pub fn new(client_options: ClientOptions) -> (cache: Self)
        ensures
            cache@ == Map::<Seq<char>, User>::empty(),
            cache.options() == client_options,
    {
        Self { client_options, cache: StringHashMap::new() }
    }

    /// The credentials under which the cache's requests are to be made.
    pub fn client_options(&self) -> (client_options: &ClientOptions)
        ensures
            *client_options == self.options(),
    {
        &self.client_options
    }

    /// The ids of `id_list` that the cache does not hold, each once, in the order in
    /// which they first appear.
    pub fn missing<'a>(&self, id_list: &[&'a str]) -> (ids: Vec<&'a str>)
        ensures
            texts(ids@) == missing(self@, texts(id_list@)),
    {
        let mut ids: Vec<&'a str> = Vec::new();
        let mut listed: StringHashMap<()> = StringHashMap::new();
        let ghost all = texts(id_list@);
        let mut i: usize = 0;
        while i < id_list.len()
            invariant
                i <= id_list.len(),
                all == texts(id_list@),
                texts(ids@) == missing(self@, all.take(i as int)),
                forall|id: Seq<char>| #[trigger]
                    listed@.contains_key(id) <==> texts(ids@).contains(id),
            decreases id_list.len() - i,
        {
            let id = id_list[i];
            let ghost before = texts(ids@);
            proof {
                assert(all.take(i + 1).drop_last() =~= all.take(i as int));
                assert(all.take(i + 1).last() == id@);
            }
            if !self.cache.contains_key(id) && !listed.contains_key(id) {
                listed.insert(String::from_str(id), ());
                ids.push(id);
                proof {
                    assert(texts(ids@) =~= before.push(id@));
                    assert forall|other: Seq<char>| #[trigger]
                        listed@.contains_key(other) <==> texts(ids@).contains(other) by {
                        if before.contains(other) {
                            let j = choose|j: int| 0 <= j < before.len() && before[j] == other;
                            assert(texts(ids@)[j] == other);
                        }
                        if texts(ids@).contains(other) && other != id@ {
                            let j = choose|j: int|
                                0 <= j < texts(ids@).len() && texts(ids@)[j] == other;
                            assert(before[j] == other);
                        }
                        if other == id@ {
                            assert(texts(ids@)[before.len() as int] == other);
                        }
                    }
                }
            }
            i = i + 1;
        }
        assert(all.take(i as int) =~= all);
        ids
    }

    /// The requests through which the users with the ids of `id_list` are filled in,
    /// each to be made once: none where the cache holds them all, else those for the
    /// ids it does not hold, at most `CHUNK` ids to a request.
    pub fn batch_ids(&self, id_list: &[&str]) -> (requests: Vec<String>)
        ensures
            string_texts(requests@) == batch_requests(self@, texts(id_list@)),
            requests.len() == 0 <==> forall|i: int|
                0 <= i < id_list.len() ==> self@.contains_key((#[trigger] id_list[i])@),
    {
        let ids = self.missing(id_list);
        proof {
            let all = texts(id_list@);
            missing_is_exact(self@, all);
            if texts(ids@).len() == 0 {
                assert forall|i: int| 0 <= i < id_list.len() implies self@.contains_key(
                    (#[trigger] id_list[i])@,
                ) by {
                    assert(all[i] == id_list[i]@);
                    assert(all.contains(id_list[i]@));
                    assert(!missing(self@, all).contains(id_list[i]@));
                }
            } else {
                let id = texts(ids@)[0];
                assert(missing(self@, all).contains(id));
                let i = choose|i: int| 0 <= i < all.len() && all[i] == id;
                assert(!self@.contains_key(id_list[i]@));
            }
        }
        if ids.len() == 0 {
            let requests: Vec<String> = Vec::new();
            assert(string_texts(requests@) =~= batch_requests(self@, texts(id_list@)));
            requests
        } else {
            Users::by_ids(ids.as_slice())
        }
    }

    /// Takes the answers to the requests of `batch_ids`, in the order of the
    /// requests. Each user that they bring is entered under the user's own id,
    /// whichever id was asked for. A request that failed is passed over: what the
    /// others bring is entered all the same, and no failure is reported.
    pub fn batch_fetched(&mut self, answers: Vec<Result<Users, FetchError>>)
        ensures
            final(self)@ == batch_fetched(old(self)@, answers@),
            final(self).options() == old(self).options(),
    {
        let users = collect_users(answers);
        let ghost brought = users@;
        for user in it: users
            invariant
                it.seq() == brought,
                self@ == insert_all(old(self)@, brought.take(it.index())),
                self.options() == old(self).options(),
        {
            assert(brought.take(it.index() + 1).drop_last() =~= brought.take(it.index()));
            self.cache.insert(user._id.clone(), user);
        }
        assert(brought.take(brought.len() as int) =~= brought);
    }

    /// Looks up the user with the id `id`: the cache's own where it holds one, else
    /// the request to make for it.
    pub fn user(&self, id: &str) -> (lookup: UserLookup)
        ensures
            match lookup {
                UserLookup::Cached(user) => self@.contains_key(id@) && user == self@[id@],
                UserLookup::Fetch(endpoint) => !self@.contains_key(id@) && endpoint@
                    == users_endpoint("id"@, seq![id@]),
            },
    {
        match self.cache.get(id) {
            Some(user) => UserLookup::Cached(user.clone()),
            None => {
                let mut ids: Vec<&str> = Vec::new();
                ids.push(id);
                assert(texts(ids@) =~= seq![id@]);
                UserLookup::Fetch(endpoint_for("id", ids.as_slice()))
            },
        }
    }

    /// Takes the answer to the request that `user` asked for. The first user that it
    /// names is entered under `id` and returned. Where it names none, or the
    /// request failed, the cache stays as it was.
    pub fn user_fetched(&mut self, id: &str, answer: Result<Users, FetchError>) -> (result: Result<
        User,
        CacheError,
    >)
        ensures
            final(self).options() == old(self).options(),
            match answer {
                Err(failure) => result == Err::<User, CacheError>(CacheError::Fetch(failure))
                    && final(self)@ == old(self)@,
                Ok(users) => if users.users.len() == 0 {
                    &&& result matches Err(CacheError::UserNotFound(missed))
                    &&& missed@ == id@
                    &&& final(self)@ == old(self)@
                } else {
                    &&& result == Ok::<User, CacheError>(users.users[0])
                    &&& final(self)@ == old(self)@.insert(id@, users.users[0])
                },
            },
    {
        match answer {
            Err(failure) => Err(CacheError::Fetch(failure)),
            Ok(users) => {
                let mut users = users.users;
                if users.len() > 0 {
                    let user = users.swap_remove(0);
                    self.cache.insert(String::from_str(id), user.clone());
                    Ok(user)
                } else {
                    Err(CacheError::UserNotFound(String::from_str(id)))
                }
            },
        }
    }
}

/// One request is made for the ids exactly where they are at most `CHUNK`; more
/// ids take as many requests as they fall into runs, which is more than one.
pub proof fn requests_by_chunk(ids: Seq<Seq<char>>)
    ensures
        ids.len() <= CHUNK <==> ids_requests(ids).len() == 1,
        ids.len() > CHUNK ==> ids_requests(ids).len() == chunk_count(ids.len()),
{
}

proof fn chunks_prefix(ids: Seq<Seq<char>>, n: nat)
    requires
        n <= chunk_count(ids.len()),
    ensures
        chunks(ids).take(n as int).flatten() == ids.take(
            if CHUNK * n <= ids.len() {
                CHUNK * n
            } else {
                ids.len() as int
            },
        ),
    decreases n,
{
    let parts = chunks(ids);
    if n == 0 {
        assert(parts.take(0) =~= Seq::<Seq<Seq<char>>>::empty());
        assert(ids.take(0) =~= Seq::<Seq<char>>::empty());
    } else {
        let k = (n - 1) as nat;
        chunks_prefix(ids, k);
        let one = seq![parts[k as int]];
        assert(parts.take(n as int) =~= parts.take(k as int) + one);
        vstd::seq_lib::lemma_flatten_concat(parts.take(k as int), one);
        one.lemma_flatten_one_element();
        assert(parts.take(n as int).flatten() =~= ids.take(
            if CHUNK * n <= ids.len() {
                CHUNK * n
            } else {
                ids.len() as int
            },
        ));
    }
}

/// The runs of `CHUNK` are a partition of the ids: laid end to end they give the
/// ids back, none is empty, none holds more than `CHUNK` ids, and all but the last
/// hold exactly `CHUNK`.
pub proof fn chunks_partition(ids: Seq<Seq<char>>)
    ensures
        chunks(ids).flatten() == ids,
        chunks(ids).len() == chunk_count(ids.len()),
        forall|k: int|
            0 <= k < chunks(ids).len() ==> 0 < (#[trigger] chunks(ids)[k]).len() <= CHUNK,
        forall|k: int|
            0 <= k < chunks(ids).len() - 1 ==> (#[trigger] chunks(ids)[k]).len() == CHUNK,
{
    let parts = chunks(ids);
    chunks_prefix(ids, parts.len());
    assert(parts.take(parts.len() as int) =~= parts);
    assert(ids.take(ids.len() as int) =~= ids);
}

/// What `insert_all` leaves under each id. An id that no user of `users` has is
/// held as `cache` held it, and not at all if `cache` did not hold it. An id that
/// some user of `users` has is held, with the last of the users that have it.
pub proof fn insert_all_is_exact(cache: Map<Seq<char>, User>, users: Seq<User>)
    ensures
        forall|id: Seq<char>|
            (forall|k: int| 0 <= k < users.len() ==> (#[trigger] users[k])._id@ != id) ==> (
            #[trigger] insert_all(cache, users).contains_key(id)) == cache.contains_key(id) && (
            cache.contains_key(id) ==> insert_all(cache, users)[id] == cache[id]),
        forall|k: int|
            0 <= k < users.len() ==> insert_all(cache, users).contains_key(
                (#[trigger] users[k])._id@,
            ),
        forall|k: int|
            0 <= k < users.len() && (forall|j: int|
                k < j < users.len() ==> (#[trigger] users[j])._id@ != users[k]._id@)
                ==> insert_all(cache, users)[(#[trigger] users[k])._id@] == users[k],
    decreases users.len(),
{
    if users.len() > 0 {
        let before = users.drop_last();
        let last = users.last();
        insert_all_is_exact(cache, before);
        assert forall|id: Seq<char>|
            (forall|k: int|
                0 <= k < users.len() ==> (#[trigger] users[k])._id@ != id) implies (
        #[trigger] insert_all(cache, users).contains_key(id)) == cache.contains_key(id) && (
        cache.contains_key(id) ==> insert_all(cache, users)[id] == cache[id]) by {
            assert(users[users.len() - 1]._id@ != id);
            assert forall|k: int| 0 <= k < before.len() implies (#[trigger] before[k])._id@
                != id by {
                assert(users[k]._id@ != id);
            }
            assert(insert_all(cache, before).contains_key(id) == cache.contains_key(id));
        }
        assert forall|k: int| 0 <= k < users.len() implies insert_all(cache, users).contains_key(
            (#[trigger] users[k])._id@,
        ) by {
            if k < before.len() {
                assert(before[k] == users[k]);
            }
        }
        assert forall|k: int|
            0 <= k < users.len() && (forall|j: int|
                k < j < users.len() ==> (#[trigger] users[j])._id@
                    != users[k]._id@) implies insert_all(cache, users)[(
        #[trigger] users[k])._id@] == users[k] by {
            if k < before.len() {
                assert(before[k] == users[k]);
                assert(last._id@ != users[k]._id@);
                assert forall|j: int| k < j < before.len() implies (#[trigger] before[j])._id@
                    != before[k]._id@ by {
                    assert(users[j]._id@ != users[k]._id@);
                }
            }
        }
    }
}

/// No user leaves the cache: an id that `cache` holds is held whatever users are
/// entered.
pub proof fn insert_all_keeps(cache: Map<Seq<char>, User>, users: Seq<User>)
    ensures
        forall|id: Seq<char>|
            cache.contains_key(id) ==> #[trigger] insert_all(cache, users).contains_key(id),
    decreases users.len(),
{
    if users.len() > 0 {
        insert_all_keeps(cache, users.drop_last());
        assert forall|id: Seq<char>| cache.contains_key(id) implies #[trigger] insert_all(
            cache,
            users,
        ).contains_key(id) by {
            assert(insert_all(cache, users.drop_last()).contains_key(id));
        }
    }
}

/// The ids of `users`, in order.
pub open spec fn user_ids(users: Seq<User>) -> Seq<Seq<char>> {
    users.map_values(|user: User| user._id@)
}

/// `answers` answer the requests for the runs of `ids`, and each request that
/// succeeded brought a user for each id of its run, in order, and no other user.
pub open spec fn answers_runs(
    ids: Seq<Seq<char>>,
    answers: Seq<Result<Users, FetchError>>,
) -> bool {
    &&& answers.len() == chunks(ids).len()
    &&& forall|k: int|
        0 <= k < answers.len() && (#[trigger] answers[k]) is Ok ==> user_ids(
            answers[k]->Ok_0.users@,
        ) == chunks(ids)[k]
}

/// A user is among those that `answers` bring exactly where some answer that
/// succeeded names them.
proof fn all_users_holds(answers: Seq<Result<Users, FetchError>>, user: User)
    ensures
        all_users(answers).contains(user) <==> exists|k: int|
            0 <= k < answers.len() && #[trigger] answered(answers[k]).contains(user),
    decreases answers.len(),
{
    if answers.len() == 0 {
        assert(answers.map_values(|answer: Result<Users, FetchError>| answered(answer)) =~= Seq::<
            Seq<User>,
        >::empty());
        assert(all_users(answers) =~= Seq::<User>::empty());
    } else {
        let before = answers.drop_last();
        let last = answers.last();
        all_users_holds(before, user);
        all_users_push(before, last);
        assert(answers =~= before.push(last));
        let brought = all_users(answers);
        assert(brought == all_users(before) + answered(last));
        if brought.contains(user) {
            let i = choose|i: int| 0 <= i < brought.len() && brought[i] == user;
            if i < all_users(before).len() {
                assert(all_users(before)[i] == user);
                let k = choose|k: int|
                    0 <= k < before.len() && #[trigger] answered(before[k]).contains(user);
                assert(answered(answers[k]).contains(user));
            } else {
                assert(answered(last)[i - all_users(before).len()] == user);
                assert(answered(answers[answers.len() - 1]).contains(user));
            }
        }
        if exists|k: int| 0 <= k < answers.len() && #[trigger] answered(answers[k]).contains(user) {
            let k = choose|k: int|
                0 <= k < answers.len() && #[trigger] answered(answers[k]).contains(user);
            if k < before.len() {
                assert(answered(before[k]).contains(user));
                let i = choose|i: int|
                    0 <= i < all_users(before).len() && all_users(before)[i] == user;
                assert(brought[i] == user);
            } else {
                let j = choose|j: int| 0 <= j < answered(last).len() && answered(last)[j] == user;
                assert(brought[all_users(before).len() + j] == user);
            }
        }
    }
}

/// Where the `j`-th id of the `k`-th run stands among `ids`.
proof fn id_of_run(ids: Seq<Seq<char>>, k: int, j: int)
    requires
        0 <= k < chunks(ids).len(),
        0 <= j < chunks(ids)[k].len(),
    ensures
        j < CHUNK,
        CHUNK * k + j < ids.len(),
        chunks(ids)[k][j] == ids[CHUNK * k + j],
{
}

/// An id is held once `users` are entered exactly where it was held before or is
/// the id of one of them.
proof fn entered_id(cache: Map<Seq<char>, User>, users: Seq<User>, id: Seq<char>)
    ensures
        insert_all(cache, users).contains_key(id) <==> cache.contains_key(id) || exists|at: int|
            0 <= at < users.len() && (#[trigger] users[at])._id@ == id,
    decreases users.len(),
{
    if users.len() > 0 {
        let before = users.drop_last();
        entered_id(cache, before, id);
        if exists|at: int| 0 <= at < before.len() && (#[trigger] before[at])._id@ == id {
            let at = choose|at: int| 0 <= at < before.len() && (#[trigger] before[at])._id@ == id;
            assert(users[at]._id@ == id);
        }
        if exists|at: int| 0 <= at < users.len() && (#[trigger] users[at])._id@ == id {
            let at = choose|at: int| 0 <= at < users.len() && (#[trigger] users[at])._id@ == id;
            if at < before.len() {
                assert(before[at]._id@ == id);
            }
        }
    }
}

/// The `j`-th id of the `k`-th run is held after the batch exactly where the
/// request for that run succeeded.
proof fn run_is_held(
    cache: Map<Seq<char>, User>,
    ids: Seq<Seq<char>>,
    answers: Seq<Result<Users, FetchError>>,
    k: int,
    j: int,
)
    requires
        ids.no_duplicates(),
        forall|i: int| 0 <= i < ids.len() ==> !cache.contains_key(#[trigger] ids[i]),
        answers_runs(ids, answers),
        0 <= k < chunks(ids).len(),
        0 <= j < chunks(ids)[k].len(),
    ensures
        batch_fetched(cache, answers).contains_key(chunks(ids)[k][j]) <==> answers[k] is Ok,
{
    let brought = all_users(answers);
    let id = chunks(ids)[k][j];
    id_of_run(ids, k, j);
    entered_id(cache, brought, id);
    assert(!cache.contains_key(ids[CHUNK * k + j]));
    if answers[k] is Ok {
        let users = answers[k]->Ok_0.users@;
        assert(user_ids(users)[j] == id);
        let user = users[j];
        assert(answered(answers[k]).contains(user));
        all_users_holds(answers, user);
        let at = choose|at: int| 0 <= at < brought.len() && brought[at] == user;
        assert(brought[at]._id@ == id);
    }
    if batch_fetched(cache, answers).contains_key(id) {
        let at = choose|at: int| 0 <= at < brought.len() && (#[trigger] brought[at])._id@ == id;
        let user = brought[at];
        assert(brought.contains(user));
        all_users_holds(answers, user);
        let from = choose|from: int|
            0 <= from < answers.len() && #[trigger] answered(answers[from]).contains(user);
        assert(answers[from] is Ok);
        let users = answers[from]->Ok_0.users@;
        let m = choose|m: int| 0 <= m < users.len() && users[m] == user;
        assert(user_ids(users)[m] == id);
        assert(user_ids(users) == chunks(ids)[from]);
        id_of_run(ids, from, m);
        assert(ids[CHUNK * from + m] == ids[CHUNK * k + j]);
        assert(CHUNK * from + m == CHUNK * k + j);
        assert(from == k);
    }
}

/// Requests that fail cost the users of their own run and no others.
///
/// Let a cache that holds `cache` ask for the ids `ids`, none of which it holds and
/// none of which comes twice, and let each request that succeeds bring the users
/// of its run. Then afterwards the cache holds an id of `ids` exactly where the
/// request for its run succeeded, and it holds whatever it held before.
pub proof fn failed_requests_are_passed_over(
    cache: Map<Seq<char>, User>,
    ids: Seq<Seq<char>>,
    answers: Seq<Result<Users, FetchError>>,
)
    requires
        ids.no_duplicates(),
        forall|i: int| 0 <= i < ids.len() ==> !cache.contains_key(#[trigger] ids[i]),
        answers_runs(ids, answers),
    ensures
        forall|k: int, j: int|
            0 <= k < chunks(ids).len() && 0 <= j < chunks(ids)[k].len() ==> (batch_fetched(
                cache,
                answers,
            ).contains_key(#[trigger] chunks(ids)[k][j]) <==> answers[k] is Ok),
        forall|id: Seq<char>|
            cache.contains_key(id) ==> #[trigger] batch_fetched(cache, answers).contains_key(id),
{
    insert_all_keeps(cache, all_users(answers));
    assert forall|k: int, j: int|
        0 <= k < chunks(ids).len() && 0 <= j < chunks(ids)[k].len() implies (batch_fetched(
        cache,
        answers,
    ).contains_key(#[trigger] chunks(ids)[k][j]) <==> answers[k] is Ok) by {
        run_is_held(cache, ids, answers, k, j);
    }
}

/// A batch that brought every user asked for need not be repeated.
///
/// Let a cache that holds `cache` take the answers `answers` to the requests of a
/// batch for `ids`, and let it hold a user under each id of `ids` afterwards. Then
/// a second batch for `ids` makes no request, and taking its answers, of which
/// there are none, leaves the cache as the first batch left it.
pub proof fn batch_twice_is_once(
    cache: Map<Seq<char>, User>,
    ids: Seq<Seq<char>>,
    answers: Seq<Result<Users, FetchError>>,
)
    requires
        forall|i: int|
            0 <= i < ids.len() ==> batch_fetched(cache, answers).contains_key(#[trigger] ids[i]),
    ensures
        batch_requests(batch_fetched(cache, answers), ids) == Seq::<Seq<char>>::empty(),
        batch_fetched(batch_fetched(cache, answers), Seq::empty()) == batch_fetched(
            cache,
            answers,
        ),
{
    let once = batch_fetched(cache, answers);
    missing_is_exact(once, ids);
    if missing(once, ids).len() > 0 {
        let id = missing(once, ids)[0];
        assert(missing(once, ids).contains(id));
    }
    let none = Seq::<Result<Users, FetchError>>::empty();
    assert(none.map_values(|answer: Result<Users, FetchError>| answered(answer)) =~= Seq::<
        Seq<User>,
    >::empty());
    assert(all_users(none) =~= Seq::<User>::empty());
}

} // verus!
