//! Credentials, and the request that carries them.

use crate::text::opt_text;
use vstd::prelude::*;
use vstd::string::*;

verus! {

/// What each name and value of `headers` holds.
pub open spec fn header_texts(headers: Seq<(String, String)>) -> Seq<(Seq<char>, Seq<char>)> {
    headers.map_values(|h: (String, String)| (h.0@, h.1@))
}

/// The headers that identify a client: its id, and its bearer token if it has one.
pub open spec fn credential_headers(options: ClientOptionsView) -> Seq<(Seq<char>, Seq<char>)> {
    let id = seq![("Client-ID"@, options.client_id)];
    match options.bearer {
        Some(bearer) => id.push(("Authorization"@, "Bearer: "@ + bearer)),
        None => id,
    }
}

/// The address of `endpoint` on the service.
pub open spec fn request_url(endpoint: Seq<char>) -> Seq<char> {
    "https://api.twitch.tv/"@ + endpoint
}

/// All headers of a request made with `options`.
pub open spec fn request_headers(options: ClientOptionsView) -> Seq<(Seq<char>, Seq<char>)> {
    credential_headers(options).push(("Accept"@, "application/vnd.twitchtv.v5+json"@))
}

/// The credentials of a client, as plain values.
pub struct ClientOptionsView {
    pub client_id: Seq<char>,
    pub bearer: Option<Seq<char>>,
}

/// The credentials under which requests are made.
pub struct ClientOptions {
    client_id: String,
    bearer: Option<String>,
}

impl View for ClientOptions {
    type V = ClientOptionsView;

    closed spec fn view(&self) -> ClientOptionsView {
        ClientOptionsView { client_id: self.client_id@, bearer: opt_text(self.bearer) }
    }
}

impl Clone for ClientOptions {
    fn clone(&self) -> (r: Self)
        ensures
            r@ == self@,
    {
        let bearer = match &self.bearer {
            Some(b) => Some(b.clone()),
            None => None,
        };
        ClientOptions { client_id: self.client_id.clone(), bearer }
    }
}

impl ClientOptions {
    /// Credentials with the client id `id` and, if given, a bearer token.
    pub fn new(id: String, bearer: Option<String>) -> (r: Self)
        ensures
            r@ == (ClientOptionsView { client_id: id@, bearer: opt_text(bearer) }),
    {
        Self { client_id: id, bearer }
    }

    /// The headers that identify this client, in the order in which they are attached.
    pub fn headers(&self) -> (h: Vec<(String, String)>)
        ensures
            header_texts(h@) == credential_headers(self@),
    {
        let mut h: Vec<(String, String)> = Vec::new();
        h.push((String::from_str("Client-ID"), self.client_id.clone()));
        if let Some(bearer) = &self.bearer {
            h.push(
                (
                    String::from_str("Authorization"),
                    String::from_str("Bearer: ").concat(bearer.as_str()),
                ),
            );
        }
        assert(header_texts(h@) =~= credential_headers(self@));
        h
    }
}

/// A request, ready to be sent: where it goes and the headers it carries.
pub struct Request {
    pub url: String,
    pub headers: Vec<(String, String)>,
}

/// The GET request to send for `endpoint` under the credentials `client_options`.
pub fn send_request(endpoint: &str, client_options: &ClientOptions) -> (r: Request)
    ensures
        r.url@ == request_url(endpoint@),
        header_texts(r.headers@) == request_headers(client_options@),
{
    let url = String::from_str("https://api.twitch.tv/").concat(endpoint);
    let mut headers = client_options.headers();
    headers.push(
        (String::from_str("Accept"), String::from_str("application/vnd.twitchtv.v5+json")),
    );
    assert(header_texts(headers@) =~= request_headers(client_options@));
    Request { url, headers }
}

} // verus!
