//! Building a client.

use reqwest::Client as HttpClient;
use vstd::prelude::*;

use crate::client::{Client, ClientModel};
use crate::client_id::ClientId;

verus! {

/// Why a client cannot be built.
#[derive(Debug, Clone, Copy, PartialEq, Eq, Structural)]
pub enum BuilderError {
    /// The address of the server was not given.
    UrlMissing,
}

impl BuilderError {
    /// This error in words.
    pub fn to_string(&self) -> (text: String)
        ensures
            text@ == (match *self {
                BuilderError::UrlMissing => "url required"@,
            }),
    {
        match self {
            BuilderError::UrlMissing => "url required".to_owned(),
        }
    }
}

/// The choices that make a client.
pub struct ClientBuilder {
    url: Option<String>,
    client_id: Option<ClientId>,
    reqwest_client: Option<HttpClient>,
    pause_after_poll: bool,
}

/// The contents of a [`ClientBuilder`].
pub struct BuilderModel {
    pub url: Option<Seq<char>>,
    pub client_id: Option<ClientId>,
    pub http: Option<HttpClient>,
    pub pause_after_poll: bool,
}

impl View for ClientBuilder {
    type V = BuilderModel;

    closed spec fn view(&self) -> BuilderModel {
        BuilderModel {
            url: match self.url {
                Some(url) => Some(url@),
                None => None,
            },
            client_id: self.client_id,
            http: self.reqwest_client,
            pause_after_poll: self.pause_after_poll,
        }
    }
}

/// Whether a client is what the choices make, under `id`.
pub open spec fn is_built(choices: BuilderModel, id: ClientId, client: ClientModel) -> bool {
    choices.url matches Some(url) && client == (ClientModel {
        url,
        client_id: id,
        http: choices.http,
        topics: Map::empty(),
        seq: 0,
        poller_running: false,
        poller_linked: false,
        pause_after_poll: choices.pause_after_poll,
    })
}

impl Default for ClientBuilder {
    /// Nothing chosen.
    fn default() -> (builder: Self)
        ensures
            builder@ == (BuilderModel {
                url: None,
                client_id: None,
                http: None,
                pause_after_poll: false,
            }),
    {
        ClientBuilder { url: None, client_id: None, reqwest_client: None, pause_after_poll: false }
    }
}

impl Client<()> {
    /// A builder with nothing chosen.
    pub fn builder() -> (builder: ClientBuilder)
        ensures
            builder@ == (BuilderModel {
                url: None,
                client_id: None,
                http: None,
                pause_after_poll: false,
            }),
    {
        ClientBuilder::default()
    }
}

impl ClientBuilder {
    /// Chooses the address of the server.
    pub fn url(self, url: String) -> (builder: ClientBuilder)
        ensures
            builder@ == (BuilderModel { url: Some(url@), ..self@ }),
    {
        ClientBuilder { url: Some(url), ..self }
    }

    /// Chooses how the server knows the client.
    pub fn client_id(self, client_id: ClientId) -> (builder: ClientBuilder)
        ensures
            builder@ == (BuilderModel { client_id: Some(client_id), ..self@ }),
    {
        ClientBuilder { client_id: Some(client_id), ..self }
    }

    /// Chooses what requests are sent with.
    pub fn http_client(self, http: HttpClient) -> (builder: ClientBuilder)
        ensures
            builder@ == (BuilderModel { http: Some(http), ..self@ }),
    {
        ClientBuilder { reqwest_client: Some(http), ..self }
    }

    /// Chooses whether the poller waits for a command after each poll.
    pub fn pause_after_poll(self, pause_after_poll: bool) -> (builder: ClientBuilder)
        ensures
            builder@ == (BuilderModel { pause_after_poll, ..self@ }),
    {
        ClientBuilder { pause_after_poll, ..self }
    }

    /// The client that was chosen, under `id`.
    pub fn build_as<T>(self, id: ClientId) -> (client: Result<Client<T>, BuilderError>)
        ensures
            match client {
                Ok(client) => is_built(self@, id, client@),
                Err(e) => self@.url is None && e == BuilderError::UrlMissing,
            },
    {
        match self.url {
            Some(url) => Ok(Client::new(url, id, self.reqwest_client, self.pause_after_poll)),
            None => Err(BuilderError::UrlMissing),
        }
    }

    /// The client that was chosen, under a fresh identifier if none was.
    pub fn build<T>(self) -> (client: Result<Client<T>, BuilderError>)
        ensures
            match client {
                Ok(client) => is_built(
                    self@,
                    match self@.client_id {
                        Some(id) => id,
                        None => client@.client_id,
                    },
                    client@,
                ),
                Err(e) => self@.url is None && e == BuilderError::UrlMissing,
            },
    {
        let id = match self.client_id {
            Some(id) => id,
            None => ClientId::default(),
        };
        self.build_as(id)
    }
}

/// A client can be built once an address was chosen, and not before. It has what was chosen, asks for
/// nothing, has made no request, and has no poller.
pub proof fn law_built_client_is_what_was_chosen<T>(
    builder: ClientBuilder,
    client: Result<Client<T>, BuilderError>,
)
    requires
        call_ensures(ClientBuilder::build::<T>, (builder,), client),
    ensures
        client is Ok <==> builder@.url is Some,
        client matches Err(e) ==> e is UrlMissing,
        client matches Ok(client) ==> {
            &&& builder@.url == Some(client@.url)
            &&& builder@.client_id matches Some(id) ==> client@.client_id == id
            &&& client@.http == builder@.http
            &&& client@.pause_after_poll == builder@.pause_after_poll
            &&& client@.topics =~= Map::<Seq<char>, i64>::empty()
            &&& client@.seq == 0
            &&& !client@.poller_running
            &&& !client@.poller_linked
        },
{
}

/// A client that is built under an identifier has it, whatever identifier was chosen, and all else
/// that was chosen.
pub proof fn law_client_is_built_under_an_id<T>(
    builder: ClientBuilder,
    id: ClientId,
    client: Result<Client<T>, BuilderError>,
)
    requires
        call_ensures(ClientBuilder::build_as::<T>, (builder, id), client),
    ensures
        client is Ok <==> builder@.url is Some,
        client matches Err(e) ==> e is UrlMissing,
        client matches Ok(client) ==> {
            &&& builder@.url == Some(client@.url)
            &&& client@.client_id == id
            &&& client@.http == builder@.http
            &&& client@.pause_after_poll == builder@.pause_after_poll
            &&& client@.topics =~= Map::<Seq<char>, i64>::empty()
            &&& client@.seq == 0
            &&& !client@.poller_running
            &&& !client@.poller_linked
        },
{
}

/// Choices are kept until the client is built: the address is in its polls, and the identifier, the
/// handle for requests and the pause are those that were chosen.
pub proof fn law_choices_are_kept<T>(
    fresh: ClientBuilder,
    url: String,
    with_url: ClientBuilder,
    client_id: ClientId,
    with_id: ClientBuilder,
    http: HttpClient,
    with_http: ClientBuilder,
    pause_after_poll: bool,
    with_pause: ClientBuilder,
    client: Result<Client<T>, BuilderError>,
)
    requires
        call_ensures(Client::builder, (), fresh),
        call_ensures(ClientBuilder::url, (fresh, url), with_url),
        call_ensures(ClientBuilder::client_id, (with_url, client_id), with_id),
        call_ensures(ClientBuilder::http_client, (with_id, http), with_http),
        call_ensures(ClientBuilder::pause_after_poll, (with_http, pause_after_poll), with_pause),
        call_ensures(ClientBuilder::build::<T>, (with_pause,), client),
    ensures
        client matches Ok(client) && client@ == (ClientModel {
            url: url@,
            client_id,
            http: Some(http),
            topics: Map::empty(),
            seq: 0,
            poller_running: false,
            poller_linked: false,
            pause_after_poll,
        }),
{
}

/// Each choice changes what it names and nothing else, and nothing is chosen in the beginning.
pub proof fn law_choices_do_not_disturb_each_other(
    builder: ClientBuilder,
    url: String,
    with_url: ClientBuilder,
    client_id: ClientId,
    with_id: ClientBuilder,
    http: HttpClient,
    with_http: ClientBuilder,
    pause_after_poll: bool,
    with_pause: ClientBuilder,
    fresh: ClientBuilder,
)
    requires
        call_ensures(ClientBuilder::url, (builder, url), with_url),
        call_ensures(ClientBuilder::client_id, (builder, client_id), with_id),
        call_ensures(ClientBuilder::http_client, (builder, http), with_http),
        call_ensures(ClientBuilder::pause_after_poll, (builder, pause_after_poll), with_pause),
        call_ensures(<ClientBuilder as Default>::default, (), fresh),
    ensures
        with_url@ == (BuilderModel { url: Some(url@), ..builder@ }),
        with_id@ == (BuilderModel { client_id: Some(client_id), ..builder@ }),
        with_http@ == (BuilderModel { http: Some(http), ..builder@ }),
        with_pause@ == (BuilderModel { pause_after_poll, ..builder@ }),
        fresh@.url is None,
        fresh@.client_id is None,
        fresh@.http is None,
        !fresh@.pause_after_poll,
{
}

} // verus!
