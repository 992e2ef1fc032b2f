//! A client for the pet store, written out by hand: the shape that generated
//! clients have.

use crate::client::base::{BaseClient, BaseServer, ClientOptions};
use vstd::prelude::*;

verus! {

/// The servers of the pet store.
pub enum Server {
    Production,
    Staging,
    Custom { url: String },
}

impl BaseServer for Server {
    open spec fn url_text(&self) -> Seq<char> {
        match self {
            Server::Production => "https://example.com"@,
            Server::Staging => "https://beta.example.com"@,
            Server::Custom { url } => url@,
        }
    }

    fn url(&self) -> (url: &str) {
        match self {
            Server::Production => "https://example.com",
            Server::Staging => "https://beta.example.com",
            Server::Custom { url } => url.as_str(),
        }
    }
}

impl Default for Server {
    fn default() -> (server: Self)
        ensures
            server == Server::Production,
    {
        Self::Production
    }
}

pub struct Category {
    pub id: i64,
    pub name: String,
}

pub struct Pet {
    pub id: Option<i64>,
    pub category: Option<Category>,
    pub name: String,
    pub photo_urls: Vec<String>,
    pub tags: Option<Vec<Tag>>,
    pub status: Option<PetStatus>,
}

pub enum PetStatus {
    Available,
    Pending,
    Sold,
}

pub struct Tag {
    pub id: i64,
    pub name: String,
}

/// A request for one pet, before it is sent.
#[derive(Clone)]
pub struct GetPetByIdRequest<'a> {
    client: &'a Client,
    pet_id: i64,
    owner_id: Option<i64>,
}

/// What a request for one pet asks for.
pub struct GetPetByIdView {
    pub base_url: Seq<char>,
    pub pet_id: i64,
    pub owner_id: Option<i64>,
}

impl<'a> View for GetPetByIdRequest<'a> {
    type V = GetPetByIdView;

    closed spec fn view(&self) -> GetPetByIdView {
        GetPetByIdView {
            base_url: self.client.base_url@,
            pet_id: self.pet_id,
            owner_id: self.owner_id,
        }
    }
}

impl GetPetByIdRequest<'_> {
    /// Sends the request and waits for the pet. No transport is attached to
    /// this client, so every request fails.
    pub fn send_blocking(self) -> (result: Result<Pet, ()>)
        ensures
            result is Err,
    {
        Err(())
    }

    /// The same request for another pet.
    pub fn pet_id(self, pet_id: i64) -> (request: Self)
        ensures
            request@ == (GetPetByIdView { pet_id, ..self@ }),
    {
        Self { pet_id, ..self }
    }

    /// The same request on behalf of another owner, or of none.
    pub fn owner_id(self, owner_id: Option<i64>) -> (request: Self)
        ensures
            request@ == (GetPetByIdView { owner_id, ..self@ }),
    {
        Self { owner_id, ..self }
    }
}

/// The client of the pet store.
pub struct Client {
    pub base_url: String,
}

impl Client {
    /// A request for the pet `pet_id`, on behalf of no owner.
    pub fn get_pet_by_id(&self, pet_id: i64) -> (request: GetPetByIdRequest<'_>)
        ensures
            request@ == (GetPetByIdView { base_url: self.base_url@, pet_id, owner_id: None }),
    {
        GetPetByIdRequest { client: self, pet_id, owner_id: None }
    }
}

impl BaseClient<Server> for Client {
    open spec fn base_url_text(&self) -> Seq<char> {
        self.base_url@
    }

    fn new(options: ClientOptions<Server>) -> (client: Self) {
        Self { base_url: String::from_str(options.server.url()) }
    }
}

impl Default for Client {
    /// The client of the production server.
    fn default() -> (client: Self)
        ensures
            client.base_url@ == "https://example.com"@,
    {
        Self::new(ClientOptions { server: Server::Production })
    }
}

} // verus!
