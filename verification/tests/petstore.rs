use auto_api::client::base::{BaseClient, BaseServer, ClientOptions};
use auto_api::petstore::{Client, Server};

#[test]
fn servers_have_their_urls() {
    assert_eq!(Server::Production.url(), "https://example.com");
    assert_eq!(Server::Staging.url(), "https://beta.example.com");
    assert_eq!(Server::Custom { url: "http://localhost:8080".to_string() }.url(), "http://localhost:8080");
    assert_eq!(Server::default().url(), "https://example.com");
}

#[test]
fn client_talks_to_the_server_of_its_options() {
    let client = Client::new(ClientOptions { server: Server::Staging });
    assert_eq!(client.base_url, "https://beta.example.com");
    assert_eq!(Client::default().base_url, "https://example.com");
    let options: ClientOptions<Server> = Default::default();
    assert_eq!(Client::new(options).base_url, "https://example.com");
}

#[test]
fn request_is_built_step_by_step() {
    let client = Client::new(ClientOptions { server: Server::Production });
    let request = client.get_pet_by_id(32).owner_id(Some(52));
    assert!(request.clone().send_blocking().is_err());
    let other = request.pet_id(7).owner_id(None);
    assert!(other.send_blocking().is_err());
}
