use oauth_primitives::client::Client;
use oauth_primitives::registrar::{
    BoundClient, ClientUrl, InMemoryRegistrar, PreGrant, Registrar, RegistrarError,
};
use oauth_primitives::scope::Scope;
use oauth_primitives::string_map::StringMap;
use oauth_primitives::uri::RedirectUri;

fn scope_of(tokens: &[&str]) -> Scope {
    Scope::from_tokens(tokens.iter().map(|t| t.to_string()).collect())
}

fn uri(text: &str) -> RedirectUri {
    RedirectUri::parse(text).unwrap()
}

fn request(client_id: &str, redirect_uri: Option<&str>) -> ClientUrl {
    ClientUrl { client_id: client_id.to_string(), redirect_uri: redirect_uri.map(uri) }
}

fn bound(client_id: &str, redirect_uri: &str) -> BoundClient {
    BoundClient { client_id: client_id.to_string(), redirect_uri: uri(redirect_uri) }
}

fn registrar_with(clients: Vec<Client>) -> InMemoryRegistrar {
    let mut registrar = InMemoryRegistrar::new();
    for client in clients {
        assert_eq!(registrar.register(client), Ok(()));
    }
    registrar
}

fn query_for(pairs: &[(&str, &str)]) -> StringMap<String> {
    let mut query = StringMap::new();
    for (key, value) in pairs {
        query.insert(key.to_string(), value.to_string());
    }
    query
}

#[test]
fn bound_redirect_uses_the_only_uri_where_none_is_named() {
    let registrar =
        registrar_with(vec![Client::public("app", uri("https://app.example/cb"), scope_of(&["read"]))]);
    assert_eq!(
        registrar.bound_redirect(request("app", None)),
        Ok(bound("app", "https://app.example/cb"))
    );
}

#[test]
fn bound_redirect_takes_a_named_uri_that_is_registered() {
    let client = Client::public("app", uri("https://example.com/foo"), scope_of(&["default"]))
        .with_redirect_uri(uri("https://example.com/bar"));
    let registrar = registrar_with(vec![client]);
    assert_eq!(
        registrar.bound_redirect(request("app", Some("https://example.com/foo"))),
        Ok(bound("app", "https://example.com/foo"))
    );
    assert_eq!(
        registrar.bound_redirect(request("app", Some("https://example.com/bar"))),
        Ok(bound("app", "https://example.com/bar"))
    );
    // The same URL in another spelling.
    assert_eq!(
        registrar.bound_redirect(request("app", Some("https://example.com:443/x/../bar"))),
        Ok(bound("app", "https://example.com/bar"))
    );
}

#[test]
fn bound_redirect_turns_down_a_uri_that_is_not_registered() {
    let registrar =
        registrar_with(vec![Client::public("app", uri("https://example.com/foo"), scope_of(&["default"]))]);
    assert_eq!(
        registrar.bound_redirect(request("app", Some("https://example.com/baz"))),
        Err(RegistrarError::MismatchedRedirect)
    );
    assert_eq!(
        registrar.bound_redirect(request("app", Some("https://example.com:1234/foo"))),
        Err(RegistrarError::MismatchedRedirect)
    );
    // A longer URI that starts like a registered one does not match.
    assert_eq!(
        registrar.bound_redirect(request("app", Some("https://example.com/foo/more"))),
        Err(RegistrarError::MismatchedRedirect)
    );
}

#[test]
fn bound_redirect_is_ambiguous_with_several_uris_and_none_named() {
    let client = Client::public("app", uri("https://example.com/foo"), scope_of(&["default"]))
        .with_redirect_uri(uri("https://example.com/bar"));
    let registrar = registrar_with(vec![client]);
    assert_eq!(registrar.bound_redirect(request("app", None)), Err(RegistrarError::AmbiguousRedirect));
}

#[test]
fn bound_redirect_does_not_know_an_unregistered_client() {
    let registrar = InMemoryRegistrar::new();
    assert_eq!(registrar.bound_redirect(request("nobody", None)), Err(RegistrarError::NotFound));
    assert_eq!(
        registrar.bound_redirect(request("nobody", Some("https://example.com/"))),
        Err(RegistrarError::NotFound)
    );
}

#[test]
fn negotiate_narrows_the_requested_scope_to_what_is_allowed() {
    let registrar = registrar_with(vec![Client::public(
        "app",
        uri("https://app.example/cb"),
        scope_of(&["read", "profile"]),
    )]);
    assert_eq!(
        registrar.negotiate(bound("app", "https://app.example/cb"), Some(scope_of(&["read", "write"]))),
        Ok(PreGrant {
            client_id: "app".to_string(),
            redirect_uri: uri("https://app.example/cb"),
            scope: scope_of(&["read"]),
        })
    );
}

#[test]
fn negotiate_gives_the_allowed_scope_where_none_is_requested() {
    let registrar = registrar_with(vec![Client::public(
        "app",
        uri("https://app.example/cb"),
        scope_of(&["read", "profile"]),
    )]);
    let agreed = registrar.negotiate(bound("app", "https://app.example/cb"), None).unwrap();
    assert_eq!(agreed.scope, scope_of(&["profile", "read"]));
}

#[test]
fn negotiate_turns_down_a_scope_of_which_nothing_is_allowed() {
    let registrar =
        registrar_with(vec![Client::public("app", uri("https://app.example/cb"), scope_of(&["read"]))]);
    assert_eq!(
        registrar.negotiate(bound("app", "https://app.example/cb"), Some(scope_of(&["write", "admin"]))),
        Err(RegistrarError::ScopeMismatch)
    );
}

#[test]
fn negotiate_grants_a_scope_that_is_allowed() {
    let registrar = registrar_with(vec![Client::public(
        "app",
        uri("https://app.example/cb"),
        scope_of(&["read", "profile"]),
    )]);
    let granted = |asked: Scope| {
        registrar.negotiate(bound("app", "https://app.example/cb"), Some(asked)).map(|p| p.scope)
    };
    assert_eq!(granted(scope_of(&["read"])), Ok(scope_of(&["read"])));
    assert_eq!(granted(scope_of(&["profile", "read"])), Ok(scope_of(&["read", "profile"])));
    // The empty scope is allowed to every client.
    assert_eq!(granted(Scope::new()), Ok(Scope::new()));
}

#[test]
fn negotiate_grants_the_empty_scope_to_a_client_that_is_allowed_nothing() {
    let registrar =
        registrar_with(vec![Client::public("app", uri("https://app.example/cb"), Scope::new())]);
    let granted = |asked: Option<Scope>| {
        registrar.negotiate(bound("app", "https://app.example/cb"), asked).map(|p| p.scope)
    };
    assert_eq!(granted(None), Ok(Scope::new()));
    assert_eq!(granted(Some(Scope::new())), Ok(Scope::new()));
    assert_eq!(granted(Some(scope_of(&["read"]))), Err(RegistrarError::ScopeMismatch));
}

#[test]
fn negotiate_wants_a_known_client_and_a_registered_uri() {
    let registrar =
        registrar_with(vec![Client::public("app", uri("https://app.example/cb"), scope_of(&["read"]))]);
    assert_eq!(
        registrar.negotiate(bound("other", "https://app.example/cb"), None),
        Err(RegistrarError::NotFound)
    );
    assert_eq!(
        registrar.negotiate(bound("app", "https://elsewhere.example/cb"), None),
        Err(RegistrarError::MismatchedRedirect)
    );
}

#[test]
fn public_client_passes_without_a_passphrase_only() {
    let registrar =
        registrar_with(vec![Client::public("PublicClientId", uri("https://example.com"), scope_of(&["default"]))]);
    assert_eq!(registrar.check("PublicClientId", None), Ok(()));
    assert_eq!(registrar.check("PublicClientId", Some(b"")), Err(RegistrarError::Unauthorized));
    assert_eq!(
        registrar.check("PublicClientId", Some(b"anything")),
        Err(RegistrarError::Unauthorized)
    );
}

#[test]
fn confidential_client_passes_with_its_passphrase_only() {
    let passphrase = b"WOJJCcS8WyS2aGmJK6ZADg==";
    let registrar = registrar_with(vec![Client::confidential(
        "PrivateClientId",
        uri("https://example.com"),
        scope_of(&["default"]),
        passphrase,
    )]);
    assert_eq!(registrar.check("PrivateClientId", Some(passphrase)), Ok(()));
    assert_eq!(
        registrar.check("PrivateClientId", Some(b"Not the private passphrase")),
        Err(RegistrarError::Unauthorized)
    );
    assert_eq!(registrar.check("PrivateClientId", Some(b"")), Err(RegistrarError::Unauthorized));
    assert_eq!(registrar.check("PrivateClientId", None), Err(RegistrarError::Unauthorized));
}

#[test]
fn check_does_not_know_an_unregistered_client() {
    let registrar = InMemoryRegistrar::new();
    assert_eq!(registrar.check("nobody", None), Err(RegistrarError::NotFound));
    assert_eq!(registrar.check("nobody", Some(b"secret")), Err(RegistrarError::NotFound));
}

#[test]
fn passphrase_is_bound_to_the_client_id() {
    let passphrase = b"correct horse battery staple";
    let registrar = registrar_with(vec![Client::confidential(
        "first",
        uri("https://example.com"),
        scope_of(&["default"]),
        passphrase,
    )]);
    // The record of one client does not serve under another id.
    let record = registrar.query("first").unwrap();
    assert!(record.authenticates(Some(passphrase)));
    assert!(!record.authenticates(Some(b"correct horse battery stapler")));
    assert!(record.is_confidential());
}

#[test]
fn register_replaces_a_client_of_the_same_id() {
    let mut registrar =
        registrar_with(vec![Client::public("app", uri("https://old.example/cb"), scope_of(&["read"]))]);
    assert_eq!(
        registrar.register(Client::public("app", uri("https://new.example/cb"), scope_of(&["write"]))),
        Ok(())
    );
    assert_eq!(registrar.len(), 1);
    assert_eq!(
        registrar.bound_redirect(request("app", None)),
        Ok(bound("app", "https://new.example/cb"))
    );
}

#[test]
fn query_finds_the_record_or_nothing() {
    let client = Client::public("app", uri("https://app.example/cb"), scope_of(&["read"]))
        .with_extension("tenant".to_string(), "blue".to_string());
    let registrar = registrar_with(vec![client]);
    let record = registrar.query("app").unwrap();
    assert_eq!(record.client_id(), "app");
    assert_eq!(record.redirect_uris(), &vec![uri("https://app.example/cb")]);
    assert_eq!(record.default_scope(), &scope_of(&["read"]));
    assert!(!record.is_confidential());
    assert_eq!(record.extension("tenant"), Some(&"blue".to_string()));
    assert_eq!(record.extension("region"), None);
    assert!(registrar.query("other").is_none());
}

#[test]
fn query_by_extensions_finds_the_clients_that_answer() {
    let blue_eu = Client::public("blue-eu", uri("https://a.example/cb"), scope_of(&["read"]))
        .with_extension("tenant".to_string(), "blue".to_string())
        .with_extension("region".to_string(), "eu".to_string());
    let blue_us = Client::public("blue-us", uri("https://b.example/cb"), scope_of(&["read"]))
        .with_extension("tenant".to_string(), "blue".to_string())
        .with_extension("region".to_string(), "us".to_string());
    let red_eu = Client::public("red-eu", uri("https://c.example/cb"), scope_of(&["read"]))
        .with_extension("tenant".to_string(), "red".to_string())
        .with_extension("region".to_string(), "eu".to_string());
    let plain = Client::public("plain", uri("https://d.example/cb"), scope_of(&["read"]));
    let registrar = registrar_with(vec![blue_eu, blue_us, red_eu, plain]);

    let ids = |query: StringMap<String>| {
        let mut ids: Vec<String> = registrar
            .query_by_extensions(query)
            .iter()
            .map(|record| record.client_id().to_string())
            .collect();
        ids.sort();
        ids
    };
    assert_eq!(ids(query_for(&[("tenant", "blue")])), vec!["blue-eu", "blue-us"]);
    assert_eq!(ids(query_for(&[("tenant", "blue"), ("region", "eu")])), vec!["blue-eu"]);
    assert_eq!(ids(query_for(&[("region", "eu")])), vec!["blue-eu", "red-eu"]);
    // Nothing answers: the result is empty, not an error.
    assert_eq!(ids(query_for(&[("tenant", "green")])), Vec::<String>::new());
    assert_eq!(ids(query_for(&[("owner", "blue")])), Vec::<String>::new());
    // Who asks for nothing gets every client.
    assert_eq!(ids(query_for(&[])), vec!["blue-eu", "blue-us", "plain", "red-eu"]);
}

#[test]
fn add_uri_registers_one_more_uri() {
    let mut registrar =
        registrar_with(vec![Client::public("app", uri("https://app.example/cb"), scope_of(&["read"]))]);
    assert_eq!(registrar.add_uri("app", uri("https://app.example/other")), Ok(()));
    assert_eq!(
        registrar.bound_redirect(request("app", Some("https://app.example/other"))),
        Ok(bound("app", "https://app.example/other"))
    );
    assert_eq!(registrar.bound_redirect(request("app", None)), Err(RegistrarError::AmbiguousRedirect));
    // Adding it again changes nothing.
    assert_eq!(registrar.add_uri("app", uri("https://app.example/other")), Ok(()));
    assert_eq!(registrar.query("app").unwrap().redirect_uris().len(), 2);
    assert_eq!(
        registrar.add_uri("nobody", uri("https://app.example/other")),
        Err(RegistrarError::NotFound)
    );
}

#[test]
fn del_uri_removes_a_uri_and_does_not_add_it() {
    let client = Client::public("app", uri("https://app.example/cb"), scope_of(&["read"]))
        .with_redirect_uri(uri("https://app.example/other"));
    let mut registrar = registrar_with(vec![client]);
    assert_eq!(registrar.del_uri("app", uri("https://app.example/cb")), Ok(()));
    assert_eq!(
        registrar.bound_redirect(request("app", Some("https://app.example/cb"))),
        Err(RegistrarError::MismatchedRedirect)
    );
    assert_eq!(
        registrar.bound_redirect(request("app", None)),
        Ok(bound("app", "https://app.example/other"))
    );
    assert_eq!(
        registrar.query("app").unwrap().redirect_uris(),
        &vec![uri("https://app.example/other")]
    );
}

#[test]
fn del_uri_keeps_the_last_uri() {
    let mut registrar =
        registrar_with(vec![Client::public("app", uri("https://app.example/cb"), scope_of(&["read"]))]);
    assert_eq!(
        registrar.del_uri("app", uri("https://app.example/cb")),
        Err(RegistrarError::AmbiguousRedirect)
    );
    assert_eq!(
        registrar.bound_redirect(request("app", None)),
        Ok(bound("app", "https://app.example/cb"))
    );
}

#[test]
fn del_uri_turns_down_what_is_not_there() {
    let mut registrar =
        registrar_with(vec![Client::public("app", uri("https://app.example/cb"), scope_of(&["read"]))]);
    assert_eq!(
        registrar.del_uri("app", uri("https://app.example/never")),
        Err(RegistrarError::MismatchedRedirect)
    );
    assert_eq!(
        registrar.del_uri("nobody", uri("https://app.example/cb")),
        Err(RegistrarError::NotFound)
    );
    assert_eq!(registrar.query("app").unwrap().redirect_uris().len(), 1);
}

#[test]
fn del_client_removes_the_client() {
    let mut registrar = registrar_with(vec![
        Client::public("first", uri("https://first.example/cb"), scope_of(&["read"])),
        Client::public("second", uri("https://second.example/cb"), scope_of(&["read"])),
    ]);
    assert_eq!(registrar.del_client("first"), Ok(()));
    assert_eq!(registrar.len(), 1);
    assert!(registrar.query("first").is_none());
    assert_eq!(registrar.check("first", None), Err(RegistrarError::NotFound));
    assert_eq!(registrar.check("second", None), Ok(()));
    assert_eq!(registrar.del_client("first"), Err(RegistrarError::NotFound));
}

#[test]
fn client_keeps_each_redirect_uri_once() {
    let client = Client::public("app", uri("https://app.example/cb"), scope_of(&["read"]))
        .with_redirect_uri(uri("https://app.example/cb"))
        .with_redirect_uri(uri("https://app.example/x/../cb"));
    assert_eq!(client.client_id(), "app");
    let record = client.encode().unwrap();
    assert_eq!(record.redirect_uris(), &vec![uri("https://app.example/cb")]);
    assert!(record.has_redirect_uri(&uri("https://app.example/cb")));
    assert!(!record.has_redirect_uri(&uri("https://app.example/cb/")));
}

#[test]
fn record_updates_leave_the_record_alone() {
    let record = Client::public("app", uri("https://app.example/cb"), scope_of(&["read"]))
        .encode()
        .unwrap();
    let more = record.with_uri(uri("https://app.example/other"));
    assert_eq!(more.redirect_uris().len(), 2);
    assert_eq!(record.redirect_uris().len(), 1);
    let fewer = more.without_uri(&uri("https://app.example/cb")).unwrap();
    assert_eq!(fewer.redirect_uris(), &vec![uri("https://app.example/other")]);
    assert!(fewer.without_uri(&uri("https://app.example/other")).is_none());
    assert!(fewer.without_uri(&uri("https://app.example/cb")).is_none());
}

#[test]
fn register_encoded_stores_a_record_as_it_is() {
    let passphrase = b"a passphrase";
    let record = Client::confidential("app", uri("https://app.example/cb"), scope_of(&["read"]), passphrase)
        .encode()
        .unwrap();
    let mut registrar = InMemoryRegistrar::new();
    registrar.register_encoded(record);
    assert_eq!(registrar.check("app", Some(passphrase)), Ok(()));
    assert_eq!(registrar.check("app", Some(b"another")), Err(RegistrarError::Unauthorized));
}

#[test]
fn string_map_keeps_the_last_value_of_a_key() {
    let mut map: StringMap<String> = StringMap::new();
    assert_eq!(map.insert("a".to_string(), "1".to_string()), None);
    assert_eq!(map.insert("b".to_string(), "2".to_string()), None);
    assert_eq!(map.insert("a".to_string(), "3".to_string()), Some("1".to_string()));
    assert_eq!(map.len(), 2);
    assert_eq!(map.get("a"), Some(&"3".to_string()));
    assert!(map.contains_key("b"));
    assert_eq!(map.key_at(0), "a");
    assert_eq!(map.value_at(1), "2");
    assert_eq!(map.remove("a"), Some("3".to_string()));
    assert_eq!(map.remove("a"), None);
    assert_eq!(map.get("a"), None);
    assert_eq!(map.len(), 1);
}
