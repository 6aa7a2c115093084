use oauth_primitives::authorizer::{InMemoryAuthorizer, Authorizer};
use oauth_primitives::generator::TokenGenerator;
use oauth_primitives::grant::Grant;
use oauth_primitives::scope::Scope;
use oauth_primitives::uri::RedirectUri;

/// Hands out `prefix` followed by a running number.
struct Counting {
    prefix: &'static str,
    next: u64,
}

impl TokenGenerator for Counting {
    fn generate(&mut self, _usage: u64, _grant: &Grant) -> Result<String, ()> {
        self.next += 1;
        Ok(format!("{}{:016}", self.prefix, self.next))
    }
}

/// Hands out the same tag again and again.
struct Repeating(&'static str);

impl TokenGenerator for Repeating {
    fn generate(&mut self, _usage: u64, _grant: &Grant) -> Result<String, ()> {
        Ok(self.0.to_string())
    }
}

/// Never hands out anything.
struct Failing;

impl TokenGenerator for Failing {
    fn generate(&mut self, _usage: u64, _grant: &Grant) -> Result<String, ()> {
        Err(())
    }
}

fn sample_grant() -> Grant {
    Grant {
        owner_id: "Owner".to_string(),
        client_id: "Client".to_string(),
        scope: Scope::from_tokens(vec!["One".to_string(), "two".to_string()]),
        redirect_uri: RedirectUri::parse("https://example.com/redirect_me").unwrap(),
        issued_at: 10,
        until: 700,
    }
}

#[test]
fn authorized_code_is_extracted_exactly_once() {
    let mut authorizer = InMemoryAuthorizer::new(Counting { prefix: "code-", next: 0 }, 600);
    let grant = sample_grant();
    let code = authorizer.authorize(grant.clone()).unwrap();
    assert_eq!(authorizer.extract(&code), Ok(Some(grant)));
    assert_eq!(authorizer.extract(&code), Ok(None));
}

#[test]
fn unknown_code_is_absent_not_a_failure() {
    let mut authorizer = InMemoryAuthorizer::new(Counting { prefix: "code-", next: 0 }, 600);
    assert_eq!(authorizer.extract("never-issued-code"), Ok(None));
}

#[test]
fn authorizer_issues_different_codes_for_one_grant() {
    let mut authorizer = InMemoryAuthorizer::new(Counting { prefix: "code-", next: 0 }, 600);
    let first = authorizer.authorize(sample_grant()).unwrap();
    let second = authorizer.authorize(sample_grant()).unwrap();
    assert_ne!(first, second);
    assert_eq!(authorizer.len(), 2);
}

#[test]
fn authorizer_refuses_an_outstanding_code() {
    let mut authorizer = InMemoryAuthorizer::new(Repeating("the-very-same-code-again"), 600);
    let code = authorizer.authorize(sample_grant()).unwrap();
    assert_eq!(authorizer.authorize(sample_grant()), Err(()));
    assert_eq!(authorizer.len(), 1);
    assert_eq!(authorizer.extract(&code), Ok(Some(sample_grant())));
    // Once the code is redeemed it is no longer outstanding.
    assert_eq!(authorizer.authorize(sample_grant()), Ok(code));
}

#[test]
fn authorizer_refuses_a_code_of_fewer_than_sixteen_bytes() {
    let mut authorizer = InMemoryAuthorizer::new(Repeating("fifteen-bytes!!"), 600);
    assert_eq!(authorizer.authorize(sample_grant()), Err(()));
    assert_eq!(authorizer.len(), 0);
    let mut authorizer = InMemoryAuthorizer::new(Repeating("sixteen-bytes!!!"), 600);
    assert_eq!(authorizer.authorize(sample_grant()), Ok("sixteen-bytes!!!".to_string()));
}

#[test]
fn authorizer_fails_where_the_generator_fails() {
    let mut authorizer = InMemoryAuthorizer::new(Failing, 600);
    assert_eq!(authorizer.authorize(sample_grant()), Err(()));
    assert_eq!(authorizer.len(), 0);
}

#[test]
fn code_expires_after_the_time_to_live() {
    let mut authorizer = InMemoryAuthorizer::new(Counting { prefix: "code-", next: 0 }, 600);
    authorizer.set_time(1_000);
    let in_time = authorizer.authorize(sample_grant()).unwrap();
    let too_late = authorizer.authorize(sample_grant()).unwrap();
    authorizer.set_time(1_600);
    assert_eq!(authorizer.extract(&in_time), Ok(Some(sample_grant())));
    authorizer.set_time(1_601);
    assert_eq!(authorizer.extract(&too_late), Ok(None));
    // The expired code is gone as well.
    assert_eq!(authorizer.len(), 0);
}

#[test]
fn authorizer_time_never_goes_back() {
    let mut authorizer = InMemoryAuthorizer::new(Counting { prefix: "code-", next: 0 }, 5);
    authorizer.set_time(100);
    let code = authorizer.authorize(sample_grant()).unwrap();
    authorizer.set_time(200);
    authorizer.set_time(100);
    assert_eq!(authorizer.time(), 200);
    assert_eq!(authorizer.extract(&code), Ok(None));
}

#[test]
fn import_stores_a_chosen_code() {
    let mut authorizer = InMemoryAuthorizer::new(Failing, 600);
    let code = "a-code-from-elsewhere".to_string();
    assert_eq!(authorizer.import(code.clone(), sample_grant()), Ok(code.clone()));
    assert_eq!(authorizer.import(code.clone(), sample_grant()), Err(()));
    assert_eq!(authorizer.extract(&code), Ok(Some(sample_grant())));
}

/// Hands out a tag that shows the usage number it was handed, and fails on
/// the numbers it was told to fail on.
struct Showing {
    failing: Vec<u64>,
}

impl TokenGenerator for Showing {
    fn generate(&mut self, usage: u64, grant: &Grant) -> Result<String, ()> {
        if self.failing.contains(&usage) {
            Err(())
        } else {
            Ok(format!("{}-for-{}-{:020}", grant.owner_id, grant.client_id, usage))
        }
    }
}

#[test]
fn authorizer_hands_the_generator_the_grant_and_a_usage_number_that_moves_on() {
    let mut authorizer = InMemoryAuthorizer::new(Showing { failing: vec![] }, 600);
    assert_eq!(
        authorizer.authorize(sample_grant()),
        Ok("Owner-for-Client-00000000000000000000".to_string())
    );
    assert_eq!(
        authorizer.authorize(sample_grant()),
        Ok("Owner-for-Client-00000000000000000001".to_string())
    );
    // Extracting and importing do not move the number on.
    assert!(authorizer.extract("Owner-for-Client-00000000000000000000").unwrap().is_some());
    assert!(authorizer.import("a-code-from-elsewhere".to_string(), sample_grant()).is_ok());
    assert_eq!(
        authorizer.authorize(sample_grant()),
        Ok("Owner-for-Client-00000000000000000002".to_string())
    );
}

#[test]
fn authorizer_keeps_the_usage_number_where_it_fails() {
    let mut authorizer = InMemoryAuthorizer::new(Showing { failing: vec![] }, 600);
    let taken = "Owner-for-Client-00000000000000000000".to_string();
    assert!(authorizer.import(taken.clone(), sample_grant()).is_ok());
    // The generator hands out the code that is outstanding: nothing is issued.
    assert_eq!(authorizer.authorize(sample_grant()), Err(()));
    assert_eq!(authorizer.authorize(sample_grant()), Err(()));
    assert_eq!(authorizer.extract(&taken), Ok(Some(sample_grant())));
    // The same number is handed over again, and now its code is free.
    assert_eq!(authorizer.authorize(sample_grant()), Ok(taken));
}
