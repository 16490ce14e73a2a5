use bentoml::client::{Client, ClientBuilder, Config};
use bentoml::error::Error;

fn client(base_url: &str) -> Client {
    match Client::builder().with_base_url(base_url).build() {
        Ok(c) => c,
        Err(e) => panic!("unexpected {e:?}"),
    }
}

/// The error a builder fails with.
fn build_error(b: ClientBuilder) -> Error {
    match b.build() {
        Ok(_) => panic!("expected an error"),
        Err(e) => e,
    }
}

#[test]
fn base_url_gets_a_trailing_slash() {
    // Without normalization, joining would drop the final path segment.
    assert_eq!(
        client("http://localhost:3000").base_url().as_str(),
        "http://localhost:3000/"
    );
    assert_eq!(
        client("http://localhost:3000/").base_url().as_str(),
        "http://localhost:3000/"
    );
}

#[test]
fn endpoint_joins_route_tolerating_leading_slash() {
    let c = client("http://localhost:3000");
    assert_eq!(
        c.route_url("summarize").unwrap().as_str(),
        "http://localhost:3000/summarize"
    );
    assert_eq!(
        c.route_url("/summarize").unwrap().as_str(),
        "http://localhost:3000/summarize"
    );
}

#[test]
fn endpoint_preserves_a_path_prefix() {
    // A `/v1/` prefix must survive route joining (BentoML `path_prefix`).
    let c = client("http://localhost:3000/v1");
    assert_eq!(
        c.route_url("summarize").unwrap().as_str(),
        "http://localhost:3000/v1/summarize"
    );
}

#[test]
fn builder_defaults() {
    let c = Client::builder().build().unwrap();
    assert_eq!(c.base_url().as_str(), "http://localhost:3000/");
    assert_eq!(c.max_retries(), 3);
    assert!(c.timeout().is_none());
    assert!(c.default_headers().is_empty());
    assert!(!c.is_authorized());
}

#[test]
fn builder_settings_are_kept() {
    let c = Client::builder()
        .with_base_url("http://example.com:8080/api/")
        .with_max_retries(0u32)
        .with_timeout(std::time::Duration::from_secs(5))
        .build()
        .unwrap();
    assert_eq!(c.base_url().as_str(), "http://example.com:8080/api/");
    assert_eq!(c.max_retries(), 0);
    assert_eq!(c.timeout(), Some(std::time::Duration::from_secs(5)));
}

#[test]
fn token_becomes_the_authorization_header() {
    let c = Client::builder()
        .with_header("Authorization", "Basic abc")
        .with_header("X-Custom", "1")
        .with_token("secret")
        .build()
        .unwrap();
    assert!(c.is_authorized());
    assert_eq!(
        c.default_headers(),
        vec![
            ("authorization".to_string(), "Bearer secret".to_string()),
            ("x-custom".to_string(), "1".to_string()),
        ]
    );
}

#[test]
fn user_agent_is_a_header() {
    let c = Client::builder().with_user_agent("bento/1").build().unwrap();
    assert_eq!(
        c.default_headers(),
        vec![("user-agent".to_string(), "bento/1".to_string())]
    );
}

#[test]
fn invalid_bearer_token_is_rejected() {
    let err = build_error(Client::builder().with_token("a\nb"));
    match err {
        Error::InvalidRequest { message, source: Some(source) } => {
            assert_eq!(message, "invalid bearer token");
            assert_eq!(source, "failed to parse header value");
        }
        other => panic!("unexpected {other:?}"),
    }
}

#[test]
fn invalid_base_url_is_rejected() {
    let err = build_error(Client::builder().with_base_url("not a url"));
    match err {
        Error::InvalidRequest { message, source: Some(source) } => {
            assert_eq!(message, "invalid url");
            assert_eq!(source, "relative URL without a base");
        }
        other => panic!("unexpected {other:?}"),
    }
}

#[test]
fn invalid_client_header_is_reported_at_build() {
    let err = build_error(
        Client::builder()
            .with_header("bad name", "v")
            .with_header("also bad", "v"),
    );
    match err {
        Error::InvalidRequest { message, source: None } => {
            assert_eq!(message, "invalid header \"bad name\": invalid HTTP header name")
        }
        other => panic!("unexpected {other:?}"),
    }
}

#[test]
fn header_error_comes_before_token_and_url_errors() {
    let err = build_error(
        Client::builder()
            .with_base_url("::")
            .with_token("a\nb")
            .with_header("X-Ok", "bad\u{7f}"),
    );
    match err {
        Error::InvalidRequest { message, source: None } => {
            assert_eq!(message, "invalid header x-ok: failed to parse header value")
        }
        other => panic!("unexpected {other:?}"),
    }
}

#[test]
fn endpoint_query_appends_the_task_id() {
    let c = client("http://localhost:3000");
    assert_eq!(
        c.endpoint_query("generate/status", "task_id", "a b&c")
            .unwrap()
            .as_str(),
        "http://localhost:3000/generate/status?task_id=a+b%26c"
    );
}

#[test]
fn config_default_is_the_local_service() {
    let c = Config::default();
    assert_eq!(c.base_url, "http://localhost:3000");
    assert!(c.token.is_none());
    assert_eq!(c.timeout, std::time::Duration::from_secs(30));
}
