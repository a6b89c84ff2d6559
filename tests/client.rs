use flowgen::connect::Client;
use flowgen::store::{ClientBuilder, StoreError};

#[derive(Debug)]
struct MockClient {
    should_error: bool,
    connected: bool,
}

#[derive(Debug)]
struct MockError;

impl Client for MockClient {
    type Error = MockError;

    fn connect(mut self) -> Result<Self, Self::Error> {
        if self.should_error {
            Err(MockError)
        } else {
            self.connected = true;
            Ok(self)
        }
    }
}

#[test]
fn test_client_connect_success() {
    let client = MockClient { should_error: false, connected: false };

    let result = client.connect();
    assert!(result.is_ok());
    assert!(result.unwrap().connected);
}

#[test]
fn test_client_connect_error() {
    let client = MockClient { should_error: true, connected: false };

    let result = client.connect();
    assert!(result.is_err());
}

#[test]
fn test_mock_client_creation() {
    let client = MockClient { should_error: false, connected: false };

    assert!(!client.should_error);
    assert!(!client.connected);
}

fn options(pairs: &[(&str, &str)]) -> Vec<(String, String)> {
    pairs.iter().map(|(k, v)| (k.to_string(), v.to_string())).collect()
}

fn lookup<'a>(opts: &'a [(String, String)], key: &str) -> Option<&'a str> {
    opts.iter().rev().find(|(k, _)| k == key).map(|(_, v)| v.as_str())
}

#[test]
fn builder_requires_path() {
    assert!(matches!(ClientBuilder::new().build(), Err(StoreError::MissingPath)));
}

#[test]
fn connect_parses_url_and_adds_credentials() {
    let c = ClientBuilder::new()
        .path("gs://bucket/landing".to_string())
        .credentials("/etc/sa.json".to_string())
        .options(options(&[("google_service_account", "old"), ("region", "eu")]))
        .build()
        .unwrap()
        .connect()
        .unwrap();
    let ctx = c.context.unwrap();
    assert_eq!(ctx.url.scheme(), "gs");
    assert_eq!(lookup(&ctx.options, "google_service_account"), Some("/etc/sa.json"));
    assert_eq!(lookup(&ctx.options, "region"), Some("eu"));
    assert_eq!(ctx.options.iter().filter(|(k, _)| k == "google_service_account").count(), 1);
}

#[test]
fn connect_without_credentials_keeps_options() {
    let c = ClientBuilder::new()
        .path("s3://bucket".to_string())
        .options(options(&[("region", "us")]))
        .build()
        .unwrap()
        .connect()
        .unwrap();
    let ctx = c.context.unwrap();
    assert_eq!(ctx.options, options(&[("region", "us")]));
}

#[test]
fn connect_rejects_a_path_that_is_not_a_url() {
    let r = ClientBuilder::new().path("no scheme here".to_string()).build().unwrap().connect();
    assert!(matches!(r, Err(StoreError::ParseUrl(_))));
}
