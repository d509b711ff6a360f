use nimbus::config::Config;
use nimbus::http_client::{is_acceptable_status, Client};
use nimbus::error::Error;
use nimbus::uuid::generate_uuid;
use nimbus::schema::{BucketConfig, RandomizationUnit};

fn config(server: Option<&str>, bucket: Option<&str>, uuid: Option<&str>) -> Config {
    Config {
        server_url: server.map(|s| s.to_string()),
        bucket_name: bucket.map(|s| s.to_string()),
        collection_name: None,
        uuid: uuid.map(|s| s.to_string()),
    }
}

#[test]
fn custom_uuid_is_used() {
    let u = generate_uuid(Some(config(None, None, Some("936da01f-9abd-4d9d-80c7-02af85c822a8"))));
    assert_eq!(u.bits, 0x936DA01F9ABD4D9D80C702AF85C822A8);
    assert_eq!(u.to_hyphenated_string(), "936da01f-9abd-4d9d-80c7-02af85c822a8");
}

#[test]
fn invalid_custom_uuid_falls_back_to_random() {
    let a = generate_uuid(Some(config(None, None, Some("not-a-uuid"))));
    let b = generate_uuid(None);
    assert_eq!(a.to_hyphenated_string().len(), 36);
    assert_ne!(a, b);
    for u in [a, b] {
        assert_eq!((u.bits >> 76) & 0xf, 4);
        assert_eq!((u.bits >> 62) & 0x3, 2);
    }
}

#[test]
fn client_defaults_and_path() {
    let c = Client::new(None).unwrap();
    assert_eq!(c.records_path(), "buckets/main/collections/messaging-experiment/records");
    assert_eq!(
        c.records_url().unwrap().as_str(),
        "https://settings.stage.mozaws.net/buckets/main/collections/messaging-experiment/records"
    );
    let c = Client::new(Some(config(Some("http://localhost:1234"), Some("b"), None))).unwrap();
    assert_eq!(c.records_path(), "buckets/b/collections/messaging-experiment/records");
    assert_eq!(c.records_url().unwrap().as_str(), "http://localhost:1234/buckets/b/collections/messaging-experiment/records");
}

#[test]
fn client_rejects_bad_url() {
    assert_eq!(Client::new(Some(config(Some("not a url"), None, None))).err(), Some(Error::InvalidUrl));
}

#[test]
fn status_codes() {
    assert!(is_acceptable_status(200));
    assert!(is_acceptable_status(299));
    assert!(is_acceptable_status(304));
    assert!(!is_acceptable_status(404));
    assert!(!is_acceptable_status(500));
    assert!(!is_acceptable_status(199));
}

#[test]
fn bucket_config_default_total() {
    let b = BucketConfig::new(RandomizationUnit::ClientId, "ns".to_string(), 1, 2);
    assert_eq!(b.total, 10000);
}
