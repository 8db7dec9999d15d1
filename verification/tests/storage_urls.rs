use filesystem_sink::storage::{BackendConfig, GCSConfig, LocalConfig, S3Config, StorageError};

#[test]
fn test_s3_configs() {
    assert_eq!(
        BackendConfig::parse_url("s3://mybucket/puppy.jpg", false).unwrap(),
        BackendConfig::S3(S3Config {
            endpoint: None,
            region: None,
            bucket: "mybucket".to_string(),
            key: Some("puppy.jpg".to_string()),
        })
    );

    assert_eq!(
        BackendConfig::parse_url(
            "https://s3.us-west-2.amazonaws.com/my-bucket1/puppy.jpg",
            false
        )
        .unwrap(),
        BackendConfig::S3(S3Config {
            endpoint: None,
            region: Some("us-west-2".to_string()),
            bucket: "my-bucket1".to_string(),
            key: Some("puppy.jpg".to_string()),
        })
    );

    assert_eq!(
        BackendConfig::parse_url("https://s3.us-east-1.amazonaws.com/my-bucket", false).unwrap(),
        BackendConfig::S3(S3Config {
            endpoint: None,
            region: Some("us-east-1".to_string()),
            bucket: "my-bucket".to_string(),
            key: None,
        })
    );

    assert_eq!(
        BackendConfig::parse_url(
            "https://my-bucket.s3.us-west-2.amazonaws.com/my/path/test.pdf",
            false
        )
        .unwrap(),
        BackendConfig::S3(S3Config {
            endpoint: None,
            region: Some("us-west-2".to_string()),
            bucket: "my-bucket".to_string(),
            key: Some("my/path/test.pdf".to_string()),
        })
    );

    assert_eq!(
        BackendConfig::parse_url(
            "s3::https://my-custom-endpoint.com:1234/my-bucket/path/test.pdf",
            false
        )
        .unwrap(),
        BackendConfig::S3(S3Config {
            endpoint: Some("https://my-custom-endpoint.com:1234".to_string()),
            region: None,
            bucket: "my-bucket".to_string(),
            key: Some("path/test.pdf".to_string()),
        })
    );
}

#[test]
fn test_local_configs() {
    assert_eq!(
        BackendConfig::parse_url("file:///my/path/directory", false).unwrap(),
        BackendConfig::Local(LocalConfig {
            path: "/my/path/directory".to_string(),
            key: None,
        })
    );

    assert_eq!(
        BackendConfig::parse_url("file:/my/path/directory", false).unwrap(),
        BackendConfig::Local(LocalConfig {
            path: "/my/path/directory".to_string(),
            key: None,
        })
    );

    assert_eq!(
        BackendConfig::parse_url("/my/path/directory", false).unwrap(),
        BackendConfig::Local(LocalConfig {
            path: "/my/path/directory".to_string(),
            key: None,
        })
    );

    assert_eq!(
        BackendConfig::parse_url("/my/path/directory/my-file.pdf", true).unwrap(),
        BackendConfig::Local(LocalConfig {
            path: "/my/path/directory".to_string(),
            key: Some("my-file.pdf".to_string()),
        })
    );
}

#[test]
fn test_gcs_configs() {
    assert_eq!(
        BackendConfig::parse_url("gs://my-gcs-bucket/some/key", false).unwrap(),
        BackendConfig::GCS(GCSConfig {
            bucket: "my-gcs-bucket".to_string(),
            key: Some("some/key".to_string()),
        })
    );

    assert_eq!(
        BackendConfig::parse_url("https://my_bucket.storage.googleapis.com/obj", false).unwrap(),
        BackendConfig::GCS(GCSConfig {
            bucket: "my_bucket".to_string(),
            key: Some("obj".to_string()),
        })
    );

    assert_eq!(
        BackendConfig::parse_url("https://storage.googleapis.com/my_bucket", false).unwrap(),
        BackendConfig::GCS(GCSConfig {
            bucket: "my_bucket".to_string(),
            key: None,
        })
    );
}

#[test]
fn test_invalid_url() {
    match BackendConfig::parse_url("ftp://somewhere/else", false) {
        Err(StorageError::InvalidUrl) => {}
        other => panic!("expected an invalid-url error, got {:?}", other),
    }
}

#[test]
fn test_bad_port() {
    match BackendConfig::parse_url("s3::https://host.example:99999999/bucket/key", false) {
        Err(StorageError::PathError(m)) => {
            assert_eq!(m, "invalid port: 99999999");
        }
        other => panic!("expected a path error, got {:?}", other),
    }
}

#[test]
fn test_port_normalization() {
    assert_eq!(
        BackendConfig::parse_url("s3::http://host.example:00080/bucket", false).unwrap(),
        BackendConfig::S3(S3Config {
            endpoint: Some("http://host.example:80".to_string()),
            region: None,
            bucket: "bucket".to_string(),
            key: None,
        })
    );
}

#[test]
fn test_overrides_precedence() {
    // the strongest source wins: the second environment pair overrides
    // the first, which overrides the URL
    let r = filesystem_sink::storage::parse_url_with_overrides(
        "https://s3.us-east-1.amazonaws.com/my-bucket",
        false,
        Some("eu-west-1".to_string()),
        Some("ap-south-1".to_string()),
        None,
        None,
    )
    .unwrap();
    assert_eq!(
        r,
        BackendConfig::S3(S3Config {
            endpoint: None,
            region: Some("ap-south-1".to_string()),
            bucket: "my-bucket".to_string(),
            key: None,
        })
    );

    // with only the first pair set, it overrides the URL
    let r = filesystem_sink::storage::parse_url_with_overrides(
        "https://s3.us-east-1.amazonaws.com/my-bucket",
        false,
        Some("eu-west-1".to_string()),
        None,
        None,
        None,
    )
    .unwrap();
    assert_eq!(
        r,
        BackendConfig::S3(S3Config {
            endpoint: None,
            region: Some("eu-west-1".to_string()),
            bucket: "my-bucket".to_string(),
            key: None,
        })
    );
}

#[test]
fn test_canonical_url() {
    let c = BackendConfig::parse_url("s3://mybucket/puppy.jpg", false).unwrap();
    assert_eq!(
        filesystem_sink::storage::canonical_url(&c),
        "https://s3.amazonaws.com/mybucket"
    );

    let c = BackendConfig::parse_url("https://s3.us-west-2.amazonaws.com/my-bucket1", false).unwrap();
    assert_eq!(
        filesystem_sink::storage::canonical_url(&c),
        "https://s3.us-west-2.amazonaws.com/my-bucket1"
    );

    let c = BackendConfig::parse_url("file:///data/out", false).unwrap();
    assert_eq!(filesystem_sink::storage::canonical_url(&c), "file:///data/out");
}

#[test]
fn test_last_takes_final_present_value() {
    assert_eq!(
        filesystem_sink::storage::last(vec![Some(1), None, Some(3)]),
        Some(3)
    );
    assert_eq!(filesystem_sink::storage::last(vec![Some(1), None]), Some(1));
    assert_eq!(filesystem_sink::storage::last::<u32>(vec![None, None]), None);
}
