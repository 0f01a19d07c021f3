use hailsplay::asset::{
    create, upload, Asset, AssetDigest, DownloadError, Fetch, UploadableAsset, MAX_ASSET_SIZE,
};

#[test]
fn limit_is_four_mebibytes() {
    assert_eq!(MAX_ASSET_SIZE, 4 * 1024 * 1024);
    assert!(matches!(DownloadError::too_large(), DownloadError::FileTooLarge { max: 4194304 }));
}

#[test]
fn fetch_refuses_an_advertised_length_above_the_limit() {
    assert!(Fetch::begin(None).is_ok());
    assert!(Fetch::begin(Some(0)).is_ok());
    assert!(Fetch::begin(Some(4194304)).is_ok());
    assert!(matches!(
        Fetch::begin(Some(4194305)),
        Err(DownloadError::FileTooLarge { max: 4194304 })
    ));
    assert!(matches!(Fetch::begin(Some(u64::MAX)), Err(DownloadError::FileTooLarge { .. })));
}

#[test]
fn fetch_collects_chunks() {
    let mut fetch = Fetch::begin(Some(5)).unwrap();
    fetch.on_chunk(&[1, 2]).unwrap();
    fetch.on_chunk(&[]).unwrap();
    fetch.on_chunk(&[3, 4, 5]).unwrap();
    let asset = fetch.finish("cover.png".to_string(), None);
    assert_eq!(
        asset,
        UploadableAsset {
            filename: "cover.png".to_string(),
            content_type: "image/png".to_string(),
            data: vec![1, 2, 3, 4, 5],
        }
    );
}

#[test]
fn fetch_refuses_a_body_that_grows_above_the_limit() {
    let mut fetch = Fetch::begin(None).unwrap();
    let chunk = vec![7u8; 1024 * 1024];
    for _ in 0..4 {
        fetch.on_chunk(&chunk).unwrap();
    }
    assert_eq!(fetch.data.len(), MAX_ASSET_SIZE);
    fetch.on_chunk(&[]).unwrap();
    assert!(matches!(fetch.on_chunk(&[1]), Err(DownloadError::FileTooLarge { max: 4194304 })));
    assert_eq!(fetch.data.len(), MAX_ASSET_SIZE);
}

#[test]
fn fetch_refuses_a_chunk_that_alone_is_too_large() {
    let mut fetch = Fetch::begin(None).unwrap();
    fetch.on_chunk(&[1]).unwrap();
    let chunk = vec![0u8; MAX_ASSET_SIZE];
    assert!(fetch.on_chunk(&chunk).is_err());
    assert_eq!(fetch.data, vec![1]);
}

#[test]
fn content_type_of_the_response_comes_first() {
    let fetch = Fetch::begin(None).unwrap();
    let asset = fetch.finish("cover.png".to_string(), Some("image/webp".to_string()));
    assert_eq!(asset.content_type, "image/webp");
    let fetch = Fetch::begin(None).unwrap();
    let asset = fetch.finish("".to_string(), None);
    assert_eq!(asset.content_type, "application/octet-stream");
    assert_eq!(asset.filename, "");
}

#[test]
fn upload_of_a_local_file() {
    let asset = upload("icon.gif".to_string(), vec![9, 9]);
    assert_eq!(asset.filename, "icon.gif");
    assert_eq!(asset.content_type, "image/gif");
    assert_eq!(asset.data, vec![9, 9]);
}

#[test]
fn created_rows() {
    let (blob, row) = create(UploadableAsset {
        filename: "foo/bar.png".to_string(),
        content_type: "image/png".to_string(),
        data: b"hello".to_vec(),
    });
    let digest = "2cf24dba5fb0a30e26e83b2ac5b9e29e1b161e5c1fa7425e73043362938b9824";
    assert_eq!(blob.blob, b"hello".to_vec());
    assert_eq!(blob.digest, AssetDigest(digest.to_string()));
    assert_eq!(
        row,
        Asset {
            filename: "foo_bar.png".to_string(),
            content_type: "image/png".to_string(),
            digest: AssetDigest(digest.to_string()),
        }
    );
    assert_eq!(row.content_type(), "image/png");
}

#[test]
fn digest_of_no_bytes() {
    let (blob, _) = create(UploadableAsset {
        filename: "empty".to_string(),
        content_type: "application/octet-stream".to_string(),
        data: Vec::new(),
    });
    assert_eq!(
        blob.digest.0,
        "e3b0c44298fc1c149afbf4c8996fb92427ae41e4649b934ca495991b7852b855"
    );
}

#[test]
fn identical_bytes_have_one_digest() {
    let make = |name: &str| UploadableAsset {
        filename: name.to_string(),
        content_type: "image/png".to_string(),
        data: vec![1, 2, 3],
    };
    let (a, _) = create(make("a.png"));
    let (b, _) = create(make("b.png"));
    assert_eq!(a.digest, b.digest);
    let (c, _) = create(UploadableAsset { data: vec![1, 2, 4], ..make("a.png") });
    assert_ne!(a.digest, c.digest);
}

#[test]
fn file_names_are_made_valid() {
    for (name, safe) in [
        ("cover.png", "cover.png"),
        ("../../etc/passwd", "__.._etc_passwd"),
        ("a:b?c", "a_b_c"),
        ("..", "_"),
        ("con", "con_"),
    ] {
        let (_, row) = create(UploadableAsset {
            filename: name.to_string(),
            content_type: "x/y".to_string(),
            data: Vec::new(),
        });
        assert_eq!(row.filename, safe, "{:?}", name);
    }
}
