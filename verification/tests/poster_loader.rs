use ingestqnc::poster_loader::{PosterAssetLoader, PosterLoadRequest};

#[test]
fn a_pending_poster_is_requested_once() {
    let mut loader = PosterAssetLoader::new();
    assert!(!loader.has_pending());
    let request = loader.request(" clip:a ", " /media/card/A001.JPG ");
    assert_eq!(
        request,
        Some(PosterLoadRequest { clip_id: "clip:a".into(), path: "/media/card/A001.JPG".into() })
    );
    assert!(loader.is_pending("clip:a"));
    assert!(loader.has_pending());
    assert_eq!(loader.request("clip:a", "/other.jpg"), None);
    assert_eq!(loader.request("  ", "/x.jpg"), None);
    assert_eq!(loader.request("clip:b", " "), None);
    assert!(loader.request("clip:b", "/b.jpg").is_some());

    loader.finish("clip:a");
    assert!(!loader.is_pending("clip:a"));
    assert!(loader.is_pending("clip:b"));
    assert!(loader.request("clip:a", "/a.jpg").is_some());
    loader.finish("clip:a");
    loader.finish("clip:b");
    loader.finish("never");
    assert!(!loader.has_pending());
}
