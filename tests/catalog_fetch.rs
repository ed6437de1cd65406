use cats_of_asia::catalog::{fetch_images, FetchOutcome, ImagesResource};
use cats_of_asia::photo::{Coord, Image};

fn photo(id: usize) -> Image {
    Image {
        id,
        url_large: "l".to_string(),
        url_medium: "m".to_string(),
        url_small: "s".to_string(),
        sha256: format!("hash{id}"),
        timestamp: "t".to_string(),
        coord: Coord { lat_e7: id as i32, lon_e7: 0 },
        city: String::new(),
        country: "Nepal".to_string(),
    }
}

#[test]
fn network_error_gives_empty_catalog() {
    assert!(fetch_images(FetchOutcome::Failed).is_empty());
}

#[test]
fn bad_status_gives_empty_catalog() {
    for status in [199u16, 300, 404, 500] {
        let out = fetch_images(FetchOutcome::Responded { status, images: Some(vec![photo(1)]) });
        assert!(out.is_empty());
    }
}

#[test]
fn malformed_body_gives_empty_catalog() {
    assert!(fetch_images(FetchOutcome::Responded { status: 200, images: None }).is_empty());
}

#[test]
fn success_gives_parsed_catalog() {
    let out = fetch_images(FetchOutcome::Responded { status: 200, images: Some(vec![photo(1), photo(2)]) });
    assert_eq!(out, vec![photo(1), photo(2)]);
    let out = fetch_images(FetchOutcome::Responded { status: 299, images: Some(vec![photo(3)]) });
    assert_eq!(out, vec![photo(3)]);
}

#[test]
fn resolution_replaces_catalog_whole() {
    let mut res = ImagesResource::new();
    assert!(res.current().is_none());
    let t = res.start();
    assert!(res.is_loading());
    assert!(res.resolve(t, FetchOutcome::Responded { status: 200, images: Some(vec![photo(1), photo(2)]) }));
    assert_eq!(res.current(), Some(&vec![photo(1), photo(2)]));
    assert_eq!(res.identity_token(), Some(t));
    let t2 = res.start();
    assert!(res.resolve(t2, FetchOutcome::Failed));
    assert_eq!(res.current(), Some(&vec![]));
    assert_eq!(res.identity_token(), Some(t2));
}

#[test]
fn stale_token_is_discarded() {
    let mut res = ImagesResource::new();
    let t1 = res.start();
    let t2 = res.start();
    assert!(!res.resolve(t1, FetchOutcome::Responded { status: 200, images: Some(vec![photo(1)]) }));
    assert!(res.current().is_none());
    assert!(res.resolve(t2, FetchOutcome::Responded { status: 200, images: Some(vec![photo(2)]) }));
    assert_eq!(res.current(), Some(&vec![photo(2)]));
}

#[test]
fn find_by_hash_gives_first_match() {
    let list = vec![photo(1), photo(2), photo(2)];
    assert_eq!(cats_of_asia::catalog::find_by_hash(&list, "hash2"), Some(1));
    assert_eq!(cats_of_asia::catalog::find_by_hash(&list, "hash9"), None);
}
