use imgstore::store::{
    Image, InsertOutcome, RecordStore, delete_image_record, get_image_by_hash,
    get_image_hashes_by_owner, insert_image,
};

fn image(hash: &str, owner: &str, created_at: u64) -> Image {
    Image {
        hash: hash.to_string(),
        extension: "jpg".to_string(),
        owner: owner.to_string(),
        image_name: Some(format!("{hash}-name")),
        created_at,
        modified_at: created_at,
        longitude: None,
        latitude: None,
    }
}

#[test]
fn duplicate_key_conflicts_and_adds_no_row() {
    let mut store = RecordStore::new();
    assert_eq!(insert_image(&mut store, &image("h1", "alice", 10)), InsertOutcome::Inserted);
    assert_eq!(insert_image(&mut store, &image("h1", "alice", 20)), InsertOutcome::Conflict);
    let hashes = get_image_hashes_by_owner(&store, &"alice".to_string());
    assert_eq!(hashes, vec!["h1".to_string()]);
}

#[test]
fn same_hash_different_owners_are_two_records() {
    let mut store = RecordStore::new();
    assert_eq!(insert_image(&mut store, &image("h1", "alice", 10)), InsertOutcome::Inserted);
    assert_eq!(insert_image(&mut store, &image("h1", "bob", 20)), InsertOutcome::Inserted);
    let alice = get_image_by_hash(&store, &"h1".to_string(), &"alice".to_string()).unwrap();
    let bob = get_image_by_hash(&store, &"h1".to_string(), &"bob".to_string()).unwrap();
    assert_eq!(alice.owner, "alice");
    assert_eq!(bob.owner, "bob");
}

#[test]
fn lookups_are_owner_scoped() {
    let mut store = RecordStore::new();
    insert_image(&mut store, &image("h1", "alice", 10));
    assert!(get_image_by_hash(&store, &"h1".to_string(), &"bob".to_string()).is_none());
    assert!(get_image_by_hash(&store, &"h2".to_string(), &"alice".to_string()).is_none());
}

#[test]
fn deletion_is_owner_scoped() {
    let mut store = RecordStore::new();
    insert_image(&mut store, &image("h1", "alice", 10));
    assert!(!delete_image_record(&mut store, &"h1".to_string(), &"bob".to_string()));
    assert!(get_image_by_hash(&store, &"h1".to_string(), &"alice".to_string()).is_some());
    assert!(delete_image_record(&mut store, &"h1".to_string(), &"alice".to_string()));
    assert!(get_image_by_hash(&store, &"h1".to_string(), &"alice".to_string()).is_none());
    assert!(!delete_image_record(&mut store, &"h1".to_string(), &"alice".to_string()));
}

#[test]
fn hashes_come_newest_first() {
    let mut store = RecordStore::new();
    insert_image(&mut store, &image("older", "alice", 10));
    insert_image(&mut store, &image("newest", "alice", 30));
    insert_image(&mut store, &image("middle", "alice", 20));
    insert_image(&mut store, &image("other", "bob", 40));
    let hashes = get_image_hashes_by_owner(&store, &"alice".to_string());
    assert_eq!(
        hashes,
        vec!["newest".to_string(), "middle".to_string(), "older".to_string()]
    );
}

#[test]
fn listing_an_unknown_owner_is_empty() {
    let store = RecordStore::new();
    assert!(get_image_hashes_by_owner(&store, &"nobody".to_string()).is_empty());
}

#[test]
fn record_metadata_survives_the_round_trip() {
    let mut store = RecordStore::new();
    let mut im = image("h1", "alice", 10);
    im.extension = "png".to_string();
    im.image_name = None;
    insert_image(&mut store, &im);
    let back = get_image_by_hash(&store, &"h1".to_string(), &"alice".to_string()).unwrap();
    assert_eq!(back.hash, "h1");
    assert_eq!(back.extension, "png");
    assert_eq!(back.image_name, None);
    assert_eq!(back.created_at, 10);
}
