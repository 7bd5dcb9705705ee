use webserver::storage::DataStore;

#[test]
fn two_simultaneous_saves_never_interleave() {
    // the file lock serializes two simultaneous savers into one of the two
    // orders; in both, the stored bytes are one body in full, never a mix
    let a = b"A".to_vec();
    let bb = b"BB".to_vec();
    for order in [[&a, &bb], [&bb, &a]] {
        let mut store = DataStore::new();
        for body in order {
            store.save(body);
        }
        assert!(store.contents == a || store.contents == bb);
        assert_eq!(&store.contents, order[1]);
    }
}

#[test]
fn a_save_replaces_the_contents_wholly() {
    let mut store = DataStore::new();
    store.save(b"a long first body");
    store.save(b"x");
    assert_eq!(store.contents, b"x".to_vec());
}

#[test]
fn many_serialized_saves_leave_exactly_the_last_body() {
    let mut store = DataStore::new();
    let bodies: Vec<Vec<u8>> = (0u8..20).map(|i| vec![i; usize::from(i % 5) + 1]).collect();
    store.apply_saves(&bodies);
    assert_eq!(store.contents, bodies[19]);
}
