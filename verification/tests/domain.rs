//! Names as they are stored.

use murmur::notes::domain::ItemSource;

#[test]
fn item_source_round_trips_through_str() {
    for s in [ItemSource::Live, ItemSource::Authoritative, ItemSource::Manual] {
        assert_eq!(ItemSource::parse(s.as_str()).unwrap(), s);
    }
    assert!(ItemSource::parse("bogus").is_err());
}
