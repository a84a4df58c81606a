use ships::embedding::EMBEDDING_DIM;
use ships::embedding::Embedding;
use ships::raw::RawValue;
use ships::ship::ExtractionError;
use ships::ship::Ship;
use ships::store::Store;
use ships::sync::PAGE_SIZE;
use ships::sync::apply_page;
use ships::sync::extract_batch;
use ships::sync::finish_record;

fn bare_ship(id: &str) -> Ship {
    Ship {
        id: String::from(id),
        heard_through: None,
        github_username: None,
        country: None,
        hours_bits: None,
        screenshot_url: None,
        code_url: None,
        demo_url: None,
        description: None,
        approved_at: None,
        ysws: None,
        embedding: None,
    }
}

fn described_ship(id: &str, description: &str) -> Ship {
    let mut ship = bare_ship(id);
    ship.description = Some(String::from(description));
    ship
}

fn some_embedding() -> Embedding {
    Embedding::from_components(vec![4; EMBEDDING_DIM]).unwrap()
}

fn page_of(count: usize, prefix: &str) -> Vec<Ship> {
    let mut ships = Vec::new();
    for k in 0..count {
        ships.push(bare_ship(&format!("{prefix}{k}")));
    }
    ships
}

#[test]
fn full_page_hands_the_token_on() {
    let mut store = Store::new();
    let ships = page_of(PAGE_SIZE, "full");
    let (cursor, report) = apply_page(&mut store, &ships, Some(String::from("tok-17")));
    assert_eq!(cursor.as_deref(), Some("tok-17"));
    assert!(report.is_none());
    assert_eq!(store.count(), PAGE_SIZE);
}

#[test]
fn short_page_ends_the_sweep_and_reports_the_total() {
    let mut store = Store::new();
    let full = page_of(PAGE_SIZE, "page-a-");
    let (cursor, report) = apply_page(&mut store, &full, Some(String::from("tok-1")));
    assert_eq!(cursor.as_deref(), Some("tok-1"));
    assert!(report.is_none());
    let short = page_of(3, "page-b-");
    let (cursor, report) = apply_page(&mut store, &short, Some(String::from("tok-2")));
    assert!(cursor.is_none());
    assert_eq!(report, Some(PAGE_SIZE + 3));
    assert_eq!(store.count(), PAGE_SIZE + 3);
}

#[test]
fn empty_page_also_ends_the_sweep() {
    let mut store = Store::new();
    let (cursor, report) = apply_page(&mut store, &Vec::new(), Some(String::from("ignored")));
    assert!(cursor.is_none());
    assert_eq!(report, Some(0));
}

#[test]
fn replayed_page_changes_nothing() {
    let mut store = Store::new();
    let ships = page_of(7, "rep");
    apply_page(&mut store, &ships, None);
    apply_page(&mut store, &ships, None);
    assert_eq!(store.count(), 7);
}

#[test]
fn extract_batch_keeps_fetch_order() {
    let raws = vec![
        RawValue::Obj(vec![(String::from("id"), RawValue::Str(String::from("one")))]),
        RawValue::Obj(vec![(String::from("id"), RawValue::Str(String::from("two")))]),
    ];
    let ships = extract_batch(&raws).unwrap();
    assert_eq!(ships.len(), 2);
    assert_eq!(ships[0].id, "one");
    assert_eq!(ships[1].id, "two");
}

#[test]
fn one_keyless_record_aborts_the_whole_batch() {
    let raws = vec![
        RawValue::Obj(vec![(String::from("id"), RawValue::Str(String::from("fine")))]),
        RawValue::Obj(vec![(String::from("fields"), RawValue::Obj(Vec::new()))]),
    ];
    assert_eq!(extract_batch(&raws).unwrap_err(), ExtractionError::MissingId);
}

#[test]
fn described_record_gets_its_embedding() {
    let done = finish_record(described_ship("d", "words"), Some(some_embedding())).unwrap();
    assert!(done.embedding.is_some());
    assert_eq!(done.description.as_deref(), Some("words"));
}

#[test]
fn missing_embedding_for_described_record_aborts() {
    assert!(finish_record(described_ship("d", "words"), None).is_none());
}

#[test]
fn undescribed_record_is_stored_without_embedding() {
    let done = finish_record(bare_ship("u"), None).unwrap();
    assert!(done.embedding.is_none());
}

#[test]
fn empty_description_never_carries_an_embedding() {
    let done = finish_record(described_ship("e", ""), Some(some_embedding())).unwrap();
    assert!(done.embedding.is_none());
    let also = finish_record(described_ship("e", ""), None).unwrap();
    assert!(also.embedding.is_none());
}
