use ships::date::Date;
use ships::embedding::EMBEDDING_DIM;
use ships::embedding::Embedding;
use ships::search::SearchError;
use ships::search::search;
use ships::ship::Ship;
use ships::store::Store;

fn bare_ship(id: &str) -> Ship {
    Ship {
        id: String::from(id),
        heard_through: None,
        github_username: None,
        country: None,
        hours_bits: None,
        screenshot_url: None,
        code_url: None,
        demo_url: None,
        description: None,
        approved_at: None,
        ysws: None,
        embedding: None,
    }
}

fn embedded_ship(id: &str, description: &str, first_component: i32) -> Ship {
    let mut ship = bare_ship(id);
    ship.description = Some(String::from(description));
    let mut components: Vec<i32> = vec![0; EMBEDDING_DIM];
    components[0] = first_component;
    ship.embedding = Some(Embedding::from_components(components).unwrap());
    ship
}

fn query(first_component: i32) -> Embedding {
    let mut components: Vec<i32> = vec![0; EMBEDDING_DIM];
    components[0] = first_component;
    Embedding::from_components(components).unwrap()
}

#[test]
fn upsert_twice_is_one_row() {
    let mut store = Store::new();
    store.upsert(embedded_ship("X", "same record", 5));
    store.upsert(embedded_ship("X", "same record", 5));
    assert_eq!(store.count(), 1);
    let rows = store.list_all();
    assert_eq!(rows.len(), 1);
    assert_eq!(rows[0].id, "X");
    assert_eq!(rows[0].description.as_deref(), Some("same record"));
}

#[test]
fn later_sweep_wins_wholesale() {
    let mut store = Store::new();
    let mut first = embedded_ship("X", "A", 1);
    first.country = Some(String::from("Iceland"));
    store.upsert(first);
    let second = embedded_ship("X", "B", 9);
    store.upsert(second);
    assert_eq!(store.count(), 1);
    let rows = store.list_all();
    assert_eq!(rows[0].description.as_deref(), Some("B"));
    assert_eq!(rows[0].embedding.as_ref().unwrap().components[0], 9);
    assert!(rows[0].country.is_none());
}

#[test]
fn distinct_ids_accumulate() {
    let mut store = Store::new();
    store.upsert(bare_ship("a"));
    store.upsert(bare_ship("b"));
    store.upsert(bare_ship("a"));
    assert_eq!(store.count(), 2);
}

#[test]
fn list_all_orders_by_approval_date_nulls_last() {
    let mut store = Store::new();
    let mut late = bare_ship("late");
    late.approved_at = Some(Date { year: 2023, month: 5, day: 1 });
    let mut early = bare_ship("early");
    early.approved_at = Some(Date { year: 2021, month: 1, day: 1 });
    let undated = bare_ship("undated");
    let mut middle = bare_ship("middle");
    middle.approved_at = Some(Date { year: 2022, month: 3, day: 3 });
    store.upsert(late);
    store.upsert(early);
    store.upsert(undated);
    store.upsert(middle);
    let ids: Vec<String> = store.list_all().into_iter().map(|s| s.id).collect();
    assert_eq!(ids, vec!["early", "middle", "late", "undated"]);
}

#[test]
fn nearest_ranks_by_distance_not_insertion_order() {
    let mut store = Store::new();
    store.upsert(embedded_ship("far", "far away", 50));
    store.upsert(embedded_ship("close", "right here", 11));
    store.upsert(embedded_ship("middling", "in between", 25));
    let found = search(&store, Some(query(10))).unwrap();
    assert_eq!(found, "close");
}

#[test]
fn rows_without_embeddings_are_not_ranked() {
    let mut store = Store::new();
    store.upsert(bare_ship("mute"));
    store.upsert(embedded_ship("spoken", "has words", 100));
    let found = search(&store, Some(query(0))).unwrap();
    assert_eq!(found, "spoken");
}

#[test]
fn search_with_no_embedded_rows_is_no_match() {
    let mut store = Store::new();
    store.upsert(bare_ship("mute"));
    assert_eq!(search(&store, Some(query(0))), Err(SearchError::NoMatch));
}

#[test]
fn search_on_empty_store_is_no_match() {
    let store = Store::new();
    assert_eq!(search(&store, Some(query(3))), Err(SearchError::NoMatch));
}

#[test]
fn search_without_query_vector_is_upstream_failure() {
    let mut store = Store::new();
    store.upsert(embedded_ship("present", "here", 1));
    assert_eq!(search(&store, None), Err(SearchError::Upstream));
}

#[test]
fn distance_is_squared_euclidean() {
    let mut a: Vec<i32> = vec![0; EMBEDDING_DIM];
    let mut b: Vec<i32> = vec![0; EMBEDDING_DIM];
    a[0] = 3;
    b[0] = -1;
    a[10] = -2;
    b[10] = 1;
    let ea = Embedding::from_components(a).unwrap();
    let eb = Embedding::from_components(b).unwrap();
    assert_eq!(ea.dist_sq_to(&eb), 16 + 9);
    assert_eq!(eb.dist_sq_to(&ea), 25);
    assert_eq!(ea.dist_sq_to(&ea), 0);
}

#[test]
fn embedding_must_have_fixed_dimension() {
    assert!(Embedding::from_components(vec![0; EMBEDDING_DIM - 1]).is_none());
    assert!(Embedding::from_components(vec![0; EMBEDDING_DIM + 1]).is_none());
    assert!(Embedding::from_components(Vec::new()).is_none());
    assert!(Embedding::from_components(vec![7; EMBEDDING_DIM]).is_some());
}
