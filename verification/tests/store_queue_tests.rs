use wikigraph::queue::PageQueue;
use wikigraph::store::GraphStore;
use wikigraph::{Edge, Page};

fn edge(s: &str, t: &str) -> Edge {
    Edge { source: s.to_string(), target: t.to_string() }
}

fn page(title: &str, text: &str) -> Page {
    Page { title: title.to_string(), text: text.to_string() }
}

#[test]
fn store_round_trip_preserves_rows_and_duplicates() {
    let mut store = GraphStore::new();
    let input = vec![edge("a", "b"), edge("a", "c"), edge("a", "b"), edge("d", "e")];
    store.insert_all(input);
    let rows = store.rows();
    assert_eq!(rows.len(), 4);
    assert_eq!(rows[0].source, "a");
    assert_eq!(rows[0].target, "b");
    assert_eq!(rows[1].target, "c");
    assert_eq!(rows[2].source, "a");
    assert_eq!(rows[2].target, "b");
    assert_eq!(rows[3].source, "d");
    assert_eq!(rows[3].target, "e");
}

#[test]
fn store_appends_in_insertion_order() {
    let mut store = GraphStore::new();
    store.insert(edge("x", "y"));
    store.insert(edge("y", "z"));
    assert_eq!(store.len(), 2);
    store.build_index();
    let rows = store.rows();
    assert_eq!(rows[0].source, "x");
    assert_eq!(rows[1].source, "y");
}

#[test]
fn queue_refuses_items_past_its_bound() {
    let mut q = PageQueue::new(2);
    assert!(q.offer(page("a", "1")).is_none());
    assert!(q.offer(page("b", "2")).is_none());
    let refused = q.offer(page("c", "3"));
    assert!(refused.is_some());
    assert_eq!(refused.unwrap().title, "c");
    assert_eq!(q.len(), 2);
    assert_eq!(q.capacity(), 2);
    assert!(q.len() <= q.capacity());
}

#[test]
fn queue_hands_records_back_in_fifo_order() {
    let mut q = PageQueue::new(3);
    assert!(q.offer(page("a", "1")).is_none());
    assert!(q.offer(page("b", "2")).is_none());
    let first = q.take().unwrap();
    assert_eq!(first.title, "a");
    assert!(q.offer(page("c", "3")).is_none());
    let second = q.take().unwrap();
    assert_eq!(second.title, "b");
    let third = q.take().unwrap();
    assert_eq!(third.title, "c");
    assert!(q.take().is_none());
}

#[test]
fn refused_item_comes_back_and_fits_after_a_take() {
    let mut q = PageQueue::new(1);
    assert!(q.offer(page("a", "1")).is_none());
    let held = q.offer(page("b", "2")).unwrap();
    let _ = q.take().unwrap();
    assert!(q.offer(held).is_none());
    assert_eq!(q.len(), 1);
}
