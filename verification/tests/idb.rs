use yewdux::idb::{DatabaseObjectPointer, PutRequest, Queue, QueueStatus, Request};

fn pointer(database: &str, object: &str) -> DatabaseObjectPointer {
    DatabaseObjectPointer::new(database.to_string(), object.to_string())
}

fn put(database: &str, object: &str, value: u32) -> Request<u32> {
    Request::put(database.to_string(), object.to_string(), value)
}

fn names(pointers: &[DatabaseObjectPointer]) -> Vec<(String, String)> {
    pointers.iter().map(|p| (p.database.clone(), p.object.clone())).collect()
}

fn value(request: &Request<u32>) -> u32 {
    match request {
        Request::Put(put) => *put.data,
    }
}

#[test]
fn idb_pointers_order_by_database_then_object() {
    assert!(pointer("a", "z").less_than(&pointer("b", "a")));
    assert!(pointer("a", "a").less_than(&pointer("a", "b")));
    assert!(!pointer("b", "a").less_than(&pointer("a", "z")));
    assert!(pointer("ab", "x").less_than(&pointer("b", "x")));
    assert!(pointer("a", "x").less_than(&pointer("ab", "x")));
    assert!(!pointer("a", "x").less_than(&pointer("a", "x")));
    assert!(pointer("db", "obj").same(&pointer("db", "obj")));
    assert!(!pointer("db", "obj").same(&pointer("db", "obj2")));
}

#[test]
fn idb_pointer_order_is_byte_order() {
    // 'Z' (0x5a) comes before 'a' (0x61), and a multi-byte character after both.
    assert!(pointer("Z", "o").less_than(&pointer("a", "o")));
    assert!(pointer("a", "o").less_than(&pointer("é", "o")));
}

#[test]
fn idb_put_request_holds_pointer_and_value() {
    let request = PutRequest::new("db".to_string(), "obj".to_string(), 7u32);
    assert_eq!(request.pointer.database, "db");
    assert_eq!(request.pointer.object, "obj");
    assert_eq!(*request.data, 7);
    let request = put("db", "obj", 9);
    assert_eq!(request.pointer().object, "obj");
    assert_eq!(value(&request), 9);
}

#[test]
fn idb_queue_keeps_pointer_order() {
    let mut queue = Queue::new();
    assert!(queue.insert(put("b", "x", 1)).is_none());
    assert!(queue.insert(put("a", "y", 2)).is_none());
    assert!(queue.insert(put("a", "x", 3)).is_none());
    assert_eq!(queue.len(), 3);
    assert_eq!(
        names(&queue.keys()),
        vec![
            ("a".to_string(), "x".to_string()),
            ("a".to_string(), "y".to_string()),
            ("b".to_string(), "x".to_string()),
        ]
    );
}

#[test]
fn idb_queue_replaces_request_for_same_object() {
    let mut queue = Queue::new();
    queue.insert(put("a", "x", 1));
    queue.insert(put("b", "x", 2));
    let replaced = queue.insert(put("a", "x", 5));
    assert_eq!(replaced.as_ref().map(value), Some(1));
    assert_eq!(queue.len(), 2);
    let first = queue.pop_first().unwrap();
    assert_eq!(value(&first), 5);
    let second = queue.pop_first().unwrap();
    assert_eq!(value(&second), 2);
    assert!(queue.pop_first().is_none());
    assert_eq!(queue.len(), 0);
}

#[test]
fn idb_status_takes_first_job() {
    let mut queue = Queue::new();
    let mut job = None;
    let mut status = QueueStatus::new();
    queue.insert(put("b", "x", 1));
    queue.insert(put("a", "x", 2));
    assert!(status.take_job(&mut queue, &mut job));
    assert_eq!(job.as_ref().map(value), Some(2));
    let active = status.active.as_ref().unwrap();
    assert_eq!((active.database.as_str(), active.object.as_str()), ("a", "x"));
    status.refresh_waiting(&queue);
    assert_eq!(names(&status.waiting), vec![("b".to_string(), "x".to_string())]);
}

#[test]
fn idb_status_waits_for_active_job() {
    let mut queue = Queue::new();
    let mut job = Some(put("a", "x", 1));
    let mut status = QueueStatus::new();
    queue.insert(put("b", "x", 2));
    assert!(!status.take_job(&mut queue, &mut job));
    assert_eq!(job.as_ref().map(value), Some(1));
    assert_eq!(queue.len(), 1);
}

#[test]
fn idb_status_clears_active_when_queue_is_empty() {
    let mut queue: Queue<u32> = Queue::new();
    let mut job = None;
    let mut status = QueueStatus::new();
    status.active = Some(pointer("a", "x"));
    assert!(!status.take_job(&mut queue, &mut job));
    assert!(status.active.is_none());
    assert!(job.is_none());
    status.refresh_waiting(&queue);
    assert!(status.waiting.is_empty());
}
