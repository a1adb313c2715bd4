use chat_broker::messages_pool::{MessagesPool, PoolMessage, POOL_CAPACITY};

fn entry(i: usize) -> PoolMessage {
    PoolMessage::new(format!("id-{i}"), format!("user{i}"), format!("message {i}"), false)
}

fn pool_with(n: usize) -> MessagesPool {
    let mut pool = MessagesPool::new();
    for i in 0..n {
        pool.push(entry(i));
    }
    pool
}

#[test]
fn empty_history_has_nothing_new() {
    let pool = MessagesPool::new();
    assert!(pool.has_new("").is_none());
    assert_eq!(pool.len(), 0);
}

#[test]
fn first_read_returns_everything() {
    let pool = pool_with(3);
    let (msgs, cursor) = pool.has_new("").unwrap();
    let ids: Vec<String> = msgs.iter().map(|m| m.id.clone()).collect();
    assert_eq!(ids, vec!["id-0", "id-1", "id-2"]);
    assert_eq!(cursor.as_deref(), Some("id-2"));
}

#[test]
fn read_after_cursor_returns_only_newer() {
    let pool = pool_with(5);
    let (msgs, cursor) = pool.has_new("id-2").unwrap();
    let ids: Vec<String> = msgs.iter().map(|m| m.id.clone()).collect();
    assert_eq!(ids, vec!["id-3", "id-4"]);
    assert_eq!(cursor.as_deref(), Some("id-4"));
    assert_eq!(msgs[0].username, "user3");
    assert_eq!(msgs[0].message, "message 3");
}

#[test]
fn read_at_newest_returns_nothing_and_no_cursor() {
    let pool = pool_with(4);
    let (msgs, cursor) = pool.has_new("id-3").unwrap();
    assert!(msgs.is_empty());
    assert!(cursor.is_none());
}

#[test]
fn capacity_is_kept_after_overflow() {
    let pool = pool_with(POOL_CAPACITY + 44);
    assert_eq!(pool.len(), POOL_CAPACITY);
    let (msgs, cursor) = pool.has_new("").unwrap();
    assert_eq!(msgs.len(), POOL_CAPACITY);
    for (k, m) in msgs.iter().enumerate() {
        assert_eq!(m.id, format!("id-{}", k + 44));
    }
    assert_eq!(cursor, Some(format!("id-{}", POOL_CAPACITY + 43)));
}

#[test]
fn stale_cursor_falls_back_to_full_window() {
    let pool = pool_with(300);
    let (msgs, cursor) = pool.has_new("id-10").unwrap();
    assert_eq!(msgs.len(), 256);
    assert_eq!(msgs[0].id, "id-44");
    assert_eq!(msgs[255].id, "id-299");
    assert_eq!(cursor.as_deref(), Some("id-299"));
}

#[test]
fn cursor_survives_eviction_of_older_entries() {
    let pool = pool_with(300);
    let (msgs, _) = pool.has_new("id-297").unwrap();
    let ids: Vec<String> = msgs.iter().map(|m| m.id.clone()).collect();
    assert_eq!(ids, vec!["id-298", "id-299"]);
}

#[test]
fn consecutive_reads_have_no_gaps_or_duplicates() {
    let mut pool = pool_with(10);
    let (first, cursor) = pool.has_new("").unwrap();
    assert_eq!(first.len(), 10);
    let cursor = cursor.unwrap();
    for i in 10..15 {
        pool.push(entry(i));
    }
    let (second, next) = pool.has_new(&cursor).unwrap();
    let ids: Vec<String> = second.iter().map(|m| m.id.clone()).collect();
    assert_eq!(ids, vec!["id-10", "id-11", "id-12", "id-13", "id-14"]);
    assert_eq!(next.as_deref(), Some("id-14"));
}

#[test]
fn repeated_id_reads_from_its_last_position() {
    let mut pool = MessagesPool::new();
    pool.push(PoolMessage::new("a".to_owned(), String::new(), "1".to_owned(), true));
    pool.push(PoolMessage::new("b".to_owned(), String::new(), "2".to_owned(), true));
    pool.push(PoolMessage::new("a".to_owned(), String::new(), "3".to_owned(), true));
    pool.push(PoolMessage::new("c".to_owned(), String::new(), "4".to_owned(), true));
    let (msgs, _) = pool.has_new("a").unwrap();
    assert_eq!(msgs.len(), 1);
    assert_eq!(msgs[0].message, "4");
}

#[test]
fn copied_message_keeps_fields() {
    let m = PoolMessage::new("x".to_owned(), "u".to_owned(), "m".to_owned(), true);
    let c = m.copied();
    assert_eq!(c.id, "x");
    assert_eq!(c.username, "u");
    assert_eq!(c.message, "m");
    assert!(c.from_server);
}
