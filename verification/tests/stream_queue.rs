use cli_warden::stream_queue::{
    permits_of, split_bytes, split_text, QueuedItem, DEFAULT_CHUNK_BYTES,
    DEFAULT_MAX_UNCONFIRMED_BYTES, DEFAULT_PACKET_QUEUE_CAPACITY,
};
use std::sync::Arc;
use tokio::sync::Semaphore;

#[test]
fn limits_are_those_that_are_documented() {
    assert_eq!(DEFAULT_CHUNK_BYTES, 8 * 1024);
    assert_eq!(DEFAULT_PACKET_QUEUE_CAPACITY, 128);
    assert_eq!(DEFAULT_MAX_UNCONFIRMED_BYTES, 128 * 1024);
    assert_eq!(permits_of(8192), 8192);
    assert_eq!(permits_of(0), 0);
    assert_eq!(permits_of(u32::MAX as usize), u32::MAX);
}

#[test]
fn bytes_are_split_into_full_packets() {
    let data: Vec<u8> = (0..8192 * 2 + 1).map(|i| (i % 256) as u8).collect();
    let parts = split_bytes(&data);
    assert_eq!(
        parts.iter().map(|p| p.len()).collect::<Vec<_>>(),
        vec![8192, 8192, 1]
    );
    assert_eq!(parts.concat(), data);
    assert!(split_bytes(&[]).is_empty());
    assert_eq!(split_bytes(&data[..8192]).len(), 1);
}

#[test]
fn text_is_split_between_characters() {
    let text = format!("{}é{}", "a".repeat(8191), "b".repeat(10));
    let parts = split_text(&text);
    assert_eq!(parts.len(), 2);
    assert_eq!(parts[0].len(), 8191);
    assert_eq!(parts.concat(), text);
    assert!(split_text("").is_empty());
}

#[test]
fn queued_item_holds_its_share_of_the_budget() {
    let budget = Arc::new(Semaphore::new(10));
    let permit = budget
        .clone()
        .try_acquire_many_owned(4)
        .expect("free budget");
    let item = QueuedItem::with_permit("packet", permit);
    assert_eq!(item.item, "packet");
    assert_eq!(budget.available_permits(), 6);
    drop(item);
    assert_eq!(budget.available_permits(), 10);
    let item = QueuedItem::unbounded(1);
    assert_eq!(item.item, 1);
    assert!(item.permit.is_none());
}
