use evno::{open_ring, Capacity};
use futures::FutureExt;
use std::sync::Arc;

#[test]
fn an_opened_ring_delivers_to_subscribers() {
    let capacity = Capacity::new(4).unwrap();
    let ring = open_ring::<u32>(&capacity);
    let publisher = ring.publisher();
    futures::executor::block_on(async {
        let consumer = Arc::new(publisher.subscribe().await);
        publisher.publish(7).await.unwrap();
        publisher.publish(8).await.unwrap();
        let first = consumer.next_owned().await.unwrap();
        assert_eq!(*first, 7);
        drop(first);
        let second = consumer.next_owned().await.unwrap();
        assert_eq!(*second, 8);
    });
}

#[test]
fn an_opened_ring_waits_a_capacity_ahead_of_its_slowest_consumer() {
    let capacity = Capacity::new(4).unwrap();
    let ring = open_ring::<u32>(&capacity);
    let publisher = ring.publisher();
    futures::executor::block_on(async {
        let _consumer = publisher.subscribe().await;
        for value in 0..3u32 {
            assert_eq!(publisher.publish(value).await, Ok(()));
        }
        // The fourth event would run four slots ahead of the consumer, which has
        // read nothing yet, so it waits.
        assert!(publisher.publish(3).now_or_never().is_none());
    });
}

#[test]
fn an_opened_ring_without_subscribers_refuses_events() {
    let capacity = Capacity::new(2).unwrap();
    let ring = open_ring::<u32>(&capacity);
    futures::executor::block_on(async {
        assert_eq!(ring.publisher().publish(1).await, Err(1));
    });
}
