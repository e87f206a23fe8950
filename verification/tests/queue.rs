use std::sync::{Arc, Mutex};

use proxy_rs::proto::Protocol;
use proxy_rs::queue::{Candidate, CandidateQueue, FifoQueue};

#[test]
fn queue_basic() {
    let mut queue = FifoQueue::new();

    // Test push and pop
    queue.push(1);
    queue.push(2);
    queue.push(3);

    assert_eq!(queue.pop(), 1);
    assert_eq!(queue.pop(), 2);
    assert_eq!(queue.pop(), 3);

    // Test size and is_empty
    assert_eq!(queue.qsize(), 0);
    assert!(queue.is_empty());

    queue.push(4);
    queue.push(5);

    assert_eq!(queue.qsize(), 2);
    assert!(!queue.is_empty());
}

#[test]
fn queue_is_unique() {
    let mut queue = FifoQueue::new();
    queue.push(7);
    queue.push(8);
    assert!(!queue.is_unique(7));
    assert!(queue.is_unique(9));
}

fn candidate(host: &str, port: u16) -> Candidate {
    Candidate {
        host: host.to_string(),
        port,
        protocols: vec![Protocol::Http],
    }
}

#[test]
fn candidate_queue_dedups_by_address() {
    let mut q = CandidateQueue::new();
    assert!(q.push(candidate("1.2.3.4", 8080)));
    assert!(q.push(candidate("1.2.3.4", 3128)));
    // The same address again is refused, whatever protocols it claims.
    assert!(!q.push(Candidate {
        host: "1.2.3.4".to_string(),
        port: 8080,
        protocols: vec![Protocol::Socks5],
    }));
    assert_eq!(q.qsize(), 2);

    let first = q.pop().expect("two candidates are queued");
    assert_eq!(first.host, "1.2.3.4");
    assert_eq!(first.port, 8080);

    // A popped address cannot be re-admitted either: it was already seen.
    assert!(!q.push(candidate("1.2.3.4", 8080)));
    let second = q.pop().expect("one candidate left");
    assert_eq!(second.port, 3128);
    assert!(q.pop().is_none());
}

#[test]
fn queue_parallel_async() {
    let runtime = tokio::runtime::Builder::new_multi_thread()
        .enable_all()
        .build()
        .expect("building the runtime");
    runtime.block_on(async {
        let queue = Arc::new(Mutex::new(FifoQueue::new()));
        let mut fut = vec![];

        let q1 = Arc::clone(&queue);
        fut.push(tokio::spawn(async move {
            q1.lock().unwrap().push(1);
            q1.lock().unwrap().push(2);
        }));

        let q2 = Arc::clone(&queue);
        fut.push(tokio::spawn(async move {
            q2.lock().unwrap().push(3);
            q2.lock().unwrap().push(4);
        }));

        for f in fut {
            f.await.unwrap();
        }

        assert_eq!(queue.lock().unwrap().qsize(), 4);
    })
}
