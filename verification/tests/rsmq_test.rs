use rsmq::error::RsmqError;
use rsmq::queue::Queue;
use rsmq::rsmq::{CreateOutcome, Rsmq};

const T0: u64 = 1_600_000_000_123_456;

fn setup(ns: &str) -> Rsmq {
    let mut rsmq = Rsmq::new(ns);
    assert!(rsmq.set_time(T0));
    rsmq.delete_queue("test-q").unwrap();
    let q = Queue::new("test-q", None, None, None);
    let res = rsmq.create_queue(q);
    assert!(res.is_ok());
    rsmq
}

fn wait_millis(rsmq: &mut Rsmq, now: &mut u64, millis: u64) {
    *now += millis * 1000;
    assert!(rsmq.set_time(*now));
}

#[test]
fn create_queue() {
    let mut rsmq = setup("test-ns");
    let res = rsmq.create_queue(Queue::new("test-create-q", None, None, None));
    assert!(res.is_ok());
}

#[test]
fn list_queues() {
    let mut rsmq = setup("test-ns");
    rsmq.create_queue(Queue::new("test-jobs", None, None, None)).expect("can't create queue");
    let qs = rsmq.list_queues();
    assert!(qs.is_ok());
    let qs = qs.unwrap();
    assert!(!qs.is_empty());
    assert!(qs.contains(&"test-jobs".into()));
}

#[test]
fn delete_queue() {
    let mut rsmq = setup("test-ns");
    rsmq.create_queue(Queue::new("test-delete-me", None, None, None)).expect("can't create queue");
    let qs = rsmq.list_queues().unwrap();
    assert!(qs.contains(&"test-delete-me".to_string()));

    rsmq.delete_queue("test-delete-me").expect("delete queue panicked");
    let qs = rsmq.list_queues().unwrap();
    assert!(!qs.contains(&"test-delete-me".to_string()))
}

#[test]
fn send_message() {
    let mut rsmq = setup("test-ns");
    let qname = "test-send-message-q";
    rsmq.delete_queue(qname).expect("no queue deleted");
    rsmq.create_queue(Queue::new(qname, Some(0), Some(0), None)).expect("can't create queue");
    let queue_stats_before =
        rsmq.get_queue_attributes(qname).expect("fetch queue stats BEFORE failed");
    let message_id = rsmq.send_message(qname, "fancy schmancy message", None);
    let queue_stats_after =
        rsmq.get_queue_attributes(qname).expect("fetch queue stats AFTER failed");

    assert!(message_id.is_ok());
    assert_eq!(queue_stats_before.msgs + 1, queue_stats_after.msgs)
}

#[test]
fn delete_message() {
    let mut rsmq = setup("test-ns");
    let qname = "test-delete-msg-q";
    rsmq.delete_queue(qname).expect("no queue deleted");
    rsmq.create_queue(Queue::new(qname, None, None, None)).expect("can't create queue");

    let queue_stats_before =
        rsmq.get_queue_attributes(qname).expect("fetch queue stats BEFORE failed");

    let message_id = rsmq.send_message(qname, "fancy schmancy message", None);
    assert!(message_id.is_ok());

    let queue_stats_after =
        rsmq.get_queue_attributes(qname).expect("fetch queue stats AFTER failed");

    let deleted = rsmq.delete_message(qname, &message_id.unwrap());
    assert!(deleted.is_ok() && deleted.unwrap());
    let queue_stats_after_delete =
        rsmq.get_queue_attributes(qname).expect("fetch queue stats AFTER failed");

    assert_eq!(queue_stats_before.msgs + 1, queue_stats_after.msgs);

    assert_eq!(queue_stats_after.msgs - 1, queue_stats_after_delete.msgs);
}

#[test]
fn pop_message() {
    let mut rsmq = setup("test-ns");
    let qname = "pop-message-q";
    rsmq.delete_queue(qname).expect("no queue deleted");
    rsmq.create_queue(Queue::new(qname, None, None, None)).expect("no queue for you!");

    let msg_id = rsmq.send_message(qname, "poppy message", None);
    assert!(msg_id.is_ok());

    let queue_stats_before =
        rsmq.get_queue_attributes(qname).expect("fetch queue stats BEFORE failed");
    let popped = rsmq.pop_message(qname);
    let queue_stats_after =
        rsmq.get_queue_attributes(qname).expect("fetch queue stats AFTER failed");

    assert!(popped.is_ok());
    assert_eq!(popped.unwrap().unwrap().id, msg_id.unwrap());
    assert_eq!(queue_stats_after.msgs, 0);
    assert_eq!(queue_stats_before.msgs, 1);
    assert_eq!(queue_stats_after.hiddenmsgs, 0);
}

#[test]
fn receive_message() {
    let mut rsmq = setup("test-ns");
    let mut now = T0;
    let qname = "receive-message-q";
    rsmq.delete_queue(qname).expect("no queue deleted");
    rsmq.create_queue(Queue::new(qname, None, None, None)).expect("no queue for you!");
    let msg_id = rsmq.send_message(qname, "a message to receive", Some(0));
    assert!(msg_id.is_ok());
    wait_millis(&mut rsmq, &mut now, 1000); // wait for messages to become unhidden

    let queue_stats_before =
        rsmq.get_queue_attributes(qname).expect("fetch queue stats BEFORE failed");
    let reserved = rsmq.receive_message(qname, None);
    assert!(reserved.is_ok());
    assert_eq!(reserved.unwrap().unwrap().id, msg_id.unwrap());
    let queue_stats_after =
        rsmq.get_queue_attributes(qname).expect("fetch queue stats AFTER failed");

    assert_eq!(queue_stats_before.msgs, 1);
    assert_eq!(queue_stats_after.msgs, 1); // reserving a message does not delete it

    assert_eq!(queue_stats_after.totalrecv, 1);
    assert_eq!(queue_stats_before.totalrecv, 0);

    assert_eq!(queue_stats_after.hiddenmsgs, 1); // reserving a message hides it from others for queue.vt seconds
    assert_eq!(queue_stats_before.hiddenmsgs, 0);
}

#[test]
fn new_system_is_empty() {
    let rsmq = Rsmq::new("");
    assert_eq!(rsmq.list_queues().unwrap(), Vec::<String>::new());
    assert_eq!(rsmq.queue_hash_key("jobs"), "rsmq:jobs:Q");
    assert_eq!(rsmq.message_zset_key("jobs"), "rsmq:jobs");
}

#[test]
fn namespace_is_kept() {
    let rsmq = Rsmq::new("test-ns");
    assert_eq!(rsmq.queue_hash_key("jobs"), "test-ns:jobs:Q");
    assert_eq!(rsmq.message_zset_key("jobs"), "test-ns:jobs");
}

#[test]
fn clock_does_not_run_backwards() {
    let mut rsmq = Rsmq::new("ns");
    assert!(rsmq.set_time(5_000_000));
    assert!(!rsmq.set_time(4_999_999));
    assert!(rsmq.set_time(5_000_000));
    let (_, ts, _) = rsmq.get_queue("q", false).unwrap();
    assert_eq!(ts, 5_000);
}

#[test]
fn created_queue_shows_its_settings() {
    let mut rsmq = Rsmq::new("ns");
    rsmq.set_time(T0);
    let r = rsmq.create_queue(Queue::new("jobs", Some(45), Some(3), Some(2048)));
    assert_eq!(r, Ok(CreateOutcome::Created));
    let q = rsmq.get_queue_attributes("jobs").unwrap();
    assert_eq!(q.qname, "jobs");
    assert_eq!(q.vt, 45);
    assert_eq!(q.delay, 3);
    assert_eq!(q.maxsize, 2048);
    assert_eq!(q.totalrecv, 0);
    assert_eq!(q.totalsent, 0);
    assert_eq!(q.created, 1_600_000_000);
    assert_eq!(q.modified, 1_600_000_000);
    assert_eq!(q.msgs, 0);
    assert_eq!(q.hiddenmsgs, 0);
}

#[test]
fn second_creation_changes_nothing() {
    let mut rsmq = Rsmq::new("ns");
    let mut now = T0;
    rsmq.set_time(now);
    assert_eq!(rsmq.create_queue(Queue::new("jobs", Some(45), Some(3), Some(2048))), Ok(CreateOutcome::Created));
    rsmq.send_message("jobs", "m", None).unwrap();
    wait_millis(&mut rsmq, &mut now, 5_000);
    assert_eq!(
        rsmq.create_queue(Queue::new("jobs", Some(1), Some(1), Some(1))),
        Ok(CreateOutcome::AlreadyExisted)
    );
    let q = rsmq.get_queue_attributes("jobs").unwrap();
    assert_eq!(q.vt, 45);
    assert_eq!(q.delay, 3);
    assert_eq!(q.maxsize, 2048);
    assert_eq!(q.totalsent, 1);
    assert_eq!(q.created, 1_600_000_000);
    assert_eq!(q.modified, 1_600_000_000);
    assert_eq!(q.msgs, 1);
    assert_eq!(rsmq.list_queues().unwrap(), vec!["jobs".to_string()]);
}

#[test]
fn creation_fills_only_what_is_absent() {
    let mut rsmq = Rsmq::new("ns");
    rsmq.set_time(T0);
    rsmq.set_queue_attributes("jobs", Some(7), None, None).unwrap();
    assert_eq!(rsmq.create_queue(Queue::new("jobs", Some(45), Some(3), Some(2048))), Ok(CreateOutcome::Created));
    let q = rsmq.get_queue_attributes("jobs").unwrap();
    assert_eq!(q.vt, 7);
    assert_eq!(q.delay, 3);
    assert_eq!(q.maxsize, 2048);
}

#[test]
fn queues_are_listed_in_order_of_creation() {
    let mut rsmq = Rsmq::new("ns");
    rsmq.create_queue(Queue::new("b", None, None, None)).unwrap();
    rsmq.create_queue(Queue::new("a", None, None, None)).unwrap();
    rsmq.create_queue(Queue::new("c", None, None, None)).unwrap();
    rsmq.create_queue(Queue::new("a", None, None, None)).unwrap();
    assert_eq!(rsmq.list_queues().unwrap(), vec!["b".to_string(), "a".to_string(), "c".to_string()]);
    rsmq.delete_queue("a").unwrap();
    assert_eq!(rsmq.list_queues().unwrap(), vec!["b".to_string(), "c".to_string()]);
}

#[test]
fn deleting_an_absent_queue_succeeds() {
    let mut rsmq = Rsmq::new("ns");
    assert_eq!(rsmq.delete_queue("nothing"), Ok(()));
    assert_eq!(rsmq.list_queues().unwrap(), Vec::<String>::new());
}

#[test]
fn deleted_queue_is_empty() {
    let mut rsmq = setup("ns");
    rsmq.send_message("test-q", "one", None).unwrap();
    rsmq.send_message("test-q", "two", None).unwrap();
    rsmq.create_queue(Queue::new("other", None, None, None)).unwrap();
    rsmq.send_message("other", "stays", None).unwrap();
    rsmq.delete_queue("test-q").unwrap();
    let q = rsmq.get_queue_attributes("test-q").unwrap();
    assert_eq!(q.vt, 0);
    assert_eq!(q.maxsize, 0);
    assert_eq!(q.totalsent, 0);
    assert_eq!(q.created, 0);
    assert_eq!(q.msgs, 0);
    assert!(rsmq.pop_message("test-q").unwrap().is_none());
    assert_eq!(rsmq.get_queue_attributes("other").unwrap().msgs, 1);
}

#[test]
fn absent_queue_reads_as_zeros() {
    let mut rsmq = Rsmq::new("ns");
    rsmq.set_time(T0);
    let q = rsmq.get_queue_attributes("nothing").unwrap();
    assert_eq!(q.qname, "nothing");
    assert_eq!(q.vt, 0);
    assert_eq!(q.delay, 0);
    assert_eq!(q.maxsize, 0);
    assert_eq!(q.totalrecv, 0);
    assert_eq!(q.totalsent, 0);
    assert_eq!(q.created, 0);
    assert_eq!(q.modified, 0);
    assert_eq!(q.msgs, 0);
    assert_eq!(q.hiddenmsgs, 0);
    assert!(rsmq.receive_message("nothing", None).unwrap().is_none());
    assert!(rsmq.pop_message("nothing").unwrap().is_none());
    assert_eq!(rsmq.delete_message("nothing", "id"), Ok(false));
    assert_eq!(rsmq.change_message_visibility("nothing", "id", 5), Ok(None));
    assert_eq!(rsmq.list_queues().unwrap(), Vec::<String>::new());
}

#[test]
fn send_to_an_absent_queue() {
    let mut rsmq = Rsmq::new("ns");
    rsmq.set_time(T0);
    // The limit of an absent queue reads as zero.
    assert_eq!(rsmq.send_message("nothing", "x", None), Err(RsmqError::MessageTooLong));
    assert_eq!(rsmq.get_queue_attributes("nothing").unwrap().totalsent, 0);
    let id = rsmq.send_message("nothing", "", None).unwrap();
    let q = rsmq.get_queue_attributes("nothing").unwrap();
    assert_eq!(q.totalsent, 1);
    assert_eq!(q.msgs, 1);
    assert_eq!(q.vt, 0);
    assert_eq!(rsmq.list_queues().unwrap(), Vec::<String>::new());
    assert_eq!(rsmq.pop_message("nothing").unwrap().unwrap().id, id);
}

#[test]
fn get_queue_reads_settings_and_time() {
    let mut rsmq = setup("ns");
    let (q, ts, uid) = rsmq.get_queue("test-q", false).unwrap();
    assert_eq!(q.qname, "test-q");
    assert_eq!(q.vt, 30);
    assert_eq!(q.delay, 0);
    assert_eq!(q.maxsize, 65536);
    assert_eq!(q.created, 0);
    assert_eq!(ts, 1_600_000_000_123);
    assert_eq!(uid, None);
    let (_, _, uid) = rsmq.get_queue("test-q", true).unwrap();
    let uid = uid.unwrap();
    assert_eq!(uid.len(), 32);
    assert!(uid.starts_with("fr5hupapts"));
    rsmq.set_time(T0 + 1);
    let (_, _, uid) = rsmq.get_queue("test-q", true).unwrap();
    assert!(uid.unwrap().starts_with("fr5hupaptt"));
}

#[test]
fn send_counts_and_hides() {
    let mut rsmq = setup("ns");
    let mut now = T0;
    let before = rsmq.get_queue_attributes("test-q").unwrap();
    let id = rsmq.send_message_as("test-q", "hello", Some(2), "0123456789abcdefghijkl").unwrap();
    assert_eq!(id, "fr5hupapts0123456789abcdefghijkl");
    let after = rsmq.get_queue_attributes("test-q").unwrap();
    assert_eq!(after.totalsent, before.totalsent + 1);
    assert_eq!(after.msgs, before.msgs + 1);
    assert_eq!(after.hiddenmsgs, before.hiddenmsgs + 1);
    assert_eq!(after.totalrecv, before.totalrecv);
    // Not to be had before the delay is over.
    assert!(rsmq.receive_message("test-q", None).unwrap().is_none());
    wait_millis(&mut rsmq, &mut now, 1_999);
    assert!(rsmq.receive_message("test-q", None).unwrap().is_none());
    assert_eq!(rsmq.get_queue_attributes("test-q").unwrap().hiddenmsgs, 1);
    wait_millis(&mut rsmq, &mut now, 1);
    let m = rsmq.receive_message("test-q", None).unwrap().unwrap();
    assert_eq!(m.id, id);
    assert_eq!(m.message, "hello");
}

#[test]
fn send_without_delay_takes_the_delay_of_the_queue() {
    let mut rsmq = Rsmq::new("ns");
    let mut now = T0;
    rsmq.set_time(now);
    rsmq.create_queue(Queue::new("slow", Some(30), Some(3), None)).unwrap();
    rsmq.send_message("slow", "later", None).unwrap();
    wait_millis(&mut rsmq, &mut now, 2_999);
    assert!(rsmq.pop_message("slow").unwrap().is_none());
    wait_millis(&mut rsmq, &mut now, 1);
    assert_eq!(rsmq.pop_message("slow").unwrap().unwrap().message, "later");
}

#[test]
fn hidden_count_goes_by_the_store_time() {
    let mut rsmq = setup("ns");
    let mut now = T0;
    rsmq.send_message("test-q", "hello", Some(0)).unwrap();
    // At the time of sending the score is the store time.
    assert_eq!(rsmq.get_queue_attributes("test-q").unwrap().hiddenmsgs, 1);
    wait_millis(&mut rsmq, &mut now, 1);
    assert_eq!(rsmq.get_queue_attributes("test-q").unwrap().hiddenmsgs, 0);
    assert_eq!(rsmq.get_queue_attributes("test-q").unwrap().msgs, 1);
}

#[test]
fn message_scored_earlier_in_the_second_is_not_hidden() {
    let mut rsmq = Rsmq::new("ns");
    // 200 ms into a second.
    let mut now = 1_600_000_000_200_000;
    rsmq.set_time(now);
    rsmq.create_queue(Queue::new("q", None, None, None)).unwrap();
    rsmq.send_message("q", "m", None).unwrap();
    wait_millis(&mut rsmq, &mut now, 500);
    let q = rsmq.get_queue_attributes("q").unwrap();
    assert_eq!(q.msgs, 1);
    assert_eq!(q.hiddenmsgs, 0);
    let q = rsmq.set_queue_attributes("q", Some(5), None, None).unwrap();
    assert_eq!(q.hiddenmsgs, 0);
}

#[test]
fn delayed_message_is_hidden_until_its_time() {
    let mut rsmq = setup("ns");
    let mut now = T0;
    rsmq.send_message("test-q", "first", Some(0)).unwrap();
    wait_millis(&mut rsmq, &mut now, 300);
    let before = rsmq.get_queue_attributes("test-q").unwrap();
    assert_eq!(before.hiddenmsgs, 0);
    rsmq.send_message("test-q", "later", Some(2)).unwrap();
    assert_eq!(rsmq.get_queue_attributes("test-q").unwrap().hiddenmsgs, 1);
    wait_millis(&mut rsmq, &mut now, 1_000);
    assert_eq!(rsmq.get_queue_attributes("test-q").unwrap().hiddenmsgs, 1);
    wait_millis(&mut rsmq, &mut now, 1_000);
    // The score is the store time now: still counted, and already to be had.
    assert_eq!(rsmq.get_queue_attributes("test-q").unwrap().hiddenmsgs, 1);
    wait_millis(&mut rsmq, &mut now, 1);
    assert_eq!(rsmq.get_queue_attributes("test-q").unwrap().hiddenmsgs, 0);
    assert_eq!(rsmq.get_queue_attributes("test-q").unwrap().msgs, 2);
}

#[test]
fn too_long_a_message_is_not_sent() {
    let mut rsmq = Rsmq::new("ns");
    rsmq.set_time(T0);
    rsmq.create_queue(Queue::new("small", None, None, Some(5))).unwrap();
    assert_eq!(rsmq.send_message("small", "123456", None), Err(RsmqError::MessageTooLong));
    let q = rsmq.get_queue_attributes("small").unwrap();
    assert_eq!(q.totalsent, 0);
    assert_eq!(q.msgs, 0);
    assert!(rsmq.send_message("small", "12345", None).is_ok());
}

#[test]
fn unlimited_queue_takes_any_message() {
    let mut rsmq = Rsmq::new("ns");
    rsmq.set_time(T0);
    rsmq.create_queue(Queue::new("big", None, None, Some(-1))).unwrap();
    assert!(rsmq.send_message("big", &"x".repeat(200_000), None).is_ok());
}

#[test]
fn delay_out_of_range_is_refused() {
    let mut rsmq = setup("ns");
    assert_eq!(rsmq.send_message("test-q", "m", Some(u64::MAX)), Err(RsmqError::TimeOverflow));
    assert_eq!(rsmq.get_queue_attributes("test-q").unwrap().totalsent, 0);
    assert_eq!(rsmq.get_queue_attributes("test-q").unwrap().msgs, 0);
}

#[test]
fn hide_out_of_range_is_refused() {
    let mut rsmq = setup("ns");
    let id = rsmq.send_message("test-q", "m", None).unwrap();
    assert_eq!(rsmq.receive_message("test-q", Some(u64::MAX)).err(), Some(RsmqError::TimeOverflow));
    assert_eq!(
        rsmq.change_message_visibility("test-q", &id, u64::MAX),
        Err(RsmqError::TimeOverflow)
    );
    assert_eq!(rsmq.get_queue_attributes("test-q").unwrap().totalrecv, 0);
    assert_eq!(rsmq.receive_message("test-q", None).unwrap().unwrap().id, id);
}

#[test]
fn same_id_again_replaces_the_message() {
    let mut rsmq = setup("ns");
    let a = rsmq.send_message_as("test-q", "first", None, "0123456789abcdefghijkl").unwrap();
    let m = rsmq.receive_message("test-q", Some(0)).unwrap().unwrap();
    assert_eq!(m.rc, 1);
    let b = rsmq.send_message_as("test-q", "second", None, "0123456789abcdefghijkl").unwrap();
    assert_eq!(a, b);
    let q = rsmq.get_queue_attributes("test-q").unwrap();
    assert_eq!(q.msgs, 1);
    assert_eq!(q.totalsent, 2);
    let m = rsmq.receive_message("test-q", None).unwrap().unwrap();
    assert_eq!(m.message, "second");
    assert_eq!(m.rc, 2);
}

#[test]
fn receive_hides_and_counts() {
    let mut rsmq = setup("ns");
    let mut now = T0;
    let id = rsmq.send_message("test-q", "work", None).unwrap();
    wait_millis(&mut rsmq, &mut now, 1_000);
    let before = rsmq.get_queue_attributes("test-q").unwrap();
    let m = rsmq.receive_message("test-q", Some(10)).unwrap().unwrap();
    assert_eq!(m.id, id);
    assert_eq!(m.message, "work");
    assert_eq!(m.rc, 1);
    assert_eq!(m.fr, now / 1000);
    assert_eq!(m.sent, T0);
    assert_eq!(m.sent / 1000, 1_600_000_000_123);
    let after = rsmq.get_queue_attributes("test-q").unwrap();
    assert_eq!(after.msgs, before.msgs);
    assert_eq!(after.hiddenmsgs, before.hiddenmsgs + 1);
    assert_eq!(after.totalrecv, before.totalrecv + 1);
    assert_eq!(after.totalsent, before.totalsent);
    // Hidden until ten seconds have passed.
    assert!(rsmq.receive_message("test-q", Some(10)).unwrap().is_none());
    wait_millis(&mut rsmq, &mut now, 9_999);
    assert!(rsmq.receive_message("test-q", Some(10)).unwrap().is_none());
    wait_millis(&mut rsmq, &mut now, 1);
    let again = rsmq.receive_message("test-q", Some(10)).unwrap().unwrap();
    assert_eq!(again.id, id);
    assert_eq!(again.rc, 2);
    // The time of the first receive stays.
    assert_eq!(again.fr, m.fr);
    assert_eq!(rsmq.get_queue_attributes("test-q").unwrap().totalrecv, 2);
}

#[test]
fn receive_without_hidefor_takes_the_timeout_of_the_queue() {
    let mut rsmq = setup("ns");
    let mut now = T0;
    rsmq.send_message("test-q", "work", None).unwrap();
    assert!(rsmq.receive_message("test-q", None).unwrap().is_some());
    wait_millis(&mut rsmq, &mut now, 29_999);
    assert!(rsmq.receive_message("test-q", None).unwrap().is_none());
    wait_millis(&mut rsmq, &mut now, 1);
    assert!(rsmq.receive_message("test-q", None).unwrap().is_some());
}

#[test]
fn lowest_score_comes_first() {
    let mut rsmq = setup("ns");
    let mut now = T0;
    let late = rsmq.send_message("test-q", "late", Some(2)).unwrap();
    let early = rsmq.send_message("test-q", "early", Some(1)).unwrap();
    let first = rsmq.send_message("test-q", "first", Some(0)).unwrap();
    let second = rsmq.send_message("test-q", "second", Some(0)).unwrap();
    wait_millis(&mut rsmq, &mut now, 5_000);
    // Of two with the same score, the one sent first.
    assert_eq!(rsmq.pop_message("test-q").unwrap().unwrap().id, first);
    assert_eq!(rsmq.pop_message("test-q").unwrap().unwrap().id, second);
    assert_eq!(rsmq.pop_message("test-q").unwrap().unwrap().id, early);
    assert_eq!(rsmq.pop_message("test-q").unwrap().unwrap().id, late);
    assert!(rsmq.pop_message("test-q").unwrap().is_none());
}

#[test]
fn pop_takes_the_message_out() {
    let mut rsmq = setup("ns");
    let id = rsmq.send_message("test-q", "once", None).unwrap();
    let before = rsmq.get_queue_attributes("test-q").unwrap();
    let m = rsmq.pop_message("test-q").unwrap().unwrap();
    assert_eq!(m.id, id);
    assert_eq!(m.message, "once");
    assert_eq!(m.rc, 1);
    assert_eq!(m.fr, 1_600_000_000_123);
    assert_eq!(m.sent, T0);
    let after = rsmq.get_queue_attributes("test-q").unwrap();
    assert_eq!(after.msgs, before.msgs - 1);
    assert_eq!(after.msgs, 0);
    assert_eq!(after.hiddenmsgs, 0);
    assert_eq!(after.totalrecv, before.totalrecv + 1);
    assert!(rsmq.pop_message("test-q").unwrap().is_none());
    assert!(rsmq.receive_message("test-q", None).unwrap().is_none());
    assert_eq!(rsmq.delete_message("test-q", &id), Ok(false));
}

#[test]
fn pop_after_receive_keeps_the_first_receive() {
    let mut rsmq = setup("ns");
    let mut now = T0;
    rsmq.send_message("test-q", "twice", None).unwrap();
    let m = rsmq.receive_message("test-q", Some(1)).unwrap().unwrap();
    wait_millis(&mut rsmq, &mut now, 1_000);
    let p = rsmq.pop_message("test-q").unwrap().unwrap();
    assert_eq!(p.rc, 2);
    assert_eq!(p.fr, m.fr);
}

#[test]
fn change_visibility_of_a_hidden_message() {
    let mut rsmq = setup("ns");
    let mut now = T0;
    let id = rsmq.send_message("test-q", "m", Some(1)).unwrap();
    let r = rsmq.change_message_visibility("test-q", &id, 5);
    assert_eq!(r, Ok(Some(1_600_000_000_123 + 5_000)));
    wait_millis(&mut rsmq, &mut now, 4_999);
    assert!(rsmq.receive_message("test-q", None).unwrap().is_none());
    wait_millis(&mut rsmq, &mut now, 1);
    assert_eq!(rsmq.receive_message("test-q", None).unwrap().unwrap().id, id);
}

#[test]
fn change_visibility_can_make_a_message_visible() {
    let mut rsmq = setup("ns");
    let id = rsmq.send_message("test-q", "m", Some(60)).unwrap();
    assert!(rsmq.receive_message("test-q", None).unwrap().is_none());
    assert_eq!(rsmq.change_message_visibility("test-q", &id, 0), Ok(Some(1_600_000_000_123)));
    assert_eq!(rsmq.receive_message("test-q", None).unwrap().unwrap().id, id);
}

#[test]
fn change_visibility_of_an_unknown_id_does_nothing() {
    let mut rsmq = setup("ns");
    let id = rsmq.send_message("test-q", "m", None).unwrap();
    assert_eq!(rsmq.change_message_visibility("test-q", "no-such-id", 5), Ok(None));
    let q = rsmq.get_queue_attributes("test-q").unwrap();
    assert_eq!(q.msgs, 1);
    assert_eq!(rsmq.receive_message("test-q", None).unwrap().unwrap().id, id);
}

#[test]
fn change_visibility_does_not_count_as_receive() {
    let mut rsmq = setup("ns");
    let id = rsmq.send_message("test-q", "m", None).unwrap();
    rsmq.change_message_visibility("test-q", &id, 0).unwrap();
    assert_eq!(rsmq.get_queue_attributes("test-q").unwrap().totalrecv, 0);
    assert_eq!(rsmq.receive_message("test-q", None).unwrap().unwrap().rc, 1);
}

#[test]
fn deleted_message_is_gone() {
    let mut rsmq = setup("ns");
    let mut now = T0;
    let id = rsmq.send_message("test-q", "m", None).unwrap();
    let other = rsmq.send_message("test-q", "n", None).unwrap();
    assert_eq!(rsmq.delete_message("test-q", &id), Ok(true));
    assert_eq!(rsmq.delete_message("test-q", &id), Ok(false));
    wait_millis(&mut rsmq, &mut now, 1_000);
    assert_eq!(rsmq.receive_message("test-q", Some(0)).unwrap().unwrap().id, other);
    assert_eq!(rsmq.pop_message("test-q").unwrap().unwrap().id, other);
    assert!(rsmq.pop_message("test-q").unwrap().is_none());
    // Counters are not taken back.
    assert_eq!(rsmq.get_queue_attributes("test-q").unwrap().totalsent, 2);
}

#[test]
fn delete_of_a_message_in_another_queue() {
    let mut rsmq = setup("ns");
    rsmq.create_queue(Queue::new("other", None, None, None)).unwrap();
    let id = rsmq.send_message("test-q", "m", None).unwrap();
    assert_eq!(rsmq.delete_message("other", &id), Ok(false));
    assert_eq!(rsmq.get_queue_attributes("test-q").unwrap().msgs, 1);
}

#[test]
fn set_attributes_changes_what_is_given() {
    let mut rsmq = setup("ns");
    rsmq.send_message("test-q", "m", None).unwrap();
    let q = rsmq.set_queue_attributes("test-q", Some(5), None, None).unwrap();
    assert_eq!(q.qname, "test-q");
    assert_eq!(q.vt, 5);
    assert_eq!(q.delay, 0);
    assert_eq!(q.maxsize, 65536);
    assert_eq!(q.totalsent, 1);
    assert_eq!(q.msgs, 1);
    assert_eq!(q.created, 1_600_000_000);
    assert_eq!(q.modified, 1_600_000_000);
    let q = rsmq.set_queue_attributes("test-q", None, Some(9), Some(-1)).unwrap();
    assert_eq!(q.vt, 5);
    assert_eq!(q.delay, 9);
    assert_eq!(q.maxsize, -1);
    let q = rsmq.set_queue_attributes("test-q", None, None, None).unwrap();
    assert_eq!(q.vt, 5);
    assert_eq!(q.delay, 9);
    assert_eq!(q.maxsize, -1);
}

#[test]
fn queues_do_not_touch_each_other() {
    let mut rsmq = setup("ns");
    rsmq.create_queue(Queue::new("other", Some(1), Some(0), None)).unwrap();
    let a = rsmq.send_message("test-q", "a", None).unwrap();
    let b = rsmq.send_message("other", "b", None).unwrap();
    assert_eq!(rsmq.pop_message("other").unwrap().unwrap().id, b);
    assert!(rsmq.pop_message("other").unwrap().is_none());
    assert_eq!(rsmq.get_queue_attributes("test-q").unwrap().msgs, 1);
    assert_eq!(rsmq.get_queue_attributes("test-q").unwrap().totalrecv, 0);
    assert_eq!(rsmq.pop_message("test-q").unwrap().unwrap().id, a);
}

#[test]
fn id_without_timestamp_is_reported_after_the_step() {
    let mut rsmq = Rsmq::new("ns");
    rsmq.create_queue(Queue::new("q", None, None, None)).unwrap();
    // At time zero the stamp is one digit, and the suffix holds no digits.
    let id = rsmq.send_message_as("q", "m", None, "----").unwrap();
    assert_eq!(id, "0----");
    assert_eq!(rsmq.receive_message("q", Some(0)).err(), Some(RsmqError::MalformedId));
    let q = rsmq.get_queue_attributes("q").unwrap();
    assert_eq!(q.totalrecv, 1);
    assert_eq!(q.msgs, 1);
    assert_eq!(rsmq.pop_message("q").err(), Some(RsmqError::MalformedId));
    let q = rsmq.get_queue_attributes("q").unwrap();
    assert_eq!(q.totalrecv, 2);
    assert_eq!(q.msgs, 0);
}

#[test]
fn hello_scenario() {
    let mut rsmq = Rsmq::new("ns");
    rsmq.set_time(T0);
    rsmq.create_queue(Queue::new("Q", Some(0), Some(0), None)).unwrap();
    let id = rsmq.send_message("Q", "hello", None).unwrap();
    let m = rsmq.receive_message("Q", None).unwrap().unwrap();
    assert_eq!(m.id, id);
    assert_eq!(m.message, "hello");
    assert_eq!(m.rc, 1);
    assert_eq!(m.fr, 1_600_000_000_123);
    assert_eq!(m.sent, T0);
    let q = rsmq.get_queue_attributes("Q").unwrap();
    assert_eq!(q.msgs, 1);
    assert_eq!(q.hiddenmsgs, 1);
    assert_eq!(q.totalrecv, 1);
    assert_eq!(q.totalsent, 1);
}
