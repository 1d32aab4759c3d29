use event_base::error::{CoreError, TopicError};
use event_base::queues::consumer_router::{
    claim_outcome, copy_names, remove_all, settle_batch, DispatchCursor, RouteDecision, RouterTables, DEFAULT_BATCH_SIZE,
};
use event_base::queues::MemoryQueueFactory;

type Tables = RouterTables<u32, u8, u64, i32>;

fn s(x: &str) -> String {
    x.to_string()
}

fn setup() -> Tables {
    let mut t: Tables = RouterTables::new(None);
    assert_eq!(t.register(&s("orders"), 1), Ok(()));
    assert_eq!(t.register_worker(&s("orders"), s("w1"), 11), Ok(()));
    assert_eq!(t.register_worker(&s("orders"), s("w2"), 12), Ok(()));
    t
}

#[test]
fn router_new_defaults() {
    let t: Tables = RouterTables::new(None);
    assert_eq!(t.batch_size(), DEFAULT_BATCH_SIZE);
    assert_eq!(t.dispatch_generation(), 0);
    let t2: Tables = RouterTables::new(Some(8));
    assert_eq!(t2.batch_size(), 8);
    assert_eq!(t2.inbox_capacity(), 32);
}

#[test]
fn router_register_twice_fails() {
    let mut t = setup();
    assert!(t.contains_topic(&s("orders")));
    assert_eq!(t.register(&s("orders"), 2), Err(CoreError::Topic(TopicError::AlreadyExists(s("orders")))));
    assert_eq!(t.get_entry(&s("orders")), Some(&1));
}

#[test]
fn router_register_worker_unknown_topic() {
    let mut t = setup();
    let g = t.dispatch_generation();
    assert_eq!(t.register_worker(&s("nope"), s("w9"), 9), Err(CoreError::Topic(TopicError::NotFound(s("nope")))));
    assert_eq!(t.dispatch_generation(), g);
    assert_eq!(t.get_worker(&s("w9")), Ok(&9));
}

#[test]
fn router_route_takes_first_idle() {
    let mut t = setup();
    assert_eq!(t.route(&s("unknown"), &None), RouteDecision::Nack);
    assert_eq!(t.route(&s("orders"), &None), RouteDecision::Ephemeral);
    t.set_idle(&s("orders"), s("w1"));
    t.set_idle(&s("orders"), s("w2"));
    assert_eq!(t.route(&s("orders"), &None), RouteDecision::Dispatch(s("w1")));
    assert_eq!(t.route(&s("orders"), &None), RouteDecision::Dispatch(s("w2")));
    assert_eq!(t.route(&s("orders"), &None), RouteDecision::Ephemeral);
    assert_eq!(t.route(&s("orders"), &Some(s("w1"))), RouteDecision::Dispatch(s("w1")));
    assert_eq!(t.route(&s("orders"), &Some(s("ghost"))), RouteDecision::Ephemeral);
}

#[test]
fn router_set_working_takes_worker_out_of_pool() {
    let mut t = setup();
    t.set_idle(&s("orders"), s("w1"));
    t.set_idle(&s("orders"), s("w2"));
    t.set_idle(&s("orders"), s("w1"));
    t.set_working(&s("orders"), &s("w1"));
    assert_eq!(t.select_local_idle_worker(&s("orders")), Some(s("w2")));
    assert_eq!(t.select_local_idle_worker(&s("orders")), None);
}

#[test]
fn router_del_worker_removes_everywhere() {
    let mut t = setup();
    t.add_inbox(s("w1"), 5);
    let g = t.dispatch_generation();
    assert_eq!(t.del_worker(&s("w1")), Ok(11));
    assert_eq!(t.dispatch_generation(), g + 1);
    assert_eq!(t.get_workers(&s("orders")), vec![s("w2")]);
    assert_eq!(t.get_all_workers(), vec![s("w2")]);
    assert_eq!(t.inbox_of(&s("w1")), None);
    assert_eq!(t.del_worker(&s("w1")), Err(CoreError::WorkerNotFound(s("w1"))));
}

#[test]
fn router_dispatch_targets_need_inboxes() {
    let mut t = setup();
    assert!(t.dispatch_targets(&s("orders")).is_empty());
    t.add_inbox(s("w2"), 2);
    assert_eq!(t.dispatch_targets(&s("orders")), vec![s("w2")]);
    assert!(t.claim_dispatcher(&s("orders")));
    assert!(!t.claim_dispatcher(&s("orders")));
}

#[test]
fn router_del_workers_clears_topic() {
    let mut t = setup();
    assert_eq!(t.set_pipeline(&s("orders"), 3), Ok(()));
    let handles = t.del_workers(&s("orders")).unwrap();
    assert_eq!(handles, vec![11, 12]);
    assert!(!t.contains_topic(&s("orders")));
    assert!(t.get_pipeline(&s("orders")).is_none());
    assert!(t.get_all_workers().is_empty());
}

#[test]
fn router_set_pipeline_needs_topic() {
    let mut t: Tables = RouterTables::new(None);
    assert!(t.set_pipeline(&s("x"), 1).is_err());
}

#[test]
fn name_list_helpers() {
    let v = vec![s("a"), s("b"), s("a")];
    assert_eq!(copy_names(&v), v);
    assert_eq!(remove_all(&v, &s("a")), vec![s("b")]);
}

#[test]
fn dispatch_cursor_round_robin() {
    let mut c = DispatchCursor::new();
    assert!(c.needs_refresh(0, 3));
    c.refreshed(0, 3);
    assert!(!c.needs_refresh(0, 3));
    let picks: Vec<usize> = (0..7).map(|_| c.next_index(3)).collect();
    assert_eq!(picks, vec![0, 1, 2, 0, 1, 2, 0]);
    c.invalidate();
    assert!(c.needs_refresh(0, 3));
    c.refreshed(1, 2);
    assert_eq!(c.cursor, 7 % 2);
}

#[test]
fn memory_queue_factory_bound() {
    assert_eq!(MemoryQueueFactory::new(10).queue_bound(), Some(10));
    assert_eq!(MemoryQueueFactory::new(0).queue_bound(), None);
    assert_eq!(MemoryQueueFactory::new(0).name(), "memory");
}

#[test]
fn router_del_workers_of_unknown_topic_fails() {
    let mut t = setup();
    let g = t.dispatch_generation();
    assert_eq!(t.del_workers(&s("nope")), Err(CoreError::Topic(TopicError::NotFound(s("nope")))));
    assert_eq!(t.dispatch_generation(), g);
    assert_eq!(t.get_all_workers(), vec![s("w1"), s("w2")]);
}

#[test]
fn router_topic_entry_for_worker_creation() {
    let t = setup();
    assert_eq!(t.topic_entry(&s("orders")), Ok(&1));
    assert_eq!(t.topic_entry(&s("nope")), Err(CoreError::Topic(TopicError::NotFound(s("nope")))));
}

#[test]
fn router_select_idle_takes_head() {
    let mut t = setup();
    t.set_idle(&s("orders"), s("w2"));
    t.set_idle(&s("orders"), s("w1"));
    assert_eq!(t.select_local_idle_worker(&s("orders")), Some(s("w2")));
    assert_eq!(t.select_local_idle_worker(&s("orders")), Some(s("w1")));
}

#[test]
fn settle_batch_acks_or_nacks_each_claim_once() {
    let outcomes = vec![(s("c1"), true), (s("c2"), false), (s("c3"), true), (s("c4"), false)];
    let (acks, nacks) = settle_batch(&outcomes);
    assert_eq!(acks, vec![s("c1"), s("c3")]);
    assert_eq!(nacks, vec![s("c2"), s("c4")]);
    let (a, n) = settle_batch(&vec![]);
    assert!(a.is_empty() && n.is_empty());
}

#[test]
fn claim_outcome_acks_only_routed_and_handed_on() {
    assert_eq!(claim_outcome(s("c"), &RouteDecision::Nack, true), (s("c"), false));
    assert_eq!(claim_outcome(s("c"), &RouteDecision::Ephemeral, true), (s("c"), true));
    assert_eq!(claim_outcome(s("c"), &RouteDecision::Dispatch(s("w")), false), (s("c"), false));
}
