use jarust::error::{Error, JanusError};
use jarust::graph::Graph;

#[test]
fn graph_attach_needs_a_live_session() {
    let mut graph = Graph::new();
    match graph.attach(1, 10) {
        Err(Error::JanusError { error, .. }) => assert_eq!(error, JanusError::SessionNotFound),
        other => panic!("unexpected {:?}", other),
    }
    assert!(graph.add_session(1));
    assert!(!graph.add_session(1));
    assert!(graph.attach(1, 10).is_ok());
    assert!(graph.attach(1, 11).is_ok());
    assert!(graph.attach(1, 10).is_ok());
    assert_eq!(graph.destroy_session(1), Some(vec![10, 11]));
    assert_eq!(graph.destroy_session(1), None);
    assert!(matches!(
        graph.attach(1, 12),
        Err(Error::JanusError { error: JanusError::SessionNotFound, .. })
    ));
}

#[test]
fn graph_detach_forgets_one_handle() {
    let mut graph = Graph::new();
    graph.add_session(7);
    graph.add_session(8);
    graph.attach(7, 1).unwrap();
    graph.attach(7, 2).unwrap();
    graph.attach(8, 1).unwrap();
    assert!(graph.detach(7, 1));
    assert!(!graph.detach(7, 1));
    assert!(!graph.detach(9, 1));
    assert_eq!(graph.destroy_session(7), Some(vec![2]));
    assert_eq!(graph.destroy_session(8), Some(vec![1]));
}
