use p2p_handshake_solana::parser_arguments::{Arguments, DEFAULT_TIMEOUT};
use p2p_handshake_solana::solana::client::{SolanaClient, SolanaClientError, UnexpectedCause};
use p2p_handshake_solana::solana::client_pool::{
    Joined, NodeOutcome, PoolError, Report, SolanaClientPool,
};

fn nodes(addresses: &[&str]) -> Vec<String> {
    addresses.iter().map(|address| address.to_string()).collect()
}

fn three_nodes() -> Vec<String> {
    nodes(&["http://127.0.0.1:8899", "http://api.testnet.solana.com", "http://api.devnet.solana.com"])
}

fn report(node: &str, outcome: NodeOutcome) -> Report {
    Report { node: node.to_string(), outcome }
}

#[test]
fn pool_awaits_every_task_of_distinct_nodes() {
    let pool = SolanaClientPool::new(three_nodes(), 500);
    assert_eq!(pool.nodes(), &three_nodes());
    assert_eq!(pool.timeout(), 500);
    assert_eq!(pool.awaited(), &vec![0, 1, 2]);
}

#[test]
fn pool_of_no_nodes_awaits_nothing() {
    let pool = SolanaClientPool::new(vec![], 200);
    assert!(pool.nodes().is_empty());
    assert!(pool.awaited().is_empty());
    assert!(pool.clients().is_empty());
    assert_eq!(pool.run(vec![]), Ok(vec![]));
}

#[test]
fn a_repeated_node_is_awaited_in_its_last_task() {
    let pool = SolanaClientPool::new(nodes(&["a", "b", "a", "c", "b", "a"]), 200);
    assert_eq!(pool.nodes().len(), 6);
    assert_eq!(pool.awaited(), &vec![3, 4, 5]);
    let pool = SolanaClientPool::new(nodes(&["a", "a"]), 200);
    assert_eq!(pool.awaited(), &vec![1]);
    let pool = SolanaClientPool::new(nodes(&["a", "b", "b"]), 200);
    assert_eq!(pool.awaited(), &vec![0, 2]);
}

#[test]
fn a_repeated_node_is_reported_once() {
    let pool = SolanaClientPool::new(nodes(&["a", "b", "a"]), 200);
    let joined: Vec<Joined> = vec![Err("task 1 panicked".to_string()), Ok(Ok(()))];
    assert_eq!(
        pool.run(joined),
        Ok(vec![
            report("b", NodeOutcome::Crashed("task 1 panicked".to_string())),
            report("a", NodeOutcome::Success),
        ])
    );
}

#[test]
fn pool_makes_one_client_per_task() {
    let pool = SolanaClientPool::new(nodes(&["a", "b", "a"]), 350);
    assert_eq!(
        pool.clients(),
        vec![
            SolanaClient::new("a".to_string(), 350),
            SolanaClient::new("b".to_string(), 350),
            SolanaClient::new("a".to_string(), 350),
        ]
    );
}

#[test]
fn classify_tells_the_three_classes_apart() {
    assert_eq!(NodeOutcome::classify(Ok(Ok(()))), NodeOutcome::Success);
    assert_eq!(
        NodeOutcome::classify(Ok(Err(SolanaClientError::SentDataError))),
        NodeOutcome::Failed(SolanaClientError::SentDataError)
    );
    assert_eq!(
        NodeOutcome::classify(Err("task 7 was cancelled".to_string())),
        NodeOutcome::Crashed("task 7 was cancelled".to_string())
    );
}

#[test]
fn run_reports_every_node_whatever_the_outcomes() {
    let pool = SolanaClientPool::new(three_nodes(), 500);
    let joined: Vec<Joined> = vec![
        Ok(Err(SolanaClientError::UnexpectedError(UnexpectedCause::Transport(
            "connection refused".to_string(),
        )))),
        Ok(Ok(())),
        Err("task 3 panicked".to_string()),
    ];
    assert_eq!(
        pool.run(joined),
        Ok(vec![
            report(
                "http://127.0.0.1:8899",
                NodeOutcome::Failed(SolanaClientError::UnexpectedError(UnexpectedCause::Transport(
                    "connection refused".to_string()
                )))
            ),
            report("http://api.testnet.solana.com", NodeOutcome::Success),
            report("http://api.devnet.solana.com", NodeOutcome::Crashed("task 3 panicked".to_string())),
        ])
    );
}

#[test]
fn run_succeeds_when_every_node_fails() {
    let pool = SolanaClientPool::new(three_nodes(), 500);
    let joined: Vec<Joined> = vec![
        Ok(Err(SolanaClientError::HttpResponseError)),
        Ok(Err(SolanaClientError::SentDataError)),
        Ok(Err(SolanaClientError::UnexpectedError(UnexpectedCause::UnknownVersion))),
    ];
    let reports = pool.run(joined).unwrap();
    assert_eq!(reports.len(), 3);
    assert!(reports.iter().all(|report| report.outcome != NodeOutcome::Success));
}

#[test]
fn run_succeeds_when_every_node_succeeds() {
    let pool = SolanaClientPool::new(three_nodes(), 500);
    let reports = pool.run(vec![Ok(Ok(())), Ok(Ok(())), Ok(Ok(()))]).unwrap();
    assert_eq!(reports.len(), 3);
    assert!(reports.iter().all(|report| report.outcome == NodeOutcome::Success));
    let named: Vec<String> = reports.into_iter().map(|report| report.node).collect();
    assert_eq!(named, three_nodes());
}

#[test]
fn run_counts_successes_and_failures() {
    for successes in 0..=4usize {
        let pool = SolanaClientPool::new(nodes(&["n0", "n1", "n2", "n3"]), 200);
        let joined: Vec<Joined> = (0..4usize)
            .map(|task| if task < successes { Ok(Ok(())) } else { Ok(Err(SolanaClientError::HttpResponseError)) })
            .collect();
        let reports = pool.run(joined).unwrap();
        assert_eq!(reports.len(), 4);
        let told = reports.iter().filter(|report| report.outcome == NodeOutcome::Success).count();
        assert_eq!(told, successes);
    }
}

#[test]
fn run_fails_when_a_task_was_not_joined() {
    let pool = SolanaClientPool::new(three_nodes(), 500);
    assert_eq!(pool.run(vec![Ok(Ok(())), Ok(Ok(()))]), Err(PoolError::OrchestrationFailure));
    let pool = SolanaClientPool::new(three_nodes(), 500);
    assert_eq!(pool.run(vec![]), Err(PoolError::OrchestrationFailure));
}

#[test]
fn run_fails_when_more_was_joined_than_awaited() {
    let pool = SolanaClientPool::new(nodes(&["a", "a"]), 500);
    assert_eq!(pool.run(vec![Ok(Ok(())), Ok(Ok(()))]), Err(PoolError::OrchestrationFailure));
}

#[test]
fn report_lines() {
    assert_eq!(
        report("http://127.0.0.1:8899", NodeOutcome::Success).line(),
        "Successfully performed handshake for Node http://127.0.0.1:8899"
    );
    assert_eq!(
        report("n", NodeOutcome::Failed(SolanaClientError::HttpResponseError)).line(),
        "Error performing handshake: HTTP Response error: Remote node did not return 200 OK"
    );
    assert_eq!(
        report(
            "n",
            NodeOutcome::Failed(SolanaClientError::UnexpectedError(UnexpectedCause::Unrecognized(
                "EOF while parsing a value at line 1 column 0".to_string()
            )))
        )
        .line(),
        "Error performing handshake: Unexpected error response provided from the node: EOF while parsing a value at line 1 column 0"
    );
    assert_eq!(
        report("n", NodeOutcome::Crashed("task 9 panicked".to_string())).line(),
        "task 9 panicked"
    );
}

#[test]
fn arguments_feed_the_pool() {
    let arguments = Arguments { uri_nodes: nodes(&["a", "b"]), timeout: DEFAULT_TIMEOUT };
    assert_eq!(DEFAULT_TIMEOUT, 200);
    let pool = SolanaClientPool::new(arguments.uri_nodes, arguments.timeout);
    assert_eq!(pool.timeout(), 200);
    assert_eq!(pool.awaited(), &vec![0, 1]);
}
