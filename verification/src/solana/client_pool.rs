use crate::solana::client::{
    SolanaClient, SolanaClientError, SolanaClientErrorView, SolanaClientView,
};
use vstd::prelude::*;
use vstd::string::StringExecFns;

verus! {

/// What awaiting one handshake task gives: the task's own result, or the
/// cause for which the task did not run to its end.
pub type Joined = Result<Result<(), SolanaClientError>, String>;

/// A [`Joined`] as mathematical values.
pub type JoinedView = Result<Result<(), SolanaClientErrorView>, Seq<char>>;

/// The view of one [`Joined`].
pub open spec fn joined_view(joined: Joined) -> JoinedView {
    match joined {
        Ok(Ok(())) => Ok(Ok(())),
        Ok(Err(error)) => Ok(Err(error@)),
        Err(cause) => Err(cause@),
    }
}

/// The views of a list of [`Joined`].
pub open spec fn all_joined_view(joined: Seq<Joined>) -> Seq<JoinedView> {
    joined.map_values(|one: Joined| joined_view(one))
}

/// How the handshake with one node ended.
#[derive(Debug, PartialEq)]
pub enum NodeOutcome {
    /// The handshake ran and succeeded.
    Success,
    /// The handshake ran and failed with this error.
    Failed(SolanaClientError),
    /// The task of the handshake did not run to its end, for this cause.
    Crashed(String),
}

/// A [`NodeOutcome`] as mathematical values.
pub enum NodeOutcomeView {
    Success,
    Failed(SolanaClientErrorView),
    Crashed(Seq<char>),
}

impl View for NodeOutcome {
    type V = NodeOutcomeView;

    open spec fn view(&self) -> NodeOutcomeView {
        match self {
            NodeOutcome::Success => NodeOutcomeView::Success,
            NodeOutcome::Failed(error) => NodeOutcomeView::Failed(error@),
            NodeOutcome::Crashed(cause) => NodeOutcomeView::Crashed(cause@),
        }
    }
}

/// The outcome that a joined task stands for. Each task falls in exactly one
/// of the three classes.
pub open spec fn outcome_of(joined: JoinedView) -> NodeOutcomeView {
    match joined {
        Ok(Ok(())) => NodeOutcomeView::Success,
        Ok(Err(error)) => NodeOutcomeView::Failed(error),
        Err(cause) => NodeOutcomeView::Crashed(cause),
    }
}

impl NodeOutcome {
    /// Classifies what awaiting a task gave.
    pub fn classify(joined: Joined) -> (outcome: NodeOutcome)
        ensures
            outcome@ == outcome_of(joined_view(joined)),
    {
        match joined {
            Ok(Ok(())) => NodeOutcome::Success,
            Ok(Err(error)) => NodeOutcome::Failed(error),
            Err(cause) => NodeOutcome::Crashed(cause),
        }
    }
}

/// The outcome of one node, as it is reported.
#[derive(Debug, PartialEq)]
pub struct Report {
    pub node: String,
    pub outcome: NodeOutcome,
}

/// A [`Report`] as mathematical values.
pub struct ReportView {
    pub node: Seq<char>,
    pub outcome: NodeOutcomeView,
}

impl View for Report {
    type V = ReportView;

    open spec fn view(&self) -> ReportView {
        ReportView { node: self.node@, outcome: self.outcome@ }
    }
}

impl ReportView {
    /// The one line that tells the outcome: the success with the node's
    /// address, a failed handshake with its error, a crashed task with its
    /// cause.
    pub open spec fn line(self) -> Seq<char> {
        match self.outcome {
            NodeOutcomeView::Success => "Successfully performed handshake for Node "@ + self.node,
            NodeOutcomeView::Failed(error) => "Error performing handshake: "@ + error.message(),
            NodeOutcomeView::Crashed(cause) => cause,
        }
    }
}

impl Report {
    /// The one line that tells the outcome.
    pub fn line(&self) -> (text: String)
        ensures
            text@ == self@.line(),
    {
        match &self.outcome {
            NodeOutcome::Success => "Successfully performed handshake for Node ".to_owned().concat(
                self.node.as_str(),
            ),
            NodeOutcome::Failed(error) => {
                let message = error.message();
                "Error performing handshake: ".to_owned().concat(message.as_str())
            },
            NodeOutcome::Crashed(cause) => cause.clone(),
        }
    }
}

/// The views of a list of reports.
pub open spec fn reports_view(reports: Seq<Report>) -> Seq<ReportView> {
    reports.map_values(|report: Report| report@)
}

/// Why a run of the pool gave no reports.
#[derive(Debug, Clone, Copy, PartialEq, Eq)]
pub enum PoolError {
    /// Not every awaited task was joined, or more were joined than awaited:
    /// the tasks were not run as the pool laid them out.
    OrchestrationFailure,
}

/// The addresses in a list of nodes.
pub open spec fn addresses(nodes: Seq<String>) -> Seq<Seq<char>> {
    nodes.map_values(|node: String| node@)
}

/// Whether the address of task `task` is given again further on in `nodes`.
pub open spec fn given_again(nodes: Seq<Seq<char>>, task: int) -> bool {
    exists|later: int| task < later < nodes.len() && #[trigger] nodes[later] == nodes[task]
}

/// The tasks whose results are awaited, in the order of their launch. One task
/// is launched per entry of `nodes`. Where an address is given more than once,
/// the last task launched for it takes the place of the earlier ones, which
/// are no longer awaited.
pub open spec fn awaited_tasks(nodes: Seq<Seq<char>>) -> Seq<int> {
    all_tasks(nodes).filter(is_awaited(nodes))
}

/// The tasks launched for `nodes`: task `i` for entry `i`.
pub open spec fn all_tasks(nodes: Seq<Seq<char>>) -> Seq<int> {
    Seq::new(nodes.len(), |task: int| task)
}

/// The test that picks the awaited tasks: the address is not given again.
pub open spec fn is_awaited(nodes: Seq<Seq<char>>) -> spec_fn(int) -> bool {
    |task: int| !given_again(nodes, task)
}

/// No address is given twice.
pub open spec fn pairwise_distinct(nodes: Seq<Seq<char>>) -> bool {
    forall|i: int, j: int| 0 <= i < j < nodes.len() ==> nodes[i] != nodes[j]
}

/// A pool as mathematical values: the addresses as they were given, one task
/// for each, and the timeout that all tasks share.
pub struct SolanaClientPoolView {
    pub nodes: Seq<Seq<char>>,
    pub timeout: u64,
}

impl SolanaClientPoolView {
    /// The tasks whose results are awaited.
    pub open spec fn awaited(self) -> Seq<int> {
        awaited_tasks(self.nodes)
    }

    /// What a run reports when the awaited tasks, joined in order, gave
    /// `joined`: one report per awaited task, with the task's address and the
    /// outcome that its result stands for. How many of the handshakes failed
    /// has no part in it. The run itself fails only if the results are not
    /// as many as the awaited tasks.
    pub open spec fn run(self, joined: Seq<JoinedView>) -> Result<Seq<ReportView>, PoolError> {
        if joined.len() == self.awaited().len() {
            Ok(
                Seq::new(
                    joined.len(),
                    |slot: int|
                        ReportView {
                            node: self.nodes[self.awaited()[slot]],
                            outcome: outcome_of(joined[slot]),
                        },
                ),
            )
        } else {
            Err(PoolError::OrchestrationFailure)
        }
    }
}

/// The handshakes with a set of nodes, one task per node, none of which
/// touches another.
#[derive(Debug)]
pub struct SolanaClientPool {
    nodes: Vec<String>,
    awaited: Vec<usize>,
    timeout: u64,
}

impl View for SolanaClientPool {
    type V = SolanaClientPoolView;

    closed spec fn view(&self) -> SolanaClientPoolView {
        SolanaClientPoolView { nodes: addresses(self.nodes@), timeout: self.timeout }
    }
}

/// A list of task numbers as integers.
pub open spec fn task_numbers(tasks: Seq<usize>) -> Seq<int> {
    tasks.map_values(|task: usize| task as int)
}

impl SolanaClientPool {
    #[verifier::type_invariant]
    spec fn well_formed(self) -> bool {
        &&& task_numbers(self.awaited@) == awaited_tasks(addresses(self.nodes@))
        &&& forall|slot: int| 0 <= slot < self.awaited@.len() ==> self.awaited@[slot] < self.nodes@.len()
    }

    /// Whether the address of task `task` is given again further on.
    fn is_given_again(nodes: &Vec<String>, task: usize) -> (again: bool)
        requires
            task < nodes.len(),
        ensures
            again == given_again(addresses(nodes@), task as int),
    {
        let mut later: usize = task + 1;
        while later < nodes.len()
            invariant
                task < later <= nodes.len(),
                forall|seen: int|
                    task < seen < later ==> #[trigger] addresses(nodes@)[seen] != addresses(
                        nodes@,
                    )[task as int],
            decreases nodes.len() - later,
        {
            if nodes[later] == nodes[task] {
                assert(addresses(nodes@)[later as int] == addresses(nodes@)[task as int]);
                return true;
            }
            later = later + 1;
        }
        false
    }

    /// A pool for `nodes`: one task per entry, each with `timeout`
    /// milliseconds for its request.
    pub fn new(nodes: Vec<String>, timeout: u64) -> (pool: SolanaClientPool)
        ensures
            pool@ == (SolanaClientPoolView { nodes: addresses(nodes@), timeout }),
    {
        let ghost given = addresses(nodes@);
        let ghost tasks = all_tasks(given);
        let mut awaited: Vec<usize> = Vec::new();
        let mut task: usize = 0;
        while task < nodes.len()
            invariant
                task <= nodes.len(),
                given == addresses(nodes@),
                tasks == all_tasks(given),
                task_numbers(awaited@) == tasks.take(task as int).filter(is_awaited(given)),
                forall|slot: int| 0 <= slot < awaited@.len() ==> awaited@[slot] < task,
            decreases nodes.len() - task,
        {
            let again = Self::is_given_again(&nodes, task);
            proof {
                let before = tasks.take(task as int);
                assert(tasks.take(task + 1) == before.push(task as int));
                before.lemma_filter_push(task as int, is_awaited(given));
            }
            if !again {
                let ghost kept = awaited@;
                awaited.push(task);
                assert(task_numbers(awaited@) == task_numbers(kept).push(task as int));
            }
            task = task + 1;
        }
        proof {
            assert(tasks.take(nodes.len() as int) == tasks);
        }
        SolanaClientPool { nodes, awaited, timeout }
    }

    /// The addresses as they were given: task `i` is the handshake with
    /// entry `i`.
    pub fn nodes(&self) -> (nodes: &Vec<String>)
        ensures
            addresses(nodes@) == self@.nodes,
    {
        &self.nodes
    }

    /// The time allowed for each request, in milliseconds.
    pub fn timeout(&self) -> (timeout: u64)
        ensures
            timeout == self@.timeout,
    {
        self.timeout
    }

    /// The tasks whose results are awaited, in the order in which `run` takes
    /// their results.
    pub fn awaited(&self) -> (tasks: &Vec<usize>)
        ensures
            task_numbers(tasks@) == self@.awaited(),
            forall|slot: int| 0 <= slot < tasks@.len() ==> tasks@[slot] < self@.nodes.len(),
    {
        proof {
            use_type_invariant(self);
        }
        &self.awaited
    }

    /// The clients to launch, one per task: client `i` is bound to entry `i`
    /// of the addresses and to the shared timeout.
    pub fn clients(&self) -> (clients: Vec<SolanaClient>)
        ensures
            clients@.len() == self@.nodes.len(),
            forall|task: int|
                0 <= task < clients@.len() ==> (#[trigger] clients@[task])@ == (SolanaClientView {
                    uri: self@.nodes[task],
                    timeout: self@.timeout,
                }),
    {
        let mut clients: Vec<SolanaClient> = Vec::new();
        let mut task: usize = 0;
        while task < self.nodes.len()
            invariant
                task <= self.nodes.len(),
                clients@.len() == task,
                forall|seen: int|
                    0 <= seen < task ==> (#[trigger] clients@[seen])@ == (SolanaClientView {
                        uri: addresses(self.nodes@)[seen],
                        timeout: self.timeout,
                    }),
            decreases self.nodes.len() - task,
        {
            clients.push(SolanaClient::new(self.nodes[task].clone(), self.timeout));
            task = task + 1;
        }
        clients
    }

    /// Closes the run. `joined` holds what awaiting each awaited task gave, in
    /// the order of [`SolanaClientPool::awaited`]. Gives one report per
    /// awaited task; fails only if `joined` is not as long as the list of
    /// awaited tasks.
    pub fn run(self, joined: Vec<Joined>) -> (result: Result<Vec<Report>, PoolError>)
        ensures
            run_view(result) == self@.run(all_joined_view(joined@)),
    {
        proof {
            use_type_invariant(&self);
        }
        if joined.len() != self.awaited.len() {
            assert(task_numbers(self.awaited@).len() == self.awaited@.len());
            return Err(PoolError::OrchestrationFailure);
        }
        let ghost given = addresses(self.nodes@);
        let ghost tasks = task_numbers(self.awaited@);
        let ghost results = all_joined_view(joined@);
        let mut reports: Vec<Report> = Vec::new();
        for one in it: joined
            invariant
                it.seq() == joined@,
                given == addresses(self.nodes@),
                tasks == task_numbers(self.awaited@),
                results == all_joined_view(joined@),
                joined@.len() == self.awaited@.len(),
                forall|slot: int|
                    0 <= slot < self.awaited@.len() ==> self.awaited@[slot] < self.nodes@.len(),
                reports@.len() == it.index(),
                forall|slot: int|
                    0 <= slot < reports@.len() ==> (#[trigger] reports@[slot])@ == (ReportView {
                        node: given[tasks[slot]],
                        outcome: outcome_of(results[slot]),
                    }),
        {
            let slot = reports.len();
            let task = self.awaited[slot];
            let node = self.nodes[task].clone();
            reports.push(Report { node, outcome: NodeOutcome::classify(one) });
        }
        proof {
            let expected = self@.run(results);
            assert(tasks == self@.awaited());
            assert(expected is Ok);
            assert(reports_view(reports@) == expected->Ok_0);
        }
        Ok(reports)
    }
}

/// The view of what a run gives.
pub open spec fn run_view(result: Result<Vec<Report>, PoolError>) -> Result<
    Seq<ReportView>,
    PoolError,
> {
    match result {
        Ok(reports) => Ok(reports_view(reports@)),
        Err(error) => Err(error),
    }
}

/// How many of `reports` tell a success.
pub open spec fn successes(reports: Seq<ReportView>) -> nat {
    reports.filter(tells_success()).len()
}

/// The test for a report of a success.
pub open spec fn tells_success() -> spec_fn(ReportView) -> bool {
    |report: ReportView| report.outcome is Success
}

/// The test for a report of a failure.
pub open spec fn tells_failure() -> spec_fn(ReportView) -> bool {
    |report: ReportView| !(report.outcome is Success)
}

/// The test for a task that ran to its end and succeeded.
pub open spec fn went_well() -> spec_fn(JoinedView) -> bool {
    |one: JoinedView| outcome_of(one) is Success
}

/// How many of `reports` tell a failure, be it of the handshake or of its
/// task.
pub open spec fn failures(reports: Seq<ReportView>) -> nat {
    reports.filter(tells_failure()).len()
}

/// How many of the joined tasks ran to their end and succeeded.
pub open spec fn succeeded(joined: Seq<JoinedView>) -> nat {
    joined.filter(went_well()).len()
}

/// The awaited tasks among the first `count` tasks.
pub open spec fn awaited_among(nodes: Seq<Seq<char>>, count: int) -> Seq<int> {
    all_tasks(nodes).take(count).filter(is_awaited(nodes))
}

/// What the awaited tasks among the first `count` are: tasks below `count`
/// whose address is not given again, each of them, in rising order.
pub proof fn lemma_awaited_among(nodes: Seq<Seq<char>>, count: int)
    requires
        0 <= count <= nodes.len(),
    ensures
        forall|slot: int|
            0 <= slot < awaited_among(nodes, count).len() ==> {
                let task = #[trigger] awaited_among(nodes, count)[slot];
                0 <= task < count && !given_again(nodes, task)
            },
        forall|a: int, b: int|
            0 <= a < b < awaited_among(nodes, count).len() ==> awaited_among(nodes, count)[a]
                < awaited_among(nodes, count)[b],
        forall|task: int|
            0 <= task < count && !given_again(nodes, task) ==> awaited_among(
                nodes,
                count,
            ).contains(task),
    decreases count,
{
    let tasks = all_tasks(nodes);
    let is_awaited = is_awaited(nodes);
    if count == 0 {
        assert(tasks.take(0).len() == 0);
        reveal(Seq::filter);
    } else {
        let last = count - 1;
        lemma_awaited_among(nodes, last);
        let before = awaited_among(nodes, last);
        let now = awaited_among(nodes, count);
        assert(tasks.take(count) == tasks.take(last).push(last));
        tasks.take(last).lemma_filter_push(last, is_awaited);
        if is_awaited(last) {
            assert(now == before.push(last));
            assert(now[before.len() as int] == last);
            assert forall|task: int|
                0 <= task < count && !given_again(nodes, task) implies now.contains(task) by {
                if task < last {
                    let slot = choose|slot: int| 0 <= slot < before.len() && before[slot] == task;
                    assert(now[slot] == task);
                }
            }
        } else {
            assert(now == before);
        }
    }
}

/// What the awaited tasks are: for each address that is given, the last task
/// launched for it, and no other task; in the order of launch.
pub proof fn lemma_awaited_tasks(nodes: Seq<Seq<char>>)
    ensures
        forall|slot: int|
            0 <= slot < awaited_tasks(nodes).len() ==> {
                let task = #[trigger] awaited_tasks(nodes)[slot];
                0 <= task < nodes.len() && !given_again(nodes, task)
            },
        forall|a: int, b: int|
            0 <= a < b < awaited_tasks(nodes).len() ==> awaited_tasks(nodes)[a] < awaited_tasks(
                nodes,
            )[b],
        forall|task: int|
            0 <= task < nodes.len() && !given_again(nodes, task) ==> awaited_tasks(nodes).contains(
                task,
            ),
        awaited_tasks(nodes).len() <= nodes.len(),
{
    let tasks = all_tasks(nodes);
    assert(tasks.take(nodes.len() as int) == tasks);
    lemma_awaited_among(nodes, nodes.len() as int);
    assert(awaited_among(nodes, nodes.len() as int) == awaited_tasks(nodes));
    tasks.lemma_filter_len(is_awaited(nodes));
}

/// Where no address is given twice, every task is awaited: task `i` is the
/// `i`-th of them.
pub proof fn lemma_distinct_nodes_all_awaited(nodes: Seq<Seq<char>>)
    requires
        pairwise_distinct(nodes),
    ensures
        awaited_tasks(nodes) == all_tasks(nodes),
{
    lemma_all_awaited_among(nodes, nodes.len() as int);
    let tasks = all_tasks(nodes);
    assert(tasks.take(nodes.len() as int) == tasks);
}

proof fn lemma_all_awaited_among(nodes: Seq<Seq<char>>, count: int)
    requires
        pairwise_distinct(nodes),
        0 <= count <= nodes.len(),
    ensures
        awaited_among(nodes, count) == all_tasks(nodes).take(count),
    decreases count,
{
    let tasks = all_tasks(nodes);
    let is_awaited = is_awaited(nodes);
    if count == 0 {
        assert(tasks.take(0).len() == 0);
        reveal(Seq::filter);
    } else {
        let last = count - 1;
        lemma_all_awaited_among(nodes, last);
        assert(tasks.take(count) == tasks.take(last).push(last));
        tasks.take(last).lemma_filter_push(last, is_awaited);
        assert(is_awaited(last));
    }
}

/// Reports that follow the joined tasks one for one tell as many successes as
/// tasks succeeded, and every report tells a success or a failure.
pub proof fn lemma_successes(reports: Seq<ReportView>, joined: Seq<JoinedView>)
    requires
        reports.len() == joined.len(),
        forall|slot: int|
            0 <= slot < reports.len() ==> (#[trigger] reports[slot]).outcome == outcome_of(
                joined[slot],
            ),
    ensures
        successes(reports) == succeeded(joined),
        successes(reports) + failures(reports) == reports.len(),
    decreases reports.len(),
{
    let told = tells_success();
    let untold = tells_failure();
    let went_well = went_well();
    if reports.len() == 0 {
        reveal(Seq::filter);
    } else {
        let earlier = reports.drop_last();
        let before = joined.drop_last();
        assert forall|slot: int| 0 <= slot < earlier.len() implies (#[trigger] earlier[slot]).outcome
            == outcome_of(before[slot]) by {
            assert(earlier[slot] == reports[slot]);
        }
        lemma_successes(earlier, before);
        assert(earlier.push(reports.last()) == reports);
        assert(before.push(joined.last()) == joined);
        earlier.lemma_filter_push(reports.last(), told);
        earlier.lemma_filter_push(reports.last(), untold);
        before.lemma_filter_push(joined.last(), went_well);
        assert(reports.last().outcome == outcome_of(joined.last()));
    }
}

/// A run over `n` nodes, no two of them alike, gives exactly `n`
/// reports, the `i`-th on node `i` with the outcome of task `i`. It does so
/// whatever the outcomes are: for every number of successes from 0 to `n`,
/// and for every kind of failure. The reports tell as many successes as
/// handshakes succeeded, and a failure for every other node.
pub proof fn law_run_reports_every_node(pool: SolanaClientPoolView, joined: Seq<JoinedView>)
    requires
        pairwise_distinct(pool.nodes),
        joined.len() == pool.nodes.len(),
    ensures
        pool.run(joined) is Ok,
        pool.run(joined)->Ok_0.len() == pool.nodes.len(),
        forall|task: int|
            0 <= task < pool.nodes.len() ==> #[trigger] pool.run(joined)->Ok_0[task] == (ReportView {
                node: pool.nodes[task],
                outcome: outcome_of(joined[task]),
            }),
        successes(pool.run(joined)->Ok_0) == succeeded(joined),
        failures(pool.run(joined)->Ok_0) == pool.nodes.len() - succeeded(joined),
{
    lemma_distinct_nodes_all_awaited(pool.nodes);
    lemma_successes(pool.run(joined)->Ok_0, joined);
}

/// No task touches another: the report on an awaited task is made of that
/// task's address and result alone, whatever the other tasks gave.
pub proof fn law_reports_are_independent(
    pool: SolanaClientPoolView,
    joined: Seq<JoinedView>,
    other: Seq<JoinedView>,
    slot: int,
)
    requires
        joined.len() == pool.awaited().len(),
        other.len() == pool.awaited().len(),
        0 <= slot < pool.awaited().len(),
        joined[slot] == other[slot],
    ensures
        pool.run(joined) is Ok,
        pool.run(other) is Ok,
        pool.run(joined)->Ok_0[slot] == pool.run(other)->Ok_0[slot],
{
}

/// Whether one of `reports` is on the node at `address`.
pub open spec fn names(reports: Seq<ReportView>, address: Seq<char>) -> bool {
    exists|slot: int| 0 <= slot < reports.len() && (#[trigger] reports[slot]).node == address
}

/// Whatever addresses are given, alike or not, a run that joined every
/// awaited task reports on each given address exactly once: no two reports
/// name the same address, every given address is named, and no other is.
pub proof fn law_run_reports_each_address_once(
    pool: SolanaClientPoolView,
    joined: Seq<JoinedView>,
)
    requires
        joined.len() == pool.awaited().len(),
    ensures
        pool.run(joined) is Ok,
        forall|a: int, b: int|
            0 <= a < b < pool.run(joined)->Ok_0.len() ==> pool.run(joined)->Ok_0[a].node
                != pool.run(joined)->Ok_0[b].node,
        forall|task: int|
            0 <= task < pool.nodes.len() ==> names(pool.run(joined)->Ok_0, #[trigger] pool.nodes[task]),
        forall|slot: int|
            0 <= slot < pool.run(joined)->Ok_0.len() ==> pool.nodes.contains(
                (#[trigger] pool.run(joined)->Ok_0[slot]).node,
            ),
{
    let nodes = pool.nodes;
    let awaited = pool.awaited();
    let reports = pool.run(joined)->Ok_0;
    lemma_awaited_tasks(nodes);
    assert forall|a: int, b: int| 0 <= a < b < reports.len() implies reports[a].node
        != reports[b].node by {
        let first = awaited[a];
        let second = awaited[b];
        assert(first < second);
        if nodes[first] == nodes[second] {
            assert(given_again(nodes, first));
        }
    }
    assert forall|task: int| 0 <= task < nodes.len() implies names(
        reports,
        #[trigger] nodes[task],
    ) by {
        let last = lemma_last_task_of(nodes, task);
        let slot = choose|slot: int| 0 <= slot < awaited.len() && awaited[slot] == last;
        assert(reports[slot].node == nodes[task]);
    }
    assert forall|slot: int| 0 <= slot < reports.len() implies nodes.contains(
        (#[trigger] reports[slot]).node,
    ) by {
        let task = awaited[slot];
        assert(nodes[task] == reports[slot].node);
    }
}

/// The last task launched for the address of task `task`.
proof fn lemma_last_task_of(nodes: Seq<Seq<char>>, task: int) -> (last: int)
    requires
        0 <= task < nodes.len(),
    ensures
        task <= last < nodes.len(),
        nodes[last] == nodes[task],
        !given_again(nodes, last),
    decreases nodes.len() - task,
{
    if given_again(nodes, task) {
        let later = choose|later: int|
            task < later < nodes.len() && #[trigger] nodes[later] == nodes[task];
        lemma_last_task_of(nodes, later)
    } else {
        task
    }
}

} // verus!
