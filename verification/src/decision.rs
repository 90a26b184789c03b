//! What has to happen after an event, as a mathematical value.
//!
//! A [`Decision`] names the tasks to create by node and input, not by
//! identifier: identifiers are minted when the tasks are built. The
//! functions here say which decision each event calls for; the handlers in
//! [`crate::task_creator`] are proved to carry it out.

use crate::data_model::{
    ComputeGraphView, InvokeComputeGraphEventView, NodeOutputView, NodeView, ReduceTaskView,
    TaskOutcome, TaskView,
};
use vstd::prelude::*;

verus! {

/// A task that has to be created: on which node, and with which input.
pub struct PlannedTask {
    pub compute_fn_name: Seq<char>,
    pub input_key: Seq<char>,
}

/// The effects of one event, for the caller to apply together.
pub struct Decision {
    /// Tasks to create, in order.
    pub tasks: Seq<PlannedTask>,
    /// Entries to append to the reduction queue, in order.
    pub new_reduction_tasks: Seq<ReduceTaskView>,
    /// Keys of the entries to take off the reduction queue.
    pub processed_reduction_tasks: Seq<Seq<char>>,
    pub invocation_finished: bool,
}

impl Decision {
    /// No task and no change to the reduction queue.
    pub open spec fn nothing(invocation_finished: bool) -> Decision {
        Decision {
            tasks: Seq::empty(),
            new_reduction_tasks: Seq::empty(),
            processed_reduction_tasks: Seq::empty(),
            invocation_finished,
        }
    }

    /// Tasks to create and nothing else; the invocation goes on.
    pub open spec fn create(tasks: Seq<PlannedTask>) -> Decision {
        Decision {
            tasks,
            new_reduction_tasks: Seq::empty(),
            processed_reduction_tasks: Seq::empty(),
            invocation_finished: false,
        }
    }
}

/// Why an event was given up. Nothing of its decision is to be applied.
#[derive(Clone, Debug, PartialEq, Eq)]
pub enum SchedulerError {
    /// An edge names a node that the graph does not have.
    NodeNotFound(String),
}

/// The view of a [`SchedulerError`].
pub enum SchedulerErrorView {
    NodeNotFound(Seq<char>),
}

impl View for SchedulerError {
    type V = SchedulerErrorView;

    open spec fn view(&self) -> SchedulerErrorView {
        match self {
            SchedulerError::NodeNotFound(name) => SchedulerErrorView::NodeNotFound(name@),
        }
    }
}

/// The start of an invocation: one task on the start node, whose input is
/// named by the invocation itself. Where the graph is not known, nothing.
pub open spec fn decide_invoke(
    graph: Option<ComputeGraphView>,
    event: InvokeComputeGraphEventView,
) -> Decision {
    match graph {
        None => Decision::nothing(false),
        Some(graph) => Decision::create(
            seq![
                PlannedTask {
                    compute_fn_name: graph.start_fn.name(),
                    input_key: event.invocation_id,
                },
            ],
        ),
    }
}

/// Whether a router wrote one of the outputs.
pub open spec fn has_router_output(outputs: Seq<NodeOutputView>) -> bool {
    exists|i: int| 0 <= i < outputs.len() && (#[trigger] outputs[i]).payload is Router
}

/// The successors picked by the routers among `outputs`: those of the first
/// output, then those of the second, and so on.
pub open spec fn router_edges(outputs: Seq<NodeOutputView>) -> Seq<Seq<char>>
    decreases outputs.len(),
{
    if outputs.len() == 0 {
        Seq::empty()
    } else {
        router_edges(outputs.drop_last()) + outputs.last().router_edges()
    }
}

/// Every edge names a node of the graph.
pub open spec fn resolves(graph: ComputeGraphView, edges: Seq<Seq<char>>) -> bool {
    forall|i: int| 0 <= i < edges.len() ==> graph.nodes.contains_key(#[trigger] edges[i])
}

/// `edges[i]` names no node of the graph, and every edge before it does.
pub open spec fn is_first_unresolved(
    graph: ComputeGraphView,
    edges: Seq<Seq<char>>,
    i: int,
) -> bool {
    &&& 0 <= i < edges.len()
    &&& !graph.nodes.contains_key(edges[i])
    &&& resolves(graph, edges.take(i))
}

/// The first edge that names no node of the graph, where there is one.
pub open spec fn first_unresolved(graph: ComputeGraphView, edges: Seq<Seq<char>>) -> Seq<char>
    decreases edges.len(),
{
    if edges.len() == 0 {
        Seq::empty()
    } else if !graph.nodes.contains_key(edges[0]) {
        edges[0]
    } else {
        first_unresolved(graph, edges.drop_first())
    }
}

/// The edge at the first unresolved position is the first unresolved edge.
pub proof fn lemma_first_unresolved(graph: ComputeGraphView, edges: Seq<Seq<char>>, i: int)
    requires
        is_first_unresolved(graph, edges, i),
    ensures
        !resolves(graph, edges),
        first_unresolved(graph, edges) == edges[i],
    decreases i,
{
    if i > 0 {
        let rest = edges.drop_first();
        assert(edges.take(i)[0] == edges[0]);
        assert forall|k: int| 0 <= k < rest.take(i - 1).len() implies graph.nodes.contains_key(
            #[trigger] rest.take(i - 1)[k],
        ) by {
            assert(edges.take(i)[k + 1] == rest.take(i - 1)[k]);
        }
        lemma_first_unresolved(graph, rest, i - 1);
    }
}

/// Which edge is the first unresolved one depends on the nodes alone.
pub proof fn lemma_first_unresolved_by_nodes(
    graph: ComputeGraphView,
    other: ComputeGraphView,
    edges: Seq<Seq<char>>,
)
    requires
        graph.nodes == other.nodes,
    ensures
        first_unresolved(graph, edges) == first_unresolved(other, edges),
    decreases edges.len(),
{
    if edges.len() > 0 {
        lemma_first_unresolved_by_nodes(graph, other, edges.drop_first());
    }
}

/// One task per edge, in order, each on the node that the edge names and
/// each with the same input.
pub open spec fn plan_routed(
    graph: ComputeGraphView,
    edges: Seq<Seq<char>>,
    input_key: Seq<char>,
) -> Seq<PlannedTask> {
    Seq::new(
        edges.len(),
        |i: int| PlannedTask { compute_fn_name: graph.nodes[edges[i]].name(), input_key },
    )
}

/// A router has spoken: its choice stands in place of the declared edges,
/// and each chosen node gets the input that the router itself had.
pub open spec fn decide_routed(
    task: TaskView,
    graph: ComputeGraphView,
    outputs: Seq<NodeOutputView>,
) -> Result<Decision, SchedulerErrorView> {
    let edges = router_edges(outputs);
    if resolves(graph, edges) {
        Ok(Decision::create(plan_routed(graph, edges, task.input_key)))
    } else {
        Err(SchedulerErrorView::NodeNotFound(first_unresolved(graph, edges)))
    }
}

/// The graph has a node of this name, and it is a reducer.
pub open spec fn is_reducer(graph: ComputeGraphView, name: Seq<char>) -> bool {
    graph.nodes.contains_key(name) && graph.nodes[name].reducer()
}

/// A reducer has finished while `entry` heads the reduction queue: the same
/// node takes the output that the entry holds, and the entry leaves the queue.
pub open spec fn decide_continuation(
    task: TaskView,
    graph: ComputeGraphView,
    entry: ReduceTaskView,
) -> Decision {
    Decision {
        tasks: seq![
            PlannedTask {
                compute_fn_name: graph.nodes[task.compute_fn_name].name(),
                input_key: entry.task_output_key,
            },
        ],
        new_reduction_tasks: Seq::empty(),
        processed_reduction_tasks: seq![entry.key()],
        invocation_finished: false,
    }
}

/// One output on its way to one successor.
pub struct Candidate {
    pub node: NodeView,
    pub output_key: Seq<char>,
}

impl Candidate {
    /// The task that takes the output to the node at once.
    pub open spec fn task(self) -> PlannedTask {
        PlannedTask { compute_fn_name: self.node.name(), input_key: self.output_key }
    }

    /// The queue entry that makes the output, written by `finished`, wait
    /// for the node.
    pub open spec fn entry(self, finished: TaskView) -> ReduceTaskView {
        self.node.reducer_task(
            finished.namespace,
            finished.compute_graph_name,
            finished.invocation_id,
            finished.id,
            self.output_key,
        )
    }
}

/// The keys of the outputs for a task of `invocation_id`, in order.
pub open spec fn output_keys(
    outputs: Seq<NodeOutputView>,
    invocation_id: Seq<char>,
) -> Seq<Seq<char>> {
    outputs.map_values(|output: NodeOutputView| output.key(invocation_id))
}

/// Every output on its way to `node`, in the order of the outputs.
pub open spec fn candidates_of_edge(node: NodeView, keys: Seq<Seq<char>>) -> Seq<Candidate> {
    keys.map_values(|output_key: Seq<char>| Candidate { node, output_key })
}

/// Every output on its way to every successor: all outputs for the first
/// edge, then all outputs for the second, and so on.
pub open spec fn candidates(
    graph: ComputeGraphView,
    edges: Seq<Seq<char>>,
    keys: Seq<Seq<char>>,
) -> Seq<Candidate>
    decreases edges.len(),
{
    if edges.len() == 0 {
        Seq::empty()
    } else {
        candidates(graph, edges.drop_last(), keys) + candidates_of_edge(
            graph.nodes[edges.last()],
            keys,
        )
    }
}

/// Whether a candidate targets a reducer.
pub open spec fn targets_reducer() -> spec_fn(Candidate) -> bool {
    |c: Candidate| c.node.reducer()
}

/// Whether a candidate targets a node that is no reducer.
pub open spec fn targets_other() -> spec_fn(Candidate) -> bool {
    |c: Candidate| !c.node.reducer()
}

/// Those that target a reducer, in order.
pub open spec fn to_reducers(candidates: Seq<Candidate>) -> Seq<Candidate> {
    candidates.filter(targets_reducer())
}

/// Those that target a node that is no reducer, in order.
pub open spec fn to_others(candidates: Seq<Candidate>) -> Seq<Candidate> {
    candidates.filter(targets_other())
}

/// The first candidate becomes a task whatever its node is. Of those after
/// it, the ones that target a reducer wait in the reduction queue, and the
/// others become tasks. The order of the candidates is kept in both.
pub open spec fn fan_out(candidates: Seq<Candidate>, finished: TaskView) -> Decision {
    if candidates.len() == 0 {
        Decision::nothing(false)
    } else {
        let rest = candidates.drop_first();
        Decision {
            tasks: seq![candidates[0].task()] + to_others(rest).map_values(
                |c: Candidate| c.task(),
            ),
            new_reduction_tasks: to_reducers(rest).map_values(|c: Candidate| c.entry(finished)),
            processed_reduction_tasks: Seq::empty(),
            invocation_finished: false,
        }
    }
}

/// The declared edges decide. A node without any ends its branch, and the
/// invocation with it once no task is outstanding. Otherwise each output
/// goes to each successor; a successor is looked up only when an output is
/// on its way to it, so without outputs no edge can fail.
pub open spec fn decide_static(
    task: TaskView,
    graph: ComputeGraphView,
    outstanding_tasks: u64,
    outputs: Seq<NodeOutputView>,
) -> Result<Decision, SchedulerErrorView> {
    let edges = graph.declared_edges(task.compute_fn_name);
    if edges.len() == 0 {
        Ok(Decision::nothing(outstanding_tasks == 0))
    } else if outputs.len() == 0 {
        Ok(Decision::nothing(false))
    } else if resolves(graph, edges) {
        Ok(fan_out(candidates(graph, edges, output_keys(outputs, task.invocation_id)), task))
    } else {
        Err(SchedulerErrorView::NodeNotFound(first_unresolved(graph, edges)))
    }
}

/// What the completion of `task` calls for, given the graph, the number of
/// outstanding tasks of the invocation, the outputs of the task and the
/// head of the reduction queue of the invocation. The first that applies:
///
/// 1. the task failed: nothing is created, and the invocation is finished
///    if no task is outstanding;
/// 2. a router wrote one of its outputs: [`decide_routed`];
/// 3. its node is a reducer and the queue has a head:
///    [`decide_continuation`];
/// 4. otherwise: [`decide_static`].
pub open spec fn decide_task_finished(
    task: TaskView,
    graph: ComputeGraphView,
    outstanding_tasks: u64,
    outputs: Seq<NodeOutputView>,
    next_reduction_task: Option<ReduceTaskView>,
) -> Result<Decision, SchedulerErrorView> {
    if task.outcome == TaskOutcome::Failure {
        Ok(Decision::nothing(outstanding_tasks == 0))
    } else if has_router_output(outputs) {
        decide_routed(task, graph, outputs)
    } else if is_reducer(graph, task.compute_fn_name) && next_reduction_task is Some {
        Ok(decide_continuation(task, graph, next_reduction_task->0))
    } else {
        decide_static(task, graph, outstanding_tasks, outputs)
    }
}

/// Whether the decision on the completion of `task` looks at its outputs.
pub open spec fn consults_outputs(task: TaskView) -> bool {
    task.outcome != TaskOutcome::Failure
}

/// Whether the decision on the completion of `task` looks at the head of
/// the reduction queue.
pub open spec fn consults_queue(
    task: TaskView,
    graph: ComputeGraphView,
    outputs: Seq<NodeOutputView>,
) -> bool {
    &&& task.outcome != TaskOutcome::Failure
    &&& !has_router_output(outputs)
    &&& is_reducer(graph, task.compute_fn_name)
}

/// One more edge that names a node.
pub proof fn lemma_resolves_step(graph: ComputeGraphView, edges: Seq<Seq<char>>, i: int)
    requires
        0 <= i < edges.len(),
        resolves(graph, edges.take(i)),
        graph.nodes.contains_key(edges[i]),
    ensures
        resolves(graph, edges.take(i + 1)),
{
    let longer = edges.take(i + 1);
    assert forall|k: int| 0 <= k < longer.len() implies graph.nodes.contains_key(
        #[trigger] longer[k],
    ) by {
        if k < i {
            assert(edges.take(i)[k] == longer[k]);
        }
    }
}

/// What one more output adds to the routers' choice.
pub proof fn lemma_router_edges_step(outputs: Seq<NodeOutputView>, i: int)
    requires
        0 <= i < outputs.len(),
    ensures
        has_router_output(outputs.take(i + 1)) == (has_router_output(outputs.take(i))
            || outputs[i].payload is Router),
        router_edges(outputs.take(i + 1)) == router_edges(outputs.take(i))
            + outputs[i].router_edges(),
{
    let shorter = outputs.take(i);
    let longer = outputs.take(i + 1);
    assert(longer.drop_last() =~= shorter);
    if has_router_output(shorter) {
        let k = choose|k: int| 0 <= k < shorter.len() && (#[trigger] shorter[k]).payload is Router;
        assert(longer[k].payload is Router);
    }
    if has_router_output(longer) && !(outputs[i].payload is Router) {
        let k = choose|k: int| 0 <= k < longer.len() && (#[trigger] longer[k]).payload is Router;
        assert(shorter[k].payload is Router);
    }
}

/// What one more candidate adds to a fan-out: the first becomes a task, a
/// later one joins the queue if it targets a reducer and the tasks if not.
pub proof fn lemma_fan_out_push(done: Seq<Candidate>, next: Candidate, finished: TaskView)
    ensures
        fan_out(done.push(next), finished) == (if done.len() == 0 {
            Decision::create(seq![next.task()])
        } else if next.node.reducer() {
            Decision {
                new_reduction_tasks: fan_out(done, finished).new_reduction_tasks.push(
                    next.entry(finished),
                ),
                ..fan_out(done, finished)
            }
        } else {
            Decision {
                tasks: fan_out(done, finished).tasks.push(next.task()),
                ..fan_out(done, finished)
            }
        }),
{
    let all = done.push(next);
    let rest = all.drop_first();
    let before = fan_out(done, finished);
    let after = fan_out(all, finished);
    if done.len() == 0 {
        assert(rest =~= Seq::empty());
        assert(after.tasks =~= seq![next.task()]);
        assert(after.new_reduction_tasks =~= Seq::empty());
    } else {
        assert(rest =~= done.drop_first().push(next));
        done.drop_first().lemma_filter_push(next, targets_reducer());
        done.drop_first().lemma_filter_push(next, targets_other());
        if next.node.reducer() {
            assert(after.tasks =~= before.tasks);
            assert(after.new_reduction_tasks =~= before.new_reduction_tasks.push(
                next.entry(finished),
            ));
        } else {
            assert(after.tasks =~= before.tasks.push(next.task()));
            assert(after.new_reduction_tasks =~= before.new_reduction_tasks);
        }
    }
}

/// The candidates of one more edge follow those of the edges before it.
pub proof fn lemma_candidates_step(
    graph: ComputeGraphView,
    edges: Seq<Seq<char>>,
    keys: Seq<Seq<char>>,
    i: int,
)
    requires
        0 <= i < edges.len(),
    ensures
        candidates(graph, edges.take(i + 1), keys) == candidates(graph, edges.take(i), keys)
            + candidates_of_edge(graph.nodes[edges[i]], keys),
{
    assert(edges.take(i + 1).drop_last() =~= edges.take(i));
}

/// Without outputs nothing is on its way to any successor.
pub proof fn lemma_candidates_without_keys(graph: ComputeGraphView, edges: Seq<Seq<char>>)
    ensures
        candidates(graph, edges, Seq::empty()) == Seq::<Candidate>::empty(),
    decreases edges.len(),
{
    if edges.len() > 0 {
        lemma_candidates_without_keys(graph, edges.drop_last());
    }
}

} // verus!
