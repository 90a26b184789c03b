//! What holds of every decision on the completion of a task.
//!
//! Each statement is about [`decide_task_finished`], the decision that
//! [`crate::task_creator::handle_task_finished`] is proved to carry out.

use crate::data_model::{ComputeGraphView, NodeOutputView, ReduceTaskView, TaskOutcome, TaskView};
use crate::decision::{
    candidates, consults_outputs, consults_queue, decide_routed, decide_task_finished,
    first_unresolved, has_router_output, is_reducer, lemma_first_unresolved_by_nodes,
    output_keys, plan_routed, resolves, router_edges, targets_other, targets_reducer, to_others,
    Candidate, Decision, PlannedTask, SchedulerErrorView,
};
use vstd::prelude::*;

verus! {

/// A failed task creates nothing and leaves the reduction queue alone,
/// whatever its outputs are; the invocation is finished with it exactly
/// when no task is outstanding.
pub proof fn failure_completion(
    task: TaskView,
    graph: ComputeGraphView,
    outstanding_tasks: u64,
    outputs: Seq<NodeOutputView>,
    next_reduction_task: Option<ReduceTaskView>,
)
    requires
        task.outcome == TaskOutcome::Failure,
    ensures
        decide_task_finished(task, graph, outstanding_tasks, outputs, next_reduction_task)
            matches Ok(decision) && {
            &&& decision.tasks.len() == 0
            &&& decision.new_reduction_tasks.len() == 0
            &&& decision.processed_reduction_tasks.len() == 0
            &&& decision.invocation_finished == (outstanding_tasks == 0)
        },
{
}

/// Once a router has written one of the outputs of a task, the declared
/// edges of the graph have no say, however many there are: a graph with the
/// same nodes and any other edges gets the same decision.
///
/// Unless the task failed, the decision is then [`decide_routed`], which
/// rests on the routers' choice, the nodes of the graph and the input of
/// the task alone: the outstanding tasks and the reduction queue may be
/// anything. Where every chosen edge names a node, there is one task per
/// chosen edge, in the order of the choice, and nothing else.
pub proof fn router_precedence(
    task: TaskView,
    graph: ComputeGraphView,
    outstanding_tasks: u64,
    outputs: Seq<NodeOutputView>,
    next_reduction_task: Option<ReduceTaskView>,
    other_graph: ComputeGraphView,
)
    requires
        has_router_output(outputs),
        other_graph.nodes == graph.nodes,
    ensures
        decide_task_finished(task, graph, outstanding_tasks, outputs, next_reduction_task)
            == decide_task_finished(
            task,
            other_graph,
            outstanding_tasks,
            outputs,
            next_reduction_task,
        ),
        task.outcome != TaskOutcome::Failure ==> decide_task_finished(
            task,
            graph,
            outstanding_tasks,
            outputs,
            next_reduction_task,
        ) == decide_routed(task, graph, outputs),
        task.outcome != TaskOutcome::Failure && resolves(graph, router_edges(outputs))
            ==> decide_task_finished(
            task,
            graph,
            outstanding_tasks,
            outputs,
            next_reduction_task,
        ) == Ok::<Decision, SchedulerErrorView>(
            Decision::create(plan_routed(graph, router_edges(outputs), task.input_key)),
        ),
{
    let edges = router_edges(outputs);
    lemma_first_unresolved_by_nodes(graph, other_graph, edges);
}

/// As many candidates as there are edges times outputs.
proof fn lemma_candidates_len(
    graph: ComputeGraphView,
    edges: Seq<Seq<char>>,
    keys: Seq<Seq<char>>,
)
    ensures
        candidates(graph, edges, keys).len() == edges.len() * keys.len(),
    decreases edges.len(),
{
    if edges.len() > 0 {
        lemma_candidates_len(graph, edges.drop_last(), keys);
        assert((edges.len() - 1) * keys.len() + keys.len() == edges.len() * keys.len())
            by (nonlinear_arith);
    }
}

/// A fan-out weighs one candidate per pair of a declared edge and an
/// output, the edges in the order of their declaration and, for each edge,
/// the outputs in the order in which they are stored: with `m` outputs,
/// the candidate at `i * m + j` is output `j` on its way to edge `i`.
pub proof fn candidates_are_pairs(
    graph: ComputeGraphView,
    edges: Seq<Seq<char>>,
    keys: Seq<Seq<char>>,
    i: int,
    j: int,
)
    requires
        0 <= i < edges.len(),
        0 <= j < keys.len(),
    ensures
        candidates(graph, edges, keys).len() == edges.len() * keys.len(),
        0 <= i * keys.len() + j < edges.len() * keys.len(),
        candidates(graph, edges, keys)[i * keys.len() + j] == (Candidate {
            node: graph.nodes[edges[i]],
            output_key: keys[j],
        }),
    decreases edges.len(),
{
    let m = keys.len() as int;
    let init = edges.drop_last();
    lemma_candidates_len(graph, edges, keys);
    lemma_candidates_len(graph, init, keys);
    assert(0 <= i * m) by (nonlinear_arith)
        requires
            0 <= i,
            0 <= m,
    ;
    assert((i + 1) * m <= edges.len() * m) by (nonlinear_arith)
        requires
            i + 1 <= edges.len(),
            0 <= m,
    ;
    assert((i + 1) * m == i * m + m) by (nonlinear_arith);
    if i < edges.len() - 1 {
        candidates_are_pairs(graph, init, keys, i, j);
    }
}

/// The planned tasks that run on the node `name`.
pub open spec fn tasks_on(tasks: Seq<PlannedTask>, name: Seq<char>) -> Seq<PlannedTask> {
    tasks.filter(|t: PlannedTask| t.compute_fn_name == name)
}

/// The queue entries that wait for the node `name`.
pub open spec fn entries_for(entries: Seq<ReduceTaskView>, name: Seq<char>) -> Seq<
    ReduceTaskView,
> {
    entries.filter(|e: ReduceTaskView| e.compute_fn_name == name)
}

/// The candidates that target the node `name`.
pub open spec fn candidates_for(candidates: Seq<Candidate>, name: Seq<char>) -> Seq<Candidate> {
    candidates.filter(|c: Candidate| c.node.name() == name)
}

proof fn lemma_filter_none<A>(s: Seq<A>, p: spec_fn(A) -> bool)
    requires
        forall|i: int| 0 <= i < s.len() ==> !p(#[trigger] s[i]),
    ensures
        s.filter(p).len() == 0,
    decreases s.len(),
{
    reveal(Seq::filter);
    if s.len() > 0 {
        lemma_filter_none(s.drop_last(), p);
    }
}

/// Filtering, mapping and filtering again keeps as many items as one
/// filter that tests both conditions at once.
proof fn lemma_filter_map_filter_len<A, B>(
    s: Seq<A>,
    p: spec_fn(A) -> bool,
    f: spec_fn(A) -> B,
    q: spec_fn(B) -> bool,
    both: spec_fn(A) -> bool,
)
    requires
        forall|i: int| 0 <= i < s.len() ==> both(#[trigger] s[i]) == (p(s[i]) && q(f(s[i]))),
    ensures
        s.filter(p).map_values(f).filter(q).len() == s.filter(both).len(),
    decreases s.len(),
{
    reveal(Seq::filter);
    if s.len() > 0 {
        let init = s.drop_last();
        let x = s.last();
        lemma_filter_map_filter_len(init, p, f, q, both);
        if p(x) {
            assert(s.filter(p).map_values(f) =~= init.filter(p).map_values(f).push(f(x)));
            init.filter(p).map_values(f).lemma_filter_push(f(x), q);
        }
    }
}

/// Under a well-formed graph whose edges resolve, each candidate targets
/// the node that the graph files under the name of the candidate's node.
proof fn lemma_candidates_are_filed(
    graph: ComputeGraphView,
    edges: Seq<Seq<char>>,
    keys: Seq<Seq<char>>,
)
    requires
        graph.wf(),
        resolves(graph, edges),
    ensures
        forall|k: int|
            0 <= k < candidates(graph, edges, keys).len() ==> {
                let c = #[trigger] candidates(graph, edges, keys)[k];
                graph.nodes.contains_key(c.node.name()) && graph.nodes[c.node.name()] == c.node
            },
    decreases edges.len(),
{
    if edges.len() > 0 {
        let init = edges.drop_last();
        assert forall|i: int| 0 <= i < init.len() implies graph.nodes.contains_key(
            #[trigger] init[i],
        ) by {
            assert(init[i] == edges[i]);
        }
        lemma_candidates_are_filed(graph, init, keys);
    }
}

/// With an edge and an output there is a first candidate, and it targets
/// the node of the first edge.
proof fn lemma_first_candidate(
    graph: ComputeGraphView,
    edges: Seq<Seq<char>>,
    keys: Seq<Seq<char>>,
)
    requires
        edges.len() > 0,
        keys.len() > 0,
    ensures
        candidates(graph, edges, keys).len() > 0,
        candidates(graph, edges, keys)[0].node == graph.nodes[edges[0]],
    decreases edges.len(),
{
    if edges.len() > 1 {
        lemma_first_candidate(graph, edges.drop_last(), keys);
    } else {
        assert(candidates(graph, edges.drop_last(), keys) =~= Seq::empty());
    }
}

/// A reducer gets at most one task per fan-out. Of the outputs on their way
/// to it, it gets the first of the whole round as a task, if that one is
/// its own, and all the others wait in the reduction queue: where `n`
/// candidates target it and the round starts with one of them, one task is
/// created and `n - 1` entries are queued; where the round starts with
/// another node, all `n` are queued.
///
/// A fan-out is the decision on a task that did not fail, whose outputs
/// (there is at least one) no router wrote, whose completion drains no
/// reduction entry, and whose node has declared edges that all resolve.
pub proof fn single_task_per_reducer(
    task: TaskView,
    graph: ComputeGraphView,
    outstanding_tasks: u64,
    outputs: Seq<NodeOutputView>,
    next_reduction_task: Option<ReduceTaskView>,
    reducer: Seq<char>,
)
    requires
        graph.wf(),
        is_reducer(graph, reducer),
        task.outcome != TaskOutcome::Failure,
        !has_router_output(outputs),
        !(is_reducer(graph, task.compute_fn_name) && next_reduction_task is Some),
        outputs.len() > 0,
        graph.declared_edges(task.compute_fn_name).len() > 0,
        resolves(graph, graph.declared_edges(task.compute_fn_name)),
    ensures
        decide_task_finished(task, graph, outstanding_tasks, outputs, next_reduction_task)
            matches Ok(decision) && {
            let edges = graph.declared_edges(task.compute_fn_name);
            let n = candidates_for(
                candidates(graph, edges, output_keys(outputs, task.invocation_id)),
                reducer,
            ).len();
            let first: nat = if edges[0] == reducer {
                1
            } else {
                0
            };
            &&& tasks_on(decision.tasks, reducer).len() == first
            &&& entries_for(decision.new_reduction_tasks, reducer).len() == n - first
        },
{
    let edges = graph.declared_edges(task.compute_fn_name);
    let keys = output_keys(outputs, task.invocation_id);
    let all = candidates(graph, edges, keys);
    lemma_first_candidate(graph, edges, keys);
    lemma_candidates_are_filed(graph, edges, keys);
    let head = all[0];
    let rest = all.drop_first();
    assert forall|k: int| 0 <= k < rest.len() implies {
        let c = #[trigger] rest[k];
        graph.nodes.contains_key(c.node.name()) && graph.nodes[c.node.name()] == c.node
    } by {
        assert(rest[k] == all[k + 1]);
    }
    let on_reducer = |t: PlannedTask| t.compute_fn_name == reducer;
    let for_reducer = |e: ReduceTaskView| e.compute_fn_name == reducer;
    let targets = |c: Candidate| c.node.name() == reducer;
    let never = |c: Candidate| false;
    let as_task = |c: Candidate| c.task();
    let as_entry = |c: Candidate| c.entry(task);

    // The tasks: the head, and of the rest only those that target no reducer.
    let later_tasks = to_others(rest).map_values(as_task);
    lemma_filter_map_filter_len(rest, targets_other(), as_task, on_reducer, never);
    lemma_filter_none(rest, never);
    Seq::filter_distributes_over_add(seq![head.task()], later_tasks, on_reducer);
    Seq::<PlannedTask>::empty().lemma_filter_push(head.task(), on_reducer);
    assert(Seq::<PlannedTask>::empty().filter(on_reducer).len() == 0) by {
        reveal(Seq::filter);
    }

    // The entries: those of the rest that target the reducer.
    lemma_filter_map_filter_len(rest, targets_reducer(), as_entry, for_reducer, targets);
    assert(all =~= seq![head] + rest);
    Seq::filter_distributes_over_add(seq![head], rest, targets);
    Seq::<Candidate>::empty().lemma_filter_push(head, targets);
    assert(Seq::<Candidate>::empty().filter(targets).len() == 0) by {
        reveal(Seq::filter);
    }
}

/// The head of a reduction queue whose entries stand in the order in which
/// they were appended.
pub open spec fn queue_head(queue: Seq<ReduceTaskView>) -> Option<ReduceTaskView> {
    if queue.len() > 0 {
        Some(queue[0])
    } else {
        None
    }
}

/// The reduction queue is drained in the order in which it was filled: the
/// entries that an event takes off are a prefix of the queue, of at most
/// one entry. The head leaves exactly when a task on a reducer has
/// finished without failing, no router wrote one of its outputs, and the
/// queue is not empty; the one task created then runs on the same reducer
/// with the output that the head holds, so no entry behind the head is
/// ever turned into a task.
pub proof fn reduction_drain_order(
    task: TaskView,
    graph: ComputeGraphView,
    outstanding_tasks: u64,
    outputs: Seq<NodeOutputView>,
    queue: Seq<ReduceTaskView>,
)
    ensures
        decide_task_finished(task, graph, outstanding_tasks, outputs, queue_head(queue))
            matches Ok(decision) ==> {
            let drains = consults_queue(task, graph, outputs) && queue.len() > 0;
            let taken: int = if drains {
                1
            } else {
                0
            };
            &&& decision.processed_reduction_tasks == queue.take(taken).map_values(
                |entry: ReduceTaskView| entry.key(),
            )
            &&& drains ==> {
                &&& decision.tasks == seq![
                    PlannedTask {
                        compute_fn_name: graph.nodes[task.compute_fn_name].name(),
                        input_key: queue[0].task_output_key,
                    },
                ]
                &&& decision.new_reduction_tasks.len() == 0
                &&& !decision.invocation_finished
            }
        },
{
}

/// A task on a node without declared edges ends its branch: nothing is
/// created or queued, no error is raised, and the invocation is finished
/// exactly when no task is outstanding, so not while others are. This is
/// for a task whose outputs no router wrote and whose completion drains no
/// reduction entry.
pub proof fn terminal_leaf(
    task: TaskView,
    graph: ComputeGraphView,
    outstanding_tasks: u64,
    outputs: Seq<NodeOutputView>,
    next_reduction_task: Option<ReduceTaskView>,
)
    requires
        graph.declared_edges(task.compute_fn_name).len() == 0,
        !has_router_output(outputs),
        !(is_reducer(graph, task.compute_fn_name) && next_reduction_task is Some),
    ensures
        decide_task_finished(task, graph, outstanding_tasks, outputs, next_reduction_task)
            == Ok::<Decision, SchedulerErrorView>(Decision::nothing(outstanding_tasks == 0)),
        outstanding_tasks > 0 ==> decide_task_finished(
            task,
            graph,
            outstanding_tasks,
            outputs,
            next_reduction_task,
        ) == Ok::<Decision, SchedulerErrorView>(Decision::nothing(false)),
{
}

/// An event is given up exactly when an edge that has to be followed names
/// no node of the graph, and the error then names the first such edge. The
/// edges that have to be followed are those that the routers picked, if a
/// router wrote one of the outputs; and else the declared edges of the
/// node, if there is an output to send along them and no reduction entry to
/// drain. A failed task follows no edge.
pub proof fn error_is_a_missing_node(
    task: TaskView,
    graph: ComputeGraphView,
    outstanding_tasks: u64,
    outputs: Seq<NodeOutputView>,
    next_reduction_task: Option<ReduceTaskView>,
)
    ensures
        ({
            let followed = if task.outcome == TaskOutcome::Failure {
                Seq::empty()
            } else if has_router_output(outputs) {
                router_edges(outputs)
            } else if is_reducer(graph, task.compute_fn_name) && next_reduction_task is Some
                || outputs.len() == 0 {
                Seq::empty()
            } else {
                graph.declared_edges(task.compute_fn_name)
            };
            match decide_task_finished(
                task,
                graph,
                outstanding_tasks,
                outputs,
                next_reduction_task,
            ) {
                Ok(_) => resolves(graph, followed),
                Err(error) => !resolves(graph, followed) && error
                    == SchedulerErrorView::NodeNotFound(first_unresolved(graph, followed)),
            }
        }),
{
}

/// What is not consulted does not matter: the outputs of a failed task may
/// be anything, and so may the head of the reduction queue unless the task
/// ran on a reducer, did not fail, and no router wrote one of its outputs.
pub proof fn unread_state_does_not_matter(
    task: TaskView,
    graph: ComputeGraphView,
    outstanding_tasks: u64,
    outputs: Seq<NodeOutputView>,
    next_reduction_task: Option<ReduceTaskView>,
    other_outputs: Seq<NodeOutputView>,
    other_next_reduction_task: Option<ReduceTaskView>,
)
    ensures
        !consults_outputs(task) ==> decide_task_finished(
            task,
            graph,
            outstanding_tasks,
            outputs,
            next_reduction_task,
        ) == decide_task_finished(
            task,
            graph,
            outstanding_tasks,
            other_outputs,
            other_next_reduction_task,
        ),
        !consults_queue(task, graph, outputs) ==> decide_task_finished(
            task,
            graph,
            outstanding_tasks,
            outputs,
            next_reduction_task,
        ) == decide_task_finished(
            task,
            graph,
            outstanding_tasks,
            outputs,
            other_next_reduction_task,
        ),
{
}

} // verus!
