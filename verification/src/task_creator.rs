//! The handlers of the two events: they build what [`crate::decision`]
//! calls for.

use crate::data_model::{
    outputs_view, strings_view, task_id_len, ComputeGraph, ComputeGraphView, GraphInvocationCtx,
    InvokeComputeGraphEvent, NodeOutput, OutputPayload, ReduceTask, ReduceTaskView, Task,
    TaskOutcome, TaskView,
};
use crate::decision::{
    candidates, candidates_of_edge, consults_outputs, consults_queue, decide_invoke,
    decide_task_finished, fan_out, first_unresolved, has_router_output, lemma_candidates_step,
    lemma_candidates_without_keys, lemma_fan_out_push, lemma_first_unresolved,
    lemma_resolves_step, lemma_router_edges_step, output_keys, plan_routed, resolves,
    router_edges, Candidate, Decision, PlannedTask, SchedulerError, SchedulerErrorView,
};
use vstd::prelude::*;

verus! {

/// The views of a sequence of tasks, in order.
pub open spec fn tasks_view(tasks: Seq<Task>) -> Seq<TaskView> {
    tasks.map_values(|t: Task| t@)
}

/// The views of a sequence of queue entries, in order.
pub open spec fn reduce_tasks_view(entries: Seq<ReduceTask>) -> Seq<ReduceTaskView> {
    entries.map_values(|e: ReduceTask| e@)
}

/// `tasks` are the planned ones, one for one and in order: each is pending,
/// belongs to the given invocation, runs on the planned node with the
/// planned input, and has an identifier of the usual length.
pub open spec fn carry_out(
    tasks: Seq<TaskView>,
    planned: Seq<PlannedTask>,
    namespace: Seq<char>,
    compute_graph: Seq<char>,
    invocation_id: Seq<char>,
) -> bool {
    &&& tasks.len() == planned.len()
    &&& forall|i: int|
        0 <= i < tasks.len() ==> {
            &&& (#[trigger] tasks[i]).is_pending_on(
                namespace,
                compute_graph,
                planned[i].compute_fn_name,
                invocation_id,
                planned[i].input_key,
            )
            &&& tasks[i].id.len() == task_id_len()
        }
}

/// One more task for one more planned one.
pub proof fn lemma_carry_out_push(
    tasks: Seq<TaskView>,
    planned: Seq<PlannedTask>,
    task: TaskView,
    plan: PlannedTask,
    namespace: Seq<char>,
    compute_graph: Seq<char>,
    invocation_id: Seq<char>,
)
    requires
        carry_out(tasks, planned, namespace, compute_graph, invocation_id),
        task.is_pending_on(
            namespace,
            compute_graph,
            plan.compute_fn_name,
            invocation_id,
            plan.input_key,
        ),
        task.id.len() == task_id_len(),
    ensures
        carry_out(tasks.push(task), planned.push(plan), namespace, compute_graph, invocation_id),
{
}

/// The outcome of one event, for the caller to apply as a whole.
#[derive(Clone, Debug, PartialEq, Eq)]
pub struct TaskCreationResult {
    pub namespace: String,
    pub compute_graph: String,
    pub invocation_id: String,
    /// Tasks to schedule.
    pub tasks: Vec<Task>,
    /// Entries to append to the reduction queue.
    pub new_reduction_tasks: Vec<ReduceTask>,
    /// Keys of the entries to take off the reduction queue.
    pub processed_reduction_tasks: Vec<String>,
    pub invocation_finished: bool,
}

/// The view of a [`TaskCreationResult`].
pub struct TaskCreationResultView {
    pub namespace: Seq<char>,
    pub compute_graph: Seq<char>,
    pub invocation_id: Seq<char>,
    pub tasks: Seq<TaskView>,
    pub new_reduction_tasks: Seq<ReduceTaskView>,
    pub processed_reduction_tasks: Seq<Seq<char>>,
    pub invocation_finished: bool,
}

impl View for TaskCreationResult {
    type V = TaskCreationResultView;

    open spec fn view(&self) -> TaskCreationResultView {
        TaskCreationResultView {
            namespace: self.namespace@,
            compute_graph: self.compute_graph@,
            invocation_id: self.invocation_id@,
            tasks: tasks_view(self.tasks@),
            new_reduction_tasks: reduce_tasks_view(self.new_reduction_tasks@),
            processed_reduction_tasks: strings_view(self.processed_reduction_tasks@),
            invocation_finished: self.invocation_finished,
        }
    }
}

impl TaskCreationResultView {
    /// The record is `decision`, made for the given invocation: its tasks
    /// carry out the planned ones, and the rest is equal.
    pub open spec fn carries_out(
        self,
        decision: Decision,
        namespace: Seq<char>,
        compute_graph: Seq<char>,
        invocation_id: Seq<char>,
    ) -> bool {
        &&& self.namespace == namespace
        &&& self.compute_graph == compute_graph
        &&& self.invocation_id == invocation_id
        &&& carry_out(self.tasks, decision.tasks, namespace, compute_graph, invocation_id)
        &&& self.new_reduction_tasks =~= decision.new_reduction_tasks
        &&& self.processed_reduction_tasks =~= decision.processed_reduction_tasks
        &&& self.invocation_finished == decision.invocation_finished
    }
}

/// The view of a graph that may be missing.
pub open spec fn graph_view(graph: Option<&ComputeGraph>) -> Option<ComputeGraphView> {
    match graph {
        Some(graph) => Some(graph@),
        None => None,
    }
}

/// The view of a queue entry that may be missing.
pub open spec fn entry_view(entry: Option<&ReduceTask>) -> Option<ReduceTaskView> {
    match entry {
        Some(entry) => Some(entry@),
        None => None,
    }
}

/// Starts an invocation of `compute_graph`, the graph that the event names:
/// one task on its start node, whose input key is the invocation's own
/// identifier. Where the graph is not known (`None`), the record is empty
/// and the event is thereby dropped.
pub fn handle_invoke_compute_graph(
    compute_graph: Option<&ComputeGraph>,
    event: &InvokeComputeGraphEvent,
) -> (result: TaskCreationResult)
    ensures
        result@.carries_out(
            decide_invoke(graph_view(compute_graph), event@),
            event@.namespace,
            event@.compute_graph,
            event@.invocation_id,
        ),
{
    let mut tasks: Vec<Task> = Vec::new();
    match compute_graph {
        None => {},
        Some(graph) => {
            let task = graph.start_fn().create_task(
                event.namespace.as_str(),
                event.compute_graph.as_str(),
                event.invocation_id.as_str(),
                event.invocation_id.as_str(),
            );
            tasks.push(task);
        },
    }
    TaskCreationResult {
        namespace: event.namespace.clone(),
        compute_graph: event.compute_graph.clone(),
        invocation_id: event.invocation_id.clone(),
        tasks,
        new_reduction_tasks: Vec::new(),
        processed_reduction_tasks: Vec::new(),
        invocation_finished: false,
    }
}

/// Appends copies of `source` to `target`.
fn append_strings(target: &mut Vec<String>, source: &Vec<String>)
    ensures
        strings_view(final(target)@) == strings_view(old(target)@) + strings_view(source@),
{
    let mut j: usize = 0;
    while j < source.len()
        invariant
            j <= source.len(),
            strings_view(target@) == strings_view(old(target)@) + strings_view(source@).take(
                j as int,
            ),
        decreases source.len() - j,
    {
        let ghost before = strings_view(target@);
        target.push(source[j].clone());
        assert(strings_view(target@) =~= before.push(source@[j as int]@));
        j += 1;
    }
}

/// Whether a router wrote one of the outputs.
fn any_router_output(outputs: &Vec<NodeOutput>) -> (any: bool)
    ensures
        any == has_router_output(outputs_view(outputs@)),
{
    let ghost all = outputs_view(outputs@);
    let mut i: usize = 0;
    while i < outputs.len()
        invariant
            i <= outputs.len(),
            all == outputs_view(outputs@),
            !has_router_output(all.take(i as int)),
        decreases outputs.len() - i,
    {
        proof {
            lemma_router_edges_step(all, i as int);
        }
        match &outputs[i].payload {
            OutputPayload::Router(_) => {
                return true;
            },
            OutputPayload::Fn(_) => {},
        }
        i += 1;
    }
    assert(all.take(outputs.len() as int) == all);
    false
}

/// Whether a router wrote one of the outputs, and the successors that the
/// routers picked, in the order of the outputs.
fn collect_router_edges(outputs: &Vec<NodeOutput>) -> (found: (bool, Vec<String>))
    ensures
        found.0 == has_router_output(outputs_view(outputs@)),
        strings_view(found.1@) == router_edges(outputs_view(outputs@)),
{
    let ghost all = outputs_view(outputs@);
    let mut any_router = false;
    let mut edges: Vec<String> = Vec::new();
    let mut i: usize = 0;
    while i < outputs.len()
        invariant
            i <= outputs.len(),
            all == outputs_view(outputs@),
            any_router == has_router_output(all.take(i as int)),
            strings_view(edges@) == router_edges(all.take(i as int)),
        decreases outputs.len() - i,
    {
        proof {
            lemma_router_edges_step(all, i as int);
        }
        match &outputs[i].payload {
            OutputPayload::Router(router_output) => {
                any_router = true;
                append_strings(&mut edges, &router_output.edges);
            },
            OutputPayload::Fn(_) => {},
        }
        i += 1;
    }
    assert(all.take(outputs.len() as int) == all);
    (any_router, edges)
}

/// One task per edge on the node that the edge names, each with the input
/// of the finished task; or the first edge that names no node.
fn create_routed_tasks(task: &Task, compute_graph: &ComputeGraph, edges: &Vec<String>) -> (result:
    Result<Vec<Task>, SchedulerError>)
    ensures
        match result {
            Ok(tasks) => {
                &&& resolves(compute_graph@, strings_view(edges@))
                &&& carry_out(
                    tasks_view(tasks@),
                    plan_routed(compute_graph@, strings_view(edges@), task@.input_key),
                    task@.namespace,
                    task@.compute_graph_name,
                    task@.invocation_id,
                )
            },
            Err(error) => {
                &&& !resolves(compute_graph@, strings_view(edges@))
                &&& error@ == SchedulerErrorView::NodeNotFound(
                    first_unresolved(compute_graph@, strings_view(edges@)),
                )
            },
        },
{
    let ghost names = strings_view(edges@);
    let mut new_tasks: Vec<Task> = Vec::new();
    let mut i: usize = 0;
    while i < edges.len()
        invariant
            i <= edges.len(),
            names == strings_view(edges@),
            resolves(compute_graph@, names.take(i as int)),
            carry_out(
                tasks_view(new_tasks@),
                plan_routed(compute_graph@, names.take(i as int), task@.input_key),
                task@.namespace,
                task@.compute_graph_name,
                task@.invocation_id,
            ),
        decreases edges.len() - i,
    {
        let compute_fn = match compute_graph.get_node(edges[i].as_str()) {
            Some(node) => node,
            None => {
                proof {
                    lemma_first_unresolved(compute_graph@, names, i as int);
                }
                return Err(SchedulerError::NodeNotFound(edges[i].clone()));
            },
        };
        let new_task = compute_fn.create_task(
            task.namespace.as_str(),
            task.compute_graph_name.as_str(),
            task.invocation_id.as_str(),
            task.input_key.as_str(),
        );
        let ghost before = tasks_view(new_tasks@);
        new_tasks.push(new_task);
        proof {
            let shorter = names.take(i as int);
            lemma_resolves_step(compute_graph@, names, i as int);
            let plan = PlannedTask {
                compute_fn_name: compute_fn@.name(),
                input_key: task@.input_key,
            };
            assert(tasks_view(new_tasks@) =~= before.push(new_task@));
            lemma_carry_out_push(
                before,
                plan_routed(compute_graph@, shorter, task@.input_key),
                new_task@,
                plan,
                task@.namespace,
                task@.compute_graph_name,
                task@.invocation_id,
            );
        }
        i += 1;
    }
    assert(names.take(edges.len() as int) == names);
    Ok(new_tasks)
}

/// Sends each output to each successor, edge by edge: the first one of all
/// as a task, a later one as a queue entry if its node is a reducer and as
/// a task if not. Fails at the first edge that names no node, which is
/// noticed only when an output is on its way to it.
fn fan_out_tasks(
    task: &Task,
    compute_graph: &ComputeGraph,
    edges: &Vec<String>,
    outputs: &Vec<NodeOutput>,
) -> (result: Result<(Vec<Task>, Vec<ReduceTask>), SchedulerError>)
    ensures
        match result {
            Ok((tasks, entries)) => {
                let decision = fan_out(
                    candidates(
                        compute_graph@,
                        strings_view(edges@),
                        output_keys(outputs_view(outputs@), task@.invocation_id),
                    ),
                    task@,
                );
                &&& outputs.len() == 0 || resolves(compute_graph@, strings_view(edges@))
                &&& carry_out(
                    tasks_view(tasks@),
                    decision.tasks,
                    task@.namespace,
                    task@.compute_graph_name,
                    task@.invocation_id,
                )
                &&& reduce_tasks_view(entries@) == decision.new_reduction_tasks
            },
            Err(error) => {
                &&& outputs.len() > 0
                &&& !resolves(compute_graph@, strings_view(edges@))
                &&& error@ == SchedulerErrorView::NodeNotFound(
                    first_unresolved(compute_graph@, strings_view(edges@)),
                )
            },
        },
{
    let ghost names = strings_view(edges@);
    let ghost keys = output_keys(outputs_view(outputs@), task@.invocation_id);
    let ghost mut done: Seq<Candidate> = Seq::empty();
    let mut new_tasks: Vec<Task> = Vec::new();
    let mut new_reduction_tasks: Vec<ReduceTask> = Vec::new();
    let mut i: usize = 0;
    while i < edges.len()
        invariant
            i <= edges.len(),
            names == strings_view(edges@),
            keys == output_keys(outputs_view(outputs@), task@.invocation_id),
            outputs.len() == 0 || resolves(compute_graph@, names.take(i as int)),
            done == candidates(compute_graph@, names.take(i as int), keys),
            carry_out(
                tasks_view(new_tasks@),
                fan_out(done, task@).tasks,
                task@.namespace,
                task@.compute_graph_name,
                task@.invocation_id,
            ),
            reduce_tasks_view(new_reduction_tasks@) == fan_out(done, task@).new_reduction_tasks,
        decreases edges.len() - i,
    {
        let ghost target = compute_graph@.nodes[names[i as int]];
        let ghost row = candidates_of_edge(target, keys);
        let ghost before_edge = done;
        let mut j: usize = 0;
        while j < outputs.len()
            invariant
                i < edges.len(),
                j <= outputs.len(),
                names == strings_view(edges@),
                keys == output_keys(outputs_view(outputs@), task@.invocation_id),
                target == compute_graph@.nodes[names[i as int]],
                row == candidates_of_edge(target, keys),
                outputs.len() == 0 || resolves(compute_graph@, names.take(i as int)),
                j > 0 ==> compute_graph@.nodes.contains_key(names[i as int]),
                done == before_edge + row.take(j as int),
                carry_out(
                    tasks_view(new_tasks@),
                    fan_out(done, task@).tasks,
                    task@.namespace,
                    task@.compute_graph_name,
                    task@.invocation_id,
                ),
                reduce_tasks_view(new_reduction_tasks@) == fan_out(
                    done,
                    task@,
                ).new_reduction_tasks,
            decreases outputs.len() - j,
        {
            let compute_node = match compute_graph.get_node(edges[i].as_str()) {
                Some(node) => node,
                None => {
                    proof {
                        lemma_first_unresolved(compute_graph@, names, i as int);
                    }
                    return Err(SchedulerError::NodeNotFound(edges[i].clone()));
                },
            };
            let output_key = outputs[j].key(task.invocation_id.as_str());
            let ghost next = Candidate { node: compute_node@, output_key: output_key@ };
            let ghost tasks_before = tasks_view(new_tasks@);
            proof {
                assert(next == row[j as int]);
                assert(row.take(j + 1) =~= row.take(j as int).push(next));
                lemma_fan_out_push(done, next, task@);
            }
            if compute_node.reducer() && new_tasks.len() > 0 {
                let entry = compute_node.reducer_task(
                    task.namespace.as_str(),
                    task.compute_graph_name.as_str(),
                    task.invocation_id.as_str(),
                    task.id.as_str(),
                    output_key.as_str(),
                );
                new_reduction_tasks.push(entry);
            } else {
                let new_task = compute_node.create_task(
                    task.namespace.as_str(),
                    task.compute_graph_name.as_str(),
                    task.invocation_id.as_str(),
                    output_key.as_str(),
                );
                new_tasks.push(new_task);
                proof {
                    assert(tasks_view(new_tasks@) =~= tasks_before.push(new_task@));
                    lemma_carry_out_push(
                        tasks_before,
                        fan_out(done, task@).tasks,
                        new_task@,
                        next.task(),
                        task@.namespace,
                        task@.compute_graph_name,
                        task@.invocation_id,
                    );
                }
            }
            proof {
                done = done.push(next);
            }
            j += 1;
        }
        proof {
            lemma_candidates_step(compute_graph@, names, keys, i as int);
            if outputs.len() > 0 {
                lemma_resolves_step(compute_graph@, names, i as int);
            }
        }
        i += 1;
    }
    assert(names.take(edges.len() as int) == names);
    Ok((new_tasks, new_reduction_tasks))
}

/// The record of a decision made on the completion of `task`.
fn record_for(
    task: &Task,
    tasks: Vec<Task>,
    new_reduction_tasks: Vec<ReduceTask>,
    processed_reduction_tasks: Vec<String>,
    invocation_finished: bool,
) -> (record: TaskCreationResult)
    ensures
        record.namespace@ == task.namespace@,
        record.compute_graph@ == task.compute_graph_name@,
        record.invocation_id@ == task.invocation_id@,
        record.tasks == tasks,
        record.new_reduction_tasks == new_reduction_tasks,
        record.processed_reduction_tasks == processed_reduction_tasks,
        record.invocation_finished == invocation_finished,
{
    TaskCreationResult {
        namespace: task.namespace.clone(),
        compute_graph: task.compute_graph_name.clone(),
        invocation_id: task.invocation_id.clone(),
        tasks,
        new_reduction_tasks,
        processed_reduction_tasks,
        invocation_finished,
    }
}

/// Whether the decision on the completion of `task` rests on its outputs:
/// it does unless the task failed. Where it does not, the outputs need not
/// be read.
pub fn reads_task_outputs(task: &Task) -> (reads: bool)
    ensures
        reads == consults_outputs(task@),
{
    match task.outcome {
        TaskOutcome::Failure => false,
        _ => true,
    }
}

/// Whether the decision on the completion of `task`, whose outputs are
/// `outputs`, rests on the head of the reduction queue: it does where the
/// task did not fail, no router wrote one of its outputs, and its node is a
/// reducer of the graph. Where it does not, the queue need not be read.
pub fn reads_reduction_queue(
    task: &Task,
    compute_graph: &ComputeGraph,
    outputs: &Vec<NodeOutput>,
) -> (reads: bool)
    ensures
        reads == consults_queue(task@, compute_graph@, outputs_view(outputs@)),
{
    if !reads_task_outputs(task) {
        return false;
    }
    if any_router_output(outputs) {
        return false;
    }
    match compute_graph.get_node(task.compute_fn_name.as_str()) {
        Some(compute_node) => compute_node.reducer(),
        None => false,
    }
}

/// Decides what follows the completion of `task`, a task of `compute_graph`.
///
/// `invocation_ctx` holds the number of outstanding tasks of the invocation,
/// `outputs` the outputs of the task in the order in which they are stored,
/// and `next_reduction_task` the head of the reduction queue of the
/// invocation, if the queue is not empty. The outputs are not looked at
/// where the task failed, nor the head of the queue unless the task ran on a
/// reducer and no router wrote one of its outputs.
///
/// The record carries out [`decide_task_finished`]. The only failure is an
/// edge that names no node of the graph: the error names the first such
/// edge, and nothing of the decision is returned.
pub fn handle_task_finished(
    task: &Task,
    compute_graph: &ComputeGraph,
    invocation_ctx: &GraphInvocationCtx,
    outputs: &Vec<NodeOutput>,
    next_reduction_task: Option<&ReduceTask>,
) -> (result: Result<TaskCreationResult, SchedulerError>)
    ensures
        match result {
            Ok(record) => {
                &&& decide_task_finished(
                    task@,
                    compute_graph@,
                    invocation_ctx.outstanding_tasks,
                    outputs_view(outputs@),
                    entry_view(next_reduction_task),
                ) matches Ok(decision)
                &&& record@.carries_out(
                    decision,
                    task@.namespace,
                    task@.compute_graph_name,
                    task@.invocation_id,
                )
            },
            Err(error) => decide_task_finished(
                task@,
                compute_graph@,
                invocation_ctx.outstanding_tasks,
                outputs_view(outputs@),
                entry_view(next_reduction_task),
            ) == Err::<Decision, SchedulerErrorView>(error@),
        },
{
    match task.outcome {
        TaskOutcome::Failure => {
            return Ok(
                record_for(
                    task,
                    Vec::new(),
                    Vec::new(),
                    Vec::new(),
                    invocation_ctx.outstanding_tasks == 0,
                ),
            );
        },
        _ => {},
    }
    let (any_router, router_edges) = collect_router_edges(outputs);
    if any_router {
        return match create_routed_tasks(task, compute_graph, &router_edges) {
            Ok(new_tasks) => Ok(record_for(task, new_tasks, Vec::new(), Vec::new(), false)),
            Err(error) => Err(error),
        };
    }
    if let Some(compute_node) = compute_graph.get_node(task.compute_fn_name.as_str()) {
        if compute_node.reducer() {
            if let Some(reduction_task) = next_reduction_task {
                let new_task = compute_node.create_task(
                    task.namespace.as_str(),
                    task.compute_graph_name.as_str(),
                    task.invocation_id.as_str(),
                    reduction_task.task_output_key.as_str(),
                );
                let mut new_tasks: Vec<Task> = Vec::new();
                new_tasks.push(new_task);
                let mut processed: Vec<String> = Vec::new();
                processed.push(reduction_task.key());
                return Ok(record_for(task, new_tasks, Vec::new(), processed, false));
            }
        }
    }
    let edges = match compute_graph.get_edges(task.compute_fn_name.as_str()) {
        Some(edges) => edges,
        None => {
            return Ok(
                record_for(
                    task,
                    Vec::new(),
                    Vec::new(),
                    Vec::new(),
                    invocation_ctx.outstanding_tasks == 0,
                ),
            );
        },
    };
    if edges.len() == 0 {
        return Ok(
            record_for(
                task,
                Vec::new(),
                Vec::new(),
                Vec::new(),
                invocation_ctx.outstanding_tasks == 0,
            ),
        );
    }
    proof {
        if outputs.len() == 0 {
            assert(output_keys(outputs_view(outputs@), task@.invocation_id) =~= Seq::empty());
            lemma_candidates_without_keys(compute_graph@, strings_view(edges@));
        }
    }
    match fan_out_tasks(task, compute_graph, edges, outputs) {
        Ok((new_tasks, new_reduction_tasks)) => Ok(
            record_for(task, new_tasks, new_reduction_tasks, Vec::new(), false),
        ),
        Err(error) => Err(error),
    }
}

} // verus!
