use task_scheduler::data_model::{
    ComputeFn, ComputeGraph, DataPayload, DynamicEdgeRouter, GraphInvocationCtx,
    InvokeComputeGraphEvent, Node, NodeOutput, OutputPayload, ReduceTask, RouterOutput, Task,
    TaskOutcome,
};
use task_scheduler::decision::SchedulerError;
use task_scheduler::task_creator::{
    handle_invoke_compute_graph, handle_task_finished, reads_reduction_queue, reads_task_outputs,
};
use task_scheduler::TaskCreationResult;

const NS: &str = "ns";
const GRAPH: &str = "G";
const INVOCATION: &str = "inv-1";

fn compute(name: &str) -> Node {
    Node::Compute(ComputeFn { name: name.to_string(), reducer: false })
}

fn reducer(name: &str) -> Node {
    Node::Compute(ComputeFn { name: name.to_string(), reducer: true })
}

fn router(name: &str) -> Node {
    Node::Router(DynamicEdgeRouter { name: name.to_string() })
}

fn graph(start: Node, nodes: Vec<Node>, edges: &[(&str, &str)]) -> ComputeGraph {
    let mut graph = ComputeGraph::new(NS.to_string(), GRAPH.to_string(), start);
    for node in nodes {
        graph.add_node(node);
    }
    for (from, to) in edges {
        graph.add_edge(from, to);
    }
    graph
}

fn finished(id: &str, node: &str, input_key: &str, outcome: TaskOutcome) -> Task {
    Task {
        id: id.to_string(),
        namespace: NS.to_string(),
        compute_fn_name: node.to_string(),
        compute_graph_name: GRAPH.to_string(),
        invocation_id: INVOCATION.to_string(),
        input_key: input_key.to_string(),
        outcome,
    }
}

fn ctx(outstanding_tasks: u64) -> GraphInvocationCtx {
    GraphInvocationCtx {
        namespace: NS.to_string(),
        compute_graph_name: GRAPH.to_string(),
        invocation_id: INVOCATION.to_string(),
        outstanding_tasks,
    }
}

fn fn_output(id: &str, node: &str) -> NodeOutput {
    NodeOutput {
        id: id.to_string(),
        namespace: NS.to_string(),
        compute_graph_name: GRAPH.to_string(),
        compute_fn_name: node.to_string(),
        payload: OutputPayload::Fn(DataPayload { path: format!("/blobs/{}", id) }),
    }
}

fn router_output(id: &str, node: &str, edges: &[&str]) -> NodeOutput {
    NodeOutput {
        id: id.to_string(),
        namespace: NS.to_string(),
        compute_graph_name: GRAPH.to_string(),
        compute_fn_name: node.to_string(),
        payload: OutputPayload::Router(RouterOutput {
            edges: edges.iter().map(|e| e.to_string()).collect(),
        }),
    }
}

fn queued(node: &str, task_id: &str, task_output_key: &str) -> ReduceTask {
    ReduceTask {
        namespace: NS.to_string(),
        compute_graph_name: GRAPH.to_string(),
        invocation_id: INVOCATION.to_string(),
        compute_fn_name: node.to_string(),
        task_id: task_id.to_string(),
        task_output_key: task_output_key.to_string(),
    }
}

fn nodes_and_inputs(result: &TaskCreationResult) -> Vec<(String, String)> {
    result
        .tasks
        .iter()
        .map(|t| (t.compute_fn_name.clone(), t.input_key.clone()))
        .collect()
}

fn pair(node: &str, input_key: &str) -> (String, String) {
    (node.to_string(), input_key.to_string())
}

fn assert_belongs_to_invocation(result: &TaskCreationResult) {
    assert_eq!(result.namespace, NS);
    assert_eq!(result.compute_graph, GRAPH);
    assert_eq!(result.invocation_id, INVOCATION);
    for task in &result.tasks {
        assert_eq!(task.namespace, NS);
        assert_eq!(task.compute_graph_name, GRAPH);
        assert_eq!(task.invocation_id, INVOCATION);
        assert_eq!(task.outcome, TaskOutcome::Pending);
    }
}

fn invoke_event() -> InvokeComputeGraphEvent {
    InvokeComputeGraphEvent {
        invocation_id: INVOCATION.to_string(),
        namespace: NS.to_string(),
        compute_graph: GRAPH.to_string(),
    }
}

#[test]
fn invoke_creates_one_task_on_the_start_node() {
    let g = graph(compute("A"), vec![compute("B")], &[("A", "B")]);
    let result = handle_invoke_compute_graph(Some(&g), &invoke_event());
    assert_belongs_to_invocation(&result);
    assert_eq!(nodes_and_inputs(&result), vec![pair("A", INVOCATION)]);
    assert!(result.new_reduction_tasks.is_empty());
    assert!(result.processed_reduction_tasks.is_empty());
    assert!(!result.invocation_finished);
}

#[test]
fn invoke_of_an_unknown_graph_is_dropped() {
    let result = handle_invoke_compute_graph(None, &invoke_event());
    assert_eq!(result.namespace, NS);
    assert_eq!(result.compute_graph, GRAPH);
    assert_eq!(result.invocation_id, INVOCATION);
    assert!(result.tasks.is_empty());
    assert!(result.new_reduction_tasks.is_empty());
    assert!(result.processed_reduction_tasks.is_empty());
    assert!(!result.invocation_finished);
}

#[test]
fn task_identifiers_are_fresh_uuids() {
    let node = compute("A");
    let first = node.create_task(NS, GRAPH, INVOCATION, "in");
    let second = node.create_task(NS, GRAPH, INVOCATION, "in");
    assert_eq!(first.id.chars().count(), 36);
    assert_eq!(second.id.chars().count(), 36);
    assert_ne!(first.id, second.id);
    for (position, character) in first.id.chars().enumerate() {
        if position == 8 || position == 13 || position == 18 || position == 23 {
            assert_eq!(character, '-');
        } else {
            assert!(character.is_ascii_hexdigit());
        }
    }
    assert_eq!(first.compute_fn_name, "A");
    assert_eq!(first.input_key, "in");
    assert_eq!(first.outcome, TaskOutcome::Pending);
}

#[test]
fn task_new_keeps_the_given_identifier() {
    let task = Task::new("id-7".to_string(), NS, GRAPH, "A", INVOCATION, "key");
    assert_eq!(
        task,
        Task {
            id: "id-7".to_string(),
            namespace: NS.to_string(),
            compute_fn_name: "A".to_string(),
            compute_graph_name: GRAPH.to_string(),
            invocation_id: INVOCATION.to_string(),
            input_key: "key".to_string(),
            outcome: TaskOutcome::Pending,
        }
    );
}

#[test]
fn output_key_joins_five_parts() {
    let output = fn_output("o1", "A");
    assert_eq!(output.key("inv-9"), "ns|G|inv-9|A|o1");
}

#[test]
fn reduce_task_key_joins_five_parts() {
    let entry = queued("R", "t4", "ns|G|inv-1|B|o2");
    assert_eq!(entry.key(), "ns|G|inv-1|R|t4");
}

#[test]
fn reducer_task_names_the_node_and_the_output() {
    let entry = reducer("R").reducer_task(NS, GRAPH, INVOCATION, "t4", "some-key");
    assert_eq!(entry, queued("R", "t4", "some-key"));
}

#[test]
fn node_name_and_reducer_flag() {
    assert_eq!(compute("A").name(), "A");
    assert!(!compute("A").reducer());
    assert!(reducer("R").reducer());
    assert_eq!(router("X").name(), "X");
    assert!(!router("X").reducer());
}

#[test]
fn graph_lookups() {
    let g = graph(compute("A"), vec![compute("B"), reducer("R")], &[("A", "B"), ("A", "R")]);
    assert_eq!(g.namespace(), NS);
    assert_eq!(g.name(), GRAPH);
    assert_eq!(g.start_fn(), &compute("A"));
    assert_eq!(g.get_node("A"), Some(&compute("A")));
    assert_eq!(g.get_node("R"), Some(&reducer("R")));
    assert_eq!(g.get_node("Z"), None);
    assert_eq!(g.get_edges("A"), Some(&vec!["B".to_string(), "R".to_string()]));
    assert_eq!(g.get_edges("B"), None);
}

#[test]
fn add_node_replaces_a_node_of_the_same_name() {
    let mut g = graph(compute("A"), vec![compute("B")], &[]);
    g.add_node(reducer("B"));
    assert_eq!(g.get_node("B"), Some(&reducer("B")));
}

#[test]
fn failed_task_with_nothing_outstanding_finishes_the_invocation() {
    let g = graph(compute("A"), vec![compute("B")], &[("A", "B")]);
    let task = finished("t1", "A", INVOCATION, TaskOutcome::Failure);
    let outputs = vec![fn_output("o1", "A")];
    let result = handle_task_finished(&task, &g, &ctx(0), &outputs, None).unwrap();
    assert_belongs_to_invocation(&result);
    assert!(result.invocation_finished);
    assert!(result.tasks.is_empty());
    assert!(result.new_reduction_tasks.is_empty());
    assert!(result.processed_reduction_tasks.is_empty());
}

#[test]
fn failed_task_with_others_outstanding_does_not_finish() {
    let g = graph(compute("A"), vec![compute("B")], &[("A", "B")]);
    let task = finished("t1", "A", INVOCATION, TaskOutcome::Failure);
    let result = handle_task_finished(&task, &g, &ctx(2), &vec![], None).unwrap();
    assert!(!result.invocation_finished);
    assert!(result.tasks.is_empty());
    assert!(result.new_reduction_tasks.is_empty());
}

#[test]
fn failed_reducer_task_leaves_the_queue_alone() {
    let g = graph(compute("A"), vec![reducer("R")], &[("A", "R")]);
    let task = finished("t1", "R", "k", TaskOutcome::Failure);
    let head = queued("R", "t0", "waiting");
    let result = handle_task_finished(&task, &g, &ctx(0), &vec![], Some(&head)).unwrap();
    assert!(result.invocation_finished);
    assert!(result.tasks.is_empty());
    assert!(result.processed_reduction_tasks.is_empty());
}

#[test]
fn start_then_fan_out_to_two_successors() {
    let g = graph(
        compute("A"),
        vec![compute("B"), compute("C")],
        &[("A", "B"), ("A", "C")],
    );
    let started = handle_invoke_compute_graph(Some(&g), &invoke_event());
    assert_eq!(nodes_and_inputs(&started), vec![pair("A", INVOCATION)]);

    let task = finished(&started.tasks[0].id, "A", INVOCATION, TaskOutcome::Success);
    let outputs = vec![fn_output("o1", "A")];
    let result = handle_task_finished(&task, &g, &ctx(0), &outputs, None).unwrap();
    assert_belongs_to_invocation(&result);
    assert_eq!(
        nodes_and_inputs(&result),
        vec![pair("B", "ns|G|inv-1|A|o1"), pair("C", "ns|G|inv-1|A|o1")]
    );
    assert!(result.new_reduction_tasks.is_empty());
    assert!(result.processed_reduction_tasks.is_empty());
    assert!(!result.invocation_finished);
}

#[test]
fn two_branches_meet_at_a_reducer() {
    let g = graph(
        compute("A"),
        vec![compute("B"), compute("C"), reducer("R")],
        &[("A", "B"), ("A", "C"), ("B", "R"), ("C", "R")],
    );
    let task_a = finished("ta", "A", INVOCATION, TaskOutcome::Success);
    let after_a =
        handle_task_finished(&task_a, &g, &ctx(0), &vec![fn_output("oa", "A")], None).unwrap();
    assert_eq!(
        nodes_and_inputs(&after_a),
        vec![pair("B", "ns|G|inv-1|A|oa"), pair("C", "ns|G|inv-1|A|oa")]
    );

    let task_b = finished("tb", "B", "ns|G|inv-1|A|oa", TaskOutcome::Success);
    let after_b =
        handle_task_finished(&task_b, &g, &ctx(1), &vec![fn_output("ob", "B")], None).unwrap();
    assert_eq!(nodes_and_inputs(&after_b), vec![pair("R", "ns|G|inv-1|B|ob")]);
    assert!(after_b.new_reduction_tasks.is_empty());
    assert!(!after_b.invocation_finished);

    // Each event is decided on its own: the completion of C is the first
    // and only candidate of its round, so it becomes a task as well.
    let task_c = finished("tc", "C", "ns|G|inv-1|A|oa", TaskOutcome::Success);
    let after_c =
        handle_task_finished(&task_c, &g, &ctx(1), &vec![fn_output("oc", "C")], None).unwrap();
    assert_eq!(nodes_and_inputs(&after_c), vec![pair("R", "ns|G|inv-1|C|oc")]);
    assert!(after_c.new_reduction_tasks.is_empty());
    assert!(!after_c.invocation_finished);
}

#[test]
fn second_output_for_a_reducer_waits_in_the_queue() {
    let g = graph(compute("B"), vec![reducer("R")], &[("B", "R")]);
    let task = finished("tb", "B", "in", TaskOutcome::Success);
    let outputs = vec![fn_output("o1", "B"), fn_output("o2", "B"), fn_output("o3", "B")];
    let result = handle_task_finished(&task, &g, &ctx(0), &outputs, None).unwrap();
    assert_belongs_to_invocation(&result);
    assert_eq!(nodes_and_inputs(&result), vec![pair("R", "ns|G|inv-1|B|o1")]);
    assert_eq!(
        result.new_reduction_tasks,
        vec![
            queued("R", "tb", "ns|G|inv-1|B|o2"),
            queued("R", "tb", "ns|G|inv-1|B|o3"),
        ]
    );
    assert!(result.processed_reduction_tasks.is_empty());
    assert!(!result.invocation_finished);
}

#[test]
fn reducer_after_another_node_gets_no_task_in_that_round() {
    let g = graph(
        compute("A"),
        vec![compute("B"), reducer("R")],
        &[("A", "B"), ("A", "R")],
    );
    let task = finished("ta", "A", "in", TaskOutcome::Success);
    let outputs = vec![fn_output("o1", "A"), fn_output("o2", "A")];
    let result = handle_task_finished(&task, &g, &ctx(0), &outputs, None).unwrap();
    assert_eq!(
        nodes_and_inputs(&result),
        vec![pair("B", "ns|G|inv-1|A|o1"), pair("B", "ns|G|inv-1|A|o2")]
    );
    assert_eq!(
        result.new_reduction_tasks,
        vec![
            queued("R", "ta", "ns|G|inv-1|A|o1"),
            queued("R", "ta", "ns|G|inv-1|A|o2"),
        ]
    );
}

#[test]
fn fan_out_goes_edge_by_edge_then_output_by_output() {
    let g = graph(
        compute("A"),
        vec![reducer("R"), compute("B"), reducer("S")],
        &[("A", "R"), ("A", "B"), ("A", "S")],
    );
    let task = finished("ta", "A", "in", TaskOutcome::Success);
    let outputs = vec![fn_output("o1", "A"), fn_output("o2", "A")];
    let result = handle_task_finished(&task, &g, &ctx(5), &outputs, None).unwrap();
    assert_eq!(
        nodes_and_inputs(&result),
        vec![
            pair("R", "ns|G|inv-1|A|o1"),
            pair("B", "ns|G|inv-1|A|o1"),
            pair("B", "ns|G|inv-1|A|o2"),
        ]
    );
    assert_eq!(
        result.new_reduction_tasks,
        vec![
            queued("R", "ta", "ns|G|inv-1|A|o2"),
            queued("S", "ta", "ns|G|inv-1|A|o1"),
            queued("S", "ta", "ns|G|inv-1|A|o2"),
        ]
    );
    assert!(!result.invocation_finished);
}

#[test]
fn router_overrides_declared_edges() {
    let g = graph(
        router("X"),
        vec![compute("Y"), compute("Z")],
        &[("X", "Z")],
    );
    let task = finished("tx", "X", "router-input", TaskOutcome::Success);
    let outputs = vec![router_output("ox", "X", &["Y"])];
    let result = handle_task_finished(&task, &g, &ctx(0), &outputs, None).unwrap();
    assert_belongs_to_invocation(&result);
    assert_eq!(nodes_and_inputs(&result), vec![pair("Y", "router-input")]);
    assert!(result.new_reduction_tasks.is_empty());
    assert!(result.processed_reduction_tasks.is_empty());
    assert!(!result.invocation_finished);
}

#[test]
fn router_edges_are_taken_in_the_order_of_the_outputs() {
    let g = graph(
        router("X"),
        vec![compute("Y"), compute("Z"), reducer("R")],
        &[("X", "Z")],
    );
    let task = finished("tx", "X", "router-input", TaskOutcome::Success);
    let outputs = vec![
        router_output("o1", "X", &["Z", "R"]),
        fn_output("o2", "X"),
        router_output("o3", "X", &["R", "Y"]),
    ];
    let result = handle_task_finished(&task, &g, &ctx(4), &outputs, None).unwrap();
    assert_eq!(
        nodes_and_inputs(&result),
        vec![
            pair("Z", "router-input"),
            pair("R", "router-input"),
            pair("R", "router-input"),
            pair("Y", "router-input"),
        ]
    );
    assert!(result.new_reduction_tasks.is_empty());
    assert!(!result.invocation_finished);
}

#[test]
fn router_that_picks_nothing_creates_nothing() {
    let g = graph(router("X"), vec![compute("Z")], &[("X", "Z")]);
    let task = finished("tx", "X", "router-input", TaskOutcome::Success);
    let outputs = vec![router_output("ox", "X", &[])];
    let result = handle_task_finished(&task, &g, &ctx(0), &outputs, None).unwrap();
    assert!(result.tasks.is_empty());
    assert!(result.new_reduction_tasks.is_empty());
    assert!(!result.invocation_finished);
}

#[test]
fn router_edge_to_a_missing_node_is_an_error() {
    let g = graph(router("X"), vec![compute("Y")], &[]);
    let task = finished("tx", "X", "router-input", TaskOutcome::Success);
    let outputs = vec![router_output("ox", "X", &["Y", "nowhere", "neither"])];
    let result = handle_task_finished(&task, &g, &ctx(0), &outputs, None);
    assert_eq!(result, Err(SchedulerError::NodeNotFound("nowhere".to_string())));
}

#[test]
fn declared_edge_to_a_missing_node_is_an_error() {
    let g = graph(compute("A"), vec![compute("B")], &[("A", "B"), ("A", "gone"), ("A", "lost")]);
    let task = finished("ta", "A", "in", TaskOutcome::Success);
    let outputs = vec![fn_output("o1", "A")];
    let result = handle_task_finished(&task, &g, &ctx(0), &outputs, None);
    assert_eq!(result, Err(SchedulerError::NodeNotFound("gone".to_string())));
}

#[test]
fn without_outputs_no_edge_is_followed() {
    let g = graph(compute("A"), vec![], &[("A", "gone")]);
    let task = finished("ta", "A", "in", TaskOutcome::Success);
    let result = handle_task_finished(&task, &g, &ctx(0), &vec![], None).unwrap();
    assert!(result.tasks.is_empty());
    assert!(result.new_reduction_tasks.is_empty());
    assert!(!result.invocation_finished);
}

#[test]
fn reducer_takes_the_head_of_the_queue() {
    let g = graph(compute("B"), vec![reducer("R"), compute("E")], &[("B", "R"), ("R", "E")]);
    let task = finished("tr", "R", "ns|G|inv-1|B|o1", TaskOutcome::Success);
    let outputs = vec![fn_output("acc", "R")];
    let head = queued("R", "tb", "ns|G|inv-1|B|o2");
    let result = handle_task_finished(&task, &g, &ctx(0), &outputs, Some(&head)).unwrap();
    assert_belongs_to_invocation(&result);
    assert_eq!(nodes_and_inputs(&result), vec![pair("R", "ns|G|inv-1|B|o2")]);
    assert!(result.new_reduction_tasks.is_empty());
    assert_eq!(result.processed_reduction_tasks, vec!["ns|G|inv-1|R|tb".to_string()]);
    assert!(!result.invocation_finished);
}

#[test]
fn reducer_with_an_empty_queue_fans_out() {
    let g = graph(compute("B"), vec![reducer("R"), compute("E")], &[("B", "R"), ("R", "E")]);
    let task = finished("tr", "R", "ns|G|inv-1|B|o1", TaskOutcome::Success);
    let outputs = vec![fn_output("acc", "R")];
    let result = handle_task_finished(&task, &g, &ctx(0), &outputs, None).unwrap();
    assert_eq!(nodes_and_inputs(&result), vec![pair("E", "ns|G|inv-1|R|acc")]);
    assert!(result.processed_reduction_tasks.is_empty());
    assert!(!result.invocation_finished);
}

#[test]
fn queue_head_is_ignored_for_a_node_that_is_no_reducer() {
    let g = graph(compute("A"), vec![compute("B")], &[("A", "B")]);
    let task = finished("ta", "A", "in", TaskOutcome::Success);
    let head = queued("R", "tb", "waiting");
    let outputs = vec![fn_output("o1", "A")];
    let result = handle_task_finished(&task, &g, &ctx(0), &outputs, Some(&head)).unwrap();
    assert_eq!(nodes_and_inputs(&result), vec![pair("B", "ns|G|inv-1|A|o1")]);
    assert!(result.processed_reduction_tasks.is_empty());
}

#[test]
fn terminal_node_finishes_only_when_nothing_is_outstanding() {
    let g = graph(compute("A"), vec![compute("E")], &[("A", "E")]);
    let task = finished("te", "E", "in", TaskOutcome::Success);
    let outputs = vec![fn_output("o1", "E")];

    let last = handle_task_finished(&task, &g, &ctx(0), &outputs, None).unwrap();
    assert!(last.invocation_finished);
    assert!(last.tasks.is_empty());
    assert!(last.new_reduction_tasks.is_empty());

    let not_last = handle_task_finished(&task, &g, &ctx(3), &outputs, None).unwrap();
    assert_belongs_to_invocation(&not_last);
    assert!(!not_last.invocation_finished);
    assert!(not_last.tasks.is_empty());
    assert!(not_last.new_reduction_tasks.is_empty());
    assert!(not_last.processed_reduction_tasks.is_empty());
}

#[test]
fn task_on_a_node_that_the_graph_lacks_is_a_leaf() {
    let g = graph(compute("A"), vec![], &[]);
    let task = finished("t", "stranger", "in", TaskOutcome::Success);
    let result = handle_task_finished(&task, &g, &ctx(1), &vec![fn_output("o", "stranger")], None)
        .unwrap();
    assert!(result.tasks.is_empty());
    assert!(!result.invocation_finished);
}

#[test]
fn outputs_are_read_unless_the_task_failed() {
    assert!(reads_task_outputs(&finished("t", "A", "in", TaskOutcome::Success)));
    assert!(reads_task_outputs(&finished("t", "A", "in", TaskOutcome::Pending)));
    assert!(!reads_task_outputs(&finished("t", "A", "in", TaskOutcome::Failure)));
}

#[test]
fn queue_is_read_only_for_a_reducer_without_router_outputs() {
    let g = graph(compute("A"), vec![reducer("R"), router("X")], &[("A", "R")]);
    let plain = vec![fn_output("o1", "R")];
    let routed = vec![fn_output("o1", "R"), router_output("o2", "R", &["A"])];
    assert!(reads_reduction_queue(&finished("t", "R", "in", TaskOutcome::Success), &g, &plain));
    assert!(reads_reduction_queue(&finished("t", "R", "in", TaskOutcome::Success), &g, &vec![]));
    assert!(!reads_reduction_queue(&finished("t", "R", "in", TaskOutcome::Failure), &g, &plain));
    assert!(!reads_reduction_queue(&finished("t", "R", "in", TaskOutcome::Success), &g, &routed));
    assert!(!reads_reduction_queue(&finished("t", "A", "in", TaskOutcome::Success), &g, &plain));
    assert!(!reads_reduction_queue(&finished("t", "X", "in", TaskOutcome::Success), &g, &plain));
    assert!(!reads_reduction_queue(&finished("t", "Q", "in", TaskOutcome::Success), &g, &plain));
}

#[test]
fn router_output_stops_a_reducer_from_draining_the_queue() {
    let g = graph(compute("A"), vec![reducer("R"), compute("Y")], &[("R", "A")]);
    let task = finished("tr", "R", "in", TaskOutcome::Success);
    let head = queued("R", "tb", "waiting");
    let outputs = vec![router_output("o1", "R", &["Y"])];
    let result = handle_task_finished(&task, &g, &ctx(0), &outputs, Some(&head)).unwrap();
    assert_eq!(nodes_and_inputs(&result), vec![pair("Y", "in")]);
    assert!(result.processed_reduction_tasks.is_empty());
}

#[test]
fn declared_edges_do_not_change_a_routed_decision() {
    let with_edges = graph(
        router("X"),
        vec![compute("Y"), compute("Z")],
        &[("X", "Z"), ("X", "Z"), ("X", "gone")],
    );
    let without_edges = graph(router("X"), vec![compute("Y"), compute("Z")], &[]);
    let task = finished("tx", "X", "router-input", TaskOutcome::Success);
    let outputs = vec![router_output("ox", "X", &["Y", "Z"])];
    let first = handle_task_finished(&task, &with_edges, &ctx(7), &outputs, None).unwrap();
    let second = handle_task_finished(&task, &without_edges, &ctx(0), &outputs, None).unwrap();
    assert_eq!(nodes_and_inputs(&first), nodes_and_inputs(&second));
    assert_eq!(
        nodes_and_inputs(&first),
        vec![pair("Y", "router-input"), pair("Z", "router-input")]
    );
    assert_eq!(first.invocation_finished, second.invocation_finished);
}
