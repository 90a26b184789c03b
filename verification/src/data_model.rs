//! The compute graph, its tasks and their outputs.
//!
//! Every executable type has a view: the same record with each string as a
//! `Seq<char>` and each collection as a `Seq` or `Map`. Contracts speak of
//! the views.

use vstd::hash_map::StringHashMap;
use vstd::prelude::*;

verus! {

/// The views of a sequence of strings, in order.
pub open spec fn strings_view(strings: Seq<String>) -> Seq<Seq<char>> {
    strings.map_values(|s: String| s@)
}

/// The text that separates the parts of a storage key: a vertical bar.
pub open spec fn key_separator() -> Seq<char> {
    seq!['|']
}

/// A storage key: five parts joined by [`key_separator`].
pub open spec fn composite_key(
    a: Seq<char>,
    b: Seq<char>,
    c: Seq<char>,
    d: Seq<char>,
    e: Seq<char>,
) -> Seq<char> {
    a + key_separator() + b + key_separator() + c + key_separator() + d + key_separator() + e
}

fn build_composite_key(a: &str, b: &str, c: &str, d: &str, e: &str) -> (key: String)
    ensures
        key@ == composite_key(a@, b@, c@, d@, e@),
{
    proof {
        reveal_strlit("|");
    }
    let mut key = String::from_str(a);
    key.append("|");
    key.append(b);
    key.append("|");
    key.append(c);
    key.append("|");
    key.append(d);
    key.append("|");
    key.append(e);
    key
}

/// How a task ended, as far as the execution layer has reported it.
#[derive(Clone, Copy, Debug, PartialEq, Eq, Structural)]
pub enum TaskOutcome {
    Pending,
    Success,
    Failure,
}

/// One execution of a node of a compute graph on one input.
#[derive(Clone, Debug, PartialEq, Eq)]
pub struct Task {
    pub id: String,
    pub namespace: String,
    pub compute_fn_name: String,
    pub compute_graph_name: String,
    pub invocation_id: String,
    pub input_key: String,
    pub outcome: TaskOutcome,
}

/// The view of a [`Task`].
pub struct TaskView {
    pub id: Seq<char>,
    pub namespace: Seq<char>,
    pub compute_fn_name: Seq<char>,
    pub compute_graph_name: Seq<char>,
    pub invocation_id: Seq<char>,
    pub input_key: Seq<char>,
    pub outcome: TaskOutcome,
}

impl View for Task {
    type V = TaskView;

    open spec fn view(&self) -> TaskView {
        TaskView {
            id: self.id@,
            namespace: self.namespace@,
            compute_fn_name: self.compute_fn_name@,
            compute_graph_name: self.compute_graph_name@,
            invocation_id: self.invocation_id@,
            input_key: self.input_key@,
            outcome: self.outcome,
        }
    }
}

/// The number of characters of a task identifier.
pub open spec fn task_id_len() -> nat {
    36
}

impl TaskView {
    /// A task that has not run yet, on `compute_fn_name`, under any identifier.
    pub open spec fn is_pending_on(
        self,
        namespace: Seq<char>,
        compute_graph_name: Seq<char>,
        compute_fn_name: Seq<char>,
        invocation_id: Seq<char>,
        input_key: Seq<char>,
    ) -> bool {
        &&& self.namespace == namespace
        &&& self.compute_graph_name == compute_graph_name
        &&& self.compute_fn_name == compute_fn_name
        &&& self.invocation_id == invocation_id
        &&& self.input_key == input_key
        &&& self.outcome == TaskOutcome::Pending
    }
}

/// Mints the identifier of a new task with `uuid::Uuid::new_v4`, written out
/// by the `Display` impl of `uuid::Uuid`.
///
/// The identifier is random, so nothing is claimed of its characters: only
/// that there are 36 of them, the length of the hyphenated form that
/// `Display` writes. `new_v4` panics if the operating system cannot supply
/// random bytes.
#[verifier::external_body]
fn fresh_task_id() -> (id: String)
    ensures
        id@.len() == task_id_len(),
{
    uuid::Uuid::new_v4().to_string()
}

impl Task {
    /// A pending task with the given identifier.
    pub fn new(
        id: String,
        namespace: &str,
        compute_graph_name: &str,
        compute_fn_name: &str,
        invocation_id: &str,
        input_key: &str,
    ) -> (task: Task)
        ensures
            task@.id == id@,
            task@.is_pending_on(
                namespace@,
                compute_graph_name@,
                compute_fn_name@,
                invocation_id@,
                input_key@,
            ),
    {
        Task {
            id,
            namespace: String::from_str(namespace),
            compute_fn_name: String::from_str(compute_fn_name),
            compute_graph_name: String::from_str(compute_graph_name),
            invocation_id: String::from_str(invocation_id),
            input_key: String::from_str(input_key),
            outcome: TaskOutcome::Pending,
        }
    }
}

/// An output waiting to be merged by a reducer that is busy.
#[derive(Clone, Debug, PartialEq, Eq)]
pub struct ReduceTask {
    pub namespace: String,
    pub compute_graph_name: String,
    pub invocation_id: String,
    /// The reducer node.
    pub compute_fn_name: String,
    /// The finished task whose output waits.
    pub task_id: String,
    pub task_output_key: String,
}

/// The view of a [`ReduceTask`].
pub struct ReduceTaskView {
    pub namespace: Seq<char>,
    pub compute_graph_name: Seq<char>,
    pub invocation_id: Seq<char>,
    pub compute_fn_name: Seq<char>,
    pub task_id: Seq<char>,
    pub task_output_key: Seq<char>,
}

impl ReduceTaskView {
    /// The key under which the entry is stored, and by which it is dequeued.
    pub open spec fn key(self) -> Seq<char> {
        composite_key(
            self.namespace,
            self.compute_graph_name,
            self.invocation_id,
            self.compute_fn_name,
            self.task_id,
        )
    }
}

impl View for ReduceTask {
    type V = ReduceTaskView;

    open spec fn view(&self) -> ReduceTaskView {
        ReduceTaskView {
            namespace: self.namespace@,
            compute_graph_name: self.compute_graph_name@,
            invocation_id: self.invocation_id@,
            compute_fn_name: self.compute_fn_name@,
            task_id: self.task_id@,
            task_output_key: self.task_output_key@,
        }
    }
}

impl ReduceTask {
    pub fn key(&self) -> (key: String)
        ensures
            key@ == self@.key(),
    {
        build_composite_key(
            self.namespace.as_str(),
            self.compute_graph_name.as_str(),
            self.invocation_id.as_str(),
            self.compute_fn_name.as_str(),
            self.task_id.as_str(),
        )
    }
}

/// An ordinary function of the graph.
#[derive(Clone, Debug, PartialEq, Eq)]
pub struct ComputeFn {
    pub name: String,
    /// Whether the function merges its inputs one at a time.
    pub reducer: bool,
}

/// A function that picks its successors when it runs.
#[derive(Clone, Debug, PartialEq, Eq)]
pub struct DynamicEdgeRouter {
    pub name: String,
}

/// A node of a compute graph.
#[derive(Clone, Debug, PartialEq, Eq)]
pub enum Node {
    Router(DynamicEdgeRouter),
    Compute(ComputeFn),
}

/// The view of a [`Node`].
pub enum NodeView {
    Router { name: Seq<char> },
    Compute { name: Seq<char>, reducer: bool },
}

impl NodeView {
    pub open spec fn name(self) -> Seq<char> {
        match self {
            NodeView::Router { name } => name,
            NodeView::Compute { name, .. } => name,
        }
    }

    /// Only a compute function can be a reducer.
    pub open spec fn reducer(self) -> bool {
        match self {
            NodeView::Router { .. } => false,
            NodeView::Compute { reducer, .. } => reducer,
        }
    }

    /// The queue entry that makes `task_output_key`, an output of the task
    /// `task_id`, wait for this node.
    pub open spec fn reducer_task(
        self,
        namespace: Seq<char>,
        compute_graph_name: Seq<char>,
        invocation_id: Seq<char>,
        task_id: Seq<char>,
        task_output_key: Seq<char>,
    ) -> ReduceTaskView {
        ReduceTaskView {
            namespace,
            compute_graph_name,
            invocation_id,
            compute_fn_name: self.name(),
            task_id,
            task_output_key,
        }
    }
}

impl View for Node {
    type V = NodeView;

    open spec fn view(&self) -> NodeView {
        match self {
            Node::Router(router) => NodeView::Router { name: router.name@ },
            Node::Compute(compute) => NodeView::Compute {
                name: compute.name@,
                reducer: compute.reducer,
            },
        }
    }
}

impl Node {
    pub fn name(&self) -> (name: &str)
        ensures
            name@ == self@.name(),
    {
        match self {
            Node::Router(router) => router.name.as_str(),
            Node::Compute(compute) => compute.name.as_str(),
        }
    }

    pub fn reducer(&self) -> (reducer: bool)
        ensures
            reducer == self@.reducer(),
    {
        match self {
            Node::Router(_) => false,
            Node::Compute(compute) => compute.reducer,
        }
    }

    /// A new pending task on this node, under a fresh identifier.
    pub fn create_task(
        &self,
        namespace: &str,
        compute_graph_name: &str,
        invocation_id: &str,
        input_key: &str,
    ) -> (task: Task)
        ensures
            task@.id.len() == task_id_len(),
            task@.is_pending_on(
                namespace@,
                compute_graph_name@,
                self@.name(),
                invocation_id@,
                input_key@,
            ),
    {
        Task::new(
            fresh_task_id(),
            namespace,
            compute_graph_name,
            self.name(),
            invocation_id,
            input_key,
        )
    }

    pub fn reducer_task(
        &self,
        namespace: &str,
        compute_graph_name: &str,
        invocation_id: &str,
        task_id: &str,
        task_output_key: &str,
    ) -> (entry: ReduceTask)
        ensures
            entry@ == self@.reducer_task(
                namespace@,
                compute_graph_name@,
                invocation_id@,
                task_id@,
                task_output_key@,
            ),
    {
        ReduceTask {
            namespace: String::from_str(namespace),
            compute_graph_name: String::from_str(compute_graph_name),
            invocation_id: String::from_str(invocation_id),
            compute_fn_name: String::from_str(self.name()),
            task_id: String::from_str(task_id),
            task_output_key: String::from_str(task_output_key),
        }
    }
}

/// A reference to a value that a function produced.
#[derive(Clone, Debug, PartialEq, Eq)]
pub struct DataPayload {
    pub path: String,
}

/// The successors that a router picked.
#[derive(Clone, Debug, PartialEq, Eq)]
pub struct RouterOutput {
    pub edges: Vec<String>,
}

/// What an output holds: a router's choice, or a value.
#[derive(Clone, Debug, PartialEq, Eq)]
pub enum OutputPayload {
    Router(RouterOutput),
    Fn(DataPayload),
}

/// The view of an [`OutputPayload`].
pub enum OutputPayloadView {
    Router { edges: Seq<Seq<char>> },
    Fn { path: Seq<char> },
}

impl View for OutputPayload {
    type V = OutputPayloadView;

    open spec fn view(&self) -> OutputPayloadView {
        match self {
            OutputPayload::Router(router) => OutputPayloadView::Router {
                edges: strings_view(router.edges@),
            },
            OutputPayload::Fn(data) => OutputPayloadView::Fn { path: data.path@ },
        }
    }
}

/// One output of a finished task.
#[derive(Clone, Debug, PartialEq, Eq)]
pub struct NodeOutput {
    pub id: String,
    pub namespace: String,
    pub compute_graph_name: String,
    pub compute_fn_name: String,
    pub payload: OutputPayload,
}

/// The view of a [`NodeOutput`].
pub struct NodeOutputView {
    pub id: Seq<char>,
    pub namespace: Seq<char>,
    pub compute_graph_name: Seq<char>,
    pub compute_fn_name: Seq<char>,
    pub payload: OutputPayloadView,
}

impl NodeOutputView {
    /// The reference by which a task of `invocation_id` takes this output
    /// as its input.
    pub open spec fn key(self, invocation_id: Seq<char>) -> Seq<char> {
        composite_key(
            self.namespace,
            self.compute_graph_name,
            invocation_id,
            self.compute_fn_name,
            self.id,
        )
    }

    /// The successors that this output names: none unless a router wrote it.
    pub open spec fn router_edges(self) -> Seq<Seq<char>> {
        match self.payload {
            OutputPayloadView::Router { edges } => edges,
            OutputPayloadView::Fn { .. } => Seq::empty(),
        }
    }
}

impl View for NodeOutput {
    type V = NodeOutputView;

    open spec fn view(&self) -> NodeOutputView {
        NodeOutputView {
            id: self.id@,
            namespace: self.namespace@,
            compute_graph_name: self.compute_graph_name@,
            compute_fn_name: self.compute_fn_name@,
            payload: self.payload@,
        }
    }
}

impl NodeOutput {
    pub fn key(&self, invocation_id: &str) -> (key: String)
        ensures
            key@ == self@.key(invocation_id@),
    {
        build_composite_key(
            self.namespace.as_str(),
            self.compute_graph_name.as_str(),
            invocation_id,
            self.compute_fn_name.as_str(),
            self.id.as_str(),
        )
    }
}

/// The views of a sequence of outputs, in order.
pub open spec fn outputs_view(outputs: Seq<NodeOutput>) -> Seq<NodeOutputView> {
    outputs.map_values(|o: NodeOutput| o@)
}

/// The request to run a compute graph once.
#[derive(Clone, Debug, PartialEq, Eq)]
pub struct InvokeComputeGraphEvent {
    pub invocation_id: String,
    pub namespace: String,
    pub compute_graph: String,
}

/// The view of an [`InvokeComputeGraphEvent`].
pub struct InvokeComputeGraphEventView {
    pub invocation_id: Seq<char>,
    pub namespace: Seq<char>,
    pub compute_graph: Seq<char>,
}

impl View for InvokeComputeGraphEvent {
    type V = InvokeComputeGraphEventView;

    open spec fn view(&self) -> InvokeComputeGraphEventView {
        InvokeComputeGraphEventView {
            invocation_id: self.invocation_id@,
            namespace: self.namespace@,
            compute_graph: self.compute_graph@,
        }
    }
}

/// What the store knows of one invocation when an event is handled.
#[derive(Clone, Debug, PartialEq, Eq)]
pub struct GraphInvocationCtx {
    pub namespace: String,
    pub compute_graph_name: String,
    pub invocation_id: String,
    /// Tasks created and not yet finished.
    pub outstanding_tasks: u64,
}

/// A compute graph: its nodes by name, and for each node the names of its
/// successors in the order in which they were declared.
pub struct ComputeGraph {
    namespace: String,
    name: String,
    start_fn: Node,
    nodes: StringHashMap<Node>,
    edges: StringHashMap<Vec<String>>,
}

/// The view of a [`ComputeGraph`].
pub struct ComputeGraphView {
    pub namespace: Seq<char>,
    pub name: Seq<char>,
    pub start_fn: NodeView,
    pub nodes: Map<Seq<char>, NodeView>,
    pub edges: Map<Seq<char>, Seq<Seq<char>>>,
}

impl ComputeGraphView {
    /// Each node is filed under its own name, and the start node is one of
    /// them. That the successors named by `edges` exist is not part of it.
    pub open spec fn wf(self) -> bool {
        &&& self.nodes.contains_key(self.start_fn.name())
        &&& forall|name: Seq<char>| #[trigger]
            self.nodes.contains_key(name) ==> self.nodes[name].name() == name
    }

    /// The successors declared for `name`, in order: none where there is no
    /// entry.
    pub open spec fn declared_edges(self, name: Seq<char>) -> Seq<Seq<char>> {
        if self.edges.contains_key(name) {
            self.edges[name]
        } else {
            Seq::empty()
        }
    }

    pub open spec fn with_node(self, node: NodeView) -> ComputeGraphView {
        ComputeGraphView { nodes: self.nodes.insert(node.name(), node), ..self }
    }

    pub open spec fn with_edge(self, from: Seq<char>, to: Seq<char>) -> ComputeGraphView {
        ComputeGraphView {
            edges: self.edges.insert(from, self.declared_edges(from).push(to)),
            ..self
        }
    }
}

impl View for ComputeGraph {
    type V = ComputeGraphView;

    closed spec fn view(&self) -> ComputeGraphView {
        ComputeGraphView {
            namespace: self.namespace@,
            name: self.name@,
            start_fn: self.start_fn@,
            nodes: self.nodes@.map_values(|node: Node| node@),
            edges: self.edges@.map_values(|targets: Vec<String>| strings_view(targets@)),
        }
    }
}

fn copy_node(node: &Node) -> (copy: Node)
    ensures
        copy == *node,
{
    match node {
        Node::Router(router) => Node::Router(DynamicEdgeRouter { name: router.name.clone() }),
        Node::Compute(compute) => Node::Compute(
            ComputeFn { name: compute.name.clone(), reducer: compute.reducer },
        ),
    }
}

fn copy_strings(strings: &Vec<String>) -> (copy: Vec<String>)
    ensures
        copy@ == strings@,
{
    let mut copy: Vec<String> = Vec::new();
    let mut i: usize = 0;
    while i < strings.len()
        invariant
            i <= strings.len(),
            copy@ == strings@.take(i as int),
        decreases strings.len() - i,
    {
        copy.push(strings[i].clone());
        i += 1;
    }
    copy
}

impl ComputeGraph {
    /// A graph whose only node is its start node.
    pub fn new(namespace: String, name: String, start_fn: Node) -> (graph: ComputeGraph)
        ensures
            graph@ == (ComputeGraphView {
                namespace: namespace@,
                name: name@,
                start_fn: start_fn@,
                nodes: Map::empty().insert(start_fn@.name(), start_fn@),
                edges: Map::empty(),
            }),
            graph@.wf(),
    {
        let mut nodes: StringHashMap<Node> = StringHashMap::new();
        nodes.insert(String::from_str(start_fn.name()), copy_node(&start_fn));
        let graph = ComputeGraph { namespace, name, start_fn, nodes, edges: StringHashMap::new() };
        assert(graph@.nodes =~= Map::empty().insert(start_fn@.name(), start_fn@));
        assert(graph@.edges =~= Map::empty());
        graph
    }

    /// Files `node` under its name, in place of any node of that name.
    pub fn add_node(&mut self, node: Node)
        ensures
            final(self)@ == old(self)@.with_node(node@),
            old(self)@.wf() ==> final(self)@.wf(),
    {
        self.nodes.insert(String::from_str(node.name()), node);
        assert(self@.nodes =~= old(self)@.with_node(node@).nodes);
    }

    /// Declares `to` as the next successor of `from`, after those declared
    /// before.
    pub fn add_edge(&mut self, from: &str, to: &str)
        ensures
            final(self)@ == old(self)@.with_edge(from@, to@),
            old(self)@.wf() ==> final(self)@.wf(),
    {
        let mut targets = match self.edges.get(from) {
            Some(declared) => copy_strings(declared),
            None => Vec::new(),
        };
        targets.push(String::from_str(to));
        assert(strings_view(targets@) =~= old(self)@.declared_edges(from@).push(to@));
        self.edges.insert(String::from_str(from), targets);
        assert(self@.edges =~= old(self)@.with_edge(from@, to@).edges);
    }

    pub fn namespace(&self) -> (namespace: &str)
        ensures
            namespace@ == self@.namespace,
    {
        self.namespace.as_str()
    }

    pub fn name(&self) -> (name: &str)
        ensures
            name@ == self@.name,
    {
        self.name.as_str()
    }

    pub fn start_fn(&self) -> (node: &Node)
        ensures
            node@ == self@.start_fn,
    {
        &self.start_fn
    }

    /// The node filed under `name`, if there is one.
    pub fn get_node(&self, name: &str) -> (node: Option<&Node>)
        ensures
            node is Some == self@.nodes.contains_key(name@),
            node matches Some(found) ==> found@ == self@.nodes[name@],
    {
        self.nodes.get(name)
    }

    /// The successors declared for `name`, if an edge from it was declared.
    pub fn get_edges(&self, name: &str) -> (edges: Option<&Vec<String>>)
        ensures
            edges is Some == self@.edges.contains_key(name@),
            edges matches Some(declared) ==> strings_view(declared@) == self@.edges[name@],
    {
        self.edges.get(name)
    }
}

} // verus!
