//! The computation-graph model: decoded graph structure, the registry of
//! named values with their provenance, and the node-dependency graph.
use crate::depgraph::{
    graph_add_edge, graph_add_node, graph_edge_count, graph_edge_weight, graph_edges, graph_new,
    graph_node_count, graph_nodes, DepGraph,
};
use crate::registry::{last_index_of, lemma_last_index_of, IdMapper};
use crate::types::{TypeInfo, TypeProto};
use vstd::prelude::*;

verus! {

/// A named value slot as declared in a graph.
pub struct ValueInfoProto {
    pub name: String,
    pub ty: Option<TypeProto>,
}

/// A named constant bound in the graph; its payload is not kept.
pub struct TensorProto {
    pub name: String,
}

/// An operator instance.
pub struct NodeProto {
    pub name: String,
    pub op_type: String,
    pub domain: String,
    pub input: Vec<String>,
    pub output: Vec<String>,
}

pub struct GraphProto {
    pub name: String,
    pub node: Vec<NodeProto>,
    pub initializer: Vec<TensorProto>,
    pub input: Vec<ValueInfoProto>,
    pub output: Vec<ValueInfoProto>,
    pub value_info: Vec<ValueInfoProto>,
}

pub struct OperatorSetIdProto {
    pub domain: String,
    pub version: i64,
}

pub struct ModelProto {
    pub ir_version: i64,
    pub opset_import: Vec<OperatorSetIdProto>,
    pub producer_name: String,
    pub producer_version: String,
    pub domain: String,
    pub model_version: i64,
    pub doc_string: String,
    pub graph: Option<GraphProto>,
}

/// Where the data of a value comes from, when it is not a runtime input.
#[derive(Clone, Copy, Debug, PartialEq, Eq)]
pub enum ValueSource {
    /// Produced by the node with this index.
    Node(usize),
    /// Bound to the initializer with this index.
    Initializer(usize),
}

pub struct ValueInfo {
    pub proto: ValueInfoProto,
    pub source: Option<ValueSource>,
}

impl ValueInfo {
    pub fn name(&self) -> (r: &str)
        ensures
            r@ == self.proto.name@,
    {
        self.proto.name.as_str()
    }

    /// The value's type descriptor, if it declares one.
    pub fn type_info(&self) -> (r: Option<TypeInfo<'_>>)
        ensures
            match self.proto.ty {
                Some(t) => r matches Some(ti) && *ti.0 == t,
                None => r is None,
            },
    {
        match &self.proto.ty {
            Some(t) => Some(TypeInfo(t)),
            None => None,
        }
    }
}

/// Errors of building a graph model.
#[derive(Clone, Copy, Debug, PartialEq, Eq)]
pub enum ModelError {
    /// The model holds no top-level graph.
    MissingGraph,
}

pub open spec fn value_names(vs: Seq<ValueInfoProto>) -> Seq<Seq<char>> {
    vs.map_values(|v: ValueInfoProto| v.name@)
}

pub open spec fn initializer_names(ts: Seq<TensorProto>) -> Seq<Seq<char>> {
    ts.map_values(|t: TensorProto| t.name@)
}

/// All declared values in registration order: value-info entries, then
/// declared inputs, then declared outputs.
pub open spec fn declared_values(g: GraphProto) -> Seq<ValueInfoProto> {
    g.value_info@ + g.input@ + g.output@
}

/// The id of the first declared input.
pub open spec fn first_input_id(g: GraphProto) -> int {
    g.value_info@.len() as int
}

/// The id of the first declared output.
pub open spec fn first_output_id(g: GraphProto) -> int {
    (g.value_info@.len() + g.input@.len()) as int
}

/// The value id that `name` resolves to: the last declared value so named.
pub open spec fn resolve(g: GraphProto, name: Seq<char>) -> Option<int> {
    last_index_of(value_names(declared_values(g)), name)
}

/// The initializer that a declared input named `name` is bound to: the
/// last initializer of that name.
pub open spec fn initializer_of(g: GraphProto, name: Seq<char>) -> Option<int> {
    last_index_of(initializer_names(g.initializer@), name)
}

/// Whether the node's declared outputs include `name`.
pub open spec fn node_outputs(n: NodeProto, name: Seq<char>) -> bool {
    exists|j: int| 0 <= j < n.output@.len() && #[trigger] n.output@[j]@ == name
}

/// The first node among `nodes` that declares `name` as an output.
pub open spec fn first_producer(nodes: Seq<NodeProto>, name: Seq<char>) -> Option<int>
    decreases nodes.len(),
{
    if nodes.len() == 0 {
        None
    } else {
        match first_producer(nodes.drop_last(), name) {
            Some(p) => Some(p),
            None => if node_outputs(nodes.last(), name) {
                Some(nodes.len() - 1)
            } else {
                None
            },
        }
    }
}

/// The provenance that the value with id `id` ends up with: an input bound
/// to an initializer keeps that binding; otherwise the value that its name
/// resolves to is produced by the first node declaring that name as an
/// output; anything else stays unset.
pub open spec fn provenance(g: GraphProto, id: int) -> Option<ValueSource> {
    let name = declared_values(g)[id].name@;
    if first_input_id(g) <= id < first_output_id(g) && initializer_of(g, name) is Some {
        Some(ValueSource::Initializer(initializer_of(g, name)->0 as usize))
    } else if resolve(g, name) == Some(id) && first_producer(g.node@, name) is Some {
        Some(ValueSource::Node(first_producer(g.node@, name)->0 as usize))
    } else {
        None
    }
}

/// `first_producer` over the nodes before `k`, then over the first `j`
/// outputs of node `k`.
pub open spec fn producer_before(nodes: Seq<NodeProto>, name: Seq<char>, k: int, j: int) -> Option<int> {
    match first_producer(nodes.take(k), name) {
        Some(p) => Some(p),
        None => if exists|jj: int| 0 <= jj < j && #[trigger] nodes[k].output@[jj]@ == name {
            Some(k)
        } else {
            None
        },
    }
}

/// `provenance` as it stands once the producer scan has reached output `j`
/// of node `k`.
pub open spec fn provenance_before(g: GraphProto, id: int, k: int, j: int) -> Option<ValueSource> {
    let name = declared_values(g)[id].name@;
    if first_input_id(g) <= id < first_output_id(g) && initializer_of(g, name) is Some {
        Some(ValueSource::Initializer(initializer_of(g, name)->0 as usize))
    } else if resolve(g, name) == Some(id) && producer_before(g.node@, name, k, j) is Some {
        Some(ValueSource::Node(producer_before(g.node@, name, k, j)->0 as usize))
    } else {
        None
    }
}

/// Takes the entry at `i` out of `v`, leaving an empty placeholder.
fn take_value(v: &mut Vec<ValueInfoProto>, i: usize) -> (r: ValueInfoProto)
    requires
        i < old(v)@.len(),
    ensures
        r == old(v)@[i as int],
        final(v)@.len() == old(v)@.len(),
        forall|j: int| 0 <= j < old(v)@.len() && j != i ==> final(v)@[j] == old(v)@[j],
{
    let mut slot = ValueInfoProto { name: String::new(), ty: None };
    std::mem::swap(&mut slot, &mut v[i]);
    slot
}

/// The descriptive fields of a model and of its graph.
pub struct ModelInfo {
    pub ir_version: i64,
    pub opset_import: Vec<OperatorSetIdProto>,
    pub producer_name: String,
    pub producer_version: String,
    pub domain: String,
    pub model_version: i64,
    pub doc_string: String,
    pub graph_name: String,
}

/// A graph-format model with its value registry and dependency graph.
pub struct OnnxModel {
    info: ModelInfo,
    nodes: Vec<NodeProto>,
    values: IdMapper<ValueInfo>,
    node_graph: DepGraph,
    inputs: Vec<usize>,
    outputs: Vec<usize>,
}

impl OnnxModel {
    pub closed spec fn model_info(&self) -> ModelInfo {
        self.info
    }

    /// The graph's nodes in declaration order; a node's id is its index.
    pub closed spec fn node_seq(&self) -> Seq<NodeProto> {
        self.nodes@
    }

    /// Every registered value, by id.
    pub closed spec fn value_seq(&self) -> Seq<ValueInfo> {
        self.values.values()
    }

    /// The name each value id was registered under.
    pub closed spec fn value_names(&self) -> Seq<Seq<char>> {
        self.values.names()
    }

    /// Ids of the declared inputs, in declaration order.
    pub closed spec fn input_ids(&self) -> Seq<usize> {
        self.inputs@
    }

    /// Ids of the declared outputs, in declaration order.
    pub closed spec fn output_ids(&self) -> Seq<usize> {
        self.outputs@
    }

    /// The nodes of the dependency graph.
    pub closed spec fn dep_nodes(&self) -> Set<usize> {
        graph_nodes(self.node_graph)
    }

    /// The edges of the dependency graph, `(producer, consumer)`, each
    /// weighted by the id of the value carried.
    pub closed spec fn dep_edges(&self) -> Map<(usize, usize), usize> {
        graph_edges(self.node_graph)
    }

    #[verifier::type_invariant]
    pub closed spec fn wf(&self) -> bool {
        &&& self.values.wf()
        &&& self.nodes@.len() <= usize::MAX
        &&& forall|i: int| 0 <= i < self.inputs@.len() ==> self.inputs@[i] < self.values.values().len()
        &&& forall|i: int| 0 <= i < self.outputs@.len() ==> self.outputs@[i] < self.values.values().len()
    }

    /// The model is what `from_proto` builds from `p`.
    pub open spec fn built_from(&self, p: ModelProto) -> bool {
        &&& self.wf()
        &&& p.graph is Some
        &&& self.model_info().ir_version == p.ir_version
        &&& self.model_info().opset_import == p.opset_import
        &&& self.model_info().producer_name == p.producer_name
        &&& self.model_info().producer_version == p.producer_version
        &&& self.model_info().domain == p.domain
        &&& self.model_info().model_version == p.model_version
        &&& self.model_info().doc_string == p.doc_string
        &&& graph_built_from(self, p.graph->0)
    }
}

/// The graph part of `OnnxModel::built_from`.
pub open spec fn graph_built_from(m: &OnnxModel, g: GraphProto) -> bool {
    let vs = declared_values(g);
    &&& m.model_info().graph_name == g.name
    &&& m.node_seq() == g.node@
    &&& m.value_names() == value_names(vs)
    &&& m.value_seq().len() == vs.len()
    &&& forall|id: int| 0 <= id < vs.len() ==> (#[trigger] m.value_seq()[id]).proto == vs[id]
    &&& forall|id: int| 0 <= id < vs.len() ==> (#[trigger] m.value_seq()[id]).source == provenance(g, id)
    &&& m.input_ids().len() == g.input@.len()
    &&& forall|i: int| 0 <= i < g.input@.len() ==> #[trigger] m.input_ids()[i] == first_input_id(g) + i
    &&& m.output_ids().len() == g.output@.len()
    &&& forall|i: int| 0 <= i < g.output@.len() ==> #[trigger] m.output_ids()[i] == first_output_id(g) + i
    &&& m.dep_nodes() == Set::new(|x: usize| x < g.node@.len())
    &&& dependency_edges(g, m.dep_edges())
}

/// The provenance a value has before any node is scanned: a declared input
/// named like an initializer is bound to it, anything else is unset.
pub open spec fn initial_provenance(g: GraphProto, id: int) -> Option<ValueSource> {
    let name = declared_values(g)[id].name@;
    if first_input_id(g) <= id < first_output_id(g) && initializer_of(g, name) is Some {
        Some(ValueSource::Initializer(initializer_of(g, name)->0 as usize))
    } else {
        None
    }
}

/// Builds the initializer lookup: each name resolves to its last index.
fn initializer_ids(inits: &Vec<TensorProto>) -> (r: IdMapper<()>)
    ensures
        r.wf(),
        r.names() == initializer_names(inits@),
{
    let mut m: IdMapper<()> = IdMapper::new();
    let mut t: usize = 0;
    while t < inits.len()
        invariant
            m.wf(),
            t <= inits@.len(),
            m.names() == initializer_names(inits@).take(t as int),
        decreases inits@.len() - t,
    {
        m.insert(inits[t].name.as_str(), ());
        assert(m.names() =~= initializer_names(inits@).take(t as int + 1));
        t = t + 1;
    }
    assert(m.names() =~= initializer_names(inits@));
    m
}

/// Registers `protos[i]` for each `i` as a value with unset provenance or,
/// when `inits` is given and holds its name, bound to that initializer.
fn register_values(
    values: &mut IdMapper<ValueInfo>,
    protos: &mut Vec<ValueInfoProto>,
    inits: Option<&IdMapper<()>>,
) -> (ids: Vec<usize>)
    requires
        old(values).wf(),
        inits matches Some(m) ==> m.wf(),
    ensures
        final(values).wf(),
        final(values).names() == old(values).names() + value_names(old(protos)@),
        final(values).values().len() == old(values).values().len() + old(protos)@.len(),
        forall|id: int| 0 <= id < old(values).values().len() ==> #[trigger] final(values).values()[id]
            == old(values).values()[id],
        forall|i: int| 0 <= i < old(protos)@.len() ==> {
            let v = #[trigger] final(values).values()[old(values).values().len() + i];
            &&& v.proto == old(protos)@[i]
            &&& v.source == match inits {
                Some(m) => match m.id_of(old(protos)@[i].name@) {
                    Some(k) => Some(ValueSource::Initializer(k as usize)),
                    None => None,
                },
                None => None,
            }
        },
        ids@.len() == old(protos)@.len(),
        forall|i: int| 0 <= i < ids@.len() ==> #[trigger] ids@[i] == old(values).values().len() + i,
{
    let ghost v0 = *values;
    let ghost given = protos@;
    let n = protos.len();
    let mut ids: Vec<usize> = Vec::new();
    let mut i: usize = 0;
    while i < n
        invariant
            values.wf(),
            inits matches Some(m) ==> m.wf(),
            n == given.len(),
            protos@.len() == n,
            i <= n,
            forall|j: int| i <= j < n ==> protos@[j] == given[j],
            values.names() == v0.names() + value_names(given).take(i as int),
            values.values().len() == v0.values().len() + i,
            forall|id: int| 0 <= id < v0.values().len() ==> #[trigger] values.values()[id]
                == v0.values()[id],
            forall|j: int| 0 <= j < i ==> {
                let v = #[trigger] values.values()[v0.values().len() + j];
                &&& v.proto == given[j]
                &&& v.source == match inits {
                    Some(m) => match m.id_of(given[j].name@) {
                        Some(k) => Some(ValueSource::Initializer(k as usize)),
                        None => None,
                    },
                    None => None,
                }
            },
            ids@.len() == i,
            forall|j: int| 0 <= j < i ==> #[trigger] ids@[j] == v0.values().len() + j,
        decreases n - i,
    {
        let proto = take_value(protos, i);
        let source = match inits {
            Some(m) => match m.get_id_by_name(proto.name.as_str()) {
                Some(k) => Some(ValueSource::Initializer(k)),
                None => None,
            },
            None => None,
        };
        let name = proto.name.clone();
        let id = values.insert(name.as_str(), ValueInfo { proto, source });
        assert(values.names() =~= v0.names() + value_names(given).take(i as int + 1));
        assert(values.values()[v0.values().len() + i] == values.values()[id as int]);
        ids.push(id);
        i = i + 1;
    }
    assert(value_names(given).take(n as int) =~= value_names(given));
    ids
}

/// The producer and the value id that a node input named `name` depends
/// on: set when the name resolves to a value produced by a node.
pub open spec fn dependency(g: GraphProto, name: Seq<char>) -> Option<(usize, usize)> {
    match resolve(g, name) {
        Some(id) => match provenance(g, id) {
            Some(ValueSource::Node(x)) => Some((x, id as usize)),
            _ => None,
        },
        None => None,
    }
}

/// What input `j` of node `k` depends on.
pub open spec fn input_dependency(g: GraphProto, k: int, j: int) -> Option<(usize, usize)> {
    dependency(g, g.node@[k].input@[j]@)
}

/// Input `j` of node `k` depends on node `x`.
pub open spec fn depends_on(g: GraphProto, k: int, j: int, x: usize) -> bool {
    input_dependency(g, k, j) is Some && (input_dependency(g, k, j)->0).0 == x
}

/// Input `j` of node `k` exists and comes before input `j2` of node `k2`.
pub open spec fn scanned_before(g: GraphProto, k: int, j: int, k2: int, j2: int) -> bool {
    &&& 0 <= k < g.node@.len()
    &&& 0 <= j < g.node@[k].input@.len()
    &&& (k < k2 || (k == k2 && j < j2))
}

/// `e` holds the dependency edges of the inputs before input `j2` of node
/// `k2`: an edge `x -> k` for each node `k` with such an input produced by
/// `x`, weighted by the value id of the last of those inputs.
pub open spec fn edges_before(g: GraphProto, e: Map<(usize, usize), usize>, k2: int, j2: int) -> bool {
    &&& forall|x: usize, k: usize| #[trigger] e.contains_key((x, k)) <==>
        exists|j: int| scanned_before(g, k as int, j, k2, j2) && #[trigger] depends_on(g, k as int, j, x)
    &&& forall|x: usize, k: usize| #[trigger] e.contains_key((x, k)) ==>
        exists|j: int| {
            &&& scanned_before(g, k as int, j, k2, j2)
            &&& #[trigger] input_dependency(g, k as int, j) == Some((x, e[(x, k)]))
            &&& forall|j3: int| j < j3 && scanned_before(g, k as int, j3, k2, j2)
                ==> !(#[trigger] depends_on(g, k as int, j3, x))
        }
}

/// The dependency graph of `g` has exactly the edges `e`.
pub open spec fn dependency_edges(g: GraphProto, e: Map<(usize, usize), usize>) -> bool {
    edges_before(g, e, g.node@.len() as int, 0)
}

proof fn lemma_first_producer(nodes: Seq<NodeProto>, name: Seq<char>)
    ensures
        first_producer(nodes, name) matches Some(p) ==> 0 <= p < nodes.len() && node_outputs(nodes[p], name),
        first_producer(nodes, name) is None ==> forall|p: int| 0 <= p < nodes.len() ==> !node_outputs(#[trigger] nodes[p], name),
    decreases nodes.len(),
{
    if nodes.len() > 0 {
        lemma_first_producer(nodes.drop_last(), name);
        assert(forall|p: int| 0 <= p < nodes.len() - 1 ==> nodes.drop_last()[p] == nodes[p]);
    }
}

proof fn lemma_edges_start(g: GraphProto, e: Map<(usize, usize), usize>)
    requires
        e.dom().is_empty(),
    ensures
        edges_before(g, e, 0, 0),
{
    assert forall|x: usize, k: usize| #[trigger] e.contains_key((x, k)) <==>
        exists|j: int| scanned_before(g, k as int, j, 0, 0) && #[trigger] depends_on(g, k as int, j, x) by {
        assert(!e.dom().contains((x, k)));
    }
}

proof fn lemma_edges_step(g: GraphProto, e: Map<(usize, usize), usize>, k: int, j: int)
    requires
        edges_before(g, e, k, j),
        0 <= k < g.node@.len(),
        0 <= j < g.node@[k].input@.len(),
        k <= usize::MAX,
    ensures
        match input_dependency(g, k, j) {
            Some((x, w)) => edges_before(g, e.insert((x, k as usize), w), k, j + 1),
            None => edges_before(g, e, k, j + 1),
        },
{
    match input_dependency(g, k, j) {
        Some((x, w)) => {
            let e2 = e.insert((x, k as usize), w);
            assert(depends_on(g, k, j, x));
            assert forall|x1: usize, k1: usize| #[trigger] e2.contains_key((x1, k1)) <==>
                exists|j1: int| scanned_before(g, k1 as int, j1, k, j + 1) && #[trigger] depends_on(g, k1 as int, j1, x1) by {
                if e2.contains_key((x1, k1)) && !((x1, k1) == (x, k as usize)) {
                    assert(e.contains_key((x1, k1)));
                    let j1 = choose|j1: int| scanned_before(g, k1 as int, j1, k, j) && #[trigger] depends_on(g, k1 as int, j1, x1);
                    assert(scanned_before(g, k1 as int, j1, k, j + 1));
                }
                if exists|j1: int| scanned_before(g, k1 as int, j1, k, j + 1) && #[trigger] depends_on(g, k1 as int, j1, x1) {
                    let j1 = choose|j1: int| scanned_before(g, k1 as int, j1, k, j + 1) && #[trigger] depends_on(g, k1 as int, j1, x1);
                    if !(k1 as int == k && j1 == j) {
                        assert(scanned_before(g, k1 as int, j1, k, j));
                        assert(e.contains_key((x1, k1)));
                    }
                }
            }
            assert forall|x1: usize, k1: usize| #[trigger] e2.contains_key((x1, k1)) implies
                exists|j1: int| {
                    &&& scanned_before(g, k1 as int, j1, k, j + 1)
                    &&& #[trigger] input_dependency(g, k1 as int, j1) == Some((x1, e2[(x1, k1)]))
                    &&& forall|j3: int| j1 < j3 && scanned_before(g, k1 as int, j3, k, j + 1)
                        ==> !(#[trigger] depends_on(g, k1 as int, j3, x1))
                } by {
                if (x1, k1) == (x, k as usize) {
                    assert(scanned_before(g, k1 as int, j, k, j + 1));
                    assert(input_dependency(g, k1 as int, j) == Some((x1, e2[(x1, k1)])));
                } else {
                    let j1 = choose|j1: int| {
                        &&& scanned_before(g, k1 as int, j1, k, j)
                        &&& #[trigger] input_dependency(g, k1 as int, j1) == Some((x1, e[(x1, k1)]))
                        &&& forall|j3: int| j1 < j3 && scanned_before(g, k1 as int, j3, k, j)
                            ==> !(#[trigger] depends_on(g, k1 as int, j3, x1))
                    };
                    assert(scanned_before(g, k1 as int, j1, k, j + 1));
                    assert forall|j3: int| j1 < j3 && scanned_before(g, k1 as int, j3, k, j + 1)
                        implies !(#[trigger] depends_on(g, k1 as int, j3, x1)) by {
                        if !(k1 as int == k && j3 == j) {
                            assert(scanned_before(g, k1 as int, j3, k, j));
                        }
                    }
                }
            }
        },
        None => {
            assert(!depends_on(g, k, j, 0));
            assert forall|x1: usize, k1: usize| #[trigger] e.contains_key((x1, k1)) <==>
                exists|j1: int| scanned_before(g, k1 as int, j1, k, j + 1) && #[trigger] depends_on(g, k1 as int, j1, x1) by {
                if exists|j1: int| scanned_before(g, k1 as int, j1, k, j + 1) && #[trigger] depends_on(g, k1 as int, j1, x1) {
                    let j1 = choose|j1: int| scanned_before(g, k1 as int, j1, k, j + 1) && #[trigger] depends_on(g, k1 as int, j1, x1);
                    assert(scanned_before(g, k1 as int, j1, k, j));
                }
                if e.contains_key((x1, k1)) {
                    let j1 = choose|j1: int| scanned_before(g, k1 as int, j1, k, j) && #[trigger] depends_on(g, k1 as int, j1, x1);
                    assert(scanned_before(g, k1 as int, j1, k, j + 1));
                }
            }
            assert forall|x1: usize, k1: usize| #[trigger] e.contains_key((x1, k1)) implies
                exists|j1: int| {
                    &&& scanned_before(g, k1 as int, j1, k, j + 1)
                    &&& #[trigger] input_dependency(g, k1 as int, j1) == Some((x1, e[(x1, k1)]))
                    &&& forall|j3: int| j1 < j3 && scanned_before(g, k1 as int, j3, k, j + 1)
                        ==> !(#[trigger] depends_on(g, k1 as int, j3, x1))
                } by {
                let j1 = choose|j1: int| {
                    &&& scanned_before(g, k1 as int, j1, k, j)
                    &&& #[trigger] input_dependency(g, k1 as int, j1) == Some((x1, e[(x1, k1)]))
                    &&& forall|j3: int| j1 < j3 && scanned_before(g, k1 as int, j3, k, j)
                        ==> !(#[trigger] depends_on(g, k1 as int, j3, x1))
                };
                assert(scanned_before(g, k1 as int, j1, k, j + 1));
                assert forall|j3: int| j1 < j3 && scanned_before(g, k1 as int, j3, k, j + 1)
                    implies !(#[trigger] depends_on(g, k1 as int, j3, x1)) by {
                    if !(k1 as int == k && j3 == j) {
                        assert(scanned_before(g, k1 as int, j3, k, j));
                    }
                }
            }
        },
    }
}

proof fn lemma_edges_next_node(g: GraphProto, e: Map<(usize, usize), usize>, k: int)
    requires
        edges_before(g, e, k, g.node@[k].input@.len() as int),
        0 <= k < g.node@.len(),
    ensures
        edges_before(g, e, k + 1, 0),
{
    assert forall|k1: int, j1: int| scanned_before(g, k1, j1, k, g.node@[k].input@.len() as int)
        == scanned_before(g, k1, j1, k + 1, 0) by {}
}

proof fn lemma_producer_step(nodes: Seq<NodeProto>, name: Seq<char>, k: int, j: int)
    requires
        0 <= k < nodes.len(),
        0 <= j < nodes[k].output@.len(),
    ensures
        producer_before(nodes, name, k, j + 1) == (if nodes[k].output@[j]@ == name
            && producer_before(nodes, name, k, j) is None {
            Some(k)
        } else {
            producer_before(nodes, name, k, j)
        }),
{
    if nodes[k].output@[j]@ == name {
        assert(exists|jj: int| 0 <= jj < j + 1 && #[trigger] nodes[k].output@[jj]@ == name);
    } else {
        assert forall|jj: int| 0 <= jj < j + 1 && #[trigger] nodes[k].output@[jj]@ == name implies 0 <= jj < j by {}
    }
}

proof fn lemma_producer_next_node(nodes: Seq<NodeProto>, name: Seq<char>, k: int)
    requires
        0 <= k < nodes.len(),
    ensures
        producer_before(nodes, name, k, nodes[k].output@.len() as int)
            == producer_before(nodes, name, k + 1, 0),
{
    let t = nodes.take(k + 1);
    assert(t.drop_last() =~= nodes.take(k));
    assert(t.last() == nodes[k]);
    if first_producer(nodes.take(k), name) is None {
        if node_outputs(nodes[k], name) {
            let jj = choose|jj: int| 0 <= jj < nodes[k].output@.len() && #[trigger] nodes[k].output@[jj]@ == name;
            assert(0 <= jj < nodes[k].output@.len() && nodes[k].output@[jj]@ == name);
        }
    }
}

proof fn lemma_producer_ends(nodes: Seq<NodeProto>, name: Seq<char>)
    ensures
        producer_before(nodes, name, 0, 0) is None,
        producer_before(nodes, name, nodes.len() as int, 0) == first_producer(nodes, name),
{
    assert(nodes.take(0).len() == 0);
    assert(nodes.take(nodes.len() as int) =~= nodes);
}

impl OnnxModel {
    /// Builds the model from a decoded graph-format tree. Declared values
    /// are registered in the order value-info entries, inputs, outputs;
    /// then every node claims its outputs, and finally each node input
    /// produced by a node becomes a dependency edge.
    pub fn from_proto(proto: ModelProto) -> (r: Result<OnnxModel, ModelError>)
        ensures
            proto.graph is None ==> r == Err::<OnnxModel, ModelError>(ModelError::MissingGraph),
            proto.graph is Some ==> (r matches Ok(m) && m.built_from(proto)),
    {
        let ModelProto {
            ir_version,
            opset_import,
            producer_name,
            producer_version,
            domain,
            model_version,
            doc_string,
            graph,
        } = proto;
        let graph = match graph {
            Some(g) => g,
            None => {
                return Err(ModelError::MissingGraph);
            },
        };
        let ghost g = graph;
        let GraphProto { name: graph_name, node: nodes, initializer, input, output, value_info } =
            graph;
        let mut input = input;
        let mut output = output;
        let mut value_info = value_info;
        let ghost dv = declared_values(g);

        let init_map = initializer_ids(&initializer);
        let mut values: IdMapper<ValueInfo> = IdMapper::new();
        register_values(&mut values, &mut value_info, None);
        let ghost values0 = values;
        let inputs = register_values(&mut values, &mut input, Some(&init_map));
        let ghost values1 = values;
        let outputs = register_values(&mut values, &mut output, None);
        proof {
            assert(values.names() =~= value_names(dv));
            assert forall|id: int| 0 <= id < dv.len() implies {
                &&& (#[trigger] values.values()[id]).proto == dv[id]
                &&& values.values()[id].source == initial_provenance(g, id)
            } by {
                let n0 = g.value_info@.len() as int;
                let n1 = first_output_id(g);
                if n0 <= id < n1 {
                    assert(dv[id] == g.input@[id - n0]);
                    assert(init_map.names() == initializer_names(g.initializer@));
                    assert(values1.values()[id] == values.values()[id]);
                    assert(values1.values()[n0 + (id - n0)] == values1.values()[id]);
                    assert(values.values()[id].proto == dv[id]);
                    assert(values.values()[id].source == initial_provenance(g, id));
                } else if id >= n1 {
                    assert(dv[id] == g.output@[id - n1]);
                    assert(values.values()[n1 + (id - n1)] == values.values()[id]);
                    assert(values.values()[id].proto == dv[id]);
                    assert(values.values()[id].source == initial_provenance(g, id));
                } else {
                    assert(dv[id] == g.value_info@[id]);
                    assert(values0.values()[0 + id] == values0.values()[id]);
                    assert(values0.values()[id] == values1.values()[id]);
                    assert(values1.values()[id] == values.values()[id]);
                    assert(values.values()[id].proto == dv[id]);
                    assert(values.values()[id].source == initial_provenance(g, id));
                }
            }
        }

        let mut node_graph = graph_new();
        let n_nodes = nodes.len();
        let mut k: usize = 0;
        while k < n_nodes
            invariant
                values.wf(),
                nodes@ == g.node@,
                n_nodes == nodes@.len(),
                dv == declared_values(g),
                values.names() == value_names(dv),
                values.values().len() == dv.len(),
                k <= n_nodes,
                forall|id: int| 0 <= id < dv.len() ==> (#[trigger] values.values()[id]).proto == dv[id],
                forall|id: int| 0 <= id < dv.len() ==> (#[trigger] values.values()[id]).source
                    == provenance_before(g, id, k as int, 0),
                graph_nodes(node_graph) == Set::new(|x: usize| x < k),
                graph_edges(node_graph).dom().is_empty(),
            decreases n_nodes - k,
        {
            graph_add_node(&mut node_graph, k);
            assert(graph_nodes(node_graph) =~= Set::new(|x: usize| x < k + 1));
            let n_outs = nodes[k].output.len();
            let mut j: usize = 0;
            while j < n_outs
                invariant
                    values.wf(),
                    nodes@ == g.node@,
                    n_nodes == nodes@.len(),
                    k < n_nodes,
                    n_outs == nodes@[k as int].output@.len(),
                    j <= n_outs,
                    dv == declared_values(g),
                    values.names() == value_names(dv),
                    values.values().len() == dv.len(),
                    forall|id: int| 0 <= id < dv.len() ==> (#[trigger] values.values()[id]).proto == dv[id],
                    forall|id: int| 0 <= id < dv.len() ==> (#[trigger] values.values()[id]).source
                        == provenance_before(g, id, k as int, j as int),
                decreases n_outs - j,
            {
                let ghost nm = nodes@[k as int].output@[j as int]@;
                proof {
                    lemma_last_index_of(values.names(), nm);
                }
                if let Some(v) = values.get_by_name_mut(nodes[k].output[j].as_str()) {
                    if v.source.is_none() {
                        v.source = Some(ValueSource::Node(k));
                    }
                }
                proof {
                    assert forall|id: int| 0 <= id < dv.len() implies (#[trigger] values.values()[id]).source
                        == provenance_before(g, id, k as int, j as int + 1) by {
                        lemma_producer_step(g.node@, dv[id].name@, k as int, j as int);
                        assert(value_names(dv)[id] == dv[id].name@);
                    }
                }
                j = j + 1;
            }
            proof {
                assert forall|id: int| 0 <= id < dv.len() implies (#[trigger] values.values()[id]).source
                    == provenance_before(g, id, k as int + 1, 0) by {
                    lemma_producer_next_node(g.node@, dv[id].name@, k as int);
                }
            }
            k = k + 1;
        }
        proof {
            assert forall|id: int| 0 <= id < dv.len() implies (#[trigger] values.values()[id]).source
                == provenance(g, id) by {
                lemma_producer_ends(g.node@, dv[id].name@);
            }
        }

        proof {
            lemma_edges_start(g, graph_edges(node_graph));
        }
        let mut k: usize = 0;
        while k < n_nodes
            invariant
                values.wf(),
                nodes@ == g.node@,
                n_nodes == nodes@.len(),
                dv == declared_values(g),
                values.names() == value_names(dv),
                values.values().len() == dv.len(),
                k <= n_nodes,
                forall|id: int| 0 <= id < dv.len() ==> (#[trigger] values.values()[id]).proto == dv[id],
                forall|id: int| 0 <= id < dv.len() ==> (#[trigger] values.values()[id]).source
                    == provenance(g, id),
                graph_nodes(node_graph) == Set::new(|x: usize| x < n_nodes),
                edges_before(g, graph_edges(node_graph), k as int, 0),
            decreases n_nodes - k,
        {
            let n_ins = nodes[k].input.len();
            let mut j: usize = 0;
            while j < n_ins
                invariant
                    values.wf(),
                    nodes@ == g.node@,
                    n_nodes == nodes@.len(),
                    k < n_nodes,
                    n_ins == nodes@[k as int].input@.len(),
                    j <= n_ins,
                    dv == declared_values(g),
                    values.names() == value_names(dv),
                    values.values().len() == dv.len(),
                    forall|id: int| 0 <= id < dv.len() ==> (#[trigger] values.values()[id]).source
                        == provenance(g, id),
                    graph_nodes(node_graph) == Set::new(|x: usize| x < n_nodes),
                    edges_before(g, graph_edges(node_graph), k as int, j as int),
                decreases n_ins - j,
            {
                proof {
                    lemma_edges_step(g, graph_edges(node_graph), k as int, j as int);
                    lemma_last_index_of(values.names(), nodes@[k as int].input@[j as int]@);
                }
                if let Some(value_id) = values.get_id_by_name(nodes[k].input[j].as_str()) {
                    let value_info = values.get_by_id(value_id);
                    if let Some(ValueSource::Node(dep_node)) = value_info.source {
                        proof {
                            let nm = dv[value_id as int].name@;
                            assert(value_names(dv)[value_id as int] == nm);
                            lemma_first_producer(g.node@, nm);
                        }
                        graph_add_edge(&mut node_graph, dep_node, k, value_id);
                        assert(graph_nodes(node_graph) =~= Set::new(|x: usize| x < n_nodes));
                    }
                }
                j = j + 1;
            }
            proof {
                lemma_edges_next_node(g, graph_edges(node_graph), k as int);
            }
            k = k + 1;
        }

        let info = ModelInfo {
            ir_version,
            opset_import,
            producer_name,
            producer_version,
            domain,
            model_version,
            doc_string,
            graph_name,
        };
        Ok(OnnxModel { info, nodes, values, node_graph, inputs, outputs })
    }
}


impl OnnxModel {
    /// Ids of the declared inputs that are runtime inputs: those whose
    /// provenance is unset.
    pub open spec fn true_input_ids(&self) -> Seq<usize> {
        self.input_ids().filter(|id: usize| self.value_seq()[id as int].source is None)
    }

    pub fn info(&self) -> (r: &ModelInfo)
        ensures
            *r == self.model_info(),
    {
        &self.info
    }

    pub fn nodes(&self) -> (r: &Vec<NodeProto>)
        ensures
            r@ == self.node_seq(),
    {
        &self.nodes
    }

    /// Number of declared inputs, runtime or bound.
    pub fn declared_input_count(&self) -> (r: usize)
        ensures
            r == self.input_ids().len(),
    {
        self.inputs.len()
    }

    /// The declared inputs, in declaration order.
    pub fn inputs(&self) -> (r: Vec<&ValueInfo>)
        ensures
            r@.len() == self.input_ids().len(),
            forall|i: int| 0 <= i < r@.len() ==> *r@[i] == self.value_seq()[self.input_ids()[i] as int],
    {
        proof {
            use_type_invariant(self);
        }
        self.values_of(&self.inputs)
    }

    /// The declared outputs, in declaration order, whatever their provenance.
    pub fn outputs(&self) -> (r: Vec<&ValueInfo>)
        ensures
            r@.len() == self.output_ids().len(),
            forall|i: int| 0 <= i < r@.len() ==> *r@[i] == self.value_seq()[self.output_ids()[i] as int],
    {
        proof {
            use_type_invariant(self);
        }
        self.values_of(&self.outputs)
    }

    fn values_of(&self, ids: &Vec<usize>) -> (r: Vec<&ValueInfo>)
        requires
            self.values.wf(),
            forall|i: int| 0 <= i < ids@.len() ==> ids@[i] < self.values.values().len(),
        ensures
            r@.len() == ids@.len(),
            forall|i: int| 0 <= i < r@.len() ==> *r@[i] == self.value_seq()[ids@[i] as int],
    {
        let mut r: Vec<&ValueInfo> = Vec::new();
        let mut i: usize = 0;
        while i < ids.len()
            invariant
                self.values.wf(),
                forall|i: int| 0 <= i < ids@.len() ==> ids@[i] < self.values.values().len(),
                i <= ids@.len(),
                r@.len() == i,
                forall|j: int| 0 <= j < i ==> *r@[j] == self.value_seq()[ids@[j] as int],
            decreases ids@.len() - i,
        {
            r.push(self.values.get_by_id(ids[i]));
            i = i + 1;
        }
        r
    }

    /// The runtime inputs: declared inputs bound neither to an initializer
    /// nor to a producing node, in declaration order.
    pub fn true_inputs(&self) -> (r: Vec<&ValueInfo>)
        ensures
            r@.len() == self.true_input_ids().len(),
            forall|i: int| 0 <= i < r@.len() ==> *r@[i] == self.value_seq()[self.true_input_ids()[i] as int],
    {
        proof {
            use_type_invariant(self);
        }
        let ghost pred = |id: usize| self.value_seq()[id as int].source is None;
        let mut r: Vec<&ValueInfo> = Vec::new();
        let mut i: usize = 0;
        while i < self.inputs.len()
            invariant
                self.wf(),
                pred == (|id: usize| self.value_seq()[id as int].source is None),
                i <= self.inputs@.len(),
                r@.len() == self.inputs@.take(i as int).filter(pred).len(),
                forall|j: int| 0 <= j < r@.len() ==> *r@[j]
                    == self.value_seq()[self.inputs@.take(i as int).filter(pred)[j] as int],
            decreases self.inputs@.len() - i,
        {
            proof {
                reveal(Seq::filter);
                assert(self.inputs@.take(i as int + 1).drop_last() =~= self.inputs@.take(i as int));
            }
            let v = self.values.get_by_id(self.inputs[i]);
            if v.source.is_none() {
                r.push(v);
            }
            i = i + 1;
        }
        assert(self.inputs@.take(self.inputs@.len() as int) =~= self.inputs@);
        r
    }

    /// The dependency graph itself.
    pub fn dependency_graph(&self) -> (r: &DepGraph)
        ensures
            graph_nodes(*r) == self.dep_nodes(),
            graph_edges(*r) == self.dep_edges(),
    {
        &self.node_graph
    }

    /// Number of dependency edges.
    pub fn dependency_count(&self) -> (r: usize)
        ensures
            r == self.dep_edges().dom().len(),
    {
        graph_edge_count(&self.node_graph)
    }

    /// Number of nodes in the dependency graph.
    pub fn dependency_node_count(&self) -> (r: usize)
        ensures
            r == self.dep_nodes().len(),
    {
        graph_node_count(&self.node_graph)
    }

    /// The id of the value carried by the edge `from -> to`, if there is one.
    pub fn dependency(&self, from: usize, to: usize) -> (r: Option<usize>)
        ensures
            r == (if self.dep_edges().contains_key((from, to)) {
                Some(self.dep_edges()[(from, to)])
            } else {
                None
            }),
    {
        graph_edge_weight(&self.node_graph, from, to)
    }
}


/// Every dependency edge `x -> k` carries a value that node `x` declares as
/// an output and whose provenance is already "produced by `x`", and node
/// `k` names that value among its inputs: edges are only drawn from
/// provenance registered by the producer scan.
pub proof fn lemma_edges_follow_provenance(m: &OnnxModel, p: ModelProto)
    requires
        m.built_from(p),
    ensures
        forall|x: usize, k: usize| #[trigger] m.dep_edges().contains_key((x, k)) ==> {
            let w = m.dep_edges()[(x, k)] as int;
            let name = m.value_seq()[w].proto.name@;
            &&& 0 <= w < m.value_seq().len()
            &&& m.value_seq()[w].source == Some(ValueSource::Node(x))
            &&& x < m.node_seq().len()
            &&& k < m.node_seq().len()
            &&& node_outputs(m.node_seq()[x as int], name)
            &&& exists|j: int| 0 <= j < m.node_seq()[k as int].input@.len()
                && #[trigger] m.node_seq()[k as int].input@[j]@ == name
        },
{
    let g = p.graph->0;
    let dv = declared_values(g);
    assert forall|x: usize, k: usize| #[trigger] m.dep_edges().contains_key((x, k)) implies {
        let w = m.dep_edges()[(x, k)] as int;
        let name = m.value_seq()[w].proto.name@;
        &&& 0 <= w < m.value_seq().len()
        &&& m.value_seq()[w].source == Some(ValueSource::Node(x))
        &&& x < m.node_seq().len()
        &&& k < m.node_seq().len()
        &&& node_outputs(m.node_seq()[x as int], name)
        &&& exists|j: int| 0 <= j < m.node_seq()[k as int].input@.len()
            && #[trigger] m.node_seq()[k as int].input@[j]@ == name
    } by {
        let e = m.dep_edges();
        let j = choose|j: int| {
            &&& scanned_before(g, k as int, j, g.node@.len() as int, 0)
            &&& #[trigger] input_dependency(g, k as int, j) == Some((x, e[(x, k)]))
            &&& forall|j3: int| j < j3 && scanned_before(g, k as int, j3, g.node@.len() as int, 0)
                ==> !(#[trigger] depends_on(g, k as int, j3, x))
        };
        let nm = g.node@[k as int].input@[j]@;
        lemma_last_index_of(value_names(dv), nm);
        let id = resolve(g, nm)->0;
        assert(value_names(dv)[id] == dv[id].name@);
        lemma_first_producer(g.node@, nm);
        assert(0 <= id < dv.len());
        assert(e[(x, k)] as int == id);
        assert(m.value_seq()[id].proto == dv[id]);
        assert(m.value_seq()[id].source == provenance(g, id));
        assert(m.value_seq()[id].source == Some(ValueSource::Node(x)));
        assert(first_producer(g.node@, nm) == Some(x as int));
        assert(m.node_seq()[k as int].input@[j]@ == nm);
    }
}

/// A declared input named like an initializer is not a runtime input,
/// while it still counts among the declared inputs.
pub proof fn lemma_bound_input_not_runtime(m: &OnnxModel, p: ModelProto, i: int)
    requires
        m.built_from(p),
        0 <= i < p.graph->0.input@.len(),
        initializer_of(p.graph->0, p.graph->0.input@[i].name@) is Some,
    ensures
        m.input_ids().len() == p.graph->0.input@.len(),
        !m.true_input_ids().contains(m.input_ids()[i]),
{
    let g = p.graph->0;
    let id = m.input_ids()[i];
    assert(declared_values(g)[id as int] == g.input@[i]);
    assert(m.value_seq()[id as int].source is Some);
    let pred = |v: usize| m.value_seq()[v as int].source is None;
    if m.true_input_ids().contains(id) {
        let t = choose|t: int| 0 <= t < m.true_input_ids().len() && m.true_input_ids()[t] == id;
        m.input_ids().lemma_filter_pred(pred, t);
    }
}

/// Every node input whose value is produced by a node gets its edge, the
/// producer declared before or after the consumer alike: all producers are
/// registered before the first edge is drawn.
pub proof fn lemma_produced_input_has_edge(m: &OnnxModel, p: ModelProto, k: int, j: int)
    requires
        m.built_from(p),
        0 <= k < m.node_seq().len(),
        0 <= j < m.node_seq()[k].input@.len(),
        dependency(p.graph->0, m.node_seq()[k].input@[j]@) is Some,
    ensures
        m.dep_edges().contains_key(((dependency(p.graph->0, m.node_seq()[k].input@[j]@)->0).0, k as usize)),
{
    let g = p.graph->0;
    let x = (input_dependency(g, k, j)->0).0;
    assert(scanned_before(g, k, j, g.node@.len() as int, 0));
    assert(depends_on(g, k, j, x));
    assert(m.dep_edges().contains_key((x, k as usize)));
}

} // verus!
