//! The summary record of a graph-format model.
use crate::onnx::{
    declared_values, first_input_id, initializer_names, initializer_of, provenance, ModelProto,
    OnnxModel, OperatorSetIdProto, ValueInfo,
};
use crate::registry::lemma_last_index_of;
use crate::types::{render_type, type_chars, TypeError};
use crate::usage::{default_domain, is_operator_usage, operator_usage, OperatorUsage};
use vstd::prelude::*;
use vstd::string::StringExecFns;

verus! {

pub struct OnnxOpset {
    pub name: String,
    pub version: i64,
}

/// A value as it is listed: its name and its rendered type.
pub struct ValueSummary {
    pub name: String,
    pub ty: String,
}

pub struct OnnxSummary {
    pub domain: String,
    pub name: String,
    pub version: i64,
    pub doc_string: String,
    pub producer_name: String,
    pub producer_version: String,
    pub ir_version: i64,
    pub opsets: Vec<OnnxOpset>,
    pub inputs: Vec<ValueSummary>,
    pub outputs: Vec<ValueSummary>,
    pub operators: Vec<OperatorUsage>,
}

/// Why a summary cannot be built.
#[derive(Clone, Copy, Debug, PartialEq, Eq)]
pub enum SummaryError {
    /// A listed value declares no type.
    MissingType,
    /// A listed value's type cannot be rendered.
    Type(TypeError),
}

/// The rendered type of a value.
pub open spec fn value_type_chars(v: ValueInfo) -> Result<Seq<char>, SummaryError> {
    match v.proto.ty {
        None => Err(SummaryError::MissingType),
        Some(t) => match type_chars(t) {
            Ok(s) => Ok(s),
            Err(e) => Err(SummaryError::Type(e)),
        },
    }
}

pub open spec fn all_render(vs: Seq<ValueInfo>) -> bool {
    forall|i: int| 0 <= i < vs.len() ==> value_type_chars(#[trigger] vs[i]) is Ok
}

/// `e` is the error of the first value of `vs` whose type does not render.
pub open spec fn first_failure(vs: Seq<ValueInfo>, e: SummaryError) -> bool {
    exists|i: int| {
        &&& 0 <= i < vs.len()
        &&& value_type_chars(#[trigger] vs[i]) == Err::<Seq<char>, SummaryError>(e)
        &&& forall|j: int| 0 <= j < i ==> value_type_chars(#[trigger] vs[j]) is Ok
    }
}

/// `out` lists `vs` with their names and rendered types.
pub open spec fn values_listed(vs: Seq<ValueInfo>, out: Seq<ValueSummary>) -> bool {
    &&& out.len() == vs.len()
    &&& forall|i: int| 0 <= i < vs.len() ==> {
        &&& (#[trigger] out[i]).name@ == vs[i].proto.name@
        &&& value_type_chars(vs[i]) == Ok::<Seq<char>, SummaryError>(out[i].ty@)
    }
}

pub open spec fn opsets_listed(ops: Seq<OperatorSetIdProto>, out: Seq<OnnxOpset>) -> bool {
    &&& out.len() == ops.len()
    &&& forall|i: int| 0 <= i < ops.len() ==> {
        &&& (#[trigger] out[i]).name@ == default_domain(ops[i].domain@)
        &&& out[i].version == ops[i].version
    }
}

pub open spec fn deref_values(vs: Seq<&ValueInfo>) -> Seq<ValueInfo> {
    vs.map_values(|v: &ValueInfo| *v)
}

fn value_summary(v: &ValueInfo) -> (r: Result<ValueSummary, SummaryError>)
    ensures
        match value_type_chars(*v) {
            Ok(s) => r matches Ok(out) && out.name@ == v.proto.name@ && out.ty@ == s,
            Err(e) => r == Err::<ValueSummary, SummaryError>(e),
        },
{
    match &v.proto.ty {
        None => Err(SummaryError::MissingType),
        Some(t) => match render_type(t) {
            Ok(ty) => Ok(ValueSummary { name: v.proto.name.clone(), ty }),
            Err(e) => Err(SummaryError::Type(e)),
        },
    }
}

/// Lists values with their rendered types, failing on the first value
/// whose type does not render.
pub fn summarize_values(vs: &Vec<&ValueInfo>) -> (r: Result<Vec<ValueSummary>, SummaryError>)
    ensures
        r is Ok <==> all_render(deref_values(vs@)),
        r matches Ok(out) ==> values_listed(deref_values(vs@), out@),
        r matches Err(e) ==> first_failure(deref_values(vs@), e),
{
    let ghost dv = deref_values(vs@);
    let mut out: Vec<ValueSummary> = Vec::new();
    let mut i: usize = 0;
    while i < vs.len()
        invariant
            dv == deref_values(vs@),
            i <= vs@.len(),
            out@.len() == i,
            forall|j: int| 0 <= j < i ==> value_type_chars(#[trigger] dv[j]) is Ok,
            forall|j: int| 0 <= j < i ==> {
                &&& (#[trigger] out@[j]).name@ == dv[j].proto.name@
                &&& value_type_chars(dv[j]) == Ok::<Seq<char>, SummaryError>(out@[j].ty@)
            },
        decreases vs@.len() - i,
    {
        match value_summary(vs[i]) {
            Ok(s) => out.push(s),
            Err(e) => {
                assert(value_type_chars(dv[i as int]) == Err::<Seq<char>, SummaryError>(e));
                return Err(e);
            },
        }
        i = i + 1;
    }
    Ok(out)
}

fn summarize_opsets(ops: &Vec<OperatorSetIdProto>) -> (r: Vec<OnnxOpset>)
    ensures
        opsets_listed(ops@, r@),
{
    let mut out: Vec<OnnxOpset> = Vec::new();
    let mut i: usize = 0;
    while i < ops.len()
        invariant
            i <= ops@.len(),
            opsets_listed(ops@.take(i as int), out@),
        decreases ops@.len() - i,
    {
        let op = &ops[i];
        let name = if op.domain.as_str().is_empty() {
            String::from_str("ai.onnx")
        } else {
            op.domain.clone()
        };
        out.push(OnnxOpset { name, version: op.version });
        i = i + 1;
    }
    assert(ops@.take(ops@.len() as int) =~= ops@);
    out
}

/// `s` summarises `m`: its descriptive fields, opsets with defaulted
/// domains, runtime inputs and outputs with rendered types, and operator
/// usage.
pub open spec fn onnx_summary_of(m: &OnnxModel, s: OnnxSummary) -> bool {
    &&& s.domain == m.model_info().domain
    &&& s.name == m.model_info().graph_name
    &&& s.version == m.model_info().model_version
    &&& s.doc_string == m.model_info().doc_string
    &&& s.producer_name == m.model_info().producer_name
    &&& s.producer_version == m.model_info().producer_version
    &&& s.ir_version == m.model_info().ir_version
    &&& opsets_listed(m.model_info().opset_import@, s.opsets@)
    &&& values_listed(m.true_input_values(), s.inputs@)
    &&& values_listed(m.output_values(), s.outputs@)
    &&& is_operator_usage(m.node_seq(), s.operators@)
}

impl OnnxModel {
    /// The runtime inputs, as values.
    pub open spec fn true_input_values(&self) -> Seq<ValueInfo> {
        self.true_input_ids().map_values(|id: usize| self.value_seq()[id as int])
    }

    /// The declared outputs, as values.
    pub open spec fn output_values(&self) -> Seq<ValueInfo> {
        self.output_ids().map_values(|id: usize| self.value_seq()[id as int])
    }

    /// Summarises the model: its descriptive fields, opsets with defaulted
    /// domains, runtime inputs and outputs with rendered types, and operator
    /// usage. Fails on the first listed value (inputs, then outputs) whose
    /// type is missing or does not render.
    pub fn summary(&self) -> (r: Result<OnnxSummary, SummaryError>)
        ensures
            r is Ok <==> all_render(self.true_input_values()) && all_render(self.output_values()),
            r matches Ok(s) ==> onnx_summary_of(self, s),
            r matches Err(e) ==> first_failure(self.true_input_values(), e) || (all_render(
                self.true_input_values(),
            ) && first_failure(self.output_values(), e)),
    {
        let ins = self.true_inputs();
        let outs = self.outputs();
        assert(deref_values(ins@) =~= self.true_input_values());
        assert(deref_values(outs@) =~= self.output_values());
        let inputs = summarize_values(&ins)?;
        let outputs = summarize_values(&outs)?;
        let info = self.info();
        Ok(OnnxSummary {
            domain: info.domain.clone(),
            name: info.graph_name.clone(),
            version: info.model_version,
            doc_string: info.doc_string.clone(),
            producer_name: info.producer_name.clone(),
            producer_version: info.producer_version.clone(),
            ir_version: info.ir_version,
            opsets: summarize_opsets(&info.opset_import),
            inputs,
            outputs,
            operators: operator_usage(self.nodes()),
        })
    }
}

/// No runtime input of a summary is named like an initializer: inputs
/// bound to an initializer are left out of the listing.
pub proof fn lemma_summary_inputs_unbound(m: &OnnxModel, p: ModelProto, s: OnnxSummary)
    requires
        m.built_from(p),
        onnx_summary_of(m, s),
    ensures
        forall|i: int, q: int| 0 <= i < s.inputs@.len() && 0 <= q < p.graph->0.initializer@.len()
            ==> #[trigger] s.inputs@[i].name@ != #[trigger] p.graph->0.initializer@[q].name@,
{
    let g = p.graph->0;
    let pred = |id: usize| m.value_seq()[id as int].source is None;
    assert forall|i: int, q: int| 0 <= i < s.inputs@.len() && 0 <= q < g.initializer@.len()
        implies #[trigger] s.inputs@[i].name@ != #[trigger] g.initializer@[q].name@ by {
        m.input_ids().lemma_filter_pred(pred, i);
        let id = m.true_input_ids()[i];
        assert(m.true_input_ids().contains(id));
        m.input_ids().lemma_filter_contains_rev(pred, id);
        let t = choose|t: int| 0 <= t < m.input_ids().len() && m.input_ids()[t] == id;
        assert(m.input_ids()[t] == first_input_id(g) + t);
        let name = declared_values(g)[id as int].name@;
        assert(declared_values(g)[id as int] == g.input@[t]);
        assert(m.value_seq()[id as int].source == provenance(g, id as int));
        assert(initializer_of(g, name) is None);
        lemma_last_index_of(initializer_names(g.initializer@), name);
        assert(initializer_names(g.initializer@)[q] == g.initializer@[q].name@);
        assert(s.inputs@[i].name@ == m.true_input_values()[i].proto.name@);
    }
}

} // verus!
