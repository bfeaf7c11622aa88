//! One summary operation over both model formats.
use crate::onnx::OnnxModel;
use crate::safetensors::{
    architecture_key, implementation_key, metadata_string, opt_view, SafeTensorsSummary,
    Safetensors,
};
use crate::summary::{all_render, first_failure, onnx_summary_of, OnnxSummary, SummaryError};
use vstd::prelude::*;

verus! {

/// The summary of either format.
pub enum ModelSummary<'a> {
    Onnx(OnnxSummary),
    Safetensors(SafeTensorsSummary<'a>),
}

/// A loaded model that can summarise itself.
pub trait Model {
    /// `r` is this model's summary when `filename` is the file name given.
    spec fn summarises(&self, filename: Option<&str>, r: Result<ModelSummary<'_>, SummaryError>) -> bool;

    /// Summarises the model; `filename` is shown where the format has no
    /// name of its own.
    fn summary<'a>(&'a self, filename: Option<&'a str>) -> (r: Result<ModelSummary<'a>, SummaryError>)
        ensures
            self.summarises(filename, r),
    ;
}

impl Model for OnnxModel {
    /// As `OnnxModel::summary` states; the file name is not shown.
    open spec fn summarises(&self, filename: Option<&str>, r: Result<ModelSummary<'_>, SummaryError>) -> bool {
        &&& r is Ok <==> all_render(self.true_input_values()) && all_render(self.output_values())
        &&& r is Ok ==> (r matches Ok(ModelSummary::Onnx(s)) && onnx_summary_of(self, s))
        &&& r matches Err(e) ==> first_failure(self.true_input_values(), e) || (all_render(
            self.true_input_values(),
        ) && first_failure(self.output_values(), e))
    }

    fn summary<'a>(&'a self, filename: Option<&'a str>) -> (r: Result<ModelSummary<'a>, SummaryError>) {
        match OnnxModel::summary(self) {
            Ok(s) => Ok(ModelSummary::Onnx(s)),
            Err(e) => Err(e),
        }
    }
}

impl Model for Safetensors {
    /// Always a summary, as `Safetensors::summary` states.
    open spec fn summarises(&self, filename: Option<&str>, r: Result<ModelSummary<'_>, SummaryError>) -> bool {
        r matches Ok(ModelSummary::Safetensors(s)) && {
            &&& opt_view(s.filename) == match filename {
                Some(f) => Some(f@),
                None => None::<Seq<char>>,
            }
            &&& opt_view(s.architecture) == metadata_string(self.metadata_object(), architecture_key())
            &&& opt_view(s.implementation) == metadata_string(self.metadata_object(), implementation_key())
            &&& *s.metadata == self.metadata_object()
            &&& *s.tensors == self.tensor_object()
        }
    }

    fn summary<'a>(&'a self, filename: Option<&'a str>) -> (r: Result<ModelSummary<'a>, SummaryError>) {
        Ok(ModelSummary::Safetensors(Safetensors::summary(self, filename)))
    }
}

} // verus!
