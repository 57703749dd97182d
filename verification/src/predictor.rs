//! Serving: a predictor scores one example at a time on a finalized graph
//! that it shares with its copies, with a tape of its own.

use crate::block_helpers::forward;
use crate::block_helpers::spredict2;
use crate::feature_buffer::FeatureBuffer;
use crate::graph::BlockGraph;
use crate::port_buffer::PortBuffer;
use crate::scalar::Scalar;
use std::sync::Arc;
use vstd::prelude::*;

verus! {

/// A scorer for one thread. The graph is shared and never written; the port
/// buffer belongs to this predictor alone.
pub struct Predictor {
    regressor: Arc<BlockGraph>,
    pb: PortBuffer,
}

/// `std::sync::Arc::clone`: one more handle to the same value.
#[verifier::external_body]
fn share(regressor: &Arc<BlockGraph>) -> (r: Arc<BlockGraph>)
    ensures
        *r == **regressor,
{
    Arc::clone(regressor)
}

impl Predictor {
    /// The graph is finalized and records something on every run, and the
    /// port buffer has the graph's tape size.
    pub closed spec fn wf(&self) -> bool {
        &&& self.regressor.wf()
        &&& self.regressor.spec_is_finalized()
        &&& self.pb.tape_len == self.regressor.tape_size
        &&& self.regressor.spec_predict().observations.len() > 0
    }

    /// The graph that the predictor scores on.
    pub closed spec fn spec_regressor(&self) -> BlockGraph {
        *self.regressor
    }

    /// The score: what the first probe records on a forward run.
    pub open spec fn spec_score(&self) -> Scalar {
        self.spec_regressor().spec_predict().observations[0]
    }

    /// Scores one example. `None` stands for input that ended or could not be
    /// parsed: the answer is then `-1.0`. Else the answer is the graph's
    /// score, which depends on the graph alone: the same predictor, or any
    /// copy of it, gives the same bits on every call.
    pub fn predict(&mut self, features: Option<&FeatureBuffer>) -> (r: Scalar)
        requires
            old(self).wf(),
        ensures
            final(self).wf(),
            final(self).spec_regressor() == old(self).spec_regressor(),
            r == match features {
                Some(_) => old(self).spec_score(),
                None => Scalar::spec_minus_one(),
            },
    {
        match features {
            Some(fb) => spredict2(&self.regressor, fb, &mut self.pb),
            None => Scalar::minus_one(),
        }
    }

    /// A copy for another thread: it shares the graph and has a fresh port
    /// buffer.
    pub fn clone_lite(&self) -> (r: Predictor)
        requires
            self.wf(),
        ensures
            r.wf(),
            r.spec_regressor() == self.spec_regressor(),
    {
        Predictor { regressor: share(&self.regressor), pb: PortBuffer::new(self.pb.tape_len) }
    }
}

/// Makes the first predictor for a graph. The graph must be finalized and
/// must record something when it runs; else there is nothing to predict
/// with, and the answer is `None`.
pub fn generate_prototype_predictor(regressor: BlockGraph, fb: &FeatureBuffer) -> (r: Option<
    Predictor,
>)
    requires
        regressor.wf(),
    ensures
        match r {
            Some(predictor) => {
                &&& predictor.wf()
                &&& regressor.spec_is_finalized()
                &&& regressor.spec_predict().observations.len() > 0
                &&& predictor.spec_regressor() == regressor
            },
            None => !regressor.spec_is_finalized() || regressor.spec_predict().observations.len()
                == 0,
        },
{
    if !regressor.is_finalized() {
        return None;
    }
    let mut pb = regressor.new_port_buffer();
    proof {
        regressor.lemma_blocks_placed();
    }
    forward(regressor.blocks.as_slice(), fb, &mut pb);
    if pb.observations.len() == 0 {
        return None;
    }
    Some(Predictor { regressor: Arc::new(regressor), pb })
}

} // verus!
