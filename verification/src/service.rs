//! Orchestration of one fetch: transport outcome validation, decoding, and
//! assembly of the all-locations batch.

use vstd::prelude::*;

use crate::catalog::MensaPlace;
use crate::decode::decode;
use crate::decode::spec_decode;
use crate::error::MensaError;
use crate::mensa::Plan;
use crate::mensa::PlanView;
use crate::url::Generation;

verus! {

/// What processing a transport outcome yields: any status but 200 fails with
/// `UnexpectedStatus` carrying that code — the body is discarded, never
/// decoded — and the body of a 200 response is decoded.
pub open spec fn spec_process_response(
    generation: Generation,
    status: u16,
    body: Seq<char>,
) -> Result<PlanView, MensaError> {
    if status != 200 {
        Err(MensaError::UnexpectedStatus(status))
    } else {
        spec_decode(generation, body)
    }
}

/// Validates the HTTP status and decodes the response body; the decoder is
/// reached only for status 200.
pub fn process_response(generation: Generation, status: u16, body: &str) -> (r: Result<
    Plan,
    MensaError,
>)
    ensures
        match r {
            Ok(p) => spec_process_response(generation, status, body@) == Ok::<
                PlanView,
                MensaError,
            >(p@),
            Err(e) => spec_process_response(generation, status, body@) == Err::<
                PlanView,
                MensaError,
            >(e),
        },
        status != 200 ==> r == Err::<Plan, MensaError>(MensaError::UnexpectedStatus(status)),
{
    if status != 200 {
        return Err(MensaError::UnexpectedStatus(status));
    }
    decode(generation, body)
}

/// Assembles the all-locations batch from the per-location outcomes, in
/// order: the first failure fails the whole batch and no partial mapping is
/// produced; when every location succeeded, the mapping holds every location
/// in the order given, each with its plan.
pub fn collect_plans(results: &Vec<(MensaPlace, Result<Plan, MensaError>)>) -> (r: Result<
    Vec<(MensaPlace, Plan)>,
    MensaError,
>)
    ensures
        match r {
            Ok(v) => {
                &&& forall|k: int|
                    0 <= k < results@.len() ==> (#[trigger] results@[k].1) is Ok
                &&& v@.len() == results@.len()
                &&& forall|k: int|
                    0 <= k < v@.len() ==> (#[trigger] v@[k].0) == results@[k].0 && v@[k].1@
                        == results@[k].1->Ok_0@
            },
            Err(e) => exists|k: int|
                {
                    &&& 0 <= k < results@.len()
                    &&& (#[trigger] results@[k].1) == Err::<Plan, MensaError>(e)
                    &&& forall|j: int| 0 <= j < k ==> (#[trigger] results@[j].1) is Ok
                },
        },
{
    let mut out: Vec<(MensaPlace, Plan)> = Vec::new();
    let mut i: usize = 0;
    while i < results.len()
        invariant
            i <= results@.len(),
            out@.len() == i,
            forall|j: int| 0 <= j < i ==> (#[trigger] results@[j].1) is Ok,
            forall|j: int|
                0 <= j < i ==> (#[trigger] out@[j].0) == results@[j].0 && out@[j].1@
                    == results@[j].1->Ok_0@,
        decreases results@.len() - i,
    {
        let pair = &results[i];
        match &pair.1 {
            Err(e) => {
                return Err(*e);
            },
            Ok(p) => {
                out.push((pair.0, p.clone()));
            },
        }
        i += 1;
    }
    Ok(out)
}

} // verus!
