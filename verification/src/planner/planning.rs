//! The planner: validates the request, walks every candidate once, and
//! picks the cheapest legal one.

use vstd::prelude::*;
use crate::error::{Error, Result, invalid_with};
use crate::planner::caps::{CapabilitySnapshot, codec_text};
use crate::planner::requirements::{InputRequirements, OutputVideoRequirements, matches_outcome};
use crate::planner::policy::{CandidateRejection, PipelinePolicy, PlanningResult, join, join_strings, texts};
use crate::planner::select::{
    Candidate, accepted, all_reasons, best_upto, candidate_at, considered, cost_spec, input_depth_text,
    label_spec, no_plan_message, plan_matches, policy_error, policy_matches, reasons_spec, rejected_upto, rejection_view,
    select_precheck, validate_policy,
};
use crate::text::{cat, decimal, decimal_text};

verus! {

/// Chooses a pipeline from probed capabilities, input facts and policy.
pub struct PipelinePlanner;

/// Views of a list of rejections.
pub open spec fn rejection_views(v: Seq<CandidateRejection>) -> Seq<(Seq<char>, Seq<Seq<char>>)> {
    v.map_values(|r: CandidateRejection| rejection_view(r))
}

/// What `PipelinePlanner::select` returns for these inputs.
pub open spec fn select_outcome(
    r: Result<PlanningResult>,
    caps: CapabilitySnapshot,
    req: InputRequirements,
    policy: PipelinePolicy,
) -> bool {
    match select_precheck(caps, req, policy) {
        Err(e) => matches_outcome(r, Err(e)),
        Ok(out) => match best_upto(32, caps, req, out, policy) {
            None => invalid_with(r, no_plan_message(rejected_upto(32, caps, req, out, policy))),
            Some(b) => r matches Ok(res) && plan_matches(res.selected, candidate_at(b), caps, out)
                && rejection_views(res.rejected@) == rejected_upto(32, caps, req, out, policy),
        },
    }
}

/// `Some(v)` printed as `v-bit`, otherwise `unknown`.
fn input_depth_string(d: Option<u8>) -> (s: String)
    ensures
        s@ == input_depth_text(d),
{
    proof {
        reveal_strlit("-bit");
        reveal_strlit("unknown");
    }
    match d {
        Some(v) => {
            let mut s = decimal(v as u64);
            s.append("-bit");
            s
        },
        None => String::from_str("unknown"),
    }
}

/// At most the first four of `s`.
pub open spec fn first_four(s: Seq<Seq<char>>) -> Seq<Seq<char>> {
    if s.len() <= 4 { s } else { s.take(4) }
}

/// The first four reasons over all rejections, in order.
fn first_reasons(rejected: &Vec<CandidateRejection>) -> (v: Vec<String>)
    ensures
        texts(v@) == first_four(all_reasons(rejection_views(rejected@))),
{
    let ghost rs = rejection_views(rejected@);
    let mut all: Vec<String> = Vec::new();
    let mut i: usize = 0;
    while i < rejected.len()
        invariant
            i <= rejected@.len(),
            rs == rejection_views(rejected@),
            texts(all@) == all_reasons(rs.take(i as int)),
        decreases rejected@.len() - i,
    {
        let reasons = &rejected[i].reasons;
        let ghost before = all_reasons(rs.take(i as int));
        let mut j: usize = 0;
        while j < reasons.len()
            invariant
                j <= reasons@.len(),
                i < rejected@.len(),
                reasons@ == rejected@[i as int].reasons@,
                texts(all@) == before + texts(reasons@).take(j as int),
            decreases reasons@.len() - j,
        {
            let s = reasons[j].clone();
            let ghost prev = all@;
            all.push(s);
            proof {
                assert(all@ =~= prev.push(s));
                assert(texts(all@) =~= texts(prev).push(s@));
                assert(texts(reasons@).take(j + 1) =~= texts(reasons@).take(j as int).push(reasons@[j as int]@));
                assert(texts(all@) =~= before + texts(reasons@).take(j + 1));
            }
            j = j + 1;
        }
        proof {
            assert(rs.take(i + 1).drop_last() =~= rs.take(i as int));
            assert(rs.take(i + 1).last() == rejection_view(rejected@[i as int]));
            assert(texts(reasons@).take(j as int) =~= texts(reasons@));
        }
        i = i + 1;
    }
    proof {
        assert(rs.take(rejected@.len() as int) =~= rs);
    }
    let mut v: Vec<String> = Vec::new();
    let mut k: usize = 0;
    let n: usize = if all.len() < 4 { all.len() } else { 4 };
    while k < n
        invariant
            k <= n,
            n <= all@.len(),
            n == (if all@.len() < 4 { all@.len() } else { 4 }),
            texts(v@) == texts(all@).take(k as int),
        decreases n - k,
    {
        let s = all[k].clone();
        let ghost prev = v@;
        v.push(s);
        proof {
            assert(v@ =~= prev.push(s));
            assert(texts(v@) =~= texts(prev).push(s@));
            assert(texts(all@).take(k + 1) =~= texts(all@).take(k as int).push(all@[k as int]@));
            assert(texts(v@) =~= texts(all@).take(k + 1));
        }
        k = k + 1;
    }
    proof {
        if all@.len() <= 4 {
            assert(texts(all@).take(k as int) =~= texts(all@));
        }
    }
    v
}

/// The error when every candidate was rejected.
fn no_plan_error(rejected: &Vec<CandidateRejection>) -> (e: Error)
    ensures
        invalid_with(Err::<(), Error>(e), no_plan_message(rejection_views(rejected@))),
{
    proof {
        reveal_strlit("no pipeline matches the requested policy");
        reveal_strlit("no legal pipeline matches the requested policy: ");
        reveal_strlit("; ");
    }
    let details = first_reasons(rejected);
    if details.len() == 0 {
        Error::InvalidConfig(String::from_str("no pipeline matches the requested policy"))
    } else {
        let joined = join_strings(&details, "; ");
        Error::InvalidConfig(cat("no legal pipeline matches the requested policy: ", joined.as_str()))
    }
}


/// The chosen candidate is legal and honours the policy; no legal candidate
/// among those considered is cheaper, and every earlier legal candidate is
/// strictly dearer. Planning fails only when no candidate is legal.
pub proof fn lemma_best_is_cheapest_legal(
    n: int,
    caps: CapabilitySnapshot,
    req: InputRequirements,
    out: OutputVideoRequirements,
    policy: PipelinePolicy,
)
    requires
        0 <= n <= 32,
    ensures
        best_upto(n, caps, req, out, policy) is None <==> (forall|j: int| 0 <= j < n ==> !#[trigger] accepted(j, caps, req, out, policy)),
        best_upto(n, caps, req, out, policy) matches Some(b) ==> {
            &&& 0 <= b < n
            &&& accepted(b, caps, req, out, policy)
            &&& policy_matches(candidate_at(b), policy)
            &&& reasons_spec(candidate_at(b), caps, req, out, policy).len() == 0
            &&& forall|j: int| 0 <= j < n && #[trigger] accepted(j, caps, req, out, policy)
                ==> cost_spec(candidate_at(b)) <= cost_spec(candidate_at(j))
            &&& forall|j: int| 0 <= j < b && #[trigger] accepted(j, caps, req, out, policy)
                ==> cost_spec(candidate_at(b)) < cost_spec(candidate_at(j))
        },
    decreases n,
{
    if n > 0 {
        lemma_best_is_cheapest_legal(n - 1, caps, req, out, policy);
    }
}

impl PipelinePlanner {
    /// Rejects contradictory or unimplemented policies.
    pub fn validate_policy(policy: PipelinePolicy) -> (r: Result<()>)
        ensures
            match policy_error(policy) {
                None => r is Ok,
                Some(m) => invalid_with(r, m),
            },
    {
        validate_policy(&policy)
    }

    /// Plans the pipeline: validates the policy, the input and the output,
    /// then picks, among the candidates that honour every explicit request
    /// and lack no capability, the one of lowest cost (the earliest on a
    /// tie), listing every other considered candidate with its reasons.
    pub fn select(
        capabilities: &CapabilitySnapshot,
        requirements: &InputRequirements,
        policy: PipelinePolicy,
    ) -> (r: Result<PlanningResult>)
        ensures
            select_outcome(r, *capabilities, *requirements, policy),
    {
        let checked = validate_policy(&policy);
        if let Err(e) = checked {
            return Err(e);
        }
        let input_format = match requirements.validate_processing_input() {
            Ok(f) => f,
            Err(e) => return Err(e),
        };
        let output = match OutputVideoRequirements::selected(policy.output_codec.copied(), policy.output_bit_depth, requirements) {
            Ok(o) => o,
            Err(e) => return Err(e),
        };
        if input_format != output.pixel_format {
            proof {
                reveal_strlit(" input cannot be sent to ");
                reveal_strlit("-bit ");
                reveal_strlit(" output without a conversion path");
            }
            let mut m = input_depth_string(requirements.bit_depth);
            m.append(" input cannot be sent to ");
            let depth = decimal(output.bit_depth as u64);
            m.append(depth.as_str());
            m.append("-bit ");
            let codec = output.codec.to_string();
            m.append(codec.as_str());
            m.append(" output without a conversion path");
            return Err(Error::UnsupportedFrame(m));
        }
        let ghost caps = *capabilities;
        let ghost req = *requirements;
        let ghost out = output;
        assert(select_precheck(caps, req, policy) == Ok::<OutputVideoRequirements, (bool, Seq<char>)>(out));
        let mut best: Option<(u8, u16)> = None;
        let mut rejected: Vec<CandidateRejection> = Vec::new();
        let mut i: u8 = 0;
        while i < 32
            invariant
                i <= 32,
                output == out,
                caps == *capabilities,
                req == *requirements,
                match best {
                    None => best_upto(i as int, caps, req, out, policy) is None,
                    Some((b, c)) => best_upto(i as int, caps, req, out, policy) == Some(b as int)
                        && c == cost_spec(candidate_at(b as int)) && b < i,
                },
                rejection_views(rejected@) == rejected_upto(i as int, caps, req, out, policy),
            decreases 32 - i,
        {
            let candidate = Candidate::at(i);
            if candidate.is_structurally_valid() && candidate.matches_policy(&policy) {
                let reasons = candidate.rejection_reasons(capabilities, requirements, &output, &policy);
                if reasons.len() == 0 {
                    assert(accepted(i as int, caps, req, out, policy));
                    let cost = candidate.preference_cost();
                    match best {
                        None => {
                            best = Some((i, cost));
                        },
                        Some((_, c)) => {
                            if cost < c {
                                best = Some((i, cost));
                            }
                        },
                    }
                    proof {
                        assert(rejected_upto(i + 1, caps, req, out, policy)
                            == rejected_upto(i as int, caps, req, out, policy));
                    }
                } else {
                    assert(!accepted(i as int, caps, req, out, policy));
                    let label = candidate.label();
                    let ghost before = rejected@;
                    rejected.push(CandidateRejection { candidate: label, reasons });
                    proof {
                        assert(rejection_views(rejected@) =~= rejection_views(before).push(
                            (label_spec(candidate_at(i as int)),
                                reasons_spec(candidate_at(i as int), caps, req, out, policy))));
                    }
                }
            } else {
                assert(!considered(i as int, policy));
            }
            i = i + 1;
        }
        match best {
            None => Err(no_plan_error(&rejected)),
            Some((b, cost)) => {
                let selected = Candidate::at(b).into_plan(cost, capabilities, output);
                Ok(PlanningResult { selected, rejected })
            },
        }
    }
}

} // verus!
