use vstd::prelude::*;

use crate::catalog::{Catalog, PatternRule};
use crate::error::EssenceError;
use crate::ir::{balanced, events_of, Event, Ir, RawNode};
use crate::signature::{aggregate, sig_model, sig_view, FunctionSignature, SignatureModel};
use crate::walker::{recognized, walk};

verus! {

/// One unit of input, as the external parser hands it over: a function
/// identifier and the parsed body tree.
#[derive(Debug)]
pub struct FunctionIr {
    pub name: String,
    pub root: RawNode,
}

/// One failed analysis: the function's identifier and the kind of error
/// that stopped it. Failures are isolated per function and reported
/// alongside the successful signatures.
#[derive(Debug)]
pub struct Failure {
    pub name: String,
    pub error: EssenceError,
}

/// The mathematical content of a failure record.
#[verifier::ext_equal]
pub struct FailureModel {
    pub name: Seq<char>,
    pub error: EssenceError,
}

pub open spec fn fail_view(f: Failure) -> FailureModel {
    FailureModel { name: f.name@, error: f.error }
}

/// What the core exposes to the external reporter: one signature per
/// function that analyzed cleanly, in input order, and one failure record
/// per function that did not, in input order. The core itself does no
/// formatting and no I/O.
#[derive(Debug)]
pub struct Report {
    pub signatures: Vec<FunctionSignature>,
    pub failures: Vec<Failure>,
}

/// A function body analyzes cleanly when its region markers balance and
/// every node kind belongs to the closed enumeration.
pub open spec fn analysis_ok(evs: Seq<Event>) -> bool {
    balanced(evs) && recognized(evs)
}

/// The error a failing body is owed: unbalanced markers fail at
/// construction with `MalformedIr`; otherwise some unknown node kind fails
/// the traversal with `UnknownNodeKind`.
pub open spec fn spec_error_of(evs: Seq<Event>) -> EssenceError {
    if !balanced(evs) {
        EssenceError::MalformedIr
    } else {
        EssenceError::UnknownNodeKind
    }
}

/// Analyzes one function: builds and validates the representation, walks
/// it, and aggregates the findings into a signature. Succeeds exactly when
/// the body's markers balance and every node kind is recognized; otherwise
/// the failure names the function and the deciding error, and no signature
/// is produced for it.
pub fn analyze_function(name: String, root: RawNode, catalog: &Catalog) -> (r: Result<
    FunctionSignature,
    Failure,
>)
    ensures
        r is Ok <==> analysis_ok(events_of(root)),
        r is Ok ==> sig_view(r->Ok_0) == sig_model(name@, events_of(root), catalog@),
        r is Err ==> fail_view(r->Err_0) == (FailureModel {
            name: name@,
            error: spec_error_of(events_of(root)),
        }),
{
    match Ir::build(root) {
        Err(e) => Err(Failure { name, error: e }),
        Ok(ir) => match walk(&ir, catalog) {
            Err(e) => Err(Failure { name, error: e }),
            Ok(findings) => Ok(aggregate(name, findings)),
        },
    }
}

/// The signatures a batch of inputs is owed, in input order: one model per
/// input that analyzes cleanly.
pub open spec fn expected_models(ins: Seq<FunctionIr>, rules: Seq<PatternRule>) -> Seq<
    SignatureModel,
>
    decreases ins.len(),
{
    if ins.len() == 0 {
        Seq::empty()
    } else {
        let rest = expected_models(ins.drop_last(), rules);
        let f = ins.last();
        if analysis_ok(events_of(f.root)) {
            rest.push(sig_model(f.name@, events_of(f.root), rules))
        } else {
            rest
        }
    }
}

/// The failure records a batch of inputs is owed, in input order: one per
/// input that does not analyze cleanly.
pub open spec fn expected_failures(ins: Seq<FunctionIr>) -> Seq<FailureModel>
    decreases ins.len(),
{
    if ins.len() == 0 {
        Seq::empty()
    } else {
        let rest = expected_failures(ins.drop_last());
        let f = ins.last();
        if analysis_ok(events_of(f.root)) {
            rest
        } else {
            rest.push(FailureModel { name: f.name@, error: spec_error_of(events_of(f.root)) })
        }
    }
}

/// Every input is answered exactly once: each function of a batch ends up
/// either with a signature or with a failure record, never both and never
/// neither.
pub proof fn lemma_every_input_answered(ins: Seq<FunctionIr>, rules: Seq<PatternRule>)
    ensures
        expected_models(ins, rules).len() + expected_failures(ins).len() == ins.len(),
    decreases ins.len(),
{
    if ins.len() > 0 {
        lemma_every_input_answered(ins.drop_last(), rules);
    }
}

/// Every signature a batch is owed bears the identifier of one of the
/// batch's inputs.
proof fn lemma_expected_models_names(ins: Seq<FunctionIr>, rules: Seq<PatternRule>)
    ensures
        forall|k: int|
            0 <= k < expected_models(ins, rules).len() ==> exists|p: int|
                0 <= p < ins.len() && (#[trigger] expected_models(ins, rules)[k]).name == ins[p].name@,
    decreases ins.len(),
{
    if ins.len() > 0 {
        let dl = ins.drop_last();
        lemma_expected_models_names(dl, rules);
        assert forall|k: int| 0 <= k < expected_models(ins, rules).len() implies exists|p: int|
            0 <= p < ins.len() && (#[trigger] expected_models(ins, rules)[k]).name
                == ins[p].name@ by {
            if k < expected_models(dl, rules).len() {
                assert(expected_models(ins, rules)[k] == expected_models(dl, rules)[k]);
                let p = choose|p: int|
                    0 <= p < dl.len() && expected_models(dl, rules)[k].name == dl[p].name@;
                assert(0 <= p < ins.len() && expected_models(ins, rules)[k].name == ins[p].name@);
            } else {
                assert(expected_models(ins, rules)[k].name == ins[ins.len() - 1].name@);
            }
        }
    }
}

/// The report contract's mapping property: with distinct input identifiers,
/// the signatures of a batch carry distinct identifiers — one entry per
/// analyzed function, keys unique.
pub proof fn lemma_signature_keys_unique(ins: Seq<FunctionIr>, rules: Seq<PatternRule>)
    requires
        forall|p: int, q: int|
            0 <= p < q < ins.len() ==> #[trigger] ins[p].name@ != #[trigger] ins[q].name@,
    ensures
        forall|k: int, l: int|
            0 <= k < l < expected_models(ins, rules).len() ==> (#[trigger] expected_models(
                ins,
                rules,
            )[k]).name != (#[trigger] expected_models(ins, rules)[l]).name,
    decreases ins.len(),
{
    if ins.len() > 0 {
        let dl = ins.drop_last();
        assert forall|p: int, q: int| 0 <= p < q < dl.len() implies #[trigger] dl[p].name@
            != #[trigger] dl[q].name@ by {
            assert(dl[p] == ins[p] && dl[q] == ins[q]);
        }
        lemma_signature_keys_unique(dl, rules);
        lemma_expected_models_names(dl, rules);
        assert forall|k: int, l: int|
            0 <= k < l < expected_models(ins, rules).len() implies (#[trigger] expected_models(
            ins,
            rules,
        )[k]).name != (#[trigger] expected_models(ins, rules)[l]).name by {
            assert(expected_models(ins, rules)[k] == expected_models(dl, rules)[k]);
            if l < expected_models(dl, rules).len() {
                assert(expected_models(ins, rules)[l] == expected_models(dl, rules)[l]);
            } else {
                assert(expected_models(ins, rules)[l].name == ins[ins.len() - 1].name@);
                let p = choose|p: int|
                    0 <= p < dl.len() && expected_models(dl, rules)[k].name == dl[p].name@;
                assert(ins[p].name@ != ins[ins.len() - 1].name@);
            }
        }
    }
}

/// Analyzes a whole batch: every input is analyzed independently, failures
/// never abort the batch, and both output sequences keep input order. With
/// distinct input identifiers the signatures form a mapping with one entry
/// per analyzed function. A driver that wants cooperative cancellation
/// calls `analyze_function` one input at a time instead and stops between
/// calls; a single function's traversal completes in bounded time.
pub fn analyze_all(inputs: Vec<FunctionIr>, catalog: &Catalog) -> (r: Report)
    ensures
        r.signatures@.map_values(|s: FunctionSignature| sig_view(s)) == expected_models(
            inputs@,
            catalog@,
        ),
        r.failures@.map_values(|f: Failure| fail_view(f)) == expected_failures(inputs@),
{
    let ghost orig = inputs@;
    let mut rest = inputs;
    let mut signatures: Vec<FunctionSignature> = Vec::new();
    let mut failures: Vec<Failure> = Vec::new();
    let ghost mut i = 0int;
    proof {
        assert(orig.take(0) =~= Seq::<FunctionIr>::empty());
        assert(rest@ =~= orig.skip(0));
    }
    while rest.len() > 0
        invariant
            0 <= i <= orig.len(),
            rest@ == orig.skip(i),
            signatures@.map_values(|s: FunctionSignature| sig_view(s)) == expected_models(
                orig.take(i),
                catalog@,
            ),
            failures@.map_values(|f: Failure| fail_view(f)) == expected_failures(orig.take(i)),
        decreases rest@.len(),
    {
        let f = rest.remove(0);
        proof {
            assert(f == orig[i]);
            assert(rest@ =~= orig.skip(i + 1));
            assert(orig.take(i + 1).drop_last() =~= orig.take(i));
            assert(orig.take(i + 1).last() == orig[i]);
        }
        let ghost sigs_prev = signatures@;
        let ghost fails_prev = failures@;
        match analyze_function(f.name, f.root, catalog) {
            Ok(sig) => {
                signatures.push(sig);
                proof {
                    assert(signatures@.map_values(|s: FunctionSignature| sig_view(s))
                        =~= sigs_prev.map_values(|s: FunctionSignature| sig_view(s)).push(
                        sig_view(sig),
                    ));
                }
            },
            Err(fail) => {
                failures.push(fail);
                proof {
                    assert(failures@.map_values(|f2: Failure| fail_view(f2)) =~= fails_prev
                        .map_values(|f2: Failure| fail_view(f2)).push(fail_view(fail)));
                }
            },
        }
        proof {
            i = i + 1;
        }
    }
    proof {
        assert(orig.take(i) =~= orig);
    }
    Report { signatures, failures }
}

} // verus!
