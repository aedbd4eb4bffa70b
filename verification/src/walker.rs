use vstd::prelude::*;

use crate::catalog::{Catalog, EssenceTag, PatternRule};
use crate::error::EssenceError;
use crate::ir::{
    decode_kind, depth_before, is_marker, lemma_depth_before_le, spec_decode, Event, Ir, NodeKind,
    Span, CODE_UNSAFE_REGION_END, CODE_UNSAFE_REGION_START,
};

verus! {

/// One finding: an essence tag recognized at a node, with the node's source
/// span and the unsafe-context depth in force when it was detected.
/// Immutable once created.
#[derive(Clone, Copy, PartialEq, Eq, Structural, Debug)]
pub struct Finding {
    pub tag: EssenceTag,
    pub span: Span,
    pub unsafe_depth: usize,
}

/// Whether a rule fires at a node of the given kind under the given
/// unsafe-context depth: the kind must match, and a rule that requires
/// unsafe context fires only while the depth is positive.
pub open spec fn rule_applies(r: PatternRule, kind: NodeKind, depth: int) -> bool {
    r.kind == kind && (!r.requires_unsafe || depth > 0)
}

/// The findings one node contributes, scanning the rules from position `i`
/// in declaration order. `emitted` holds the tags already emitted for this
/// node: when two rules would emit the same tag, only the first is kept.
pub open spec fn node_findings_from(
    rules: Seq<PatternRule>,
    i: int,
    emitted: Seq<EssenceTag>,
    kind: NodeKind,
    span: Span,
    depth: int,
) -> Seq<Finding>
    decreases rules.len() - i,
{
    if i < 0 || i >= rules.len() {
        Seq::empty()
    } else if rule_applies(rules[i], kind, depth) && !emitted.contains(rules[i].tag) {
        seq![Finding { tag: rules[i].tag, span, unsafe_depth: depth as usize }]
            + node_findings_from(rules, i + 1, emitted.push(rules[i].tag), kind, span, depth)
    } else {
        node_findings_from(rules, i + 1, emitted, kind, span, depth)
    }
}

/// The findings one node of the given kind contributes, in rule declaration
/// order, with the first-rule-wins tie-break on tags.
pub open spec fn node_findings(
    rules: Seq<PatternRule>,
    kind: NodeKind,
    span: Span,
    depth: int,
) -> Seq<Finding> {
    node_findings_from(rules, 0, Seq::empty(), kind, span, depth)
}

/// Every event of the sequence carries a kind code of the closed
/// enumeration.
pub open spec fn recognized(evs: Seq<Event>) -> bool {
    forall|i: int| 0 <= i < evs.len() ==> (#[trigger] spec_decode(evs[i].code)) is Some
}

/// The ordered findings of the first `i` events: at each recognized
/// non-marker event the catalog is consulted under the depth in force
/// there; marker events only move the depth. Unknown codes contribute
/// nothing here; the walker reports them as an error instead.
pub open spec fn walk_upto(evs: Seq<Event>, rules: Seq<PatternRule>, i: int) -> Seq<Finding>
    decreases i,
{
    if i <= 0 {
        Seq::empty()
    } else {
        let prior = walk_upto(evs, rules, i - 1);
        let e = evs[i - 1];
        if is_marker(e.code) {
            prior
        } else {
            match spec_decode(e.code) {
                Some(k) => prior + node_findings(rules, k, e.span, depth_before(evs, i - 1)),
                None => prior,
            }
        }
    }
}

/// The ordered finding sequence of a whole traversal: program order, one
/// pass, depth tracked across region markers.
pub open spec fn walk_findings(evs: Seq<Event>, rules: Seq<PatternRule>) -> Seq<Finding> {
    walk_upto(evs, rules, evs.len() as int)
}

/// Applies the catalog to one node: appends, in declaration order, one
/// finding per applicable rule whose tag was not already emitted for this
/// node.
fn apply_rules(catalog: &Catalog, kind: NodeKind, span: Span, depth: usize, out: &mut Vec<Finding>)
    ensures
        final(out)@ == old(out)@ + node_findings(catalog@, kind, span, depth as int),
{
    let ghost base = out@;
    let ghost b = base.len() as int;
    let ghost d = depth as int;
    let mut emitted: Vec<EssenceTag> = Vec::new();
    proof {
        assert(base.skip(b) =~= Seq::<Finding>::empty());
        assert(Seq::<Finding>::empty() + node_findings(catalog@, kind, span, d) =~= node_findings(
            catalog@,
            kind,
            span,
            d,
        ));
    }
    let mut i: usize = 0;
    while i < catalog.len()
        invariant
            i <= catalog@.len(),
            out@.len() >= b >= 0,
            out@.take(b) == base,
            node_findings(catalog@, kind, span, d) == out@.skip(b) + node_findings_from(
                catalog@,
                i as int,
                emitted@,
                kind,
                span,
                d,
            ),
            d == depth as int,
        decreases catalog@.len() - i,
    {
        let r = catalog.rule_at(i);
        let fires = if r.kind == kind {
            if r.requires_unsafe {
                depth > 0
            } else {
                true
            }
        } else {
            false
        };
        proof {
            assert(fires == rule_applies(catalog@[i as int], kind, d));
        }
        if fires && !crate::catalog::contains_tag(&emitted, r.tag) {
            let ghost out_prev = out@;
            let ghost em_prev = emitted@;
            let f = Finding { tag: r.tag, span, unsafe_depth: depth };
            out.push(f);
            emitted.push(r.tag);
            proof {
                assert(out@.take(b) =~= out_prev.take(b));
                assert(out@.skip(b) =~= out_prev.skip(b).push(f));
                assert(node_findings_from(catalog@, i as int, em_prev, kind, span, d) == seq![f]
                    + node_findings_from(catalog@, i + 1int, em_prev.push(r.tag), kind, span, d));
                assert(out_prev.skip(b).push(f) + node_findings_from(
                    catalog@,
                    i + 1int,
                    em_prev.push(r.tag),
                    kind,
                    span,
                    d,
                ) =~= out_prev.skip(b) + (seq![f] + node_findings_from(
                    catalog@,
                    i + 1int,
                    em_prev.push(r.tag),
                    kind,
                    span,
                    d,
                )));
            }
        } else {
            proof {
                assert(node_findings_from(catalog@, i as int, emitted@, kind, span, d)
                    == node_findings_from(catalog@, i + 1int, emitted@, kind, span, d));
            }
        }
        i = i + 1;
    }
    proof {
        assert(node_findings_from(catalog@, catalog@.len() as int, emitted@, kind, span, d)
            =~= Seq::<Finding>::empty());
        assert(out@.skip(b) + Seq::<Finding>::empty() =~= out@.skip(b));
        assert(out@ =~= out@.take(b) + out@.skip(b));
    }
}

/// The single-pass traversal engine: visits the validated events in program
/// order, keeps the unsafe-context depth across region markers, and at every
/// other node applies the catalog under the depth in force there. Fails with
/// `UnknownNodeKind` exactly when some node's kind code lies outside the
/// closed enumeration; then no finding sequence (and so no signature) is
/// produced. The result is a pure function of the tree and the catalog, so
/// two runs over the same tree give identical finding sequences.
pub fn walk(ir: &Ir, catalog: &Catalog) -> (r: Result<Vec<Finding>, EssenceError>)
    requires
        ir.wf(),
    ensures
        r is Ok <==> recognized(ir@),
        r is Ok ==> r->Ok_0@ == walk_findings(ir@, catalog@),
        r is Err ==> r->Err_0 == EssenceError::UnknownNodeKind,
{
    let evs = ir.events_ref();
    let mut out: Vec<Finding> = Vec::new();
    let mut depth: usize = 0;
    let mut i: usize = 0;
    while i < evs.len()
        invariant
            ir.wf(),
            evs@ == ir@,
            i <= evs@.len(),
            depth == depth_before(evs@, i as int),
            forall|j: int| 0 <= j < i ==> (#[trigger] spec_decode(evs@[j].code)) is Some,
            out@ == walk_upto(evs@, catalog@, i as int),
        decreases evs@.len() - i,
    {
        let e = evs[i];
        match decode_kind(e.code) {
            None => {
                proof {
                    assert(spec_decode(evs@[i as int].code) is None);
                    assert(!recognized(ir@));
                }
                return Err(EssenceError::UnknownNodeKind);
            },
            Some(k) => {
                if e.code == CODE_UNSAFE_REGION_START {
                    proof {
                        lemma_depth_before_le(evs@, i as int);
                    }
                    depth = depth + 1;
                } else if e.code == CODE_UNSAFE_REGION_END {
                    proof {
                        assert(depth_before(evs@, i + 1int) >= 0);
                    }
                    depth = depth - 1;
                } else {
                    apply_rules(catalog, k, e.span, depth, &mut out);
                    proof {
                        assert(walk_upto(evs@, catalog@, i + 1int) == walk_upto(
                            evs@,
                            catalog@,
                            i as int,
                        ) + node_findings(catalog@, k, e.span, depth_before(evs@, i as int)));
                    }
                }
                i = i + 1;
            },
        }
    }
    Ok(out)
}

} // verus!
