use vstd::prelude::*;

use crate::catalog::{EssenceTag, PatternRule};
use crate::ir::{balanced, depth_before, is_marker, lemma_depth_before_le, Event, NodeKind, Span};
use crate::signature::max_depth_of;
use crate::walker::{
    node_findings, node_findings_from, rule_applies, walk_findings, walk_upto, Finding,
};

verus! {

proof fn lemma_singleton_concat_contains(x: Finding, rest: Seq<Finding>)
    ensures
        forall|f: Finding| (seq![x] + rest).contains(f) ==> f == x || rest.contains(f),
{
    assert forall|f: Finding| (seq![x] + rest).contains(f) implies f == x || rest.contains(f) by {
        let idx = choose|idx: int|
            0 <= idx < (seq![x] + rest).len() && (seq![x] + rest)[idx] == f;
        if idx > 0 {
            assert(rest[idx - 1] == f);
        }
    }
}

proof fn lemma_concat_contains(a: Seq<Finding>, b: Seq<Finding>)
    ensures
        forall|f: Finding| (a + b).contains(f) ==> a.contains(f) || b.contains(f),
{
    assert forall|f: Finding| (a + b).contains(f) implies a.contains(f) || b.contains(f) by {
        let idx = choose|idx: int| 0 <= idx < (a + b).len() && (a + b)[idx] == f;
        if idx < a.len() {
            assert(a[idx] == f);
        } else {
            assert(b[idx - a.len()] == f);
        }
    }
}

/// Every finding one node contributes carries that node's span, carries the
/// depth the node was visited under, and is owed to some rule whose tag it
/// bears; a rule that requires unsafe context never contributes while the
/// depth is zero.
proof fn lemma_node_findings_from_origin(
    rules: Seq<PatternRule>,
    i: int,
    emitted: Seq<EssenceTag>,
    kind: NodeKind,
    span: Span,
    depth: int,
)
    requires
        0 <= depth <= usize::MAX,
    ensures
        forall|f: Finding|
            #[trigger] node_findings_from(rules, i, emitted, kind, span, depth).contains(f) ==> f.span
                == span && f.unsafe_depth as int == depth && exists|j: int|
                0 <= j < rules.len() && #[trigger] rules[j].tag == f.tag && rules[j].kind == kind
                    && (rules[j].requires_unsafe ==> depth > 0),
    decreases rules.len() - i,
{
    if 0 <= i < rules.len() {
        if rule_applies(rules[i], kind, depth) && !emitted.contains(rules[i].tag) {
            let x = Finding { tag: rules[i].tag, span, unsafe_depth: depth as usize };
            let rest = node_findings_from(rules, i + 1, emitted.push(rules[i].tag), kind, span, depth);
            lemma_singleton_concat_contains(x, rest);
            lemma_node_findings_from_origin(rules, i + 1, emitted.push(rules[i].tag), kind, span, depth);
            assert(node_findings_from(rules, i, emitted, kind, span, depth) == seq![x] + rest);
            assert forall|f: Finding|
                #[trigger] node_findings_from(rules, i, emitted, kind, span, depth).contains(
                    f,
                ) implies f.span == span && f.unsafe_depth as int == depth && exists|j: int|
                0 <= j < rules.len() && #[trigger] rules[j].tag == f.tag && rules[j].kind == kind
                    && (rules[j].requires_unsafe ==> depth > 0) by {
                assert((seq![x] + rest).contains(f));
                if f == x {
                    assert(rules[i].tag == f.tag && rules[i].kind == kind && (
                    rules[i].requires_unsafe ==> depth > 0));
                } else {
                    assert(node_findings_from(
                        rules,
                        i + 1,
                        emitted.push(rules[i].tag),
                        kind,
                        span,
                        depth,
                    ).contains(f));
                }
            }
        } else {
            lemma_node_findings_from_origin(rules, i + 1, emitted, kind, span, depth);
            assert(node_findings_from(rules, i, emitted, kind, span, depth) == node_findings_from(
                rules,
                i + 1,
                emitted,
                kind,
                span,
                depth,
            ));
            assert forall|f: Finding|
                #[trigger] node_findings_from(rules, i, emitted, kind, span, depth).contains(
                    f,
                ) implies f.span == span && f.unsafe_depth as int == depth && exists|j: int|
                0 <= j < rules.len() && #[trigger] rules[j].tag == f.tag && rules[j].kind == kind
                    && (rules[j].requires_unsafe ==> depth > 0) by {
                assert(node_findings_from(rules, i + 1, emitted, kind, span, depth).contains(f));
            }
        }
    }
}

/// Every finding of a traversal prefix was detected at some non-marker
/// position under the depth in force there, and is owed to some rule whose
/// tag it bears; a rule that requires unsafe context only contributes at
/// positive depth.
proof fn lemma_walk_upto_origin(evs: Seq<Event>, rules: Seq<PatternRule>, i: int)
    requires
        0 <= i <= evs.len(),
        evs.len() <= usize::MAX,
        forall|j: int| 0 <= j < i ==> depth_before(evs, j) >= 0,
    ensures
        forall|f: Finding|
            #[trigger] walk_upto(evs, rules, i).contains(f) ==> (exists|p: int|
                0 <= p < i && !is_marker(evs[p].code) && f.unsafe_depth as int == depth_before(
                    evs,
                    p,
                )) && (exists|j: int|
                0 <= j < rules.len() && #[trigger] rules[j].tag == f.tag && (
                rules[j].requires_unsafe ==> f.unsafe_depth > 0)),
    decreases i,
{
    if i > 0 {
        lemma_walk_upto_origin(evs, rules, i - 1);
        let prior = walk_upto(evs, rules, i - 1);
        let e = evs[i - 1];
        if !is_marker(e.code) && crate::ir::spec_decode(e.code) is Some {
            let k = crate::ir::spec_decode(e.code)->Some_0;
            let d = depth_before(evs, i - 1);
            lemma_depth_before_le(evs, i - 1);
            lemma_concat_contains(prior, node_findings(rules, k, e.span, d));
            lemma_node_findings_from_origin(rules, 0, Seq::empty(), k, e.span, d);
            assert forall|f: Finding| #[trigger] walk_upto(evs, rules, i).contains(f) implies (
            exists|p: int|
                0 <= p < i && !is_marker(evs[p].code) && f.unsafe_depth as int == depth_before(
                    evs,
                    p,
                )) && (exists|j: int|
                0 <= j < rules.len() && #[trigger] rules[j].tag == f.tag && (
                rules[j].requires_unsafe ==> f.unsafe_depth > 0)) by {
                if node_findings(rules, k, e.span, d).contains(f) {
                    assert(0 <= i - 1 < i && !is_marker(evs[i - 1].code) && f.unsafe_depth as int
                        == depth_before(evs, i - 1));
                }
            }
        }
    }
}

/// With no region markers anywhere in a body, the depth stays zero through
/// the whole traversal, every finding is detected at depth zero, and the
/// aggregated maximum depth is zero.
pub proof fn lemma_no_markers_keeps_depth_zero(evs: Seq<Event>, rules: Seq<PatternRule>)
    requires
        forall|i: int| 0 <= i < evs.len() ==> !is_marker(#[trigger] evs[i].code),
        evs.len() <= usize::MAX,
    ensures
        forall|i: int| 0 <= i <= evs.len() ==> depth_before(evs, i) == 0,
        forall|f: Finding| #[trigger] walk_findings(evs, rules).contains(f) ==> f.unsafe_depth
            == 0,
        max_depth_of(walk_findings(evs, rules)) == 0,
{
    assert forall|i: int| 0 <= i <= evs.len() implies depth_before(evs, i) == 0 by {
        lemma_depth_all_zero(evs, i);
    }
    lemma_walk_upto_origin(evs, rules, evs.len() as int);
    lemma_max_depth_zero(walk_findings(evs, rules));
}

proof fn lemma_depth_all_zero(evs: Seq<Event>, i: int)
    requires
        0 <= i <= evs.len(),
        forall|j: int| 0 <= j < evs.len() ==> !is_marker(#[trigger] evs[j].code),
    ensures
        depth_before(evs, i) == 0,
    decreases i,
{
    if i > 0 {
        lemma_depth_all_zero(evs, i - 1);
    }
}

proof fn lemma_max_depth_zero(fs: Seq<Finding>)
    requires
        forall|f: Finding| #[trigger] fs.contains(f) ==> f.unsafe_depth == 0,
    ensures
        max_depth_of(fs) == 0,
    decreases fs.len(),
{
    if fs.len() > 0 {
        assert(fs.contains(fs.last()));
        assert forall|f: Finding| #[trigger] fs.drop_last().contains(f) implies fs.contains(f) by {
            let idx = choose|idx: int| 0 <= idx < fs.drop_last().len() && fs.drop_last()[idx] == f;
            assert(fs[idx] == f);
        }
        lemma_max_depth_zero(fs.drop_last());
    }
}

/// With no region markers in a body, no finding of a rule marked as
/// requiring unsafe context is ever produced: a tag that only such rules
/// emit never appears among the findings.
pub proof fn lemma_no_markers_no_unsafe_tag(
    evs: Seq<Event>,
    rules: Seq<PatternRule>,
    t: EssenceTag,
)
    requires
        forall|i: int| 0 <= i < evs.len() ==> !is_marker(#[trigger] evs[i].code),
        evs.len() <= usize::MAX,
        forall|j: int| 0 <= j < rules.len() && #[trigger] rules[j].tag == t ==> rules[j].requires_unsafe,
    ensures
        forall|f: Finding| #[trigger] walk_findings(evs, rules).contains(f) ==> f.tag != t,
{
    lemma_no_markers_keeps_depth_zero(evs, rules);
    lemma_walk_upto_origin(evs, rules, evs.len() as int);
}

/// For every balanced nesting of unsafe regions, the depth never drops
/// below zero on the way and returns to exactly zero at the end of the
/// traversal.
pub proof fn lemma_balanced_depth_returns_to_zero(evs: Seq<Event>)
    requires
        balanced(evs),
    ensures
        depth_before(evs, evs.len() as int) == 0,
        forall|i: int| 0 <= i <= evs.len() ==> depth_before(evs, i) >= 0,
{
}

/// Walking the same tree under the same catalog twice yields identical
/// ordered finding sequences: the result is a pure function of the two, so
/// re-running an analysis is idempotent.
pub proof fn lemma_walker_deterministic(
    evs: Seq<Event>,
    rules: Seq<PatternRule>,
    r1: Seq<Finding>,
    r2: Seq<Finding>,
)
    requires
        r1 == walk_findings(evs, rules),
        r2 == walk_findings(evs, rules),
    ensures
        r1 == r2,
{
}

/// A tag that only unsafe-requiring rules emit is never found outside an
/// unsafe region: on a validated body, every finding bearing it was
/// detected at positive depth. A dereference with no enclosing region
/// therefore contributes no such finding.
pub proof fn lemma_unsafe_tag_needs_region(
    evs: Seq<Event>,
    rules: Seq<PatternRule>,
    t: EssenceTag,
)
    requires
        balanced(evs),
        evs.len() <= usize::MAX,
        forall|j: int| 0 <= j < rules.len() && #[trigger] rules[j].tag == t ==> rules[j].requires_unsafe,
    ensures
        forall|f: Finding| #[trigger] walk_findings(evs, rules).contains(f) && f.tag == t
            ==> f.unsafe_depth > 0,
{
    lemma_walk_upto_origin(evs, rules, evs.len() as int);
}

} // verus!

