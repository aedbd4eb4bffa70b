use vstd::prelude::*;

use crate::catalog::{contains_tag, EssenceTag, PatternRule};
use crate::ir::Event;
use crate::walker::{walk_findings, Finding};

verus! {

/// The distinct tags of a finding sequence, each at its first occurrence,
/// in order of first occurrence.
pub open spec fn distinct_tags(fs: Seq<Finding>) -> Seq<EssenceTag>
    decreases fs.len(),
{
    if fs.len() == 0 {
        Seq::empty()
    } else {
        let prior = distinct_tags(fs.drop_last());
        if prior.contains(fs.last().tag) {
            prior
        } else {
            prior.push(fs.last().tag)
        }
    }
}

/// The greatest unsafe depth among the findings, zero when there are none.
pub open spec fn max_depth_of(fs: Seq<Finding>) -> int
    decreases fs.len(),
{
    if fs.len() == 0 {
        0
    } else {
        let m = max_depth_of(fs.drop_last());
        if fs.last().unsafe_depth > m {
            fs.last().unsafe_depth as int
        } else {
            m
        }
    }
}

/// The deduplicated tag list is a set: it holds no tag twice, and it holds
/// exactly the tags that occur among the findings.
pub proof fn lemma_distinct_tags_is_a_set(fs: Seq<Finding>)
    ensures
        forall|k: int, l: int|
            0 <= k < l < distinct_tags(fs).len() ==> distinct_tags(fs)[k] != distinct_tags(fs)[l],
        forall|t: EssenceTag| #[trigger] distinct_tags(fs).contains(t) ==> exists|j: int|
            0 <= j < fs.len() && fs[j].tag == t,
        forall|j: int| 0 <= j < fs.len() ==> distinct_tags(fs).contains(#[trigger] fs[j].tag),
    decreases fs.len(),
{
    if fs.len() > 0 {
        let dl = fs.drop_last();
        let dtl = distinct_tags(dl);
        let x = fs.last().tag;
        lemma_distinct_tags_is_a_set(dl);
        if dtl.contains(x) {
            assert(distinct_tags(fs) == dtl);
            assert forall|j: int| 0 <= j < fs.len() implies distinct_tags(fs).contains(
                #[trigger] fs[j].tag,
            ) by {
                if j < fs.len() - 1 {
                    assert(dl[j] == fs[j]);
                }
            }
        } else {
            assert(distinct_tags(fs) == dtl.push(x));
            assert forall|k: int, l: int|
                0 <= k < l < distinct_tags(fs).len() implies distinct_tags(fs)[k]
                != distinct_tags(fs)[l] by {
                if l == dtl.len() {
                    assert(dtl.contains(dtl[k]));
                }
            }
            assert forall|t: EssenceTag| #[trigger] distinct_tags(fs).contains(t) implies exists|
                j: int,
            | 0 <= j < fs.len() && fs[j].tag == t by {
                let k = choose|k: int|
                    0 <= k < distinct_tags(fs).len() && distinct_tags(fs)[k] == t;
                if k < dtl.len() {
                    assert(dtl.contains(t));
                    let j = choose|j: int| 0 <= j < dl.len() && dl[j].tag == t;
                    assert(fs[j].tag == t);
                } else {
                    assert(fs[fs.len() - 1].tag == t);
                }
            }
            assert forall|j: int| 0 <= j < fs.len() implies distinct_tags(fs).contains(
                #[trigger] fs[j].tag,
            ) by {
                if j < fs.len() - 1 {
                    assert(dl[j] == fs[j]);
                    assert(dtl.contains(fs[j].tag));
                    let k = choose|k: int| 0 <= k < dtl.len() && dtl[k] == fs[j].tag;
                    assert(distinct_tags(fs)[k] == fs[j].tag);
                } else {
                    assert(distinct_tags(fs)[dtl.len() as int] == x);
                }
            }
        }
    }
}

/// The aggregated maximum really is the maximum: no finding lies deeper,
/// and unless there are no findings at all, some finding lies exactly that
/// deep (with none, it is zero).
pub proof fn lemma_max_depth_is_max(fs: Seq<Finding>)
    ensures
        forall|j: int| 0 <= j < fs.len() ==> (#[trigger] fs[j]).unsafe_depth <= max_depth_of(fs),
        fs.len() > 0 ==> max_depth_of(fs) == 0 || exists|j: int|
            0 <= j < fs.len() && (#[trigger] fs[j]).unsafe_depth == max_depth_of(fs),
        max_depth_of(fs) >= 0,
    decreases fs.len(),
{
    if fs.len() > 0 {
        let dl = fs.drop_last();
        lemma_max_depth_is_max(dl);
        assert forall|j: int| 0 <= j < fs.len() implies (#[trigger] fs[j]).unsafe_depth
            <= max_depth_of(fs) by {
            if j < fs.len() - 1 {
                assert(dl[j] == fs[j]);
            }
        }
        if max_depth_of(fs) > 0 {
            if fs.last().unsafe_depth > max_depth_of(dl) {
                assert(fs[fs.len() - 1].unsafe_depth == max_depth_of(fs));
            } else {
                let j = choose|j: int|
                    0 <= j < dl.len() && (#[trigger] dl[j]).unsafe_depth == max_depth_of(dl);
                assert(fs[j].unsafe_depth == max_depth_of(fs));
            }
        }
    }
}

/// The per-function essence signature: the findings in program order, the
/// set of distinct tags among them, and the greatest unsafe depth observed.
/// Built once by the aggregator and read-only afterward.
#[derive(Debug)]
pub struct FunctionSignature {
    pub name: String,
    pub findings: Vec<Finding>,
    pub tags: Vec<EssenceTag>,
    pub max_depth: usize,
}

/// The mathematical content of a signature, with the identifier as a
/// character sequence.
pub struct SignatureModel {
    pub name: Seq<char>,
    pub findings: Seq<Finding>,
    pub tags: Seq<EssenceTag>,
    pub max_depth: int,
}

pub open spec fn sig_view(s: FunctionSignature) -> SignatureModel {
    SignatureModel {
        name: s.name@,
        findings: s.findings@,
        tags: s.tags@,
        max_depth: s.max_depth as int,
    }
}

/// The signature a function with the given identifier and event sequence is
/// owed under the given rules.
pub open spec fn sig_model(name: Seq<char>, evs: Seq<Event>, rules: Seq<PatternRule>) -> SignatureModel {
    SignatureModel {
        name: name,
        findings: walk_findings(evs, rules),
        tags: distinct_tags(walk_findings(evs, rules)),
        max_depth: max_depth_of(walk_findings(evs, rules)),
    }
}

/// Reduces an ordered finding sequence to a signature: the sequence itself
/// is retained, the tag set is deduplicated in order of first occurrence,
/// and the greatest observed unsafe depth is computed. A pure function of
/// its input; an empty sequence yields a signature with an empty tag set.
pub fn aggregate(name: String, findings: Vec<Finding>) -> (r: FunctionSignature)
    ensures
        r.name == name,
        r.findings == findings,
        r.tags@ == distinct_tags(findings@),
        r.max_depth == max_depth_of(findings@),
{
    let mut tags: Vec<EssenceTag> = Vec::new();
    let mut max_depth: usize = 0;
    let mut i: usize = 0;
    proof {
        assert(findings@.take(0) =~= Seq::<Finding>::empty());
    }
    while i < findings.len()
        invariant
            i <= findings@.len(),
            tags@ == distinct_tags(findings@.take(i as int)),
            max_depth == max_depth_of(findings@.take(i as int)),
        decreases findings@.len() - i,
    {
        let f = findings[i];
        proof {
            assert(findings@.take(i + 1int).drop_last() =~= findings@.take(i as int));
            assert(findings@.take(i + 1int).last() == findings@[i as int]);
        }
        if !contains_tag(&tags, f.tag) {
            tags.push(f.tag);
        }
        if f.unsafe_depth > max_depth {
            max_depth = f.unsafe_depth;
        }
        i = i + 1;
    }
    proof {
        assert(findings@.take(findings@.len() as int) =~= findings@);
    }
    FunctionSignature { name, findings, tags, max_depth }
}

} // verus!
