use vstd::prelude::*;

use crate::error::EssenceError;
use crate::ir::NodeKind;

verus! {

/// The closed enumeration of essence tags: the low-level behaviours the
/// engine recognizes and reports.
#[derive(Clone, Copy, PartialEq, Eq, Structural, Debug)]
pub enum EssenceTag {
    RawPointerDeref,
    PointerOffsetArithmetic,
    UnsafeCall,
    UncheckedCast,
}

/// One declarative rule of the catalog: at a node of kind `kind` it emits
/// `tag`. A rule with `requires_unsafe` set is only ever applied while the
/// unsafe-context depth is positive; the walker enforces that, the catalog
/// merely declares it.
#[derive(Clone, Copy, PartialEq, Eq, Structural, Debug)]
pub struct PatternRule {
    pub kind: NodeKind,
    pub tag: EssenceTag,
    pub requires_unsafe: bool,
}

/// A rule set is well formed when no two rules would emit the same tag for
/// the same node kind: under the first-rule-wins tie-break the later of such
/// a pair could never fire, so the set is treated as inconsistent and
/// rejected at load time.
pub open spec fn rules_well_formed(rules: Seq<PatternRule>) -> bool {
    forall|i: int, j: int|
        0 <= i < j < rules.len() ==> !(#[trigger] rules[i].kind == #[trigger] rules[j].kind
            && rules[i].tag == rules[j].tag)
}

/// The ordered, immutable rule set the walker consults at every
/// non-marker node. Loaded once, before any function is analyzed.
#[derive(Debug)]
pub struct Catalog {
    rules: Vec<PatternRule>,
}

impl View for Catalog {
    type V = Seq<PatternRule>;

    closed spec fn view(&self) -> Seq<PatternRule> {
        self.rules@
    }
}

impl Catalog {
    pub open spec fn wf(self) -> bool {
        rules_well_formed(self@)
    }

    /// Validates and seals a rule set. Loading fails with `CatalogLoad`
    /// exactly when the set is not well formed; an inconsistent catalog
    /// would silently produce wrong signatures for every function, so the
    /// whole run is refused before any function is processed.
    pub fn load(rules: Vec<PatternRule>) -> (r: Result<Catalog, EssenceError>)
        ensures
            r is Ok <==> rules_well_formed(rules@),
            r is Ok ==> r->Ok_0@ == rules@,
            r is Err ==> r->Err_0 == EssenceError::CatalogLoad,
    {
        let mut i: usize = 0;
        while i < rules.len()
            invariant
                i <= rules@.len(),
                forall|a: int, b: int|
                    0 <= a < b < rules@.len() && b < i ==> !(#[trigger] rules@[a].kind
                        == #[trigger] rules@[b].kind && rules@[a].tag == rules@[b].tag),
            decreases rules@.len() - i,
        {
            let mut j: usize = 0;
            while j < i
                invariant
                    j <= i < rules@.len(),
                    forall|a: int|
                        0 <= a < j ==> !(#[trigger] rules@[a].kind == rules@[i as int].kind
                            && rules@[a].tag == rules@[i as int].tag),
                decreases i - j,
            {
                if rules[j].kind == rules[i].kind && rules[j].tag == rules[i].tag {
                    return Err(EssenceError::CatalogLoad);
                }
                j = j + 1;
            }
            i = i + 1;
        }
        Ok(Catalog { rules })
    }

    pub fn len(&self) -> (r: usize)
        ensures
            r == self@.len(),
    {
        self.rules.len()
    }

    pub fn rule_at(&self, i: usize) -> (r: PatternRule)
        requires
            i < self@.len(),
        ensures
            r == self@[i as int],
    {
        self.rules[i]
    }
}

/// The rule set the analyzer ships with: dereferences, pointer offset
/// arithmetic and calls are significant inside an unsafe region; a cast is
/// reported wherever it stands. A dereference outside any unsafe region is
/// deliberately left out of the signature rather than reported as a
/// diagnostic of its own: a rule set that wants such a diagnostic states it
/// as an explicit rule with `requires_unsafe` unset.
pub open spec fn default_rules() -> Seq<PatternRule> {
    seq![
        PatternRule {
            kind: NodeKind::MemoryDeref,
            tag: EssenceTag::RawPointerDeref,
            requires_unsafe: true,
        },
        PatternRule {
            kind: NodeKind::PointerArithmetic,
            tag: EssenceTag::PointerOffsetArithmetic,
            requires_unsafe: true,
        },
        PatternRule { kind: NodeKind::Call, tag: EssenceTag::UnsafeCall, requires_unsafe: true },
        PatternRule { kind: NodeKind::Cast, tag: EssenceTag::UncheckedCast, requires_unsafe: false },
    ]
}

/// Builds the shipped rule set. It is well formed, so loading it never
/// fails.
pub fn default_catalog() -> (r: Catalog)
    ensures
        r@ == default_rules(),
        r.wf(),
{
    let mut rules: Vec<PatternRule> = Vec::new();
    rules.push(
        PatternRule { kind: NodeKind::MemoryDeref, tag: EssenceTag::RawPointerDeref, requires_unsafe: true },
    );
    rules.push(
        PatternRule {
            kind: NodeKind::PointerArithmetic,
            tag: EssenceTag::PointerOffsetArithmetic,
            requires_unsafe: true,
        },
    );
    rules.push(
        PatternRule { kind: NodeKind::Call, tag: EssenceTag::UnsafeCall, requires_unsafe: true },
    );
    rules.push(
        PatternRule { kind: NodeKind::Cast, tag: EssenceTag::UncheckedCast, requires_unsafe: false },
    );
    proof {
        assert(rules@ =~= default_rules());
        assert(rules_well_formed(rules@));
    }
    Catalog { rules }
}

/// Whether a vector of tags holds the given tag.
pub fn contains_tag(v: &Vec<EssenceTag>, t: EssenceTag) -> (r: bool)
    ensures
        r == v@.contains(t),
{
    let mut i: usize = 0;
    while i < v.len()
        invariant
            i <= v@.len(),
            forall|j: int| 0 <= j < i ==> v@[j] != t,
        decreases v@.len() - i,
    {
        if v[i] == t {
            return true;
        }
        i = i + 1;
    }
    false
}

} // verus!
