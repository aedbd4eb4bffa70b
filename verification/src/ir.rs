use vstd::prelude::*;

use crate::error::EssenceError;

verus! {

/// A half-open source position range: the lines and columns a node covers.
#[derive(Clone, Copy, PartialEq, Eq, Structural, Debug)]
pub struct Span {
    pub line_start: u32,
    pub col_start: u32,
    pub line_end: u32,
    pub col_end: u32,
}

/// Kind codes as the external front-end hands them over. Only these eight
/// belong to the closed node-kind enumeration; any other code is unknown.
pub const CODE_MEMORY_DEREF: u8 = 0;

pub const CODE_POINTER_ARITHMETIC: u8 = 1;

pub const CODE_CAST: u8 = 2;

pub const CODE_CALL: u8 = 3;

pub const CODE_UNSAFE_REGION_START: u8 = 4;

pub const CODE_UNSAFE_REGION_END: u8 = 5;

pub const CODE_CONTROL_FLOW: u8 = 6;

pub const CODE_OTHER: u8 = 7;

/// The closed enumeration of operation-node kinds the engine understands.
#[derive(Clone, Copy, PartialEq, Eq, Structural, Debug)]
pub enum NodeKind {
    MemoryDeref,
    PointerArithmetic,
    Cast,
    Call,
    UnsafeRegionStart,
    UnsafeRegionEnd,
    ControlFlow,
    Other,
}

pub open spec fn spec_decode(code: u8) -> Option<NodeKind> {
    if code == CODE_MEMORY_DEREF {
        Some(NodeKind::MemoryDeref)
    } else if code == CODE_POINTER_ARITHMETIC {
        Some(NodeKind::PointerArithmetic)
    } else if code == CODE_CAST {
        Some(NodeKind::Cast)
    } else if code == CODE_CALL {
        Some(NodeKind::Call)
    } else if code == CODE_UNSAFE_REGION_START {
        Some(NodeKind::UnsafeRegionStart)
    } else if code == CODE_UNSAFE_REGION_END {
        Some(NodeKind::UnsafeRegionEnd)
    } else if code == CODE_CONTROL_FLOW {
        Some(NodeKind::ControlFlow)
    } else if code == CODE_OTHER {
        Some(NodeKind::Other)
    } else {
        None
    }
}

/// Maps a front-end kind code to the closed enumeration, `None` for a code
/// outside it.
pub fn decode_kind(code: u8) -> (r: Option<NodeKind>)
    ensures
        r == spec_decode(code),
{
    if code == CODE_MEMORY_DEREF {
        Some(NodeKind::MemoryDeref)
    } else if code == CODE_POINTER_ARITHMETIC {
        Some(NodeKind::PointerArithmetic)
    } else if code == CODE_CAST {
        Some(NodeKind::Cast)
    } else if code == CODE_CALL {
        Some(NodeKind::Call)
    } else if code == CODE_UNSAFE_REGION_START {
        Some(NodeKind::UnsafeRegionStart)
    } else if code == CODE_UNSAFE_REGION_END {
        Some(NodeKind::UnsafeRegionEnd)
    } else if code == CODE_CONTROL_FLOW {
        Some(NodeKind::ControlFlow)
    } else if code == CODE_OTHER {
        Some(NodeKind::Other)
    } else {
        None
    }
}

/// One node of a function body as the external parser delivers it: a kind
/// code, the source span it covers, and its operand children. The node owns
/// its children, so the representation is a tree.
#[derive(Debug)]
pub struct RawNode {
    pub kind_code: u8,
    pub span: Span,
    pub children: Vec<RawNode>,
}

/// One step of a pre-order traversal: the kind code and span of one node.
/// The engine's whole semantics is stated over a body's event sequence.
#[derive(Clone, Copy, PartialEq, Eq, Structural, Debug)]
pub struct Event {
    pub code: u8,
    pub span: Span,
}

/// The pre-order event sequence of a node tree: the node itself, then the
/// events of each child in order. This is the traversal order of the walker
/// and matches source appearance order.
pub open spec fn events_of(n: RawNode) -> Seq<Event>
    decreases n, 1int,
{
    seq![Event { code: n.kind_code, span: n.span }] + events_of_list(n.children@)
}

pub open spec fn events_of_list(ns: Seq<RawNode>) -> Seq<Event>
    decreases ns, 0int,
{
    if ns.len() == 0 {
        Seq::empty()
    } else {
        events_of_list(ns.drop_last()) + events_of(ns.last())
    }
}

pub open spec fn is_region_start(code: u8) -> bool {
    code == CODE_UNSAFE_REGION_START
}

pub open spec fn is_region_end(code: u8) -> bool {
    code == CODE_UNSAFE_REGION_END
}

pub open spec fn is_marker(code: u8) -> bool {
    is_region_start(code) || is_region_end(code)
}

/// The unsafe-context depth in force when the event at position `i` is
/// visited: the number of region starts minus region ends among the events
/// before it. A start raises the depth for everything after it, an end
/// lowers it.
pub open spec fn depth_before(evs: Seq<Event>, i: int) -> int
    decreases i,
{
    if i <= 0 {
        0
    } else {
        depth_before(evs, i - 1) + if is_region_start(evs[i - 1].code) {
            1int
        } else if is_region_end(evs[i - 1].code) {
            -1int
        } else {
            0int
        }
    }
}

/// Unsafe-region markers nest like parentheses: the depth never drops below
/// zero, and it is exactly zero again once every event has been visited.
pub open spec fn balanced(evs: Seq<Event>) -> bool {
    &&& forall|i: int| 0 <= i <= evs.len() ==> depth_before(evs, i) >= 0
    &&& depth_before(evs, evs.len() as int) == 0
}

pub proof fn lemma_depth_before_le(evs: Seq<Event>, i: int)
    requires
        0 <= i,
    ensures
        depth_before(evs, i) <= i,
    decreases i,
{
    if i > 0 {
        lemma_depth_before_le(evs, i - 1);
    }
}

/// Appends the pre-order events of `n` to `out`.
fn flatten_into(n: &RawNode, out: &mut Vec<Event>)
    ensures
        final(out)@ == old(out)@ + events_of(*n),
    decreases *n,
{
    out.push(Event { code: n.kind_code, span: n.span });
    let ghost head = seq![Event { code: n.kind_code, span: n.span }];
    let mut i: usize = 0;
    while i < n.children.len()
        invariant
            i <= n.children.len(),
            out@ == old(out)@ + head + events_of_list(n.children@.take(i as int)),
        decreases n.children.len() - i,
    {
        flatten_into(&n.children[i], out);
        proof {
            assert(n.children@.take(i + 1int).drop_last() =~= n.children@.take(i as int));
            assert(n.children@.take(i + 1int).last() == n.children@[i as int]);
        }
        i = i + 1;
    }
    proof {
        assert(n.children@.take(n.children@.len() as int) =~= n.children@);
    }
}

/// The pre-order event sequence of a node tree, as a vector.
pub fn flatten(root: &RawNode) -> (r: Vec<Event>)
    ensures
        r@ == events_of(*root),
{
    let mut out: Vec<Event> = Vec::new();
    flatten_into(root, &mut out);
    out
}

/// Decides whether the region markers of an event sequence are balanced.
fn check_balance(evs: &Vec<Event>) -> (r: bool)
    ensures
        r == balanced(evs@),
{
    let mut depth: usize = 0;
    let mut i: usize = 0;
    while i < evs.len()
        invariant
            i <= evs@.len(),
            depth == depth_before(evs@, i as int),
            forall|j: int| 0 <= j <= i ==> depth_before(evs@, j) >= 0,
        decreases evs@.len() - i,
    {
        let c = evs[i].code;
        if c == CODE_UNSAFE_REGION_START {
            proof {
                lemma_depth_before_le(evs@, i as int);
            }
            depth = depth + 1;
        } else if c == CODE_UNSAFE_REGION_END {
            if depth == 0 {
                proof {
                    assert(depth_before(evs@, i + 1int) == -1);
                }
                return false;
            }
            depth = depth - 1;
        }
        i = i + 1;
    }
    depth == 0
}

/// The validated intermediate representation of one function body: the node
/// tree as constructed from the external parse result, and its pre-order
/// event sequence, whose unsafe-region markers are known to be balanced. It
/// is immutable once built, so the walker may assume balance.
#[derive(Debug)]
pub struct Ir {
    root: RawNode,
    events: Vec<Event>,
}

impl View for Ir {
    type V = Seq<Event>;

    closed spec fn view(&self) -> Seq<Event> {
        self.events@
    }
}

impl Ir {
    pub closed spec fn spec_root(self) -> RawNode {
        self.root
    }

    /// Holds of every value this module hands out: the stored events are the
    /// pre-order events of the stored tree, and their markers are balanced.
    pub open spec fn wf(self) -> bool {
        &&& self@ == events_of(self.spec_root())
        &&& balanced(self@)
    }

    /// Validates a parsed node tree eagerly: construction fails with
    /// `MalformedIr` exactly when the tree's unsafe-region markers are
    /// unbalanced, and then no representation (and so no signature) exists
    /// for the function.
    pub fn build(root: RawNode) -> (r: Result<Ir, EssenceError>)
        ensures
            r is Ok <==> balanced(events_of(root)),
            r is Ok ==> r->Ok_0.wf() && r->Ok_0@ == events_of(root) && r->Ok_0.spec_root()
                == root,
            r is Err ==> r->Err_0 == EssenceError::MalformedIr,
    {
        let events = flatten(&root);
        if check_balance(&events) {
            Ok(Ir { root, events })
        } else {
            Err(EssenceError::MalformedIr)
        }
    }

    /// The validated event sequence, for the walker to traverse.
    pub fn events_ref(&self) -> (r: &Vec<Event>)
        ensures
            r@ == self@,
    {
        &self.events
    }
}

} // verus!
