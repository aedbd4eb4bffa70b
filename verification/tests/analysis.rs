use essence::catalog::{default_catalog, Catalog, EssenceTag, PatternRule};
use essence::error::EssenceError;
use essence::ir::{
    Ir, NodeKind, RawNode, Span, CODE_CALL, CODE_CAST, CODE_CONTROL_FLOW, CODE_MEMORY_DEREF,
    CODE_OTHER, CODE_POINTER_ARITHMETIC, CODE_UNSAFE_REGION_END, CODE_UNSAFE_REGION_START,
};
use essence::report::analyze_function;
use essence::walker::walk;

fn span(line: u32) -> Span {
    Span { line_start: line, col_start: 1, line_end: line, col_end: 40 }
}

fn leaf(code: u8, line: u32) -> RawNode {
    RawNode { kind_code: code, span: span(line), children: Vec::new() }
}

fn node(code: u8, line: u32, children: Vec<RawNode>) -> RawNode {
    RawNode { kind_code: code, span: span(line), children }
}

/// The body of the sample fixture: a pointer offset computed and
/// dereferenced inside a single unsafe block.
fn fixture_root() -> RawNode {
    node(
        CODE_OTHER,
        4,
        vec![
            leaf(CODE_UNSAFE_REGION_START, 5),
            node(CODE_MEMORY_DEREF, 6, vec![leaf(CODE_POINTER_ARITHMETIC, 6)]),
            leaf(CODE_UNSAFE_REGION_END, 7),
        ],
    )
}

#[test]
fn fixture_has_deref_and_offset_at_depth_one() {
    let catalog = default_catalog();
    let sig = analyze_function("unsafe_read".to_string(), fixture_root(), &catalog)
        .unwrap_or_else(|f| panic!("analysis failed: {:?}", f.error));
    assert_eq!(sig.name, "unsafe_read");
    assert!(sig.tags.contains(&EssenceTag::RawPointerDeref));
    assert!(sig.tags.contains(&EssenceTag::PointerOffsetArithmetic));
    assert_eq!(sig.max_depth, 1);
    assert_eq!(sig.findings.len(), 2);
    // pre-order: the dereference wraps the offset, so it is found first
    assert_eq!(sig.findings[0].tag, EssenceTag::RawPointerDeref);
    assert_eq!(sig.findings[0].unsafe_depth, 1);
    assert_eq!(sig.findings[0].span, span(6));
    assert_eq!(sig.findings[1].tag, EssenceTag::PointerOffsetArithmetic);
    assert_eq!(sig.findings[1].unsafe_depth, 1);
}

#[test]
fn deref_outside_any_region_yields_no_findings() {
    let catalog = default_catalog();
    let root = node(CODE_OTHER, 1, vec![node(CODE_MEMORY_DEREF, 2, vec![leaf(CODE_POINTER_ARITHMETIC, 2)])]);
    let sig = analyze_function("f".to_string(), root, &catalog).unwrap();
    assert!(sig.findings.is_empty());
    assert!(sig.tags.is_empty());
    assert_eq!(sig.max_depth, 0);
}

#[test]
fn no_markers_keeps_depth_zero_and_no_unsafe_tags() {
    let catalog = default_catalog();
    let root = node(
        CODE_CONTROL_FLOW,
        1,
        vec![leaf(CODE_MEMORY_DEREF, 2), leaf(CODE_CAST, 3), leaf(CODE_CALL, 4)],
    );
    let sig = analyze_function("f".to_string(), root, &catalog).unwrap();
    assert_eq!(sig.max_depth, 0);
    // the cast rule does not require unsafe context, so it is the only finding
    assert_eq!(sig.findings.len(), 1);
    assert_eq!(sig.findings[0].tag, EssenceTag::UncheckedCast);
    assert_eq!(sig.findings[0].unsafe_depth, 0);
    assert!(!sig.tags.contains(&EssenceTag::RawPointerDeref));
    assert!(!sig.tags.contains(&EssenceTag::UnsafeCall));
}

#[test]
fn rerunning_the_walker_gives_identical_findings() {
    let catalog = default_catalog();
    let ir = Ir::build(fixture_root()).unwrap();
    let first = walk(&ir, &catalog).unwrap();
    let second = walk(&ir, &catalog).unwrap();
    assert_eq!(first, second);
}

#[test]
fn nested_regions_track_depth_and_return_to_zero() {
    let catalog = default_catalog();
    let root = node(
        CODE_OTHER,
        1,
        vec![
            leaf(CODE_UNSAFE_REGION_START, 2),
            leaf(CODE_UNSAFE_REGION_START, 3),
            leaf(CODE_MEMORY_DEREF, 4),
            leaf(CODE_UNSAFE_REGION_END, 5),
            leaf(CODE_MEMORY_DEREF, 6),
            leaf(CODE_UNSAFE_REGION_END, 7),
        ],
    );
    let sig = analyze_function("nested".to_string(), root, &catalog).unwrap();
    assert_eq!(sig.findings.len(), 2);
    assert_eq!(sig.findings[0].unsafe_depth, 2);
    assert_eq!(sig.findings[1].unsafe_depth, 1);
    assert_eq!(sig.max_depth, 2);
    assert_eq!(sig.tags, vec![EssenceTag::RawPointerDeref]);
}

#[test]
fn unbalanced_start_is_malformed() {
    let catalog = default_catalog();
    let root = node(CODE_OTHER, 1, vec![leaf(CODE_UNSAFE_REGION_START, 2), leaf(CODE_MEMORY_DEREF, 3)]);
    let fail = analyze_function("f".to_string(), root, &catalog).unwrap_err();
    assert_eq!(fail.name, "f");
    assert_eq!(fail.error, EssenceError::MalformedIr);
}

#[test]
fn end_before_start_is_malformed() {
    let root = node(
        CODE_OTHER,
        1,
        vec![leaf(CODE_UNSAFE_REGION_END, 2), leaf(CODE_UNSAFE_REGION_START, 3)],
    );
    assert_eq!(Ir::build(root).unwrap_err(), EssenceError::MalformedIr);
}

#[test]
fn unknown_kind_code_fails_that_function_only() {
    let catalog = default_catalog();
    let root = node(CODE_OTHER, 1, vec![leaf(42, 2)]);
    let fail = analyze_function("f".to_string(), root, &catalog).unwrap_err();
    assert_eq!(fail.error, EssenceError::UnknownNodeKind);
}

#[test]
fn duplicate_rule_is_rejected_at_load() {
    let rules = vec![
        PatternRule { kind: NodeKind::MemoryDeref, tag: EssenceTag::RawPointerDeref, requires_unsafe: true },
        PatternRule { kind: NodeKind::MemoryDeref, tag: EssenceTag::RawPointerDeref, requires_unsafe: false },
    ];
    assert_eq!(Catalog::load(rules).unwrap_err(), EssenceError::CatalogLoad);
}

#[test]
fn default_rules_load_cleanly() {
    let catalog = default_catalog();
    assert_eq!(catalog.len(), 4);
}

#[test]
fn two_rules_may_match_one_node() {
    // a second rule on dereference nodes: both findings are emitted, in
    // declaration order
    let rules = vec![
        PatternRule { kind: NodeKind::MemoryDeref, tag: EssenceTag::RawPointerDeref, requires_unsafe: true },
        PatternRule { kind: NodeKind::MemoryDeref, tag: EssenceTag::UnsafeCall, requires_unsafe: true },
    ];
    let catalog = Catalog::load(rules).unwrap();
    let root = node(
        CODE_OTHER,
        1,
        vec![
            leaf(CODE_UNSAFE_REGION_START, 2),
            leaf(CODE_MEMORY_DEREF, 3),
            leaf(CODE_UNSAFE_REGION_END, 4),
        ],
    );
    let sig = analyze_function("f".to_string(), root, &catalog).unwrap();
    assert_eq!(sig.findings.len(), 2);
    assert_eq!(sig.findings[0].tag, EssenceTag::RawPointerDeref);
    assert_eq!(sig.findings[1].tag, EssenceTag::UnsafeCall);
}
