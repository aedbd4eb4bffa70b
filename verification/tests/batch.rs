use essence::catalog::{default_catalog, EssenceTag};
use essence::error::EssenceError;
use essence::ir::{
    RawNode, Span, CODE_MEMORY_DEREF, CODE_OTHER, CODE_UNSAFE_REGION_END,
    CODE_UNSAFE_REGION_START,
};
use essence::report::{analyze_all, FunctionIr};
use essence::signature::{aggregate, FunctionSignature};
use essence::walker::Finding;

fn span(line: u32) -> Span {
    Span { line_start: line, col_start: 1, line_end: line, col_end: 40 }
}

fn leaf(code: u8, line: u32) -> RawNode {
    RawNode { kind_code: code, span: span(line), children: Vec::new() }
}

fn node(code: u8, line: u32, children: Vec<RawNode>) -> RawNode {
    RawNode { kind_code: code, span: span(line), children }
}

#[test]
fn batch_isolates_failures_and_keeps_order() {
    let catalog = default_catalog();
    let good = node(
        CODE_OTHER,
        1,
        vec![
            leaf(CODE_UNSAFE_REGION_START, 2),
            leaf(CODE_MEMORY_DEREF, 3),
            leaf(CODE_UNSAFE_REGION_END, 4),
        ],
    );
    let unbalanced = node(CODE_OTHER, 1, vec![leaf(CODE_UNSAFE_REGION_START, 2)]);
    let unknown = node(CODE_OTHER, 1, vec![leaf(99, 2)]);
    let report = analyze_all(
        vec![
            FunctionIr { name: "good".to_string(), root: good },
            FunctionIr { name: "broken".to_string(), root: unbalanced },
            FunctionIr { name: "odd".to_string(), root: unknown },
        ],
        &catalog,
    );
    assert_eq!(report.signatures.len(), 1);
    assert_eq!(report.signatures[0].name, "good");
    assert_eq!(report.signatures[0].tags, vec![EssenceTag::RawPointerDeref]);
    assert_eq!(report.failures.len(), 2);
    assert_eq!(report.failures[0].name, "broken");
    assert_eq!(report.failures[0].error, EssenceError::MalformedIr);
    assert_eq!(report.failures[1].name, "odd");
    assert_eq!(report.failures[1].error, EssenceError::UnknownNodeKind);
}

#[test]
fn empty_batch_gives_empty_report() {
    let catalog = default_catalog();
    let report = analyze_all(Vec::new(), &catalog);
    assert!(report.signatures.is_empty());
    assert!(report.failures.is_empty());
}

#[test]
fn aggregate_of_no_findings_is_empty_not_an_error() {
    let sig: FunctionSignature = aggregate("quiet".to_string(), Vec::new());
    assert_eq!(sig.name, "quiet");
    assert!(sig.findings.is_empty());
    assert!(sig.tags.is_empty());
    assert_eq!(sig.max_depth, 0);
}

#[test]
fn aggregate_dedupes_tags_and_takes_max_depth() {
    let findings = vec![
        Finding { tag: EssenceTag::RawPointerDeref, span: span(2), unsafe_depth: 1 },
        Finding { tag: EssenceTag::PointerOffsetArithmetic, span: span(3), unsafe_depth: 3 },
        Finding { tag: EssenceTag::RawPointerDeref, span: span(4), unsafe_depth: 2 },
    ];
    let sig = aggregate("f".to_string(), findings.clone());
    assert_eq!(sig.findings, findings);
    assert_eq!(sig.tags, vec![EssenceTag::RawPointerDeref, EssenceTag::PointerOffsetArithmetic]);
    assert_eq!(sig.max_depth, 3);
}
