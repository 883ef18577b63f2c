use stepflow::analysis::{analyze, AnalysisError, FlowAnalysis};
use stepflow::component::Component;
use stepflow::expr::{Expr, SkipAction};
use stepflow::flow::{Flow, Step};
use stepflow::template::ValueTemplate;
use stepflow::value::Value;

fn reads(steps: &[&str]) -> ValueTemplate {
    ValueTemplate::Array(
        steps
            .iter()
            .map(|s| ValueTemplate::Expr(Expr::step_path(s, "", SkipAction::Skip)))
            .collect(),
    )
}

fn step(id: &str, from: &[&str]) -> Step {
    Step::new(id, Component::new("mock", "c", ""), reads(from))
}

#[test]
fn a_chain_is_analysed() {
    let flow = Flow::new(
        vec![step("a", &[]), step("b", &["a"]), step("c", &["a", "b", "a"])],
        reads(&["c"]),
    );
    let analysis = analyze(&flow).unwrap();
    assert_eq!(analysis.step_count(), 3);
    assert_eq!(analysis.step_id(1), Some("b"));
    assert_eq!(analysis.step_id(3), None);
    assert_eq!(analysis.reads(3), None);
    assert_eq!(analysis.step_position("c"), Some(2));
    assert_eq!(analysis.step_position("d"), None);
    assert_eq!(analysis.reads(0), Some(&Vec::<usize>::new()));
    assert_eq!(analysis.reads(1), Some(&vec![0]));
    assert_eq!(analysis.reads(2), Some(&vec![0, 1, 0]));
    assert_eq!(analysis.output_deps(), &vec![2]);
}

#[test]
fn steps_may_read_from_later_steps() {
    let flow = Flow::new(
        vec![step("a", &["b"]), step("b", &[])],
        ValueTemplate::Literal(Value::Null),
    );
    let analysis = analyze(&flow).unwrap();
    assert_eq!(analysis.reads(0), Some(&vec![1]));
    assert_eq!(analysis.output_deps(), &Vec::<usize>::new());
}

#[test]
fn two_steps_with_one_id_are_refused() {
    let flow = Flow::new(
        vec![step("a", &[]), step("b", &[]), step("a", &[])],
        reads(&[]),
    );
    assert_eq!(
        analyze(&flow).err(),
        Some(AnalysisError::DuplicateStep {
            step: "a".to_string()
        })
    );
}

#[test]
fn a_read_from_no_step_is_refused() {
    let flow = Flow::new(vec![step("a", &["ghost"])], reads(&[]));
    assert_eq!(
        analyze(&flow).err(),
        Some(AnalysisError::UnknownStep {
            step: "ghost".to_string()
        })
    );
    let flow = Flow::new(vec![step("a", &[])], reads(&["a", "nobody"]));
    assert_eq!(
        analyze(&flow).err(),
        Some(AnalysisError::UnknownStep {
            step: "nobody".to_string()
        })
    );
}

#[test]
fn a_cycle_is_refused() {
    let flow = Flow::new(vec![step("a", &["a"])], reads(&[]));
    assert_eq!(analyze(&flow).err(), Some(AnalysisError::Cycle));
    let flow = Flow::new(
        vec![step("a", &["c"]), step("b", &["a"]), step("c", &["b"]), step("d", &[])],
        reads(&["d"]),
    );
    assert_eq!(analyze(&flow).err(), Some(AnalysisError::Cycle));
}

fn graph(deps: Vec<Vec<usize>>) -> FlowAnalysis {
    let ids = (0..deps.len()).map(|i| format!("s{i}")).collect();
    FlowAnalysis::from_parts(ids, deps, vec![]).unwrap()
}

#[test]
fn an_order_puts_each_step_after_what_it_reads() {
    let deps = vec![vec![2, 1], vec![2], vec![], vec![0, 1, 2]];
    let rank = graph(deps.clone()).order().unwrap();
    assert_eq!(rank.len(), 4);
    for (i, reads) in deps.iter().enumerate() {
        for d in reads {
            assert!(rank[*d] < rank[i]);
        }
    }
    assert_eq!(graph(vec![vec![1], vec![0]]).order(), None);
    assert_eq!(graph(vec![vec![0]]).order(), None);
    assert_eq!(graph(vec![vec![], vec![2], vec![3], vec![1]]).order(), None);
    assert_eq!(graph(vec![]).order(), Some(vec![]));
}

#[test]
fn parts_that_do_not_fit_are_refused() {
    let ids = || vec!["a".to_string(), "b".to_string()];
    assert!(FlowAnalysis::from_parts(ids(), vec![vec![], vec![0]], vec![1]).is_some());
    assert!(FlowAnalysis::from_parts(ids(), vec![vec![1], vec![0]], vec![]).is_some());
    assert!(FlowAnalysis::from_parts(ids(), vec![vec![]], vec![]).is_none());
    assert!(FlowAnalysis::from_parts(ids(), vec![vec![2], vec![]], vec![]).is_none());
    assert!(FlowAnalysis::from_parts(ids(), vec![vec![], vec![]], vec![2]).is_none());
    assert!(FlowAnalysis::from_parts(
        vec!["a".to_string(), "a".to_string()],
        vec![vec![], vec![]],
        vec![]
    )
    .is_none());
}
