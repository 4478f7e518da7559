use lv8::evaluator::{Evaluator, Metadata};

#[test]
fn new_evaluator_has_one_scope() {
    let evaluator = Evaluator::new(Metadata { pw: String::from(".") });
    assert_eq!(evaluator.scopes.len(), 1);
    assert_eq!(evaluator.scopes[0].variables.len(), 4);
    assert!(evaluator.stack.is_empty());
}
