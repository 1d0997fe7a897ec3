use expression_tokenizer::ExpressionAtom;
use expression_tokenizer::OperationTokenTree;
use expression_tokenizer::Operations;

fn number(value: u32) -> ExpressionAtom {
    ExpressionAtom::Number(value)
}

fn operation(operation: Operations) -> ExpressionAtom {
    ExpressionAtom::Operation(operation)
}

#[test]
fn test_tokenizer() {
    let t_tree = OperationTokenTree { tokens: vec![] };
    assert!(t_tree.tokens.is_empty());

    let token_stream: Vec<ExpressionAtom> =
        OperationTokenTree::evaluate_tokens("1+(1+(2+4+5666))");
    println!("{:?}", token_stream);
}

#[test]
fn nested_expression_keeps_every_atom_in_order() {
    let tokens = OperationTokenTree::evaluate_tokens("1+(1+(2+4+5666))");
    assert_eq!(
        tokens,
        vec![
            number(1),
            operation(Operations::Add),
            ExpressionAtom::LeftParenthesis,
            number(1),
            operation(Operations::Add),
            ExpressionAtom::LeftParenthesis,
            number(2),
            operation(Operations::Add),
            number(4),
            operation(Operations::Add),
            number(5666),
            ExpressionAtom::RightParenthesis,
            ExpressionAtom::RightParenthesis,
        ]
    );
}

#[test]
fn digits_merge_from_left_to_right() {
    let tokens = OperationTokenTree::evaluate_tokens("123");
    assert_eq!(tokens, vec![number(123)]);
    assert_ne!(tokens, vec![number(321)]);
    assert_ne!(tokens, vec![number(1), number(2), number(3)]);
}

#[test]
fn single_operation_symbols_are_single_atoms() {
    assert_eq!(OperationTokenTree::evaluate_tokens("+"), vec![operation(Operations::Add)]);
    assert_eq!(OperationTokenTree::evaluate_tokens("-"), vec![operation(Operations::Subtract)]);
    assert_eq!(OperationTokenTree::evaluate_tokens("*"), vec![operation(Operations::Multiply)]);
    assert_eq!(OperationTokenTree::evaluate_tokens("/"), vec![operation(Operations::Divide)]);
    assert_eq!(OperationTokenTree::evaluate_tokens("^"), vec![operation(Operations::Power)]);
}

#[test]
fn parentheses_pass_through() {
    assert_eq!(
        OperationTokenTree::evaluate_tokens("(())"),
        vec![
            ExpressionAtom::LeftParenthesis,
            ExpressionAtom::LeftParenthesis,
            ExpressionAtom::RightParenthesis,
            ExpressionAtom::RightParenthesis,
        ]
    );
}

#[test]
fn unbalanced_parentheses_pass_through() {
    assert_eq!(
        OperationTokenTree::evaluate_tokens(")(("),
        vec![
            ExpressionAtom::RightParenthesis,
            ExpressionAtom::LeftParenthesis,
            ExpressionAtom::LeftParenthesis,
        ]
    );
}

#[test]
fn an_operation_ends_a_run_of_digits() {
    assert_eq!(
        OperationTokenTree::evaluate_tokens("12+34"),
        vec![number(12), operation(Operations::Add), number(34)]
    );
}

#[test]
fn a_parenthesis_ends_a_run_of_digits() {
    assert_eq!(
        OperationTokenTree::evaluate_tokens("12(34)56"),
        vec![
            number(12),
            ExpressionAtom::LeftParenthesis,
            number(34),
            ExpressionAtom::RightParenthesis,
            number(56),
        ]
    );
}

#[test]
fn empty_text_has_no_atoms() {
    assert_eq!(OperationTokenTree::evaluate_tokens(""), vec![]);
}

#[test]
fn spaces_are_passed_over() {
    let spaced = OperationTokenTree::evaluate_tokens("1 + 2");
    let dense = OperationTokenTree::evaluate_tokens("1+2");
    assert_eq!(spaced, dense);
    assert_eq!(dense, vec![number(1), operation(Operations::Add), number(2)]);
}

#[test]
fn letters_and_other_symbols_are_passed_over() {
    assert_eq!(
        OperationTokenTree::evaluate_tokens("x = 7 + y;\n"),
        vec![number(7), operation(Operations::Add)]
    );
    assert_eq!(OperationTokenTree::evaluate_tokens("abc \t!?"), vec![]);
}

#[test]
fn a_passed_over_character_does_not_end_a_run() {
    assert_eq!(OperationTokenTree::evaluate_tokens("1 2"), vec![number(12)]);
    assert_eq!(OperationTokenTree::evaluate_tokens("4_000"), vec![number(4000)]);
    assert_eq!(OperationTokenTree::evaluate_tokens("7 % 3"), vec![number(73)]);
}

#[test]
fn only_the_ten_ascii_digits_are_digits() {
    // Arabic-Indic digit three, superscript two, Roman numeral one.
    assert_eq!(OperationTokenTree::evaluate_tokens("\u{0663}\u{00b2}\u{2160}"), vec![]);
    assert_eq!(
        OperationTokenTree::evaluate_tokens("1\u{0663}2+\u{00b2}"),
        vec![number(12), operation(Operations::Add)]
    );
}

#[test]
fn every_read_character_is_accounted_for() {
    let tokens = OperationTokenTree::evaluate_tokens("(12+3)*45^6-7/89");
    assert_eq!(
        tokens,
        vec![
            ExpressionAtom::LeftParenthesis,
            number(12),
            operation(Operations::Add),
            number(3),
            ExpressionAtom::RightParenthesis,
            operation(Operations::Multiply),
            number(45),
            operation(Operations::Power),
            number(6),
            operation(Operations::Subtract),
            number(7),
            operation(Operations::Divide),
            number(89),
        ]
    );
}

#[test]
fn leading_zeros_do_not_change_a_number() {
    assert_eq!(OperationTokenTree::evaluate_tokens("0"), vec![number(0)]);
    assert_eq!(OperationTokenTree::evaluate_tokens("000"), vec![number(0)]);
    assert_eq!(OperationTokenTree::evaluate_tokens("007"), vec![number(7)]);
}

#[test]
fn the_largest_number_is_read_exactly() {
    assert_eq!(OperationTokenTree::evaluate_tokens("4294967294"), vec![number(4294967294)]);
    assert_eq!(OperationTokenTree::evaluate_tokens("4294967295"), vec![number(u32::MAX)]);
    assert_eq!(OperationTokenTree::evaluate_tokens("0004294967295"), vec![number(u32::MAX)]);
}

#[test]
fn a_number_that_is_too_large_saturates() {
    assert_eq!(OperationTokenTree::evaluate_tokens("4294967296"), vec![number(u32::MAX)]);
    assert_eq!(OperationTokenTree::evaluate_tokens("4294967300"), vec![number(u32::MAX)]);
    assert_eq!(OperationTokenTree::evaluate_tokens("42949672950"), vec![number(u32::MAX)]);
    assert_eq!(
        OperationTokenTree::evaluate_tokens("99999999999999999999999999+1"),
        vec![number(u32::MAX), operation(Operations::Add), number(1)]
    );
}
