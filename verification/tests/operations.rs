use expression_tokenizer::turn_into_character;
use expression_tokenizer::turn_into_operation;
use expression_tokenizer::Operations;
use expression_tokenizer::ORDER_OF_OPERATIONS;

#[test]
fn each_symbol_is_its_operation() {
    assert_eq!(turn_into_operation('+'), Some(Operations::Add));
    assert_eq!(turn_into_operation('-'), Some(Operations::Subtract));
    assert_eq!(turn_into_operation('*'), Some(Operations::Multiply));
    assert_eq!(turn_into_operation('/'), Some(Operations::Divide));
    assert_eq!(turn_into_operation('^'), Some(Operations::Power));
}

#[test]
fn other_characters_are_no_operation() {
    for character in ['0', '9', '(', ')', ' ', 'a', 'x', '%', '=', '\n', '\u{00d7}', '\u{00f7}'] {
        assert_eq!(turn_into_operation(character), None);
    }
}

#[test]
fn each_operation_has_its_symbol() {
    assert_eq!(turn_into_character(Operations::Add), '+');
    assert_eq!(turn_into_character(Operations::Subtract), '-');
    assert_eq!(turn_into_character(Operations::Multiply), '*');
    assert_eq!(turn_into_character(Operations::Divide), '/');
    assert_eq!(turn_into_character(Operations::Power), '^');
}

#[test]
fn symbols_round_trip() {
    for character in ['+', '-', '*', '/', '^'] {
        let operation = turn_into_operation(character).unwrap();
        assert_eq!(turn_into_character(operation), character);
    }
    for operation in ORDER_OF_OPERATIONS {
        assert_eq!(turn_into_operation(turn_into_character(operation)), Some(operation));
    }
}

#[test]
fn order_of_operations_is_as_stated() {
    assert_eq!(
        ORDER_OF_OPERATIONS,
        [
            Operations::Power,
            Operations::Multiply,
            Operations::Divide,
            Operations::Add,
            Operations::Subtract,
        ]
    );
}

#[test]
fn order_of_operations_lists_each_operation_once() {
    for operation in [
        Operations::Add,
        Operations::Subtract,
        Operations::Multiply,
        Operations::Divide,
        Operations::Power,
    ] {
        let count = ORDER_OF_OPERATIONS.iter().filter(|listed| **listed == operation).count();
        assert_eq!(count, 1);
    }
}

#[test]
fn operations_are_shown_by_name() {
    assert_eq!(Operations::Add.to_text(), "ADD");
    assert_eq!(Operations::Subtract.to_text(), "SUBTRACT");
    assert_eq!(Operations::Multiply.to_text(), "MULTIPLY");
    assert_eq!(Operations::Divide.to_text(), "DIVIDE");
    assert_eq!(Operations::Power.to_text(), "POWER");
}
