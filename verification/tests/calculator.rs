//! Scenario tests for the calculator engine.

use nostr_tui::calculator::{CalcOp, Calculator};

fn press_digits(c: &mut Calculator, digits: &[u8]) {
    for &d in digits {
        c.input_digit(d);
    }
}

#[test]
fn one_plus_two_equals_three() {
    let mut c = Calculator::new();
    c.input_digit(1);
    c.operator(CalcOp::Add);
    c.input_digit(2);
    c.equals();
    assert_eq!(c.display_text(), "3");
}

#[test]
fn five_divided_by_zero_shows_error() {
    let mut c = Calculator::new();
    c.input_digit(5);
    c.operator(CalcOp::Div);
    c.input_digit(0);
    c.equals();
    assert_eq!(c.display_text(), "Error");
    // The next digit press starts a fresh number.
    c.input_digit(7);
    assert_eq!(c.display_text(), "7");
}

#[test]
fn zero_dot_one_displays_exactly() {
    let mut c = Calculator::new();
    c.input_digit(0);
    c.input_dot();
    c.input_digit(1);
    assert_eq!(c.display_text(), "0.1");
}

#[test]
fn chained_operators_evaluate_left_to_right() {
    let mut c = Calculator::new();
    c.input_digit(2);
    c.operator(CalcOp::Add);
    c.input_digit(3);
    c.operator(CalcOp::Add);
    // The intermediate result shows as soon as the second operator lands.
    assert_eq!(c.display_text(), "5");
    c.input_digit(4);
    c.equals();
    assert_eq!(c.display_text(), "9");
}

#[test]
fn ten_thirds_renders_nine_places_at_the_cutoff() {
    let mut c = Calculator::new();
    press_digits(&mut c, &[1, 0]);
    c.operator(CalcOp::Div);
    c.input_digit(3);
    c.equals();
    assert_eq!(c.display_text(), "3.333333333");
}

#[test]
fn two_thirds_rounds_at_the_ninth_place() {
    let mut c = Calculator::new();
    c.input_digit(2);
    c.operator(CalcOp::Div);
    c.input_digit(3);
    c.equals();
    assert_eq!(c.display_text(), "0.666666667");
}

#[test]
fn integral_results_render_without_point() {
    let mut c = Calculator::new();
    c.input_digit(8);
    c.operator(CalcOp::Div);
    c.input_digit(4);
    c.equals();
    assert_eq!(c.display_text(), "2");

    c.clear();
    c.input_digit(2);
    c.input_dot();
    c.input_digit(5);
    c.operator(CalcOp::Mul);
    c.input_digit(2);
    c.equals();
    assert_eq!(c.display_text(), "5");
}

#[test]
fn trailing_zeros_are_trimmed() {
    let mut c = Calculator::new();
    c.input_digit(1);
    c.operator(CalcOp::Div);
    c.input_digit(8);
    c.equals();
    // A ninth-place rendering of 0.125 would end in six zeros.
    assert_eq!(c.display_text(), "0.125");
}

#[test]
fn negative_results_carry_through() {
    let mut c = Calculator::new();
    c.input_digit(5);
    c.operator(CalcOp::Sub);
    c.input_digit(7);
    c.equals();
    assert_eq!(c.display_text(), "-2");
    c.operator(CalcOp::Mul);
    c.input_digit(3);
    c.equals();
    assert_eq!(c.display_text(), "-6");
}

#[test]
fn digit_entry_caps_at_nine_characters() {
    let mut c = Calculator::new();
    press_digits(&mut c, &[1, 2, 3, 4, 5, 6, 7, 8, 9]);
    assert_eq!(c.display_text(), "123456789");
    c.input_digit(0);
    assert_eq!(c.display_text(), "123456789");
}

#[test]
fn leading_zero_is_replaced_not_extended() {
    let mut c = Calculator::new();
    c.input_digit(0);
    c.input_digit(0);
    assert_eq!(c.display_text(), "0");
    c.input_digit(4);
    assert_eq!(c.display_text(), "4");
}

#[test]
fn second_point_is_ignored() {
    let mut c = Calculator::new();
    c.input_digit(1);
    c.input_dot();
    c.input_digit(5);
    c.input_dot();
    c.input_digit(5);
    assert_eq!(c.display_text(), "1.55");
}

#[test]
fn clear_resets_everything() {
    let mut c = Calculator::new();
    c.input_digit(7);
    c.operator(CalcOp::Add);
    c.input_digit(7);
    c.clear();
    assert_eq!(c.display_text(), "0");
    c.equals();
    assert_eq!(c.display_text(), "0");
}

#[test]
fn large_exact_products_render_in_full() {
    let mut c = Calculator::new();
    press_digits(&mut c, &[9, 9, 9, 9, 9, 9, 9, 9, 9]);
    c.operator(CalcOp::Mul);
    press_digits(&mut c, &[9, 9, 9, 9, 9, 9, 9, 9, 9]);
    c.equals();
    assert_eq!(c.display_text(), "999999998000000001");
}

#[test]
fn unrepresentable_results_show_error_and_clear_the_operator() {
    let mut c = Calculator::new();
    press_digits(&mut c, &[9, 9, 9, 9, 9, 9, 9, 9, 9]);
    for _ in 0..4 {
        c.operator(CalcOp::Mul);
        press_digits(&mut c, &[9, 9, 9, 9, 9, 9, 9, 9, 9]);
        c.equals();
    }
    assert_eq!(c.display_text(), "Error");
    // As after a division by zero, the next digit starts a fresh number
    // and no operator is pending.
    c.input_digit(3);
    c.equals();
    assert_eq!(c.display_text(), "3");
}

#[test]
fn operator_with_no_pending_stores_the_display() {
    let mut c = Calculator::new();
    c.input_digit(6);
    c.operator(CalcOp::Add);
    c.operator(CalcOp::Add);
    // The second press evaluates 6 + 6: the display was still showing 6.
    assert_eq!(c.display_text(), "12");
}
