use minicc::eval::get_bool_result_from_string;
use minicc::eval::get_int_result_from_string;

#[test]
fn eval_parse_exp_test() {
    assert_eq!(get_int_result_from_string("1+2*3+4+5*6"), Some(41));
    assert_eq!(
        get_int_result_from_string("5 * (1 - 2 + (3-4) * 5 -7 * (11 + 1) -6) + 9 * (1 + 3)"),
        Some(-444)
    );
    assert_eq!(get_int_result_from_string("10 / (2*3 -1))"), Some(2));
    assert_eq!(
        get_int_result_from_string(
            "6*(53 - 4) * (4 + 5 *( 5 - (4 + 2) * (2 - 1) * 7 + 2) * 2 + 5 * 7)"
        ),
        Some(-91434)
    );
    assert_eq!(
        get_int_result_from_string(
            "-1 * 5 + -3* 5 + (-10 * 3 * -2 + (1 - 1* 1 - -1) * 5) + 6 -(1 + 4)"
        ),
        Some(46)
    );
    assert_eq!(get_int_result_from_string("10 / -(2*3 -1)"), Some(-2));
    assert_eq!(get_int_result_from_string("1 + 2 * 3 / -2 + 4 * -5"), Some(-22));
    assert_eq!(get_int_result_from_string("-10+20"), Some(10));
    assert_eq!(get_int_result_from_string("- -10"), Some(10));
    assert_eq!(get_int_result_from_string("- - +10"), Some(10));
    assert_eq!(get_int_result_from_string("1 + 2 * 3 * 2 + 4 * -5"), Some(-7));
}

#[test]
fn eval_exp_bool_test() {
    assert_eq!(get_bool_result_from_string("1 == 1"), Some(true));
    assert_eq!(get_bool_result_from_string("1 != 1"), Some(false));
    assert_eq!(get_bool_result_from_string("-1 * 3 != -3"), Some(false));
    assert_eq!(get_bool_result_from_string("-1 * 3 == -3"), Some(true));
    assert_eq!(
        get_bool_result_from_string("1 + 2 * 3 * 2 + 4 * -5 == -4 + -3"),
        Some(true)
    );
    assert_eq!(get_bool_result_from_string("3 > 0"), Some(true));
    assert_eq!(get_bool_result_from_string("3 > 3"), Some(false));
    assert_eq!(get_bool_result_from_string("3 >= 3"), Some(true));
    assert_eq!(get_bool_result_from_string("1 - 1 * 2 + 3 < 2*2"), Some(true));
    assert_eq!(get_bool_result_from_string("1 < 1"), Some(false));
    assert_eq!(get_bool_result_from_string("1 <= 1"), Some(true));
}

#[test]
fn eval_rejects_division_by_zero() {
    assert_eq!(get_int_result_from_string("1 / 0"), None);
    assert_eq!(get_int_result_from_string("1 / (2 - 2)"), None);
}

#[test]
fn eval_rejects_overflow() {
    assert_eq!(get_int_result_from_string("2147483647 + 1"), None);
    assert_eq!(get_int_result_from_string("2147483647 * 2"), None);
}

#[test]
fn eval_of_a_bare_name_is_no_integer() {
    assert_eq!(get_int_result_from_string("a"), None);
    assert_eq!(get_bool_result_from_string("a"), None);
}
