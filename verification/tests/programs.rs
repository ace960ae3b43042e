use html_lang::ops::Fault;
use html_lang::program::{run_program, Response};

fn run(source: &str) -> Response {
    run_program(source, u64::MAX)
}

fn output(source: &str) -> String {
    match run(source) {
        Response::Output(s) => s,
        other => panic!("unexpected answer {:?}", other),
    }
}

fn refused(source: &str) -> String {
    match run(source) {
        Response::BadRequest(s) => s,
        other => panic!("unexpected answer {:?}", other),
    }
}

#[test]
fn adds_two_integers() {
    assert_eq!(
        output("<main><data value=\"3\"></data><data value=\"4\"></data><dd></dd><output></output>\n</main>"),
        "7\n"
    );
}

#[test]
fn joins_strings_in_push_order() {
    assert_eq!(
        output("<main><s>ab</s><s>cd</s><dd></dd><output></output>\n</main>"),
        "abcd\n"
    );
}

#[test]
fn subtracts_top_from_below() {
    assert_eq!(
        output("<main><data value=\"10\"></data><data value=\"3\"></data><sub></sub><output></output>\n</main>"),
        "7\n"
    );
}

#[test]
fn divides_below_by_top_toward_zero() {
    assert_eq!(
        output("<main><data value=\"-7\"></data><data value=\"2\"></data><div></div><output></output>\n</main>"),
        "-3\n"
    );
}

#[test]
fn division_by_zero_is_a_fault() {
    match run("<main><data value=\"7\"></data><data value=\"0\"></data><div></div><output></output>\n</main>") {
        Response::Fault(f) => assert_eq!(f, Fault::DivisionByZero),
        other => panic!("unexpected answer {:?}", other),
    }
}

#[test]
fn addition_saturates() {
    assert_eq!(
        output("<main><data value=\"9223372036854775807\"></data><data value=\"1\"></data><dd></dd><output></output>\n</main>"),
        "9223372036854775807\n"
    );
}

#[test]
fn compares_with_small_and_big() {
    assert_eq!(
        output("<main><data value=\"5\"></data><data value=\"3\"></data><small></small><output></output>\n</main>"),
        "false\n"
    );
    assert_eq!(
        output("<main><data value=\"5\"></data><data value=\"3\"></data><big></big><output></output>\n</main>"),
        "true\n"
    );
}

#[test]
fn equality_of_copies() {
    assert_eq!(
        output("<main><s>x</s><dt></dt><em></em><output></output>\n</main>"),
        "true\n"
    );
}

#[test]
fn logic_operators() {
    assert_eq!(
        output("<main><cite>true</cite><cite>false</cite><bdo></bdo><dbi></dbi><output></output>\n</main>"),
        "false\n"
    );
}

#[test]
fn list_gathers_values_in_order() {
    assert_eq!(
        output("<main><ol><li><data value=\"1\"></data></li><li><s>two</s></li></ol><output></output>\n</main>"),
        "[1, two]\n"
    );
}

#[test]
fn variables_read_back() {
    assert_eq!(
        output("<main><data value=\"42\"></data><var title=\"x\"></var><cite>x</cite><output></output>\n</main>"),
        "42\n"
    );
}

#[test]
fn unknown_variable_is_null() {
    assert_eq!(
        output("<main><cite>nothing</cite><output></output>\n</main>"),
        "null\n"
    );
}

#[test]
fn condition_runs_children_when_true() {
    assert_eq!(
        output("<main><cite>true</cite><i><s>yes</s><output></output></i><cite>false</cite><i><s>no</s><output></output></i>\n</main>"),
        "yes\n"
    );
}

#[test]
fn jump_skips_instructions() {
    assert_eq!(
        output("<main><s>a</s><a href=\"#end\"></a><output></output><p id=\"end\"></p>\n</main>"),
        ""
    );
}

#[test]
fn return_ends_the_program() {
    assert_eq!(
        output("<main><s>x</s><output></output><rt></rt><s>y</s><output></output>\n</main>"),
        "x\n"
    );
}

#[test]
fn call_and_return() {
    assert_eq!(
        output("<main><a href=\"javascript:f()\"></a><output></output><rt></rt><dfn id=\"f\">\n<s>hi</s>\n</dfn>\n</main>"),
        "hi\n"
    );
}

#[test]
fn last_node_is_not_run() {
    assert_eq!(output("<main><s>x</s><output></output></main>"), "");
}

#[test]
fn missing_main_is_refused() {
    assert_eq!(refused("<p>hello</p>"), "ERROR: `main` tag is required");
}

#[test]
fn empty_main_gives_empty_answer() {
    assert!(matches!(run("<main></main>"), Response::Empty));
}

#[test]
fn output_on_empty_stack_is_refused() {
    assert_eq!(
        refused("<main><output></output>\n</main>"),
        "ERROR: Attemp to peek an empty stack from `output` tag"
    );
}

#[test]
fn data_without_value_is_refused() {
    assert_eq!(
        refused("<main><data></data>\n</main>"),
        "ERROR: The data must have the `value` attribute"
    );
}

#[test]
fn data_with_bad_integer_is_refused() {
    assert_eq!(
        refused("<main><data value=\"12a\"></data>\n</main>"),
        "ERROR: The `value` attribute must containt a valid integer"
    );
}

#[test]
fn adding_wrong_kinds_is_refused() {
    assert_eq!(
        refused("<main><s>a</s><data value=\"1\"></data><dd></dd>\n</main>"),
        "ERROR: Fail to add, the stack must have at least two intergers"
    );
}

#[test]
fn cite_without_text_is_refused() {
    assert_eq!(
        refused("<main><cite></cite>\n</main>"),
        "ERROR: The `cite` tag child must be boolean or null"
    );
}

#[test]
fn assignment_from_empty_stack_is_a_fault() {
    assert!(matches!(
        run("<main><var title=\"x\"></var>\n</main>"),
        Response::Fault(Fault::AssignFromEmptyStack)
    ));
}

#[test]
fn jump_to_nowhere_is_a_fault() {
    assert!(matches!(
        run("<main><a href=\"#nowhere\"></a>\n</main>"),
        Response::Fault(Fault::NoJumpTarget)
    ));
}

#[test]
fn list_that_shrinks_the_stack_is_a_fault() {
    assert!(matches!(
        run("<main><s>a</s><ol><li><del></del></li></ol>\n</main>"),
        Response::Fault(Fault::ListShrankStack)
    ));
}

#[test]
fn endless_loop_runs_out_of_fuel() {
    assert!(matches!(
        run_program("<main><p id=\"top\"></p><a href=\"#top\"></a>\n</main>", 1000),
        Response::OutOfFuel
    ));
}

#[test]
fn call_without_body_is_a_fault() {
    assert!(matches!(
        run("<main><dfn></dfn>\n</main>"),
        Response::Fault(Fault::CallWithoutBody)
    ));
}

#[test]
fn s_with_element_child_is_refused() {
    assert_eq!(
        refused("<main><s><p>x</p></s>\n</main>"),
        "ERROR: The `s` tag child must be plain text"
    );
}

#[test]
fn body_reached_without_call_has_no_return_point() {
    assert_eq!(
        refused("<main><dfn>\n<s>x</s>\n</dfn>\n</main>"),
        "ERROR: NO RETURN POINT"
    );
}

#[test]
fn link_without_href_is_refused() {
    assert_eq!(refused("<main><a></a>\n</main>"), "ERROR: ");
}

#[test]
fn invalid_selector_is_refused() {
    assert_eq!(refused("<main><a href=\"##\"></a>\n</main>"), "ERROR: ");
}

#[test]
fn variable_without_title_is_refused() {
    assert_eq!(
        refused("<main><s>v</s><var></var>\n</main>"),
        "ERROR: "
    );
}

#[test]
fn each_operator_names_itself_when_refused() {
    let cases = [
        ("small", "ERROR: Fail to compare with `small`, the stack must have at least two values valid compareable values"),
        ("big", "ERROR: Fail to compare with `big`, the stack must have at least two values valid compareable values"),
        ("em", "ERROR: Fail to compare with `em`, the stack must have at least two valid compareable values"),
        ("dd", "ERROR: Fail to add, the stack must have at least two intergers"),
        ("sub", "ERROR: Fail to substract, the stack must have at least two intergers"),
        ("ul", "ERROR: Fail to multiply, the stack must have at least two intergers"),
        ("div", "ERROR: Fail to divied, the stack must have at least two intergers"),
        ("b", "ERROR: Fail logical and, the stack must have at least two booleans"),
        ("bdo", "ERROR: Fail logical or, the stack must have at least two booleans"),
        ("dbi", "ERROR: Fail logical not, the stack must have at least two booleans"),
    ];
    for (tag, message) in cases {
        let source = format!("<main><{}></{}>\n</main>", tag, tag);
        assert_eq!(refused(&source), message);
    }
}

#[test]
fn multiplies() {
    assert_eq!(
        output("<main><data value=\"-6\"></data><data value=\"7\"></data><ul></ul><output></output>\n</main>"),
        "-42\n"
    );
}

#[test]
fn compares_string_lengths_in_bytes() {
    assert_eq!(
        output("<main><s>ab</s><s>\u{e9}</s><small></small><output></output>\n</main>"),
        "false\n"
    );
    assert_eq!(
        output("<main><s>a</s><s>\u{e9}</s><small></small><output></output>\n</main>"),
        "true\n"
    );
}

#[test]
fn call_keeps_variables_of_the_caller() {
    assert_eq!(
        output("<main><a href=\"javascript:f()\"></a><cite>x</cite><output></output><rt></rt><dfn id=\"f\">\n<data value=\"1\"></data><var title=\"x\"></var>\n</dfn>\n</main>"),
        "null\n"
    );
}

#[test]
fn more_fuel_gives_the_same_answer() {
    let source = "<main><data value=\"2\"></data><data value=\"3\"></data><dd></dd><output></output>\n</main>";
    for fuel in [100u64, 1000, u64::MAX] {
        match run_program(source, fuel) {
            Response::Output(s) => assert_eq!(s, "5\n"),
            other => panic!("unexpected answer {:?}", other),
        }
    }
    assert!(matches!(run_program(source, 3), Response::OutOfFuel));
}

#[test]
fn printed_values_read_back() {
    assert_eq!(
        output("<main><data value=\"-9223372036854775808\"></data><output></output>\n</main>"),
        "-9223372036854775808\n"
    );
}
