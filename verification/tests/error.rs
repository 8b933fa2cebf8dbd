use shiika::error::{bug, must_be_some, name_error, plain_runner_error, program_error, syntax_error, type_error, ErrorDetails};

#[test]
fn errors_have_their_kinds() {
    let e = syntax_error("x");
    assert_eq!(e.msg, "x");
    assert_eq!(e.details, ErrorDetails::SyntaxError);
    assert_eq!(type_error("t").details, ErrorDetails::TypeError);
    assert_eq!(name_error("n").details, ErrorDetails::NameError);
    assert_eq!(program_error("p").details, ErrorDetails::ProgramError);
    assert_eq!(plain_runner_error("r".to_string()).details, ErrorDetails::RunnerError);
    let b = bug("b".to_string());
    assert_eq!(b.msg, "b");
    assert_eq!(b.details, ErrorDetails::Bug);
}

#[test]
fn must_be_some_unwraps() {
    assert_eq!(must_be_some(Some(3), "no".to_string()), 3);
}
