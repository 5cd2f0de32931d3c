use wow_ui_sim::string_format::{
    numeric_format_arg_indices, plan_wow_string_format, process_wow_format, ArgKind, FormatError,
    PlannedArg,
};

#[test]
fn nil_numeric_format_args_are_zero() {
    let plan = plan_wow_string_format("%d %.1f %2$d", &[ArgKind::Nil, ArgKind::Nil]).unwrap();
    assert!(plan.rewritten);
    assert_eq!(plan.format, "%d %.1f %d");
    assert_eq!(plan.args, vec![PlannedArg::Zero, PlannedArg::Zero, PlannedArg::Zero]);
}

#[test]
fn positional_arguments_are_reordered() {
    let (fmt, args, rewritten) =
        process_wow_format("%2$s %1$s %.1F", &[ArgKind::Str, ArgKind::Str, ArgKind::Number]).unwrap();
    assert_eq!(fmt, "%s %s %.1f");
    assert_eq!(args, vec![PlannedArg::Arg(1), PlannedArg::Arg(0), PlannedArg::Arg(2)]);
    assert!(rewritten);
}

#[test]
fn plain_formats_keep_the_callers_arguments() {
    let (fmt, args, rewritten) = process_wow_format("%s: %d", &[ArgKind::Str, ArgKind::Number]).unwrap();
    assert_eq!(fmt, "%s: %d");
    assert_eq!(args, vec![PlannedArg::Arg(0), PlannedArg::Arg(1)]);
    assert!(!rewritten);
    let plan = plan_wow_string_format("no specifiers", &[]).unwrap();
    assert_eq!(plan.format, "no specifiers");
    assert!(plan.args.is_empty());
}

#[test]
fn upper_case_f_is_rewritten() {
    let plan = plan_wow_string_format("%F", &[ArgKind::Number]).unwrap();
    assert_eq!(plan.format, "%f");
    assert!(plan.rewritten);
}

#[test]
fn numbers_are_coerced_for_string_conversions() {
    let (_, args, rewritten) = process_wow_format("%s", &[ArgKind::Number]).unwrap();
    assert_eq!(args, vec![PlannedArg::NumberText(0)]);
    assert!(rewritten);
}

#[test]
fn missing_positional_string_becomes_nil_text() {
    let (fmt, args, _) = process_wow_format("%2$s", &[ArgKind::Str]).unwrap();
    assert_eq!(fmt, "%s");
    assert_eq!(args, vec![PlannedArg::NilText]);
}

#[test]
fn escaped_percent_is_kept() {
    let (fmt, args, rewritten) = process_wow_format("100%% %d", &[ArgKind::Number]).unwrap();
    assert_eq!(fmt, "100%% %d");
    assert_eq!(args, vec![PlannedArg::Arg(0)]);
    assert!(!rewritten);
}

#[test]
fn position_of_one_hundred_is_rejected() {
    let err = process_wow_format("%100$s", &[]).unwrap_err();
    assert_eq!(err, FormatError::PositionTooLarge);
    assert_eq!(err.message(), "invalid format (width or precision too long)");
}

#[test]
fn non_string_argument_to_string_conversion_is_rejected() {
    let err = process_wow_format("%s", &[ArgKind::Table]).unwrap_err();
    assert_eq!(err, FormatError::StringExpected { argument: 2, got: Some(ArgKind::Table) });
    assert_eq!(err.message(), "bad argument #2 to '?' (string expected, got table)");
    let err = process_wow_format("%s %s", &[ArgKind::Str]).unwrap_err();
    assert_eq!(err.message(), "bad argument #3 to '?' (string expected, got no value)");
    let err = process_wow_format("%s", &[ArgKind::Nil]).unwrap_err();
    assert_eq!(err.message(), "bad argument #2 to '?' (string expected, got nil)");
}

#[test]
fn numeric_positions_are_counted_from_the_format() {
    assert_eq!(numeric_format_arg_indices("%d %s %5.2f %x"), vec![1, 3, 4]);
    assert_eq!(numeric_format_arg_indices("%%d"), Vec::<usize>::new());
}

#[test]
fn nil_in_string_position_is_not_zeroed() {
    let plan = plan_wow_string_format("%s %d", &[ArgKind::Str, ArgKind::Nil]).unwrap();
    assert_eq!(plan.args, vec![PlannedArg::Arg(0), PlannedArg::Zero]);
    assert!(!plan.rewritten);
}
