use asteria::can_derive::{
    broadcast_field_plan, broadcast_fields_missing, closure_body_text, collector_update_code, collector_validation, no_broadcast_fields_message,
    replace_all, substitute_value, BroadcastClosure, BroadcastFieldAttrs, BroadcastFieldPlan,
    CollectorFieldAttrs,
};
use asteria::can_utils::{ResponsiveLoop, RxError, TxError};

fn field(
    name: &str,
    flatten: bool,
    map: Option<&str>,
    filter_map: Option<&str>,
    min: bool,
    max: bool,
) -> BroadcastFieldAttrs {
    BroadcastFieldAttrs {
        name: name.to_string(),
        flatten,
        map: map.map(str::to_string),
        filter_map: filter_map.map(str::to_string),
        has_min_freq_hz: min,
        has_max_freq_hz: max,
    }
}

fn error_of(plan: BroadcastFieldPlan) -> String {
    match plan {
        BroadcastFieldPlan::Error(m) => m,
        _ => panic!("expected an error"),
    }
}

#[test]
fn test_error_on_flatten_with_freq() {
    let output_str = error_of(broadcast_field_plan(&field("inner", true, None, None, true, true)));
    assert!(
        output_str.contains(
            "field `inner` has #[broadcast(flatten)] and must not have map, filter_map, min_freq_hz, or max_freq_hz"
        ),
        "expected error in: {output_str}"
    );
}

#[test]
fn test_error_on_no_broadcast_fields() {
    let plans = vec![
        broadcast_field_plan(&field("field", false, None, None, false, false)),
        broadcast_field_plan(&field("other", false, None, None, false, false)),
    ];
    assert!(matches!(plans[0], BroadcastFieldPlan::Skip));
    assert!(broadcast_fields_missing(&plans));
    let with_task = vec![
        broadcast_field_plan(&field("field", false, None, None, false, false)),
        broadcast_field_plan(&field("a", false, Some("Msg::A(#value)"), None, true, true)),
    ];
    assert!(!broadcast_fields_missing(&with_task));
    assert!(!broadcast_fields_missing(&[broadcast_field_plan(&field(
        "inner", true, None, None, false, false
    ))]));
    let output_str = no_broadcast_fields_message();
    assert!(
        output_str.contains(
            "at least one field must have a #[broadcast(...)] or #[broadcast(flatten)] attribute"
        ),
        "expected error in: {output_str}"
    );
}

#[test]
fn test_error_on_missing_freq() {
    let output_str =
        error_of(broadcast_field_plan(&field("a", false, Some("Msg::A(#value)"), None, true, false)));
    assert!(
        output_str.contains("has min_freq_hz or max_freq_hz but not both"),
        "expected error in: {output_str}"
    );
}

#[test]
fn test_error_on_missing_map() {
    let output_str = error_of(broadcast_field_plan(&field("a", false, None, None, true, true)));
    assert!(output_str.contains("no map or filter_map"), "expected error in: {output_str}");
}

#[test]
fn test_error_on_both_map_and_filter_map() {
    let output_str = error_of(broadcast_field_plan(&field(
        "a",
        false,
        Some("Msg::A(#value)"),
        Some("#value.map(Msg::A)"),
        true,
        true,
    )));
    assert!(output_str.contains("both map and filter_map"), "expected error in: {output_str}");
}

#[test]
fn broadcast_tasks_substitute_the_value() {
    match broadcast_field_plan(&field("a", false, Some("Msg::A(#value)"), None, true, true)) {
        BroadcastFieldPlan::Task(BroadcastClosure::Mapped(c)) => assert_eq!(c, "Msg::A(__value)"),
        _ => panic!("expected a map task"),
    }
    match broadcast_field_plan(&field("a", false, None, Some("#value.map(Msg::A)"), true, true)) {
        BroadcastFieldPlan::Task(BroadcastClosure::FilterMapped(c)) => {
            assert_eq!(c, "__value.map(Msg::A)")
        }
        _ => panic!("expected a filter-map task"),
    }
    assert!(matches!(
        broadcast_field_plan(&field("n", true, None, None, false, false)),
        BroadcastFieldPlan::Flatten
    ));
}

fn cfield(name: &str, flatten: bool, pattern: Option<&str>) -> CollectorFieldAttrs {
    CollectorFieldAttrs { name: name.to_string(), flatten, pattern: pattern.map(str::to_string) }
}

#[test]
fn test_error_on_no_collectors() {
    let errors = collector_validation(&[cfield("a", false, None)], true);
    let output_str = errors.join("\n");
    assert!(output_str.contains("at least one field must have"), "expected error in: {output_str}");
}

#[test]
fn test_error_on_flatten_with_pattern() {
    let errors = collector_validation(&[cfield("inner", true, Some("Msg::A(#value)"))], true);
    let output_str = errors.join("\n");
    assert!(
        output_str.contains("must not also have a #[collector(pattern"),
        "expected error in: {output_str}"
    );
}

#[test]
fn test_error_on_missing_update_expr() {
    let errors = collector_validation(&[cfield("a", false, Some("Msg::A(#value)"))], false);
    let output_str = errors.join("\n");
    assert!(output_str.contains("missing `update_expr`"), "expected error in: {output_str}");
}

#[test]
fn collector_errors_in_order() {
    let errors = collector_validation(
        &[cfield("x", true, Some("p")), cfield("d", false, Some("q")), cfield("y", true, Some("r"))],
        false,
    );
    assert_eq!(errors.len(), 3);
    assert!(errors[0].starts_with("field `x`"));
    assert!(errors[1].starts_with("field `y`"));
    assert!(errors[2].starts_with("struct has fields"));
    assert!(collector_validation(&[cfield("d", false, Some("q"))], true).is_empty());
    assert!(collector_validation(&[cfield("n", true, None)], false).is_empty());
}

#[test]
fn template_substitution() {
    assert_eq!(substitute_value("#value + #value"), "__value + __value");
    assert_eq!(substitute_value("no placeholder"), "no placeholder");
    assert_eq!(
        collector_update_code("let _ = #field.update(#value);", "pressure"),
        "let _ = self.pressure.update(__value);"
    );
    assert_eq!(replace_all("aaaa", "aa", "b"), "bb");
    assert_eq!(replace_all("aaa", "aa", "b"), "ba");
    assert_eq!(replace_all("", "x", "y"), "");
}

#[test]
fn responsive_loop_throttles() {
    assert!(ResponsiveLoop::should_send(100, 0, 100));
    assert!(!ResponsiveLoop::should_send(99, 0, 100));
    assert!(!ResponsiveLoop::should_send(5, 10, 1));
    assert!(ResponsiveLoop::should_send(5, 10, 0));
    assert_eq!(ResponsiveLoop::last_sent_after(3, 9, true), 9);
    assert_eq!(ResponsiveLoop::last_sent_after(3, 9, false), 3);
}

#[test]
fn can_error_texts() {
    assert_eq!(TxError::Encode.message(), "Encoding CAN message failed");
    assert_eq!(TxError::Bug.message(), "Bug in this implementation, should be unreachable");
    assert_eq!(RxError::<u8>::Bus(3).message(), "CAN bus error");
    assert_eq!(RxError::<u8>::Decode.message(), "Decoding CAN message failed");
    assert_eq!(RxError::<u8>::Bug.message(), "Bug in the system, should be unreachable");
}

#[test]
fn map_and_filter_map_of_some_give_the_same_closure() {
    let mapped = match broadcast_field_plan(&field("a", false, Some("Msg::A(#value)"), None, true, true)) {
        BroadcastFieldPlan::Task(c) => closure_body_text(&c),
        _ => panic!("expected a task"),
    };
    let filtered =
        match broadcast_field_plan(&field("a", false, None, Some("Some(Msg::A(#value))"), true, true)) {
            BroadcastFieldPlan::Task(c) => closure_body_text(&c),
            _ => panic!("expected a task"),
        };
    assert_eq!(mapped, "::core::option::Option::Some(Msg::A(__value))");
    assert_eq!(filtered, "Some(Msg::A(__value))");
}
