use axum_grants::claims::Claims;
use axum_grants::grants::{
    build_all_code, build_any_code, build_equal_code, build_guard, build_into_response_code,
    protect, protect_diy, CheckOutcome,
};
use axum_grants::grants_info::{GrantInfo, GrantOperator, ParseError};
use axum_grants::grants_util::AxumGrantsResponse;

fn claims_with(perms: &[&str]) -> Claims {
    let mut c = Claims::new(100, String::from("hui"));
    for p in perms {
        c.add_perm(String::from(*p));
    }
    c
}

fn deny_message(outcome: CheckOutcome) -> String {
    match outcome {
        CheckOutcome::Allow => panic!("expected a denial"),
        CheckOutcome::Deny(out) => out.message,
    }
}

#[test]
fn parse_plain_name() {
    let g = GrantInfo::parse("write").unwrap();
    assert_eq!(g.operator, GrantOperator::Equal);
    assert_eq!(g.perms, vec![String::from("write")]);
}

#[test]
fn parse_plain_name_trims_and_unquotes() {
    let g = GrantInfo::parse("  \"opt_crt\"  ").unwrap();
    assert_eq!(g.operator, GrantOperator::Equal);
    assert_eq!(g.perms, vec![String::from("opt_crt")]);
}

#[test]
fn parse_any_of_two() {
    let g = GrantInfo::parse("any(a,b)").unwrap();
    assert_eq!(g.operator, GrantOperator::Any);
    assert_eq!(g.perms, vec![String::from("a"), String::from("b")]);
}

#[test]
fn parse_all_of_two() {
    let g = GrantInfo::parse("all(a,b)").unwrap();
    assert_eq!(g.operator, GrantOperator::All);
    assert_eq!(g.perms, vec![String::from("a"), String::from("b")]);
}

#[test]
fn parse_combinator_with_quotes_and_spaces() {
    let g = GrantInfo::parse("all(\"opt_crt\", \"opt_del\")").unwrap();
    assert_eq!(g.operator, GrantOperator::All);
    assert_eq!(g.perms, vec![String::from("opt_crt"), String::from("opt_del")]);
}

#[test]
fn parse_single_element_any_collapses_to_equal() {
    let g = GrantInfo::parse("any(\"x\")").unwrap();
    assert_eq!(g.operator, GrantOperator::Equal);
    assert_eq!(g.perms, vec![String::from("x")]);
}

#[test]
fn parse_single_element_all_collapses_to_equal() {
    let g = GrantInfo::parse("all(\"x\")").unwrap();
    assert_eq!(g.operator, GrantOperator::Equal);
    assert_eq!(g.perms, vec![String::from("x")]);
}

#[test]
fn parse_empty_is_rejected() {
    assert_eq!(GrantInfo::parse("").unwrap_err(), ParseError::EmptySpec);
}

#[test]
fn parse_whitespace_only_is_rejected() {
    assert_eq!(GrantInfo::parse("   ").unwrap_err(), ParseError::EmptySpec);
}

#[test]
fn parse_quotes_only_is_rejected() {
    assert_eq!(GrantInfo::parse(" \"\" ").unwrap_err(), ParseError::EmptySpec);
}

#[test]
fn parse_is_idempotent() {
    for spec in ["write", "any(a,b)", "all(\"x\", \"y\")", "any(\"x\")"] {
        let first = GrantInfo::parse(spec).unwrap();
        let second = GrantInfo::parse(spec).unwrap();
        assert_eq!(first, second);
    }
}

#[test]
fn parse_unterminated_combinator_falls_back_to_literal() {
    let g = GrantInfo::parse("any(a,b").unwrap();
    assert_eq!(g.operator, GrantOperator::Equal);
    assert_eq!(g.perms, vec![String::from("any(a,b")]);
}

#[test]
fn parse_combinator_of_empty_pieces_degrades_to_literal() {
    let g = GrantInfo::parse("any(, ,)").unwrap();
    assert_eq!(g.operator, GrantOperator::Equal);
    assert_eq!(g.perms, vec![String::from("any(, ,)")]);
}

#[test]
fn equal_guard_allows_holder_and_denies_others() {
    let guard = build_equal_code(String::from("write"), false);
    assert!(matches!(guard.check(&claims_with(&["write"])), CheckOutcome::Allow));
    let msg = deny_message(guard.check(&claims_with(&["read"])));
    assert!(msg.contains("write"));
    assert_eq!(msg, "Insufficient permissions, need the permission: write");
}

#[test]
fn any_guard_needs_at_least_one() {
    let guard = build_any_code(vec![String::from("a"), String::from("b")], false);
    assert!(matches!(guard.check(&claims_with(&["b"])), CheckOutcome::Allow));
    assert!(matches!(guard.check(&claims_with(&[])), CheckOutcome::Deny(_)));
    let msg = deny_message(guard.check(&claims_with(&["c"])));
    assert_eq!(msg, "Insufficient permissions, need any permission: \"a\",\"b\"");
}

#[test]
fn all_guard_needs_every_one() {
    let guard = build_all_code(vec![String::from("a"), String::from("b")], false);
    assert!(matches!(guard.check(&claims_with(&["a", "b"])), CheckOutcome::Allow));
    assert!(matches!(guard.check(&claims_with(&["a"])), CheckOutcome::Deny(_)));
    let msg = deny_message(guard.check(&claims_with(&[])));
    assert_eq!(msg, "Insufficient permissions, need all permission: \"a\",\"b\"");
}

#[test]
fn builtin_rendering_is_plain_forbidden() {
    let r = build_into_response_code(false, String::from("no entry"));
    assert_eq!(r.status, 403);
    assert_eq!(r.body, "no entry");
}

#[test]
fn custom_rendering_is_the_json_envelope() {
    let r = build_into_response_code(true, String::from("no entry"));
    assert_eq!(r.status, 200);
    assert_eq!(r.body, "{\"cd\":\"403\",\"msg\":\"no entry\"}");
}

#[test]
fn custom_envelope_escapes_message() {
    let msg = "need all permission: \"a\",\"b\"";
    let body = AxumGrantsResponse::get_into_response(msg);
    assert_eq!(
        body,
        "{\"cd\":\"403\",\"msg\":\"need all permission: \\\"a\\\",\\\"b\\\"\"}"
    );
    let value: serde_json::Value = serde_json::from_str(&body).unwrap();
    assert_eq!(value["cd"], "403");
    assert_eq!(value["msg"], msg);
}

#[test]
fn custom_envelope_escapes_control_characters() {
    let msg = "line\nbreak\tand\u{1}ctl\\";
    let body = AxumGrantsResponse::get_into_response(msg);
    let value: serde_json::Value = serde_json::from_str(&body).unwrap();
    assert_eq!(value["msg"], msg);
}

#[test]
fn build_guard_dispatches_on_operator() {
    let info = GrantInfo::parse("any(a,b)").unwrap();
    let guard = build_guard(info, true);
    assert_eq!(guard.info.operator, GrantOperator::Any);
    assert!(guard.is_cus);
    match guard.check(&claims_with(&[])) {
        CheckOutcome::Allow => panic!("expected a denial"),
        CheckOutcome::Deny(out) => assert!(out.custom),
    }
}

#[test]
fn protect_binds_builtin_shape() {
    let guard = protect("write").unwrap();
    match guard.check(&claims_with(&[])) {
        CheckOutcome::Allow => panic!("expected a denial"),
        CheckOutcome::Deny(out) => assert!(!out.custom),
    }
}

#[test]
fn protect_rejects_empty_spec() {
    assert_eq!(protect("").unwrap_err(), ParseError::EmptySpec);
    assert_eq!(protect_diy("  ").unwrap_err(), ParseError::EmptySpec);
}

#[test]
fn end_to_end_all_scenario() {
    let guard = protect("all(\"opt_crt\",\"opt_del\")").unwrap();

    let full = claims_with(&["opt_crt", "opt_del"]);
    let business = match guard.check(&full) {
        CheckOutcome::Allow => "your business data",
        CheckOutcome::Deny(_) => panic!("the operation should proceed"),
    };
    assert_eq!(business, "your business data");

    let partial = claims_with(&["opt_crt"]);
    match guard.check(&partial) {
        CheckOutcome::Allow => panic!("the operation should be blocked"),
        CheckOutcome::Deny(out) => {
            assert_eq!(
                out.message,
                "Insufficient permissions, need all permission: \"opt_crt\",\"opt_del\""
            );
            let rendered = build_into_response_code(out.custom, out.message);
            assert_eq!(rendered.status, 403);
            assert_eq!(
                rendered.body,
                "Insufficient permissions, need all permission: \"opt_crt\",\"opt_del\""
            );
        }
    }
}

#[test]
fn end_to_end_custom_scenario() {
    let guard = protect_diy("all(\"opt_crt\",\"opt_del\")").unwrap();
    let partial = claims_with(&["opt_del"]);
    match guard.check(&partial) {
        CheckOutcome::Allow => panic!("the operation should be blocked"),
        CheckOutcome::Deny(out) => {
            assert!(out.custom);
            let rendered = build_into_response_code(out.custom, out.message);
            assert_eq!(rendered.status, 200);
            let value: serde_json::Value = serde_json::from_str(&rendered.body).unwrap();
            assert_eq!(value["cd"], "403");
            assert_eq!(
                value["msg"],
                "Insufficient permissions, need all permission: \"opt_crt\",\"opt_del\""
            );
        }
    }
}
