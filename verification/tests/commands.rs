use sharesight_prices::auth::{auth_form_params, auth_gate, bearer_header_value, status_is_success};
use sharesight_prices::directory::{investment_line, resolve_id_by_code, CustomInvestment};
use sharesight_prices::pricing::{
    build_update_submission, confirmation_line, plan_investment, Submission, UpdateTarget,
    UsageError,
};

fn directory_of(entries: &[(u32, &str, &str)]) -> Vec<CustomInvestment> {
    entries
        .iter()
        .map(|(id, code, name)| CustomInvestment {
            id: *id,
            code: code.to_string(),
            name: name.to_string(),
        })
        .collect()
}

#[test]
fn submission_carries_date_and_price_unchanged() {
    let s: Submission = build_update_submission(42, "2022-01-01", "100.0").unwrap();
    assert_eq!(
        s.url,
        "https://api.sharesight.com/api/v3/custom_investment/42/prices.json"
    );
    assert_eq!(
        s.body,
        "{\"last_traded_on\":\"2022-01-01\",\"last_traded_price\":100.0}"
    );
}

#[test]
fn submission_rejects_bad_date_before_anything_else() {
    assert!(matches!(
        build_update_submission(1, "2022-13-40", "100.0"),
        Err(UsageError::InvalidDate)
    ));
    assert!(matches!(
        build_update_submission(1, "01-01-2022", "100.0"),
        Err(UsageError::InvalidDate)
    ));
    assert!(matches!(
        build_update_submission(1, "", "abc"),
        Err(UsageError::InvalidDate)
    ));
}

#[test]
fn submission_rejects_bad_price() {
    assert!(matches!(
        build_update_submission(1, "2022-01-01", "abc"),
        Err(UsageError::InvalidPrice)
    ));
    assert!(matches!(
        build_update_submission(1, "2022-01-01", ""),
        Err(UsageError::InvalidPrice)
    ));
}

#[test]
fn resolves_first_matching_code() {
    let list = directory_of(&[(1, "A", "First"), (2, "B", "Second")]);
    assert_eq!(resolve_id_by_code(&list, "B"), Some(2));
    assert_eq!(resolve_id_by_code(&list, "C"), None);
    assert_eq!(resolve_id_by_code(&list, "A"), Some(1));
    assert_eq!(resolve_id_by_code(&list, "a"), None);
}

#[test]
fn resolves_duplicates_to_the_earliest() {
    let list = directory_of(&[(7, "X", "One"), (9, "X", "Two")]);
    assert_eq!(resolve_id_by_code(&list, "X"), Some(7));
}

#[test]
fn resolves_nothing_in_an_empty_directory() {
    let list: Vec<CustomInvestment> = Vec::new();
    assert_eq!(resolve_id_by_code(&list, "A"), None);
}

#[test]
fn use_id_bypasses_the_directory() {
    assert!(matches!(
        plan_investment("42", true),
        UpdateTarget::DirectId(42)
    ));
    assert!(matches!(plan_investment("abc", true), UpdateTarget::InvalidId));
    match plan_investment("VTI", false) {
        UpdateTarget::ResolveCode(code) => assert_eq!(code, "VTI"),
        _ => panic!("a code must be resolved through the directory"),
    }
}

#[test]
fn confirmation_line_echoes_the_submission() {
    assert_eq!(
        confirmation_line(42, "2022-01-01", "100.0"),
        "add_custom_investment_price 42 2022-01-01 100.0"
    );
}

#[test]
fn auth_gate_admits_only_success_statuses() {
    assert!(auth_gate(200).is_ok());
    assert!(auth_gate(204).is_ok());
    assert!(auth_gate(299).is_ok());
    assert!(auth_gate(199).is_err());
    assert!(auth_gate(300).is_err());
    assert!(auth_gate(401).is_err());
    assert!(auth_gate(500).is_err());
    assert!(status_is_success(201));
    assert!(!status_is_success(404));
}

#[test]
fn auth_params_hold_the_grant_and_the_credentials() {
    let params = auth_form_params("my-id", "my-secret");
    assert_eq!(params.len(), 3);
    assert_eq!(params[0], ("grant_type".to_string(), "client_credentials".to_string()));
    assert_eq!(params[1], ("client_id".to_string(), "my-id".to_string()));
    assert_eq!(params[2], ("client_secret".to_string(), "my-secret".to_string()));
}

#[test]
fn bearer_header_wraps_the_token() {
    assert_eq!(bearer_header_value("tok123"), "Bearer tok123");
}

#[test]
fn listing_line_is_tab_separated() {
    let ci = CustomInvestment {
        id: 3,
        code: "VWRL".to_string(),
        name: "All-World ETF".to_string(),
    };
    assert_eq!(investment_line(&ci), "3\tVWRL\tAll-World ETF");
}
