use dynamic_admin_ops::api::{export_params, export_types, request_url, Method, Operation};
use dynamic_admin_ops::config::{
    config_text, default_base_url_string, is_valid_api_token, is_valid_environment_id,
    validate_config, Config, ConfigError,
};

#[test]
fn request_paths_follow_the_templates() {
    let cases = [
        (Operation::ListOrganizations, "/api/v0/environments/organizations"),
        (Operation::GetOrganization, "/api/v0/environments/env1/organizations/id9"),
        (Operation::ListExports, "/api/v0/environments/env1/exports"),
        (Operation::GetExport, "/api/v0/environments/env1/exports/id9"),
        (Operation::CreateExport, "/api/v0/environments/env1/exports"),
        (Operation::ListUsers, "/api/v0/environments/env1/users"),
        (Operation::GetUser, "/api/v0/environments/env1/users/id9"),
    ];
    for (op, expected) in cases.iter() {
        let r = op.request("env1", "id9");
        assert_eq!(r.path, *expected);
    }
}

#[test]
fn only_create_export_posts_a_body() {
    let r = Operation::CreateExport.request("e", "wallets");
    assert_eq!(r.method, Method::Post);
    let body = r.body.unwrap();
    assert_eq!(body.export_type, "wallets");
    assert_eq!(body.format, "csv");
    let g = Operation::GetUser.request("e", "u");
    assert_eq!(g.method, Method::Get);
    assert!(g.body.is_none());
}

#[test]
fn inputs_asked_by_each_operation() {
    assert!(!Operation::ListOrganizations.needs_environment());
    assert!(Operation::ListUsers.needs_environment());
    assert!(Operation::GetExport.needs_resource_id());
    assert!(!Operation::CreateExport.needs_resource_id());
}

#[test]
fn url_joins_base_and_path() {
    assert_eq!(
        request_url("https://app.dynamicauth.com", "/api/v0/environments/x/users"),
        "https://app.dynamicauth.com/api/v0/environments/x/users"
    );
}

#[test]
fn export_types_in_order() {
    assert_eq!(export_types(), vec!["users", "organizations", "wallets"]);
    assert_eq!(export_params("users").export_type, "users");
}

fn config(token: &str, env: &str) -> Config {
    Config {
        api_token: token.to_string(),
        base_url: "https://example.test".to_string(),
        default_environment_id: env.to_string(),
    }
}

#[test]
fn validation_reports_missing_fields() {
    assert_eq!(validate_config(config("", "e")).err(), Some(ConfigError::MissingApiToken));
    assert_eq!(validate_config(config("", "")).err(), Some(ConfigError::MissingApiToken));
    assert_eq!(
        validate_config(config("dyn_token", "")).err(),
        Some(ConfigError::MissingEnvironmentId)
    );
    let ok = validate_config(config("dyn_token", "e")).ok().unwrap();
    assert_eq!(ok.api_token, "dyn_token");
    assert_eq!(ok.default_environment_id, "e");
}

#[test]
fn default_config_points_at_the_public_server() {
    let c = Config::default();
    assert!(c.api_token.is_empty());
    assert!(c.default_environment_id.is_empty());
    assert_eq!(c.base_url, "https://app.dynamicauth.com");
    assert_eq!(default_base_url_string(), c.base_url);
}

#[test]
fn api_token_format() {
    assert!(is_valid_api_token("dyn_abcdefg"));
    assert!(!is_valid_api_token("dyn_abcdef"));
    assert!(!is_valid_api_token("xyn_abcdefgh"));
    assert!(!is_valid_api_token(""));
}

#[test]
fn environment_id_format() {
    assert!(is_valid_environment_id("123e4567-e89b-12d3-a456-426614174000"));
    assert!(!is_valid_environment_id("123e4567e89b12d3a456426614174000"));
    assert!(!is_valid_environment_id("123e4567-e89b-12d3-a456-4266141740001"));
    assert!(!is_valid_environment_id("123e4567-e89b-12d3-a456-42661417400-"));
}

#[test]
fn config_file_text() {
    assert_eq!(
        config_text("dyn_x", "https://h", "e-1"),
        "api_token = \"dyn_x\"\nbase_url = \"https://h\"\ndefault_environment_id = \"e-1\"\n"
    );
}
