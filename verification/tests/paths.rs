use opaq::config::{config_dir, list_url, principal_url};
use opaq::paths::parse_env_scope;
use opaq::{api_url, config_path, parse_path3, parse_secret_path, secret_url_path, split_secret_path, CliConfig};

fn s(x: &str) -> String {
    x.to_string()
}

#[test]
fn secret_path_three_and_four_segments() {
    assert_eq!(
        parse_secret_path("/acme/api/STRIPE_KEY").unwrap(),
        (s("acme"), s("api"), None, s("STRIPE_KEY"))
    );
    assert_eq!(
        parse_secret_path("acme/api/prod/STRIPE_KEY/").unwrap(),
        (s("acme"), s("api"), Some(s("prod")), s("STRIPE_KEY"))
    );
}

#[test]
fn secret_path_errors() {
    assert_eq!(
        parse_secret_path("/acme//key").unwrap_err(),
        "path segments must not be empty (check for stray '/')"
    );
    assert_eq!(
        parse_secret_path("/acme/api").unwrap_err(),
        "path must be /workspace/project/key or /workspace/project/env/key"
    );
    assert_eq!(
        parse_secret_path("/a/b/c/d/e").unwrap_err(),
        "path must be /workspace/project/key or /workspace/project/env/key"
    );
    assert_eq!(
        parse_secret_path("///").unwrap_err(),
        "path segments must not be empty (check for stray '/')"
    );
}

#[test]
fn scope_paths() {
    assert_eq!(parse_path3("/acme/api").unwrap(), (s("acme"), s("api"), None));
    assert_eq!(parse_path3("/acme/api/prod").unwrap(), (s("acme"), s("api"), Some(s("prod"))));
    assert_eq!(
        parse_path3("/acme").unwrap_err(),
        "path must have 2 or 3 segments: /workspace/project[/env]"
    );
    assert_eq!(
        parse_path3("/acme//x").unwrap_err(),
        "path segments must not be empty (check for stray '/')"
    );
    assert_eq!(parse_env_scope("/acme/api/prod").unwrap(), (s("acme"), s("api"), s("prod")));
    assert_eq!(parse_env_scope("/acme/api").unwrap_err(), "env requires /workspace/project/env");
    assert_eq!(parse_env_scope("/acme//prod").unwrap_err(), "env requires /workspace/project/env");
}

#[test]
fn url_paths() {
    assert_eq!(secret_url_path("acme", "api", None, "K"), "secrets/acme/api/K");
    assert_eq!(secret_url_path("acme", "api", Some("prod"), "K"), "secrets/acme/api/prod/K");
    let (ws, proj, env, key) = parse_secret_path("//acme/api/prod/K//").unwrap();
    assert_eq!(secret_url_path(&ws, &proj, env.as_deref(), &key), "secrets/acme/api/prod/K");
}

#[test]
fn split_listed_paths() {
    assert_eq!(
        split_secret_path("/acme/api/prod/K"),
        (Some(s("acme")), Some(s("api")), Some(s("prod")), s("K"))
    );
    assert_eq!(split_secret_path("acme/api/K"), (Some(s("acme")), Some(s("api")), None, s("K")));
    assert_eq!(split_secret_path("/odd"), (None, None, None, s("/odd")));
}

#[test]
fn api_urls() {
    let c = CliConfig { server: s("https://opaq.example.com//"), api_key: s("opaq_abc") };
    assert_eq!(api_url(&c, "me"), "https://opaq.example.com/api/v1/me");
    assert_eq!(principal_url(&c, -4), "https://opaq.example.com/api/v1/principals/-4");
    assert_eq!(list_url(&c, "acme", "api", None, false, true), "https://opaq.example.com/api/v1/list/acme/api");
    assert_eq!(
        list_url(&c, "acme", "api", Some("prod"), true, true),
        "https://opaq.example.com/api/v1/list/acme/api/prod?values=true&merge=false"
    );
    assert_eq!(
        list_url(&c, "acme", "api", Some("prod"), false, true),
        "https://opaq.example.com/api/v1/list/acme/api/prod?merge=false"
    );
    assert_eq!(
        list_url(&c, "acme", "api", None, true, false),
        "https://opaq.example.com/api/v1/list/acme/api?values=true"
    );
}

#[test]
fn config_locations() {
    assert_eq!(config_path("/home/u/.config"), "/home/u/.config/opaq/config.json");
    assert_eq!(config_path("/home/u/.config/"), "/home/u/.config/opaq/config.json");
    assert_eq!(config_path(""), "opaq/config.json");
    assert_eq!(config_dir(Some("/Users/me"), Some("/x")), "/Users/me/.config");
    assert_eq!(config_dir(None, Some("/home/u/.config")), "/home/u/.config");
    assert_eq!(config_dir(None, None), ".");
}
