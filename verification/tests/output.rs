use opaq::command::{
    classify_status, genkey, get_body, get_lines, get_output, key_tail, principal_set_request, render_resp_error,
    request_fields, FieldValue, GetOutput,
    resp_error_text, select_target, select_value_source, set_value, status_lines, unauthorized_message,
    SetInput, StatusClass, Target, ValueSource,
};
use opaq::envfile::{env_lines, merge_env, EnvLine, Scope};
use opaq::help::{cheatsheet_plan, HelpSection};
use opaq::listing::{
    collect_rows, derive_envs, env_color, header_line, list_output, render_value_inline, rgb_ansi,
    truncate_display, Rgb,
};
use opaq::principal::{principal_list_rows, principal_rotate_report, principal_set_report};
use opaq::response::{ListItem, PrincipalRecord};
use opaq::shell_quote;
use opaq::style::{ansi, bold, dim};
use opaq::{env_label, lookup_principal_id_by_name, lookup_principal_name_by_id};

fn s(x: &str) -> String {
    x.to_string()
}

fn item(path: &str, vtype: &str, value: Option<&str>) -> ListItem {
    ListItem { path: Some(s(path)), vtype: Some(s(vtype)), value: value.map(s) }
}

fn principal(id: Option<i64>, name: Option<&str>) -> PrincipalRecord {
    PrincipalRecord {
        id,
        id_text: id.map(|i| i.to_string()),
        name: name.map(s),
        role: Some(s("writer")),
        expires_at: None,
        revoked_at: None,
        action: None,
        key: None,
    }
}

#[test]
fn shell_quoting() {
    assert_eq!(shell_quote("plain"), "'plain'");
    assert_eq!(shell_quote("it's"), "'it'\\''s'");
    assert_eq!(shell_quote(""), "''");
}

#[test]
fn env_merge_prefers_env_scope_in_any_order() {
    let items = vec![
        item("/acme/api/prod/DB_URL", "string", Some("prod-db")),
        item("/acme/api/DB_URL", "string", Some("default-db")),
        item("/acme/api/dev/DB_URL", "string", Some("dev-db")),
        item("/acme/api/log_level", "string", Some("info")),
    ];
    let es = merge_env(&items, "prod", false).unwrap();
    let got: Vec<(String, Scope, String)> =
        es.iter().map(|e| (e.key.iter().collect::<String>(), e.scope, e.value.clone())).collect();
    assert_eq!(
        got,
        vec![
            (s("DB_URL"), Scope::Env, s("prod-db")),
            (s("LOG_LEVEL"), Scope::Project, s("info")),
        ]
    );
    let kept = merge_env(&items, "prod", true).unwrap();
    let keys: Vec<String> = kept.iter().map(|e| e.key.iter().collect()).collect();
    assert_eq!(keys, vec![s("DB_URL"), s("log_level")]);
}

#[test]
fn env_merge_last_same_scope_wins_and_errors() {
    let items = vec![
        item("/a/p/K", "string", Some("one")),
        item("/a/p/K", "string", Some("two")),
    ];
    let es = merge_env(&items, "prod", false).unwrap();
    assert_eq!(es.len(), 1);
    assert_eq!(es[0].value, "two");
    let missing_path = vec![ListItem { path: None, vtype: None, value: None }];
    assert_eq!(
        merge_env(&missing_path, "prod", false).err().unwrap(),
        "response missing string field 'path'"
    );
    let missing_value = vec![ListItem { path: Some(s("/a/p/K")), vtype: None, value: None }];
    assert_eq!(
        merge_env(&missing_value, "prod", false).err().unwrap(),
        "response missing string field 'value'"
    );
    let other_env = vec![ListItem { path: Some(s("/a/p/dev/K")), vtype: None, value: None }];
    assert!(merge_env(&other_env, "prod", false).unwrap().is_empty());
}

#[test]
fn env_output_lines() {
    let items = vec![
        item("/a/p/prod/B", "string", Some("it's")),
        item("/a/p/A", "string", Some("x\ny")),
    ];
    let es = merge_env(&items, "prod", false).unwrap();
    let shell: Vec<String> = env_lines(&es, true)
        .into_iter()
        .map(|l| match l {
            EnvLine::Out(t) => t,
            EnvLine::Warn(t) => format!("warn {}", t),
        })
        .collect();
    assert_eq!(shell, vec![s("export A='x\ny'"), s("export B='it'\\''s'")]);
    let plain = env_lines(&es, false);
    match &plain[0] {
        EnvLine::Warn(t) => assert_eq!(
            t,
            "warn: value for A contains newlines, skipping (incompatible with --env-file)"
        ),
        EnvLine::Out(_) => panic!("expected a warning"),
    }
    match &plain[1] {
        EnvLine::Out(t) => assert_eq!(t, "B=it's"),
        EnvLine::Warn(_) => panic!("expected a line"),
    }
}

#[test]
fn envs_sorted_unique() {
    let items = vec![
        item("/a/p/prod/K", "string", None),
        item("a/p/dev/K", "string", None),
        item("/a/p/K", "string", None),
        item("/a/p/prod/L", "string", None),
    ];
    assert_eq!(derive_envs(&items), vec![s("dev"), s("prod")]);
}

#[test]
fn rows_sorted_by_env_then_key() {
    let items = vec![
        item("/acme/api/prod/B", "string", None),
        item("/acme/api/Z", "json", None),
        item("/acme/api/dev/A", "string", None),
        item("/acme/api/A", "string", None),
    ];
    let (ws, proj, rows) = collect_rows(&items).unwrap();
    assert_eq!(ws, Some(s("acme")));
    assert_eq!(proj, Some(s("api")));
    let order: Vec<(Option<String>, String)> = rows.iter().map(|r| (r.env.clone(), r.key.clone())).collect();
    assert_eq!(
        order,
        vec![
            (None, s("A")),
            (None, s("Z")),
            (Some(s("dev")), s("A")),
            (Some(s("prod")), s("B")),
        ]
    );
    let bad = vec![ListItem { path: Some(s("/a/p/K")), vtype: None, value: None }];
    assert_eq!(collect_rows(&bad).err().unwrap(), "response missing string field 'type'");
}

#[test]
fn labels_and_colors() {
    assert_eq!(env_label(&None), "(project)");
    assert_eq!(env_label(&Some(s("prod"))), "prod");
    assert_eq!(env_color(&None), Rgb { r: 131, g: 148, b: 150 });
    let mut h: u64 = 0;
    for b in "prod".bytes() {
        h = h.wrapping_mul(131).wrapping_add(b as u64);
    }
    let palette = [
        Rgb { r: 38, g: 139, b: 210 },
        Rgb { r: 42, g: 161, b: 152 },
        Rgb { r: 133, g: 153, b: 0 },
        Rgb { r: 181, g: 137, b: 0 },
        Rgb { r: 203, g: 75, b: 22 },
        Rgb { r: 211, g: 54, b: 130 },
        Rgb { r: 108, g: 113, b: 196 },
    ];
    assert_eq!(env_color(&Some(s("prod"))), palette[(h as usize) % 7]);
    assert_eq!(rgb_ansi(Rgb { r: 38, g: 139, b: 210 }), "38;2;38;139;210");
}

#[test]
fn inline_values() {
    let long: String = "x".repeat(61);
    let shown = truncate_display(&long);
    assert_eq!(shown.chars().count(), 60);
    assert!(shown.ends_with('\u{2026}'));
    assert_eq!(truncate_display(&"y".repeat(60)), "y".repeat(60));
    assert_eq!(render_value_inline("string", "a\nb"), "a \u{21b5} b");
    assert_eq!(render_value_inline("json", "{ \"a\" : 1 }"), "{\"a\":1}");
    assert_eq!(render_value_inline("json", "{not json"), "{not json");
}

#[test]
fn header_line_shapes() {
    let envs = vec![s("prod")];
    assert_eq!(
        header_line(false, &Some(s("acme")), &Some(s("api")), &envs).unwrap(),
        "workspace = acme, project = api, env = prod"
    );
    let two = vec![s("dev"), s("prod")];
    assert_eq!(
        header_line(false, &Some(s("acme")), &Some(s("api")), &two).unwrap(),
        "workspace = acme, project = api, envs  { dev, prod }"
    );
    assert_eq!(
        header_line(false, &Some(s("acme")), &Some(s("api")), &vec![]).unwrap(),
        "workspace = acme, project = api"
    );
    assert!(header_line(false, &None, &Some(s("api")), &envs).is_none());
    assert_eq!(ansi(true, "2", "x"), "\u{1b}[2mx\u{1b}[0m");
    assert_eq!(bold(false, "x"), "x");
    assert_eq!(dim(true, "x"), "\u{1b}[2mx\u{1b}[0m");
}

#[test]
fn list_output_tables() {
    let empty: Vec<ListItem> = vec![];
    let out = list_output(&empty, &vec![], true, false).unwrap();
    assert!(out.header.is_none() && out.rows.is_none());
    let items = vec![item("/acme/api/prod/K", "string", Some("v")), item("/acme/api/J", "string", None)];
    let out = list_output(&items, &vec![s("prod")], true, false).unwrap();
    let rows = out.rows.unwrap();
    let texts: Vec<Vec<String>> = rows.iter().map(|r| r.iter().map(|c| c.text.clone()).collect()).collect();
    assert_eq!(
        texts,
        vec![
            vec![s("(project)"), s("J"), s("string"), s("<no value>")],
            vec![s("prod"), s("K"), s("string"), s("v")],
        ]
    );
    assert_eq!(rows[0][0].color, Some(Rgb { r: 131, g: 148, b: 150 }));
}

#[test]
fn principal_lookups() {
    let ps = vec![principal(Some(3), Some("ci-bot")), principal(Some(4), None), principal(None, Some("nid"))];
    assert_eq!(lookup_principal_name_by_id(&ps, 3).unwrap(), "ci-bot");
    assert_eq!(lookup_principal_name_by_id(&ps, 4).unwrap_err(), "principal 4 has no name field");
    assert_eq!(lookup_principal_name_by_id(&ps, -9).unwrap_err(), "principal id -9 not found");
    assert_eq!(lookup_principal_id_by_name(&ps, "ci-bot").unwrap(), 3);
    assert_eq!(lookup_principal_id_by_name(&ps, "nid").unwrap_err(), "principal 'nid' has no id field");
    assert_eq!(lookup_principal_id_by_name(&ps, "x").unwrap_err(), "principal name 'x' not found");
}

#[test]
fn principal_reports() {
    let mut b = principal(Some(7), Some("ci"));
    b.action = Some(s("created"));
    b.key = Some(s("opaq_new"));
    b.expires_at = Some(s("1700000000"));
    let r = principal_set_report(&b).unwrap();
    assert_eq!(
        r.rows,
        vec![
            (s("Action"), s("created")),
            (s("ID"), s("7")),
            (s("Name"), s("ci")),
            (s("Role"), s("writer")),
            (s("Expires"), s("@1700000000")),
            (s("Key"), s("opaq_new")),
        ]
    );
    assert_eq!(r.notice, Some(s("SAVE THIS KEY. It will not be shown again.")));
    b.action = Some(s("updated"));
    b.key = None;
    b.expires_at = None;
    let r = principal_set_report(&b).unwrap();
    assert_eq!(r.rows.len(), 5);
    assert_eq!(r.rows[4].1, "(never)");
    assert!(r.notice.is_none());
    b.action = None;
    assert_eq!(principal_set_report(&b).err().unwrap(), "response missing string field 'action'");
    let rot = principal_rotate_report(&principal(Some(7), Some("ci"))).err().unwrap();
    assert_eq!(rot, "response missing string field 'key'");
    let rows = principal_list_rows(&vec![principal(None, None)]);
    assert_eq!(rows, vec![vec![s(""), s("?"), s("writer"), s(""), s("")]]);
}

#[test]
fn cheatsheet_topics() {
    let all = cheatsheet_plan(None).unwrap();
    assert!(all.banner);
    assert_eq!(all.sections.len(), 6);
    let admin = cheatsheet_plan(Some("ADMIN")).unwrap();
    assert!(admin.sections == vec![HelpSection::Admin]);
    assert!(!admin.banner);
    assert_eq!(admin.notes, vec!["Run `opaq principal --help` for full options."]);
    let err = cheatsheet_plan(Some("Bogus")).err().unwrap();
    assert_eq!(err, "unknown help topic 'bogus'. Valid topics: setup, auth, secrets, admin, paths, examples");
    assert!(cheatsheet_plan(Some("examples")).unwrap().notes.is_empty());
    assert_eq!(HelpSection::Paths.title(), "PATHS");
    assert!(HelpSection::Admin.rows().iter().any(|(c, _)| c.contains("principal")));
    assert_eq!(HelpSection::Examples.lines().len(), 5);
}

#[test]
fn genkey_lengths() {
    assert_eq!(genkey(31).unwrap_err(), "length must be at least 32");
    let k = genkey(48).unwrap();
    assert_eq!(k.len(), 48);
    assert!(k.chars().all(|c| c.is_ascii_alphanumeric()));
}

#[test]
fn status_and_errors() {
    assert_eq!(key_tail("opaq_abcdef"), "cdef");
    assert_eq!(key_tail("abc"), "abc");
    assert!(classify_status(204) == StatusClass::Success);
    assert!(classify_status(401) == StatusClass::Unauthorized);
    assert!(classify_status(500) == StatusClass::Failure);
    assert_eq!(
        unauthorized_message("https://x"),
        "API key invalid or revoked (server: https://x). Mint a new key (admin) or run `opaq login` again."
    );
    let lines = status_lines(false, "https://x", &principal(Some(3), Some("ci")), "cdef");
    assert_eq!(
        lines,
        vec![s("status: ok"), s("server: https://x"), s("identity: ci (id=3, role=writer)"), s("key tail: ...cdef")]
    );
    assert_eq!(resp_error_text(404, "  not found \n", None), "not found");
    assert_eq!(resp_error_text(502, "<html>", None), "server returned 502");
    assert_eq!(resp_error_text(500, "", None), "server returned 500");
    assert_eq!(render_resp_error(403, Ok(s("{\"error\":\"forbidden\"}"))), "forbidden");
    assert_eq!(render_resp_error(403, Ok(s("{\"error\":3}"))), "{\"error\":3}");
    assert_eq!(render_resp_error(403, Err(s("eof"))), "failed to read response body: eof");
}

#[test]
fn get_rendering() {
    assert_eq!(get_body("string", "{\"a\":1}"), "{\"a\":1}");
    assert_eq!(get_body("json", "{\"a\":1}"), "{\n  \"a\": 1\n}");
    assert_eq!(get_body("json", "{oops"), "{oops");
    assert_eq!(get_lines(false, "/a/p/K", "string", "v"), vec![s("path: /a/p/K"), s("type: string"), s(""), s("v")]);
}

#[test]
fn set_value_sources() {
    assert!(matches!(select_value_source(Some(s("v")), None, None, None), Ok(ValueSource::Text(_))));
    assert_eq!(
        select_value_source(None, None, None, None).err().unwrap(),
        "exactly one of --string, --string-path, --json, --json-path is required"
    );
    assert_eq!(
        select_value_source(Some(s("v")), None, Some(s("{}")), None).err().unwrap(),
        "--string/--string-path/--json/--json-path are mutually exclusive"
    );
    assert_eq!(set_value(SetInput::TextFile(s("cert\r\n\n"))).unwrap(), (s("cert"), "string"));
    assert_eq!(set_value(SetInput::Json(s("{\"timeout\": 30}"))).unwrap(), (s("{\"timeout\": 30}"), "json"));
    assert!(set_value(SetInput::Json(s("{bad"))).unwrap_err().starts_with("--json: invalid JSON: "));
    assert_eq!(
        set_value(SetInput::Json(s("{"))).unwrap_err(),
        "--json: invalid JSON: EOF while parsing an object at line 1 column 1"
    );
    assert!(set_value(SetInput::JsonFile { path: s("f.json"), contents: s("[1,\n") })
        .unwrap_err()
        .starts_with("--json-path: file f.json contains invalid JSON: "));
    assert_eq!(set_value(SetInput::JsonFile { path: s("f.json"), contents: s("[1]\n") }).unwrap(), (s("[1]"), "json"));
}

#[test]
fn principal_targets_and_requests() {
    assert!(matches!(select_target(Some(4), Some(s("n"))), Some(Target::ById(4))));
    assert!(matches!(select_target(None, Some(s("n"))), Some(Target::ByName(_))));
    assert!(select_target(None, None).is_none());
    let r = principal_set_request(s("ci"), None, Some("30d"), false, None).unwrap();
    assert_eq!(r.ttl_seconds, Some(2_592_000));
    assert_eq!(
        principal_set_request(s("ci"), None, Some("3w"), false, None).err().unwrap(),
        "invalid ttl '3w': use a suffix like 30d, 12h, 60m, or 3600s"
    );
}

#[test]
fn shell_quote_replaces_back() {
    for v in ["", "plain", "it's", "''", "a'b'c", "$HOME `x` \"q\" \\n", "'\\''"] {
        let q = shell_quote(v);
        assert!(q.len() >= 2 && q.starts_with('\'') && q.ends_with('\''), "{}", q);
        let inner = &q[1..q.len() - 1];
        assert_eq!(inner.replace("'\\''", "'"), v);
        assert!(!inner.replace("'\\''", "").contains('\''), "{}", q);
    }
}

#[test]
fn get_output_raw_and_lines() {
    match get_output(false, true, Some(s("v\n")), None, None).unwrap() {
        GetOutput::Raw(v) => assert_eq!(v, "v\n"),
        GetOutput::Lines(_) => panic!("--raw prints the value alone"),
    }
    match get_output(false, false, Some(s("{\"a\":1}")), Some(s("/w/p/K")), Some(s("json"))).unwrap() {
        GetOutput::Lines(ls) => {
            assert_eq!(ls, vec![s("path: /w/p/K"), s("type: json"), s(""), s("{\n  \"a\": 1\n}")])
        }
        GetOutput::Raw(_) => panic!("lines expected"),
    }
    assert_eq!(
        get_output(false, true, None, None, None).err().unwrap(),
        "response missing string field 'value'"
    );
    assert_eq!(
        get_output(false, false, Some(s("v")), None, Some(s("string"))).err().unwrap(),
        "response missing string field 'path'"
    );
    assert_eq!(
        get_output(false, false, Some(s("v")), Some(s("/w/p/K")), None).err().unwrap(),
        "response missing string field 'type'"
    );
}

fn field_text(f: &(String, FieldValue)) -> String {
    match &f.1 {
        FieldValue::Text(t) => format!("{}={}", f.0, t),
        FieldValue::Number(n) => format!("{}#{}", f.0, n),
        FieldValue::True => format!("{}!", f.0),
    }
}

#[test]
fn principal_set_body_fields() {
    let r = principal_set_request(s("ci"), Some(s("admin")), Some("1h"), false, None).unwrap();
    let fs: Vec<String> = request_fields(r).iter().map(field_text).collect();
    assert_eq!(fs, vec![s("name=ci"), s("role=admin"), s("ttl_seconds#3600")]);
    let r = principal_set_request(s("ci"), None, None, true, Some(s("bot"))).unwrap();
    let fs: Vec<String> = request_fields(r).iter().map(field_text).collect();
    assert_eq!(fs, vec![s("name=ci"), s("clear_ttl!"), s("rename=bot")]);
}
