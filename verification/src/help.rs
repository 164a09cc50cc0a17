//! The `help` cheatsheet: which sections a topic shows, and what each section holds.

use vstd::prelude::*;
use crate::text::{chars_eq_str, chars_of, string_of};

verus! {

/// One section of the cheatsheet.
#[derive(PartialEq, Eq, Structural, Clone, Copy, Debug)]
pub enum HelpSection {
    Paths,
    Setup,
    Auth,
    Secrets,
    Admin,
    Examples,
}

/// The command/description rows of each table section.
pub open spec fn section_rows_spec(sec: HelpSection) -> Seq<(Seq<char>, Seq<char>)> {
    match sec {
        HelpSection::Paths => seq![
            ("/workspace/project/key"@, "project-scoped secret"@),
            ("/workspace/project/env/key"@, "env-scoped secret"@),
            ("/workspace/project[/env]"@, "scope path (list / env)"@),
        ],
        HelpSection::Setup => seq![
            ("opaq genkey [--length N]"@, "generate OPAQ_MASTER_KEY passphrase"@),
        ],
        HelpSection::Auth => seq![
            ("opaq login --server URL --key KEY"@, "save creds (~/.config/opaq/config.json)"@),
            ("opaq status"@, "verify stored key against the server"@),
        ],
        HelpSection::Secrets => seq![
            ("opaq set <path> --string VAL"@, "set string secret"@),
            ("opaq set <path> --string-path FILE"@, "load string from file"@),
            ("opaq set <path> --json '{\"k\":\"v\"}'"@, "set JSON (validated)"@),
            ("opaq set <path> --json-path FILE"@, "load JSON from file"@),
            ("opaq get <path>"@, "fetch secret (pretty)"@),
            ("opaq get <path> --raw"@, "raw value (pipe-safe)"@),
            ("opaq list /ws/proj"@, "list project + all envs"@),
            ("opaq list /ws/proj/env --values"@, "list env (merges project defaults)"@),
            ("opaq list /ws/proj/env --no-merge"@, "list env, env-scoped rows only"@),
            ("opaq rm <path>"@, "delete secret"@),
            ("opaq env /ws/proj/env"@, "KEY=VAL lines (dotenv)"@),
            ("opaq env /ws/proj/env --shell"@, "export KEY='val' lines"@),
            ("opaq env /ws/proj/env --preserve-case"@, "keep original key case"@),
        ],
        HelpSection::Admin => seq![
            ("opaq principal set N [--role R] [--ttl T|--no-ttl] [--rename M]"@, "create or update by name (mints key on create)"@),
            ("opaq principal rotate --id N | --name M"@, "mint a new API key for principal"@),
            ("opaq principal list"@, "list principals"@),
            ("opaq principal revoke --id N | --name M"@, "disable principal"@),
        ],
        HelpSection::Examples => Seq::<(Seq<char>, Seq<char>)>::empty(),
    }
}

impl HelpSection {
    /// The section's heading.
    pub fn title(&self) -> (r: &'static str)
        ensures
            r@ == section_title(*self),
    {
        match self {
            HelpSection::Paths => "PATHS",
            HelpSection::Setup => "SETUP",
            HelpSection::Auth => "AUTH",
            HelpSection::Secrets => "SECRETS",
            HelpSection::Admin => "ADMIN",
            HelpSection::Examples => "EXAMPLES",
        }
    }

    /// The command/description rows of a table section (none for the examples).
    pub fn rows(&self) -> (r: Vec<(&'static str, &'static str)>)
        ensures
            r@.map_values(|p: (&'static str, &'static str)| (p.0@, p.1@)) == section_rows_spec(*self),
    {
        let mut r: Vec<(&'static str, &'static str)> = Vec::new();
        match self {
            HelpSection::Paths => {
                r.push(("/workspace/project/key", "project-scoped secret"));
                r.push(("/workspace/project/env/key", "env-scoped secret"));
                r.push(("/workspace/project[/env]", "scope path (list / env)"));
            },
            HelpSection::Setup => {
                r.push(("opaq genkey [--length N]", "generate OPAQ_MASTER_KEY passphrase"));
            },
            HelpSection::Auth => {
                r.push(("opaq login --server URL --key KEY", "save creds (~/.config/opaq/config.json)"));
                r.push(("opaq status", "verify stored key against the server"));
            },
            HelpSection::Secrets => {
                r.push(("opaq set <path> --string VAL", "set string secret"));
                r.push(("opaq set <path> --string-path FILE", "load string from file"));
                r.push(("opaq set <path> --json '{\"k\":\"v\"}'", "set JSON (validated)"));
                r.push(("opaq set <path> --json-path FILE", "load JSON from file"));
                r.push(("opaq get <path>", "fetch secret (pretty)"));
                r.push(("opaq get <path> --raw", "raw value (pipe-safe)"));
                r.push(("opaq list /ws/proj", "list project + all envs"));
                r.push(("opaq list /ws/proj/env --values", "list env (merges project defaults)"));
                r.push(("opaq list /ws/proj/env --no-merge", "list env, env-scoped rows only"));
                r.push(("opaq rm <path>", "delete secret"));
                r.push(("opaq env /ws/proj/env", "KEY=VAL lines (dotenv)"));
                r.push(("opaq env /ws/proj/env --shell", "export KEY='val' lines"));
                r.push(("opaq env /ws/proj/env --preserve-case", "keep original key case"));
            },
            HelpSection::Admin => {
                r.push(
                    (
                        "opaq principal set N [--role R] [--ttl T|--no-ttl] [--rename M]",
                        "create or update by name (mints key on create)",
                    ),
                );
                r.push(("opaq principal rotate --id N | --name M", "mint a new API key for principal"));
                r.push(("opaq principal list", "list principals"));
                r.push(("opaq principal revoke --id N | --name M", "disable principal"));
            },
            HelpSection::Examples => {},
        }
        assert(r@.map_values(|p: (&'static str, &'static str)| (p.0@, p.1@)) =~= section_rows_spec(*self));
        r
    }

    /// The lines of the examples section (none for table sections).
    pub fn lines(&self) -> (r: Vec<&'static str>)
        ensures
            r@.map_values(|l: &'static str| l@) == match self {
                HelpSection::Examples => seq![
                    "opaq login --server https://opaq.example.com --key opaq_abc123"@,
                    "opaq set /acme/api/prod/STRIPE_KEY --string sk_live_xxx"@,
                    "opaq get /acme/api/prod/STRIPE_KEY --raw | pbcopy"@,
                    "eval \"$(opaq env /acme/api/prod --shell)\""@,
                    "cargo run --env-file <(opaq env /acme/api/dev)"@,
                ],
                _ => Seq::<Seq<char>>::empty(),
            },
    {
        let mut r: Vec<&'static str> = Vec::new();
        match self {
            HelpSection::Examples => {
                r.push("opaq login --server https://opaq.example.com --key opaq_abc123");
                r.push("opaq set /acme/api/prod/STRIPE_KEY --string sk_live_xxx");
                r.push("opaq get /acme/api/prod/STRIPE_KEY --raw | pbcopy");
                r.push("eval \"$(opaq env /acme/api/prod --shell)\"");
                r.push("cargo run --env-file <(opaq env /acme/api/dev)");
            },
            _ => {},
        }
        assert(r@.map_values(|l: &'static str| l@) =~= match self {
            HelpSection::Examples => seq![
                "opaq login --server https://opaq.example.com --key opaq_abc123"@,
                "opaq set /acme/api/prod/STRIPE_KEY --string sk_live_xxx"@,
                "opaq get /acme/api/prod/STRIPE_KEY --raw | pbcopy"@,
                "eval \"$(opaq env /acme/api/prod --shell)\""@,
                "cargo run --env-file <(opaq env /acme/api/dev)"@,
            ],
            _ => Seq::<Seq<char>>::empty(),
        });
        r
    }
}

/// A character in ASCII lower case (other characters as they are).
pub open spec fn ascii_lower(c: char) -> char {
    if 'A' <= c && c <= 'Z' {
        ((c as u32) + 32) as char
    } else {
        c
    }
}

/// `str::to_ascii_lowercase`: ASCII letters lowered, everything else kept.
pub open spec fn ascii_lowercase(s: Seq<char>) -> Seq<char> {
    s.map_values(|c: char| ascii_lower(c))
}

/// Lowers the ASCII letters of a text.
pub fn to_ascii_lowercase(s: &str) -> (r: Vec<char>)
    ensures
        r@ == ascii_lowercase(s@),
{
    let v = chars_of(s);
    let mut r: Vec<char> = Vec::new();
    let mut i: usize = 0;
    while i < v.len()
        invariant
            i <= v.len(),
            r@ =~= ascii_lowercase(v@.take(i as int)),
        decreases v.len() - i,
    {
        let c = v[i];
        let l = if 'A' <= c && c <= 'Z' {
            ((c as u32) + 32) as u8 as char
        } else {
            c
        };
        assert(l == ascii_lower(c)) by {
            if 'A' <= c && c <= 'Z' {
                assert(((c as u32) + 32) as u8 as char == ((c as u32) + 32) as char);
            }
        }
        r.push(l);
        assert(ascii_lowercase(v@.take(i + 1)) =~= ascii_lowercase(v@.take(i as int)).push(l));
        i = i + 1;
    }
    assert(v@.take(v.len() as int) =~= v@);
    r
}

/// The topics that the cheatsheet knows.
pub open spec fn valid_topics_text() -> Seq<char> {
    "setup, auth, secrets, admin, paths, examples"@
}

/// What the cheatsheet prints for a topic: whether the banner comes first, the sections,
/// and the notes that follow them (after a blank line). Topics are matched without regard
/// to ASCII case; without a topic every section is shown.
pub open spec fn cheatsheet_spec(topic: Option<Seq<char>>) -> Result<(bool, Seq<HelpSection>, Seq<Seq<char>>), Seq<char>> {
    match topic {
        None => Ok(
            (
                true,
                seq![
                    HelpSection::Paths,
                    HelpSection::Setup,
                    HelpSection::Auth,
                    HelpSection::Secrets,
                    HelpSection::Admin,
                    HelpSection::Examples,
                ],
                Seq::<Seq<char>>::empty(),
            ),
        ),
        Some(t) => {
            let n = ascii_lowercase(t);
            if n == "setup"@ {
                Ok((false, seq![HelpSection::Setup], seq!["Run `opaq genkey --help` for options."@]))
            } else if n == "auth"@ {
                Ok((false, seq![HelpSection::Auth], seq!["Run `opaq login --help` for full options."@]))
            } else if n == "secrets"@ {
                Ok(
                    (
                        false,
                        seq![HelpSection::Secrets],
                        seq!["Run `opaq <set|get|list|rm|env> --help` for full options."@],
                    ),
                )
            } else if n == "admin"@ {
                Ok(
                    (
                        false,
                        seq![HelpSection::Admin],
                        seq!["Run `opaq principal --help` for full options."@],
                    ),
                )
            } else if n == "paths"@ {
                Ok(
                    (
                        false,
                        seq![HelpSection::Paths],
                        seq![
                            "3 segments = project-scoped (shared across envs)."@,
                            "4 segments = env-scoped (overrides project-scoped at fetch time)."@,
                            "`list` and `env` use scope paths (no trailing /key)."@,
                        ],
                    ),
                )
            } else if n == "examples"@ {
                Ok((false, seq![HelpSection::Examples], Seq::<Seq<char>>::empty()))
            } else {
                Err("unknown help topic '"@ + n + "'. Valid topics: "@ + valid_topics_text())
            }
        },
    }
}

/// The plan of a cheatsheet: banner or not, sections in order, closing notes.
pub struct CheatsheetPlan {
    pub banner: bool,
    pub sections: Vec<HelpSection>,
    pub notes: Vec<&'static str>,
}

pub open spec fn plan_view(p: CheatsheetPlan) -> (bool, Seq<HelpSection>, Seq<Seq<char>>) {
    (p.banner, p.sections@, p.notes@.map_values(|s: &'static str| s@))
}

fn plan(banner: bool, sections: Vec<HelpSection>, notes: Vec<&'static str>) -> (p: CheatsheetPlan)
    ensures
        p.banner == banner,
        p.sections@ == sections@,
        p.notes@ == notes@,
{
    CheatsheetPlan { banner, sections, notes }
}

/// Plans the cheatsheet for a topic (see `cheatsheet_spec`).
pub fn cheatsheet_plan(topic: Option<&str>) -> (res: Result<CheatsheetPlan, String>)
    ensures
        match res {
            Ok(p) => cheatsheet_spec(
                match topic {
                    Some(t) => Some(t@),
                    None => None,
                },
            ) == Ok::<(bool, Seq<HelpSection>, Seq<Seq<char>>), Seq<char>>(plan_view(p)),
            Err(e) => cheatsheet_spec(
                match topic {
                    Some(t) => Some(t@),
                    None => None,
                },
            ) == Err::<(bool, Seq<HelpSection>, Seq<Seq<char>>), Seq<char>>(e@),
        },
{
    let t = match topic {
        None => {
            let mut s: Vec<HelpSection> = Vec::new();
            s.push(HelpSection::Paths);
            s.push(HelpSection::Setup);
            s.push(HelpSection::Auth);
            s.push(HelpSection::Secrets);
            s.push(HelpSection::Admin);
            s.push(HelpSection::Examples);
            let p = plan(true, s, Vec::new());
            assert(plan_view(p).1 =~= cheatsheet_spec(None)->Ok_0.1);
            assert(plan_view(p).2 =~= cheatsheet_spec(None)->Ok_0.2);
            return Ok(p);
        },
        Some(t) => t,
    };
    let n = to_ascii_lowercase(t);
    let mut s: Vec<HelpSection> = Vec::new();
    let mut notes: Vec<&'static str> = Vec::new();
    let ghost spec = cheatsheet_spec(Some(t@));
    if chars_eq_str(&n, "setup") {
        s.push(HelpSection::Setup);
        notes.push("Run `opaq genkey --help` for options.");
    } else if chars_eq_str(&n, "auth") {
        s.push(HelpSection::Auth);
        notes.push("Run `opaq login --help` for full options.");
    } else if chars_eq_str(&n, "secrets") {
        s.push(HelpSection::Secrets);
        notes.push("Run `opaq <set|get|list|rm|env> --help` for full options.");
    } else if chars_eq_str(&n, "admin") {
        s.push(HelpSection::Admin);
        notes.push("Run `opaq principal --help` for full options.");
    } else if chars_eq_str(&n, "paths") {
        s.push(HelpSection::Paths);
        notes.push("3 segments = project-scoped (shared across envs).");
        notes.push("4 segments = env-scoped (overrides project-scoped at fetch time).");
        notes.push("`list` and `env` use scope paths (no trailing /key).");
    } else if chars_eq_str(&n, "examples") {
        s.push(HelpSection::Examples);
    } else {
        let mut e = "unknown help topic '".to_owned();
        let nl = string_of(&n);
        e.append(nl.as_str());
        e.append("'. Valid topics: ");
        e.append("setup, auth, secrets, admin, paths, examples");
        return Err(e);
    }
    let p = plan(false, s, notes);
    assert(plan_view(p).1 =~= spec->Ok_0.1);
    assert(plan_view(p).2 =~= spec->Ok_0.2);
    Ok(p)
}

/// Topics are read without regard to ASCII case: two topics that lower to the same text
/// give the same cheatsheet (or the same refusal).
pub proof fn lemma_topic_case_insensitive(t1: Seq<char>, t2: Seq<char>)
    requires
        ascii_lowercase(t1) == ascii_lowercase(t2),
    ensures
        cheatsheet_spec(Some(t1)) == cheatsheet_spec(Some(t2)),
{
}


/// A section's heading (see `HelpSection::title`).
pub open spec fn section_title(sec: HelpSection) -> Seq<char> {
    match sec {
        HelpSection::Paths => "PATHS"@,
        HelpSection::Setup => "SETUP"@,
        HelpSection::Auth => "AUTH"@,
        HelpSection::Secrets => "SECRETS"@,
        HelpSection::Admin => "ADMIN"@,
        HelpSection::Examples => "EXAMPLES"@,
    }
}

proof fn lemma_title_lowercase(sec: HelpSection)
    ensures
        ascii_lowercase(section_title(sec)) == match sec {
            HelpSection::Paths => "paths"@,
            HelpSection::Setup => "setup"@,
            HelpSection::Auth => "auth"@,
            HelpSection::Secrets => "secrets"@,
            HelpSection::Admin => "admin"@,
            HelpSection::Examples => "examples"@,
        },
{
    reveal_strlit("PATHS");
    reveal_strlit("paths");
    reveal_strlit("SETUP");
    reveal_strlit("setup");
    reveal_strlit("AUTH");
    reveal_strlit("auth");
    reveal_strlit("SECRETS");
    reveal_strlit("secrets");
    reveal_strlit("ADMIN");
    reveal_strlit("admin");
    reveal_strlit("EXAMPLES");
    reveal_strlit("examples");
    match sec {
        HelpSection::Paths => assert(ascii_lowercase("PATHS"@) =~= "paths"@),
        HelpSection::Setup => assert(ascii_lowercase("SETUP"@) =~= "setup"@),
        HelpSection::Auth => assert(ascii_lowercase("AUTH"@) =~= "auth"@),
        HelpSection::Secrets => assert(ascii_lowercase("SECRETS"@) =~= "secrets"@),
        HelpSection::Admin => assert(ascii_lowercase("ADMIN"@) =~= "admin"@),
        HelpSection::Examples => assert(ascii_lowercase("EXAMPLES"@) =~= "examples"@),
    }
}

/// A topic shows the section it names: a topic that reads, without regard to ASCII case,
/// as a section's heading gives that section alone, without the banner.
pub proof fn lemma_topic_names_its_section(t: Seq<char>, sec: HelpSection)
    requires
        ascii_lowercase(t) == ascii_lowercase(section_title(sec)),
    ensures
        cheatsheet_spec(Some(t)) matches Ok(p) && !p.0 && p.1 == seq![sec],
{
    reveal_strlit("paths");
    reveal_strlit("setup");
    reveal_strlit("auth");
    reveal_strlit("secrets");
    reveal_strlit("admin");
    reveal_strlit("examples");
    lemma_title_lowercase(sec);
    let n = ascii_lowercase(t);
    assert("setup"@.len() == 5 && "auth"@.len() == 4 && "secrets"@.len() == 7);
    assert("admin"@.len() == 5 && "paths"@.len() == 5 && "examples"@.len() == 8);
    assert("setup"@[0] == 's' && "admin"@[0] == 'a' && "paths"@[0] == 'p');
    match sec {
        HelpSection::Setup => {},
        HelpSection::Auth => assert(n != "setup"@),
        HelpSection::Secrets => assert(n != "setup"@ && n != "auth"@),
        HelpSection::Admin => assert(n != "setup"@ && n != "auth"@ && n != "secrets"@),
        HelpSection::Paths => assert(n != "setup"@ && n != "auth"@ && n != "secrets"@ && n != "admin"@),
        HelpSection::Examples => assert(
            n != "setup"@ && n != "auth"@ && n != "secrets"@ && n != "admin"@ && n != "paths"@
        ),
    }
}

/// Whatever topic is accepted shows exactly one section, the one whose heading the topic
/// reads as (without regard to ASCII case).
pub proof fn lemma_accepted_topic_is_a_section(t: Seq<char>)
    ensures
        cheatsheet_spec(Some(t)) matches Ok(p) ==> p.1.len() == 1 && ascii_lowercase(t) == ascii_lowercase(
            section_title(p.1[0]),
        ),
{
    reveal_strlit("paths");
    reveal_strlit("setup");
    reveal_strlit("auth");
    reveal_strlit("secrets");
    reveal_strlit("admin");
    reveal_strlit("examples");
    lemma_title_lowercase(HelpSection::Paths);
    lemma_title_lowercase(HelpSection::Setup);
    lemma_title_lowercase(HelpSection::Auth);
    lemma_title_lowercase(HelpSection::Secrets);
    lemma_title_lowercase(HelpSection::Admin);
    lemma_title_lowercase(HelpSection::Examples);
}

/// Without a topic, the cheatsheet has the banner and every section once, in the order
/// paths, setup, auth, secrets, admin, examples.
pub proof fn lemma_full_cheatsheet(t: Option<Seq<char>>)
    requires
        t is None,
    ensures
        cheatsheet_spec(t) matches Ok(p) && p.0 && p.1 == seq![
            HelpSection::Paths,
            HelpSection::Setup,
            HelpSection::Auth,
            HelpSection::Secrets,
            HelpSection::Admin,
            HelpSection::Examples,
        ],
{
}

} // verus!
