//! The documented grammar of the command line: what each command and flag says of itself.
//! The argument parser shows these texts in its `--help` output, in its own layout;
//! `help_text` renders the same texts plainly.

use vstd::prelude::*;
use crate::text::chars_eq_str;
use crate::text::chars_of;

verus! {

/// The program's version, as `--version` and the cheatsheet banner show it.
pub const VERSION: &'static str = "0.1.0";

pub const TOP_ABOUT: &'static str = "Config/secret store CLI";

pub const TOP_LONG_ABOUT: &'static str = "opaq \u{2014} config/secret store CLI

Path syntax:
  /workspace/project/key            project-scoped secret
  /workspace/project/env/key        env-scoped secret
  /workspace/project[/env]          list/env scope path
";

pub const TOP_AFTER_HELP: &'static str = "Run `opaq help` for a quick cheatsheet of common commands,
or `opaq <command> --help` for details on a specific command.
";

/// The start of the top-level help layout: name, version, description and usage.
pub const TOP_TEMPLATE_HEAD: &'static str = "{before-help}{name} {version}
{about}

{usage-heading} {usage}

";

/// The commands in their groups, as the top-level help lists them.
pub const TOP_COMMAND_GROUPS: &'static str = "Setup:
  genkey         Generate a master-key passphrase for OPAQ_MASTER_KEY

Auth:
  login          Save server URL and API key
  status         Check auth status and key validity
  profile        Manage credential profiles

Secrets:
  set            Set a secret value
  get            Get a secret value
  list           List secrets under a project or env
  rm             Remove a secret
  env            Export secrets as KEY=VALUE lines (dotenv compatible)

Admin:
  principal      Manage API key principals (admin only)

Cheatsheet:
  help           Print a cheatsheet of common commands
";

/// The end of the top-level help layout: the options and the closing notes.
pub const TOP_TEMPLATE_TAIL: &'static str = "
Options:
{options}

{after-help}";

/// The layout that the argument parser fills for the top-level `--help`: head, the
/// command groups, tail.
pub fn top_help_template() -> (r: String)
    ensures
        r@ == TOP_TEMPLATE_HEAD@ + TOP_COMMAND_GROUPS@ + TOP_TEMPLATE_TAIL@,
{
    let mut r = TOP_TEMPLATE_HEAD.to_owned();
    r.append(TOP_COMMAND_GROUPS);
    r.append(TOP_TEMPLATE_TAIL);
    r
}

pub const GENKEY_ABOUT: &'static str = "Generate a random master-key passphrase suitable for OPAQ_MASTER_KEY";

pub const GENKEY_AFTER_HELP: &'static str = "Examples:
  opaq genkey
  opaq genkey --length 48
  export OPAQ_MASTER_KEY=$(opaq genkey)
";

pub const GENKEY_LENGTH_HELP: &'static str = "Passphrase length in characters (minimum 32)";

pub const LOGIN_ABOUT: &'static str = "Save server URL and API key";

pub const LOGIN_AFTER_HELP: &'static str = "Examples:
  opaq login --server https://opaq.example.com --key opaq_abc123
";

pub const LOGIN_SERVER_HELP: &'static str = "Server base URL (e.g. https://opaq.example.com)";

pub const LOGIN_KEY_HELP: &'static str = "API key issued by an admin";

pub const STATUS_ABOUT: &'static str = "Check auth status: validate stored API key against the server";

pub const STATUS_AFTER_HELP: &'static str = "Examples:
  opaq status
";

pub const SET_ABOUT: &'static str = "Set a secret value";

pub const SET_AFTER_HELP: &'static str = "Examples:
  opaq set /acme/api/prod/STRIPE_KEY --string sk_live_xxx
  opaq set /acme/api/CONFIG --json '{\"timeout\": 30}'
  opaq set /acme/api/prod/CERT --string-path ./cert.pem
";

pub const SET_PATH_HELP: &'static str = "Path: /workspace/project[/env]/key";

pub const SET_STRING_HELP: &'static str = "Inline string value";

pub const SET_STRING_PATH_HELP: &'static str = "Path to a file whose contents become a string value";

pub const SET_JSON_HELP: &'static str = "Inline JSON literal (validated)";

pub const SET_JSON_PATH_HELP: &'static str = "Path to a .json file (contents validated)";

pub const GET_ABOUT: &'static str = "Get a secret value";

pub const GET_AFTER_HELP: &'static str = "Examples:
  opaq get /acme/api/prod/STRIPE_KEY
  opaq get /acme/api/prod/STRIPE_KEY --raw | pbcopy
";

pub const GET_RAW_HELP: &'static str = "Print raw value only (no metadata, no JSON pretty-printing) for piping";

pub const LIST_ABOUT: &'static str = "List secrets under a project or env";

pub const LIST_AFTER_HELP: &'static str = "By default an env-scoped list also includes the project-scoped (3-segment)
secrets that act as defaults. Use --no-merge to see only env-scoped rows.

Examples:
  opaq list /acme/api                  # project + all envs
  opaq list /acme/api/prod --values    # project defaults + prod (merged)
  opaq list /acme/api/prod --no-merge  # only env-scoped rows
";

pub const LIST_VALUES_HELP: &'static str = "Also fetch and display each secret value";

pub const LIST_NO_MERGE_HELP: &'static str = "Skip merging project-scoped defaults into env-scoped listings";

pub const RM_ABOUT: &'static str = "Remove a secret";

pub const RM_AFTER_HELP: &'static str = "Examples:
  opaq rm /acme/api/prod/STRIPE_KEY
";

pub const ENV_ABOUT: &'static str = "Export secrets for a project+env as KEY=VALUE lines (dotenv / --env-file compatible)";

pub const ENV_AFTER_HELP: &'static str = "Examples:
  opaq env /acme/api/prod                   # KEY=val (for --env-file)
  eval \"$(opaq env /acme/api/prod --shell)\"
  cargo run --env-file <(opaq env /acme/api/dev)
";

pub const ENV_PATH_HELP: &'static str = "Path: /workspace/project/env (env-scoped); also includes project-scoped secrets";

pub const ENV_SHELL_HELP: &'static str = "Emit `export KEY='value'` lines (for `eval \"$(opaq env ...)\"`)";

pub const ENV_PRESERVE_CASE_HELP: &'static str = "Preserve original key case (default uppercases keys for env-var convention)";

pub const PRINCIPAL_ABOUT: &'static str = "Manage API key principals (admin only)";

pub const HELP_ABOUT: &'static str = "Print a cheatsheet of common commands. Optional topic filters output.";

pub const HELP_AFTER_HELP: &'static str = "Topics:
  auth       login command
  secrets    set, get, list, rm, env
  admin      principal
  paths      path-syntax reference
  examples   common invocations
";

pub const HELP_TOPIC_HELP: &'static str = "Topic: auth | secrets | admin | paths | examples";

pub const PRINCIPAL_SET_ABOUT: &'static str = "Create or update a principal by name (does not rotate keys on update)";

pub const PRINCIPAL_SET_AFTER_HELP: &'static str = "If NAME does not match any active principal, a new principal is created and an
API key is minted (printed once). If NAME matches an active principal, the
role / ttl / name are updated in place. The API key is NEVER rotated by this
command \u{2014} use `principal rotate --name <NAME>` (or `--id <ID>`) instead.

Examples:
  opaq principal set ci-bot --role writer
  opaq principal set ci-bot --ttl 30d
  opaq principal set ci-bot --no-ttl
  opaq principal set ci-bot --rename ci-runner
";

pub const PRINCIPAL_SET_NAME_HELP: &'static str = "Principal name (lookup key for existing, label for new)";

pub const PRINCIPAL_SET_ROLE_HELP: &'static str = "Role: reader, writer, or admin";

pub const PRINCIPAL_SET_TTL_HELP: &'static str = "Set TTL: 30d, 12h, 60m, 3600s, or bare seconds";

pub const PRINCIPAL_SET_NO_TTL_HELP: &'static str = "Clear TTL (no expiry) on an existing principal";

pub const PRINCIPAL_SET_RENAME_HELP: &'static str = "Rename an existing principal (errors if NAME doesn't exist)";

pub const PRINCIPAL_ROTATE_ABOUT: &'static str = "Rotate the API key for an existing principal (id, name, role, ttl preserved)";

pub const PRINCIPAL_ROTATE_AFTER_HELP: &'static str = "The principal's id, name, role, and ttl are preserved. The old API key is
invalidated; the new plaintext is printed once.

Specify the principal by --id or --name. If both are given, --id wins.

Examples:
  opaq principal rotate --name ci-bot
  opaq principal rotate --id 4
";

pub const PRINCIPAL_REVOKE_ABOUT: &'static str = "Revoke a principal's API key";

pub const PRINCIPAL_REVOKE_AFTER_HELP: &'static str = "Specify the principal by --id or --name. If both are given, --id wins.

Examples:
  opaq principal revoke --id 4
  opaq principal revoke --name ci-bot
";

pub const PRINCIPAL_ID_HELP: &'static str = "Numeric principal ID (from `principal list`)";

pub const PRINCIPAL_NAME_HELP: &'static str = "Principal name";

pub const PRINCIPAL_LIST_ABOUT: &'static str = "List principals";

pub const PROFILE_FLAG_HELP: &'static str = "Credential profile to use (overrides OPAQ_PROFILE; defaults to `default`)";

pub const PROFILE_ABOUT: &'static str = "Manage credential profiles";

pub const PROFILE_LIST_ABOUT: &'static str = "List saved profiles";

pub const PROFILE_REMOVE_ABOUT: &'static str = "Remove a saved profile";

pub const PROFILE_REMOVE_NAME_HELP: &'static str = "Profile name to delete";

/// What a command documents of itself: its description, the command groups it lists (the
/// program itself only; empty elsewhere), its arguments (the name under which each is
/// given, and what it says), and the notes after them.
pub struct CommandDoc {
    pub about: &'static str,
    pub commands: &'static str,
    pub args: Vec<(&'static str, &'static str)>,
    pub after_help: &'static str,
}

/// The documentation of the command at a path of command words: description, command
/// groups, arguments (name and text; a positional argument without a text of its own has an
/// empty one), and closing notes. The empty path is the program itself: its commands in the
/// groups of `TOP_COMMAND_GROUPS` (the block that `top_help_template` lays out), and its
/// global `--profile` flag.
pub open spec fn command_doc_spec(path: Seq<Seq<char>>) -> Option<(Seq<char>, Seq<char>, Seq<(Seq<char>, Seq<char>)>, Seq<char>)> {
    if path.len() == 0 {
        Some((TOP_LONG_ABOUT@, TOP_COMMAND_GROUPS@, seq![("--profile"@, PROFILE_FLAG_HELP@)], TOP_AFTER_HELP@))
    } else if path.len() == 1 && path[0] == "genkey"@ {
        Some((GENKEY_ABOUT@, Seq::<char>::empty(), seq![("--length"@, GENKEY_LENGTH_HELP@)], GENKEY_AFTER_HELP@))
    } else if path.len() == 1 && path[0] == "login"@ {
        Some((LOGIN_ABOUT@, Seq::<char>::empty(), seq![("--server"@, LOGIN_SERVER_HELP@), ("--key"@, LOGIN_KEY_HELP@), ("--profile"@, PROFILE_FLAG_HELP@)], LOGIN_AFTER_HELP@))
    } else if path.len() == 1 && path[0] == "status"@ {
        Some((STATUS_ABOUT@, Seq::<char>::empty(), Seq::<(Seq<char>, Seq<char>)>::empty(), STATUS_AFTER_HELP@))
    } else if path.len() == 1 && path[0] == "set"@ {
        Some((SET_ABOUT@, Seq::<char>::empty(), seq![("<PATH>"@, SET_PATH_HELP@), ("--string"@, SET_STRING_HELP@), ("--string-path"@, SET_STRING_PATH_HELP@), ("--json"@, SET_JSON_HELP@), ("--json-path"@, SET_JSON_PATH_HELP@)], SET_AFTER_HELP@))
    } else if path.len() == 1 && path[0] == "get"@ {
        Some((GET_ABOUT@, Seq::<char>::empty(), seq![("<PATH>"@, Seq::<char>::empty()), ("--raw"@, GET_RAW_HELP@)], GET_AFTER_HELP@))
    } else if path.len() == 1 && path[0] == "list"@ {
        Some((LIST_ABOUT@, Seq::<char>::empty(), seq![("<PATH>"@, Seq::<char>::empty()), ("--values"@, LIST_VALUES_HELP@), ("--no-merge"@, LIST_NO_MERGE_HELP@)], LIST_AFTER_HELP@))
    } else if path.len() == 1 && path[0] == "rm"@ {
        Some((RM_ABOUT@, Seq::<char>::empty(), seq![("<PATH>"@, Seq::<char>::empty())], RM_AFTER_HELP@))
    } else if path.len() == 1 && path[0] == "env"@ {
        Some((ENV_ABOUT@, Seq::<char>::empty(), seq![("<PATH>"@, ENV_PATH_HELP@), ("--shell"@, ENV_SHELL_HELP@), ("--preserve-case"@, ENV_PRESERVE_CASE_HELP@)], ENV_AFTER_HELP@))
    } else if path.len() == 1 && path[0] == "principal"@ {
        Some((PRINCIPAL_ABOUT@, Seq::<char>::empty(), seq![("set"@, PRINCIPAL_SET_ABOUT@), ("rotate"@, PRINCIPAL_ROTATE_ABOUT@), ("revoke"@, PRINCIPAL_REVOKE_ABOUT@), ("list"@, PRINCIPAL_LIST_ABOUT@)], Seq::<char>::empty()))
    } else if path.len() == 1 && path[0] == "help"@ {
        Some((HELP_ABOUT@, Seq::<char>::empty(), seq![("[TOPIC]"@, HELP_TOPIC_HELP@)], HELP_AFTER_HELP@))
    } else if path.len() == 2 && path[0] == "principal"@ && path[1] == "set"@ {
        Some((PRINCIPAL_SET_ABOUT@, Seq::<char>::empty(), seq![("<NAME>"@, PRINCIPAL_SET_NAME_HELP@), ("--role"@, PRINCIPAL_SET_ROLE_HELP@), ("--ttl"@, PRINCIPAL_SET_TTL_HELP@), ("--no-ttl"@, PRINCIPAL_SET_NO_TTL_HELP@), ("--rename"@, PRINCIPAL_SET_RENAME_HELP@)], PRINCIPAL_SET_AFTER_HELP@))
    } else if path.len() == 2 && path[0] == "principal"@ && path[1] == "rotate"@ {
        Some((PRINCIPAL_ROTATE_ABOUT@, Seq::<char>::empty(), seq![("--id"@, PRINCIPAL_ID_HELP@), ("--name"@, PRINCIPAL_NAME_HELP@)], PRINCIPAL_ROTATE_AFTER_HELP@))
    } else if path.len() == 2 && path[0] == "principal"@ && path[1] == "revoke"@ {
        Some((PRINCIPAL_REVOKE_ABOUT@, Seq::<char>::empty(), seq![("--id"@, PRINCIPAL_ID_HELP@), ("--name"@, PRINCIPAL_NAME_HELP@)], PRINCIPAL_REVOKE_AFTER_HELP@))
    } else if path.len() == 2 && path[0] == "principal"@ && path[1] == "list"@ {
        Some((PRINCIPAL_LIST_ABOUT@, Seq::<char>::empty(), Seq::<(Seq<char>, Seq<char>)>::empty(), Seq::<char>::empty()))
    } else if path.len() == 1 && path[0] == "profile"@ {
        Some((PROFILE_ABOUT@, Seq::<char>::empty(), seq![("list"@, PROFILE_LIST_ABOUT@), ("remove"@, PROFILE_REMOVE_ABOUT@)], Seq::<char>::empty()))
    } else if path.len() == 2 && path[0] == "profile"@ && path[1] == "list"@ {
        Some((PROFILE_LIST_ABOUT@, Seq::<char>::empty(), Seq::<(Seq<char>, Seq<char>)>::empty(), Seq::<char>::empty()))
    } else if path.len() == 2 && path[0] == "profile"@ && path[1] == "remove"@ {
        Some((PROFILE_REMOVE_ABOUT@, Seq::<char>::empty(), seq![("<NAME>"@, PROFILE_REMOVE_NAME_HELP@)], Seq::<char>::empty()))
    } else {
        None
    }
}

pub open spec fn doc_view(d: CommandDoc) -> (Seq<char>, Seq<char>, Seq<(Seq<char>, Seq<char>)>, Seq<char>) {
    (d.about@, d.commands@, d.args@.map_values(|a: (&'static str, &'static str)| (a.0@, a.1@)), d.after_help@)
}

fn word_is(w: &str, lit: &str) -> (r: bool)
    ensures
        r == (w@ == lit@),
{
    chars_eq_str(&chars_of(w), lit)
}

fn doc(
    about: &'static str,
    commands: &'static str,
    args: Vec<(&'static str, &'static str)>,
    after_help: &'static str,
) -> (d: CommandDoc)
    ensures
        d.about == about,
        d.commands == commands,
        d.args@ == args@,
        d.after_help == after_help,
{
    CommandDoc { about, commands, args, after_help }
}

/// The documentation of the command at a path of command words (see `command_doc_spec`).
pub fn command_doc(path: &[&str]) -> (r: Option<CommandDoc>)
    ensures
        match r {
            Some(d) => command_doc_spec(path@.map_values(|w: &str| w@)) == Some(doc_view(d)),
            None => command_doc_spec(path@.map_values(|w: &str| w@)) is None,
        },
{
    let ghost pv = path@.map_values(|w: &str| w@);
    proof {
        assert(""@ =~= Seq::<char>::empty()) by {
            reveal_strlit("");
        }
    }
    let mut a: Vec<(&'static str, &'static str)> = Vec::new();
    if path.len() == 0 {
        a.push(("--profile", PROFILE_FLAG_HELP));
        let d = doc(TOP_LONG_ABOUT, TOP_COMMAND_GROUPS, a, TOP_AFTER_HELP);
        assert(doc_view(d).2 =~= (command_doc_spec(pv)->0).2);
        Some(d)
    } else if path.len() == 1 && word_is(path[0], "genkey") {
        a.push(("--length", GENKEY_LENGTH_HELP));
        let d = doc(GENKEY_ABOUT, "", a, GENKEY_AFTER_HELP);
        assert(doc_view(d).2 =~= (command_doc_spec(pv)->0).2);
        Some(d)
    } else if path.len() == 1 && word_is(path[0], "login") {
        a.push(("--server", LOGIN_SERVER_HELP));
        a.push(("--key", LOGIN_KEY_HELP));
        a.push(("--profile", PROFILE_FLAG_HELP));
        let d = doc(LOGIN_ABOUT, "", a, LOGIN_AFTER_HELP);
        assert(doc_view(d).2 =~= (command_doc_spec(pv)->0).2);
        Some(d)
    } else if path.len() == 1 && word_is(path[0], "status") {
        let d = doc(STATUS_ABOUT, "", a, STATUS_AFTER_HELP);
        assert(doc_view(d).2 =~= (command_doc_spec(pv)->0).2);
        Some(d)
    } else if path.len() == 1 && word_is(path[0], "set") {
        a.push(("<PATH>", SET_PATH_HELP));
        a.push(("--string", SET_STRING_HELP));
        a.push(("--string-path", SET_STRING_PATH_HELP));
        a.push(("--json", SET_JSON_HELP));
        a.push(("--json-path", SET_JSON_PATH_HELP));
        let d = doc(SET_ABOUT, "", a, SET_AFTER_HELP);
        assert(doc_view(d).2 =~= (command_doc_spec(pv)->0).2);
        Some(d)
    } else if path.len() == 1 && word_is(path[0], "get") {
        a.push(("<PATH>", ""));
        a.push(("--raw", GET_RAW_HELP));
        let d = doc(GET_ABOUT, "", a, GET_AFTER_HELP);
        assert(doc_view(d).2 =~= (command_doc_spec(pv)->0).2);
        Some(d)
    } else if path.len() == 1 && word_is(path[0], "list") {
        a.push(("<PATH>", ""));
        a.push(("--values", LIST_VALUES_HELP));
        a.push(("--no-merge", LIST_NO_MERGE_HELP));
        let d = doc(LIST_ABOUT, "", a, LIST_AFTER_HELP);
        assert(doc_view(d).2 =~= (command_doc_spec(pv)->0).2);
        Some(d)
    } else if path.len() == 1 && word_is(path[0], "rm") {
        a.push(("<PATH>", ""));
        let d = doc(RM_ABOUT, "", a, RM_AFTER_HELP);
        assert(doc_view(d).2 =~= (command_doc_spec(pv)->0).2);
        Some(d)
    } else if path.len() == 1 && word_is(path[0], "env") {
        a.push(("<PATH>", ENV_PATH_HELP));
        a.push(("--shell", ENV_SHELL_HELP));
        a.push(("--preserve-case", ENV_PRESERVE_CASE_HELP));
        let d = doc(ENV_ABOUT, "", a, ENV_AFTER_HELP);
        assert(doc_view(d).2 =~= (command_doc_spec(pv)->0).2);
        Some(d)
    } else if path.len() == 1 && word_is(path[0], "principal") {
        a.push(("set", PRINCIPAL_SET_ABOUT));
        a.push(("rotate", PRINCIPAL_ROTATE_ABOUT));
        a.push(("revoke", PRINCIPAL_REVOKE_ABOUT));
        a.push(("list", PRINCIPAL_LIST_ABOUT));
        let d = doc(PRINCIPAL_ABOUT, "", a, "");
        assert(doc_view(d).2 =~= (command_doc_spec(pv)->0).2);
        Some(d)
    } else if path.len() == 1 && word_is(path[0], "help") {
        a.push(("[TOPIC]", HELP_TOPIC_HELP));
        let d = doc(HELP_ABOUT, "", a, HELP_AFTER_HELP);
        assert(doc_view(d).2 =~= (command_doc_spec(pv)->0).2);
        Some(d)
    } else if path.len() == 2 && word_is(path[0], "principal") && word_is(path[1], "set") {
        a.push(("<NAME>", PRINCIPAL_SET_NAME_HELP));
        a.push(("--role", PRINCIPAL_SET_ROLE_HELP));
        a.push(("--ttl", PRINCIPAL_SET_TTL_HELP));
        a.push(("--no-ttl", PRINCIPAL_SET_NO_TTL_HELP));
        a.push(("--rename", PRINCIPAL_SET_RENAME_HELP));
        let d = doc(PRINCIPAL_SET_ABOUT, "", a, PRINCIPAL_SET_AFTER_HELP);
        assert(doc_view(d).2 =~= (command_doc_spec(pv)->0).2);
        Some(d)
    } else if path.len() == 2 && word_is(path[0], "principal") && word_is(path[1], "rotate") {
        a.push(("--id", PRINCIPAL_ID_HELP));
        a.push(("--name", PRINCIPAL_NAME_HELP));
        let d = doc(PRINCIPAL_ROTATE_ABOUT, "", a, PRINCIPAL_ROTATE_AFTER_HELP);
        assert(doc_view(d).2 =~= (command_doc_spec(pv)->0).2);
        Some(d)
    } else if path.len() == 2 && word_is(path[0], "principal") && word_is(path[1], "revoke") {
        a.push(("--id", PRINCIPAL_ID_HELP));
        a.push(("--name", PRINCIPAL_NAME_HELP));
        let d = doc(PRINCIPAL_REVOKE_ABOUT, "", a, PRINCIPAL_REVOKE_AFTER_HELP);
        assert(doc_view(d).2 =~= (command_doc_spec(pv)->0).2);
        Some(d)
    } else if path.len() == 2 && word_is(path[0], "principal") && word_is(path[1], "list") {
        let d = doc(PRINCIPAL_LIST_ABOUT, "", a, "");
        assert(doc_view(d).2 =~= (command_doc_spec(pv)->0).2);
        Some(d)
    } else if path.len() == 1 && word_is(path[0], "profile") {
        a.push(("list", PROFILE_LIST_ABOUT));
        a.push(("remove", PROFILE_REMOVE_ABOUT));
        let d = doc(PROFILE_ABOUT, "", a, "");
        assert(doc_view(d).2 =~= (command_doc_spec(pv)->0).2);
        Some(d)
    } else if path.len() == 2 && word_is(path[0], "profile") && word_is(path[1], "list") {
        let d = doc(PROFILE_LIST_ABOUT, "", a, "");
        assert(doc_view(d).2 =~= (command_doc_spec(pv)->0).2);
        Some(d)
    } else if path.len() == 2 && word_is(path[0], "profile") && word_is(path[1], "remove") {
        a.push(("<NAME>", PROFILE_REMOVE_NAME_HELP));
        let d = doc(PROFILE_REMOVE_ABOUT, "", a, "");
        assert(doc_view(d).2 =~= (command_doc_spec(pv)->0).2);
        Some(d)
    } else {
        None
    }
}

/// One argument line of a help text: two spaces, the name, two spaces, its text.
pub open spec fn arg_line(a: (Seq<char>, Seq<char>)) -> Seq<char> {
    seq![' ', ' '] + a.0 + seq![' ', ' '] + a.1 + seq!['\n']
}

pub open spec fn arg_lines(args: Seq<(Seq<char>, Seq<char>)>) -> Seq<char>
    decreases args.len(),
{
    if args.len() == 0 {
        Seq::<char>::empty()
    } else {
        arg_lines(args.drop_last()) + arg_line(args.last())
    }
}

/// A command's documentation as one text: description, a blank line, the command groups
/// (top level only), one line per argument, a blank line, closing notes.
pub open spec fn render_doc_spec(d: (Seq<char>, Seq<char>, Seq<(Seq<char>, Seq<char>)>, Seq<char>)) -> Seq<char> {
    d.0 + seq!['\n', '\n'] + d.1 + arg_lines(d.2) + seq!['\n'] + d.3
}

/// The command words of an invocation that asks for help: the words before a last `--help`.
pub open spec fn help_path(args: Seq<Seq<char>>) -> Seq<Seq<char>> {
    if args.len() > 0 && args.last() == "--help"@ {
        args.drop_last()
    } else {
        args
    }
}

/// The documentation text for an invocation such as `login --help` (see
/// `command_doc_spec` and `render_doc_spec`); none for an unknown command. This is the
/// library's plain rendering of what the argument parser shows: the same descriptions,
/// command groups, argument texts and notes, one argument per line. The parser's own usage
/// line, its column alignment, value names and its built-in `-h`/`-V` lines are not part
/// of it.
pub fn help_text(args: &[&str]) -> (r: Option<String>)
    ensures
        match r {
            Some(t) => command_doc_spec(help_path(args@.map_values(|w: &str| w@))) matches Some(d)
                && t@ == render_doc_spec(d),
            None => command_doc_spec(help_path(args@.map_values(|w: &str| w@))) is None,
        },
{
    let ghost av = args@.map_values(|w: &str| w@);
    let n = if args.len() > 0 && word_is(args[args.len() - 1], "--help") {
        args.len() - 1
    } else {
        args.len()
    };
    let path = slice_prefix(args, n);
    assert(path@.map_values(|w: &str| w@) =~= help_path(av));
    let d = match command_doc(path) {
        Some(d) => d,
        None => {
            return None;
        },
    };
    let mut t = d.about.to_owned();
    t.push('\n');
    t.push('\n');
    t.append(d.commands);
    let ghost head = t@;
    let ghost dv = doc_view(d);
    let mut i: usize = 0;
    assert(dv.2.take(0) =~= Seq::<(Seq<char>, Seq<char>)>::empty());
    while i < d.args.len()
        invariant
            i <= d.args.len(),
            dv == doc_view(d),
            t@ == head + arg_lines(dv.2.take(i as int)),
        decreases d.args.len() - i,
    {
        let (name, help) = d.args[i];
        t.push(' ');
        t.push(' ');
        t.append(name);
        t.push(' ');
        t.push(' ');
        t.append(help);
        t.push('\n');
        assert(dv.2.take(i + 1).drop_last() =~= dv.2.take(i as int));
        assert(dv.2.take(i + 1).last() == (name@, help@));
        assert(t@ =~= head + arg_lines(dv.2.take(i + 1)));
        i = i + 1;
    }
    assert(dv.2.take(d.args.len() as int) =~= dv.2);
    t.push('\n');
    t.append(d.after_help);
    assert(t@ =~= render_doc_spec(dv));
    Some(t)
}

fn slice_prefix<'a>(args: &'a [&'a str], n: usize) -> (r: &'a [&'a str])
    requires
        n <= args@.len(),
    ensures
        r@ == args@.take(n as int),
{
    vstd::slice::slice_subrange(args, 0, n)
}

} // verus!
