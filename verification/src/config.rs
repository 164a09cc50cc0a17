//! Saved credentials, where they are kept, and the server URLs built from them.

use vstd::prelude::*;
use crate::number::{push_signed, signed_text};
use crate::text::{chars_of, join_with, lemma_join_push, push_chars, trim_end, trim_end_chars, Strip};

verus! {

/// The server and API key that every request uses.
pub struct CliConfig {
    pub server: String,
    pub api_key: String,
}

/// `base` joined with a relative component as `Path::join` does on Unix: a `/` goes between
/// them unless `base` is empty or already ends with one.
pub open spec fn path_join(base: Seq<char>, comp: Seq<char>) -> Seq<char> {
    if base.len() == 0 || base.last() == '/' {
        base + comp
    } else {
        base + seq!['/'] + comp
    }
}

fn push_component(p: &mut String, comp: &str)
    ensures
        final(p)@ == path_join(old(p)@, comp@),
{
    let v = chars_of(p.as_str());
    if v.len() > 0 && v[v.len() - 1] != '/' {
        p.push('/');
    }
    p.append(comp);
}

/// The directory that holds the `opaq` configuration: `~/.config` when the home directory
/// is known (on every platform, macOS included), else the platform's configuration
/// directory, else `.`.
pub open spec fn config_dir_spec(home: Option<Seq<char>>, platform: Option<Seq<char>>) -> Seq<char> {
    match home {
        Some(h) => path_join(h, ".config"@),
        None => match platform {
            Some(p) => p,
            None => "."@,
        },
    }
}

/// Picks the configuration directory (see `config_dir_spec`).
pub fn config_dir(home: Option<&str>, platform: Option<&str>) -> (r: String)
    ensures
        r@ == config_dir_spec(
            match home {
                Some(h) => Some(h@),
                None => None,
            },
            match platform {
                Some(p) => Some(p@),
                None => None,
            },
        ),
{
    match home {
        Some(h) => {
            let mut p = h.to_owned();
            push_component(&mut p, ".config");
            p
        },
        None => match platform {
            Some(p) => p.to_owned(),
            None => ".".to_owned(),
        },
    }
}

/// The configuration file: `opaq/config.json` under the configuration directory.
pub fn config_path(config_dir: &str) -> (r: String)
    ensures
        r@ == path_join(path_join(config_dir@, "opaq"@), "config.json"@),
{
    let mut p = config_dir.to_owned();
    push_component(&mut p, "opaq");
    push_component(&mut p, "config.json");
    p
}

/// An API URL: the server without trailing slashes, then `/api/v1/`, then the path.
pub open spec fn api_url_spec(server: Seq<char>, path: Seq<char>) -> Seq<char> {
    trim_end(server, Strip::Only('/')) + "/api/v1/"@ + path
}

/// Builds an API URL (see `api_url_spec`).
pub fn api_url(config: &CliConfig, path: &str) -> (r: String)
    ensures
        r@ == api_url_spec(config.server@, path@),
{
    let s = chars_of(config.server.as_str());
    let t = trim_end_chars(&s, &Strip::Only('/'));
    let mut r = String::new();
    push_chars(&mut r, &t);
    r.append("/api/v1/");
    r.append(path);
    r
}

/// The query of a listing: `values=true` when values are asked for, `merge=false` when
/// merging is turned off.
pub open spec fn list_query_spec(values: bool, no_merge: bool) -> Seq<char> {
    if values && no_merge {
        "?values=true&merge=false"@
    } else if values {
        "?values=true"@
    } else if no_merge {
        "?merge=false"@
    } else {
        Seq::<char>::empty()
    }
}

/// The scope segments of a listing.
pub open spec fn scope_segments(ws: Seq<char>, proj: Seq<char>, env: Option<Seq<char>>) -> Seq<Seq<char>> {
    match env {
        Some(e) => seq![ws, proj, e],
        None => seq![ws, proj],
    }
}

/// The listing URL of a scope; turning merging off only counts for an env scope.
pub open spec fn list_url_spec(
    server: Seq<char>,
    ws: Seq<char>,
    proj: Seq<char>,
    env: Option<Seq<char>>,
    values: bool,
    no_merge: bool,
) -> Seq<char> {
    api_url_spec(server, "list/"@ + join_with(scope_segments(ws, proj, env), '/')) + list_query_spec(
        values,
        no_merge && env is Some,
    )
}

/// Builds the listing URL of a scope (see `list_url_spec`).
pub fn list_url(
    config: &CliConfig,
    ws: &str,
    proj: &str,
    env: Option<&str>,
    values: bool,
    no_merge: bool,
) -> (r: String)
    ensures
        r@ == list_url_spec(
            config.server@,
            ws@,
            proj@,
            match env {
                Some(e) => Some(e@),
                None => None,
            },
            values,
            no_merge,
        ),
{
    let mut path = "list/".to_owned();
    let ghost head = path@;
    path.append(ws);
    path.push('/');
    path.append(proj);
    proof {
        lemma_join_push(seq![ws@], proj@, '/');
        assert(seq![ws@].push(proj@) =~= seq![ws@, proj@]);
    }
    let merge_off = match env {
        Some(e) => {
            path.push('/');
            path.append(e);
            proof {
                lemma_join_push(seq![ws@, proj@], e@, '/');
                assert(seq![ws@, proj@].push(e@) =~= seq![ws@, proj@, e@]);
            }
            no_merge
        },
        None => false,
    };
    let ghost env_view = match env {
        Some(e) => Some(e@),
        None => None,
    };
    assert(path@ =~= head + join_with(scope_segments(ws@, proj@, env_view), '/'));
    let mut url = api_url(config, path.as_str());
    if values && merge_off {
        url.append("?values=true&merge=false");
    } else if values {
        url.append("?values=true");
    } else if merge_off {
        url.append("?merge=false");
    }
    proof {
        if !values && !merge_off {
            assert(url@ =~= url@ + Seq::<char>::empty());
        }
    }
    url
}

/// The URL of a principal by id: `principals/` and the id.
pub fn principal_url(config: &CliConfig, id: i64) -> (r: String)
    ensures
        r@ == api_url_spec(config.server@, "principals/"@ + signed_text(id as int)),
{
    let mut path = "principals/".to_owned();
    push_signed(&mut path, id);
    api_url(config, path.as_str())
}

/// Trailing slashes on the server make no difference to an API URL.
pub proof fn lemma_api_url_trailing_slash(server: Seq<char>, path: Seq<char>)
    ensures
        api_url_spec(server.push('/'), path) == api_url_spec(server, path),
{
    assert(server.push('/').drop_last() =~= server);
}


/// The listing URL asks the server not to merge only for `--no-merge` on an env scope:
/// without it (or for a project scope) the URL is the plain `list/<ws>/<proj>[/<env>]` API URL,
/// followed by `?values=true` when values are asked for and by nothing otherwise.
pub proof fn lemma_list_url_merge(
    server: Seq<char>,
    ws: Seq<char>,
    proj: Seq<char>,
    env: Option<Seq<char>>,
    values: bool,
    no_merge: bool,
)
    ensures
        ({
            let base = api_url_spec(
                server,
                "list/"@ + ws + seq!['/'] + proj + match env {
                    Some(e) => seq!['/'] + e,
                    None => Seq::<char>::empty(),
                },
            );
            &&& (!no_merge || env is None) ==> list_url_spec(server, ws, proj, env, values, no_merge) == base + if values {
                "?values=true"@
            } else {
                Seq::<char>::empty()
            }
            &&& (no_merge && env is Some) ==> list_url_spec(server, ws, proj, env, values, no_merge) == base + if values {
                "?values=true&merge=false"@
            } else {
                "?merge=false"@
            }
        }),
{
    let segs = scope_segments(ws, proj, env);
    let s2 = seq![ws, proj];
    assert(s2.drop_last() =~= seq![ws]);
    assert(join_with(seq![ws], '/') == ws);
    assert(join_with(s2, '/') == join_with(seq![ws], '/') + seq!['/'] + proj);
    match env {
        Some(e) => {
            let s3 = seq![ws, proj, e];
            assert(segs == s3);
            assert(s3.drop_last() =~= s2);
            assert(join_with(s3, '/') == join_with(s2, '/') + seq!['/'] + e);
            assert(join_with(segs, '/') =~= ws + seq!['/'] + proj + seq!['/'] + e);
        },
        None => {
            assert(segs == s2);
            assert(join_with(segs, '/') =~= ws + seq!['/'] + proj);
        },
    }
    let path = "list/"@ + join_with(segs, '/');
    assert(path =~= "list/"@ + ws + seq!['/'] + proj + match env {
        Some(e) => seq!['/'] + e,
        None => Seq::<char>::empty(),
    });
}

} // verus!
