//! Secret paths (`/workspace/project[/env]/key`), scope paths (`/workspace/project[/env]`)
//! and the server URL paths built from them.

use vstd::prelude::*;
use crate::text::{
    chars_of, join_with, lemma_join_push, lemma_join_split, lemma_split_join, split_chars,
    split_on, string_of, trim_both, trim_chars, trim_end, trim_start, trim_start_chars, views, Strip,
};

verus! {

/// Whether some segment is empty.
pub open spec fn has_empty_segment(parts: Seq<Seq<char>>) -> bool {
    exists|i: int| 0 <= i < parts.len() && (#[trigger] parts[i]).len() == 0
}

/// The segments of a path with its leading and trailing slashes removed.
pub open spec fn path_segments(path: Seq<char>) -> Seq<Seq<char>> {
    split_on(trim_both(path, Strip::Only('/')), '/')
}

pub open spec fn empty_segment_message() -> Seq<char> {
    "path segments must not be empty (check for stray '/')"@
}

/// A parsed secret path: workspace, project, optional env, key.
pub type SecretPathView = (Seq<char>, Seq<char>, Option<Seq<char>>, Seq<char>);

/// A secret path is three segments (project-scoped) or four (env-scoped), none of them empty.
pub open spec fn parse_secret_path_spec(path: Seq<char>) -> Result<SecretPathView, Seq<char>> {
    let parts = path_segments(path);
    if has_empty_segment(parts) {
        Err(empty_segment_message())
    } else if parts.len() == 3 {
        Ok((parts[0], parts[1], None, parts[2]))
    } else if parts.len() == 4 {
        Ok((parts[0], parts[1], Some(parts[2]), parts[3]))
    } else {
        Err("path must be /workspace/project/key or /workspace/project/env/key"@)
    }
}

/// A scope path is two segments (project) or three (env), none of them empty.
pub open spec fn parse_path3_spec(path: Seq<char>) -> Result<
    (Seq<char>, Seq<char>, Option<Seq<char>>),
    Seq<char>,
> {
    let parts = path_segments(path);
    if has_empty_segment(parts) {
        Err(empty_segment_message())
    } else if parts.len() == 2 {
        Ok((parts[0], parts[1], None))
    } else if parts.len() == 3 {
        Ok((parts[0], parts[1], Some(parts[2])))
    } else {
        Err("path must have 2 or 3 segments: /workspace/project[/env]"@)
    }
}

/// The `env` command takes exactly `/workspace/project/env`.
pub open spec fn parse_env_scope_spec(path: Seq<char>) -> Result<
    (Seq<char>, Seq<char>, Seq<char>),
    Seq<char>,
> {
    let parts = path_segments(path);
    if parts.len() != 3 || has_empty_segment(parts) {
        Err("env requires /workspace/project/env"@)
    } else {
        Ok((parts[0], parts[1], parts[2]))
    }
}

pub open spec fn opt_view(o: Option<String>) -> Option<Seq<char>> {
    match o {
        Some(s) => Some(s@),
        None => None,
    }
}

pub open spec fn secret_path_view(p: (String, String, Option<String>, String)) -> SecretPathView {
    (p.0@, p.1@, opt_view(p.2), p.3@)
}

/// The segments of a path with its outer slashes trimmed.
fn segments(path: &str) -> (r: Vec<Vec<char>>)
    ensures
        views(r@) == path_segments(path@),
{
    let v = chars_of(path);
    let t = trim_chars(&v, &Strip::Only('/'));
    split_chars(&t, '/')
}

/// Whether some segment is empty.
fn any_empty(parts: &Vec<Vec<char>>) -> (r: bool)
    ensures
        r == has_empty_segment(views(parts@)),
{
    let mut i: usize = 0;
    while i < parts.len()
        invariant
            i <= parts.len(),
            forall|j: int| 0 <= j < i ==> (#[trigger] views(parts@)[j]).len() != 0,
        decreases parts.len() - i,
    {
        if parts[i].len() == 0 {
            assert(views(parts@)[i as int].len() == 0);
            return true;
        }
        i = i + 1;
    }
    false
}

/// Splits a secret path into workspace, project, optional env and key.
pub fn parse_secret_path(path: &str) -> (res: Result<(String, String, Option<String>, String), String>)
    ensures
        match res {
            Ok(p) => parse_secret_path_spec(path@) == Ok::<SecretPathView, Seq<char>>(
                secret_path_view(p),
            ),
            Err(e) => parse_secret_path_spec(path@) == Err::<SecretPathView, Seq<char>>(e@),
        },
{
    let parts = segments(path);
    if any_empty(&parts) {
        return Err("path segments must not be empty (check for stray '/')".to_owned());
    }
    if parts.len() == 3 {
        Ok((string_of(&parts[0]), string_of(&parts[1]), None, string_of(&parts[2])))
    } else if parts.len() == 4 {
        Ok(
            (
                string_of(&parts[0]),
                string_of(&parts[1]),
                Some(string_of(&parts[2])),
                string_of(&parts[3]),
            ),
        )
    } else {
        Err("path must be /workspace/project/key or /workspace/project/env/key".to_owned())
    }
}

/// Splits a scope path into workspace, project and optional env.
pub fn parse_path3(path: &str) -> (res: Result<(String, String, Option<String>), String>)
    ensures
        match res {
            Ok(p) => parse_path3_spec(path@) == Ok::<
                (Seq<char>, Seq<char>, Option<Seq<char>>),
                Seq<char>,
            >((p.0@, p.1@, opt_view(p.2))),
            Err(e) => parse_path3_spec(path@) == Err::<
                (Seq<char>, Seq<char>, Option<Seq<char>>),
                Seq<char>,
            >(e@),
        },
{
    let parts = segments(path);
    if any_empty(&parts) {
        return Err("path segments must not be empty (check for stray '/')".to_owned());
    }
    if parts.len() == 2 {
        Ok((string_of(&parts[0]), string_of(&parts[1]), None))
    } else if parts.len() == 3 {
        Ok((string_of(&parts[0]), string_of(&parts[1]), Some(string_of(&parts[2]))))
    } else {
        Err("path must have 2 or 3 segments: /workspace/project[/env]".to_owned())
    }
}

/// Splits the scope path of the `env` command into workspace, project and env.
pub fn parse_env_scope(path: &str) -> (res: Result<(String, String, String), String>)
    ensures
        match res {
            Ok(p) => parse_env_scope_spec(path@) == Ok::<
                (Seq<char>, Seq<char>, Seq<char>),
                Seq<char>,
            >((p.0@, p.1@, p.2@)),
            Err(e) => parse_env_scope_spec(path@) == Err::<
                (Seq<char>, Seq<char>, Seq<char>),
                Seq<char>,
            >(e@),
        },
{
    let parts = segments(path);
    if parts.len() != 3 || any_empty(&parts) {
        return Err("env requires /workspace/project/env".to_owned());
    }
    Ok((string_of(&parts[0]), string_of(&parts[1]), string_of(&parts[2])))
}

/// How a listed item's path reads: four segments give workspace, project, env and key;
/// three give workspace, project and key; anything else is only a key (the whole path).
/// Only leading slashes are dropped before splitting.
pub open spec fn split_secret_path_spec(path: Seq<char>) -> (
    Option<Seq<char>>,
    Option<Seq<char>>,
    Option<Seq<char>>,
    Seq<char>,
) {
    let parts = split_on(trim_start(path, Strip::Only('/')), '/');
    if parts.len() == 4 {
        (Some(parts[0]), Some(parts[1]), Some(parts[2]), parts[3])
    } else if parts.len() == 3 {
        (Some(parts[0]), Some(parts[1]), None, parts[2])
    } else {
        (None, None, None, path)
    }
}

/// Splits a listed item's path (see `split_secret_path_spec`).
pub fn split_secret_path(path: &str) -> (r: (Option<String>, Option<String>, Option<String>, String))
    ensures
        (opt_view(r.0), opt_view(r.1), opt_view(r.2), r.3@) == split_secret_path_spec(path@),
{
    let v = chars_of(path);
    let t = trim_start_chars(&v, &Strip::Only('/'));
    let parts = split_chars(&t, '/');
    if parts.len() == 4 {
        (
            Some(string_of(&parts[0])),
            Some(string_of(&parts[1])),
            Some(string_of(&parts[2])),
            string_of(&parts[3]),
        )
    } else if parts.len() == 3 {
        (Some(string_of(&parts[0])), Some(string_of(&parts[1])), None, string_of(&parts[2]))
    } else {
        (None, None, None, path.to_owned())
    }
}

/// The segments of a parsed secret path, in order.
pub open spec fn secret_segments(p: SecretPathView) -> Seq<Seq<char>> {
    match p.2 {
        Some(e) => seq![p.0, p.1, e, p.3],
        None => seq![p.0, p.1, p.3],
    }
}

/// The server path of a secret: `secrets/` and then its segments joined with `/`.
pub open spec fn secret_url_path_spec(p: SecretPathView) -> Seq<char> {
    "secrets/"@ + join_with(secret_segments(p), '/')
}

/// Builds the server path of a secret (see `secret_url_path_spec`).
pub fn secret_url_path(ws: &str, proj: &str, env: Option<&str>, key: &str) -> (r: String)
    ensures
        r@ == secret_url_path_spec(
            (
                ws@,
                proj@,
                match env {
                    Some(e) => Some(e@),
                    None => None,
                },
                key@,
            ),
        ),
{
    let mut r = "secrets/".to_owned();
    let ghost head = r@;
    r.append(ws);
    r.push('/');
    r.append(proj);
    r.push('/');
    match env {
        Some(e) => {
            r.append(e);
            r.push('/');
            r.append(key);
            proof {
                let segs = seq![ws@, proj@, e@, key@];
                lemma_join_push(seq![ws@], proj@, '/');
                lemma_join_push(seq![ws@, proj@], e@, '/');
                lemma_join_push(seq![ws@, proj@, e@], key@, '/');
                assert(seq![ws@].push(proj@) =~= seq![ws@, proj@]);
                assert(seq![ws@, proj@].push(e@) =~= seq![ws@, proj@, e@]);
                assert(seq![ws@, proj@, e@].push(key@) =~= segs);
                assert(join_with(segs, '/') =~= ws@ + seq!['/'] + proj@ + seq!['/'] + e@ + seq![
                    '/',
                ] + key@);
                assert(r@ =~= head + join_with(segs, '/'));
            }
        },
        None => {
            r.append(key);
            proof {
                let segs = seq![ws@, proj@, key@];
                lemma_join_push(seq![ws@], proj@, '/');
                lemma_join_push(seq![ws@, proj@], key@, '/');
                assert(seq![ws@].push(proj@) =~= seq![ws@, proj@]);
                assert(seq![ws@, proj@].push(key@) =~= segs);
                assert(join_with(segs, '/') =~= ws@ + seq!['/'] + proj@ + seq!['/'] + key@);
                assert(r@ =~= head + join_with(segs, '/'));
            }
        },
    }
    r
}

/// A path that parses as a secret path is its segments joined with `/`, once its
/// outer slashes are trimmed; so its server path is `secrets/` and that trimmed path.
pub proof fn lemma_secret_path_recomposes(path: Seq<char>)
    requires
        parse_secret_path_spec(path) is Ok,
    ensures
        join_with(secret_segments(parse_secret_path_spec(path)->Ok_0), '/') == trim_both(
            path,
            Strip::Only('/'),
        ),
        secret_url_path_spec(parse_secret_path_spec(path)->Ok_0) == "secrets/"@ + trim_both(
            path,
            Strip::Only('/'),
        ),
{
    let parts = path_segments(path);
    lemma_split_join(trim_both(path, Strip::Only('/')), '/');
    assert(secret_segments(parse_secret_path_spec(path)->Ok_0) =~= parts);
}

/// Segments that are non-empty and hold no `/`, written as `/ws/proj[/env]/key`, parse back
/// to the same segments.
pub proof fn lemma_secret_path_roundtrip(p: SecretPathView)
    requires
        forall|i: int|
            0 <= i < secret_segments(p).len() ==> (#[trigger] secret_segments(p)[i]).len() > 0
                && !secret_segments(p)[i].contains('/'),
    ensures
        parse_secret_path_spec(seq!['/'] + join_with(secret_segments(p), '/')) == Ok::<
            SecretPathView,
            Seq<char>,
        >(p),
{
    let segs = secret_segments(p);
    let joined = join_with(segs, '/');
    let path = seq!['/'] + joined;
    lemma_join_split(segs, '/');
    lemma_join_shape(segs);
    assert(trim_start(path, Strip::Only('/')) == trim_start(joined, Strip::Only('/'))) by {
        assert(path.drop_first() =~= joined);
    }
    assert(trim_both(path, Strip::Only('/')) == joined);
    let parts = path_segments(path);
    assert(parts == segs);
    assert(!has_empty_segment(parts));
}

/// The join of non-empty pieces without `/` neither starts nor ends with `/`.
proof fn lemma_join_shape(segs: Seq<Seq<char>>)
    requires
        segs.len() >= 1,
        forall|i: int|
            0 <= i < segs.len() ==> (#[trigger] segs[i]).len() > 0 && !segs[i].contains('/'),
    ensures
        join_with(segs, '/').len() > 0,
        join_with(segs, '/')[0] == segs[0][0],
        join_with(segs, '/').last() == segs.last().last(),
        trim_start(join_with(segs, '/'), Strip::Only('/')) == join_with(segs, '/'),
        trim_end(join_with(segs, '/'), Strip::Only('/')) == join_with(segs, '/'),
    decreases segs.len(),
{
    let j = join_with(segs, '/');
    if segs.len() > 1 {
        let init = segs.drop_last();
        assert forall|i: int| 0 <= i < init.len() implies (#[trigger] init[i]).len() > 0
            && !init[i].contains('/') by {
            assert(init[i] == segs[i]);
        }
        lemma_join_shape(init);
        assert(j[0] == join_with(init, '/')[0]);
        assert(j.last() == segs.last().last());
    }
    assert(segs[0] == segs[0]);
    assert(!segs[0].contains('/'));
    assert(segs[0][0] != '/') by {
        assert(segs[0].contains(segs[0][0]));
    }
    let l = segs.last();
    assert(segs[segs.len() - 1] == l);
    assert(l.last() != '/') by {
        assert(l[l.len() - 1] == l.last());
        assert(l.contains(l.last()));
    }
}

} // verus!
