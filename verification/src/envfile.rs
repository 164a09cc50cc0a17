//! The `env` command: project-scoped and env-scoped secrets merged into `KEY=VALUE` lines.

use vstd::prelude::*;
use crate::response::{items_view, missing_field_message, ListItem, ListItemView};
use crate::shell::{shell_quote, shell_quote_spec};
use crate::text::{
    chars_eq, chars_lt, chars_of, concat3, contains_char, lemma_text_lt_irreflexive,
    lemma_text_lt_total, lemma_text_lt_transitive, split_chars, split_on, string_of, text_lt,
    trim_start, trim_start_chars, views, Strip,
};

verus! {

/// The name for what `str::to_uppercase` gives: the Unicode uppercase of a text.
pub uninterp spec fn uppercase(s: Seq<char>) -> Seq<char>;

/// Calls `str::to_uppercase`, which maps each character to its Unicode uppercase form.
/// The contract only names the result; it does not spell out the Unicode tables.
#[verifier::external_body]
fn to_uppercase(s: &str) -> (r: String)
    ensures
        r@ == uppercase(s@),
{
    s.to_uppercase()
}

/// Where a secret comes from.
#[derive(PartialEq, Eq, Structural, Clone, Copy, Debug)]
pub enum Scope {
    /// Three segments: shared by all envs of the project.
    Project,
    /// Four segments: one env's own value.
    Env,
}

/// The key and scope that an item's path gives for an env, if it belongs to it:
/// project-scoped paths always, env-scoped ones only for that env.
pub open spec fn item_entry(path: Seq<char>, env: Seq<char>) -> Option<(Seq<char>, Scope)> {
    let segs = split_on(trim_start(path, Strip::Only('/')), '/');
    if segs.len() == 3 {
        Some((segs[2], Scope::Project))
    } else if segs.len() == 4 && segs[2] == env {
        Some((segs[3], Scope::Env))
    } else {
        None
    }
}

/// The variable name for a key: uppercased unless the case is kept.
pub open spec fn out_key(key: Seq<char>, preserve_case: bool) -> Seq<char> {
    if preserve_case {
        key
    } else {
        uppercase(key)
    }
}

/// One item into the merge: an env-scoped value is never replaced by a project-scoped
/// one; otherwise the later item wins.
pub open spec fn merge_step(
    m: Map<Seq<char>, (Scope, Seq<char>)>,
    k: Seq<char>,
    scope: Scope,
    v: Seq<char>,
) -> Map<Seq<char>, (Scope, Seq<char>)> {
    if m.contains_key(k) && m[k].0 == Scope::Env && scope == Scope::Project {
        m
    } else {
        m.insert(k, (scope, v))
    }
}

/// The merge of the listed items in order, or the message for the first item that lacks
/// its path, or (when it belongs to the env) its value.
pub open spec fn merge_items(items: Seq<ListItemView>, env: Seq<char>, preserve_case: bool) -> Result<
    Map<Seq<char>, (Scope, Seq<char>)>,
    Seq<char>,
>
    decreases items.len(),
{
    if items.len() == 0 {
        Ok(Map::empty())
    } else {
        match merge_items(items.drop_last(), env, preserve_case) {
            Err(e) => Err(e),
            Ok(m) => {
                let it = items.last();
                match it.path {
                    None => Err(missing_field_message("path"@)),
                    Some(p) => match item_entry(p, env) {
                        None => Ok(m),
                        Some(entry) => match it.value {
                            None => Err(missing_field_message("value"@)),
                            Some(v) => Ok(merge_step(m, out_key(entry.0, preserve_case), entry.1, v)),
                        },
                    },
                }
            },
        }
    }
}

/// One merged variable.
pub struct Entry {
    pub key: Vec<char>,
    pub scope: Scope,
    pub value: String,
}

/// Entries in strictly ascending key order.
pub open spec fn sorted_entries(es: Seq<Entry>) -> bool {
    forall|i: int, j: int| 0 <= i < j < es.len() ==> text_lt(#[trigger] es[i].key@, #[trigger] es[j].key@)
}

/// The entries hold exactly the map.
pub open spec fn represents(es: Seq<Entry>, m: Map<Seq<char>, (Scope, Seq<char>)>) -> bool {
    &&& sorted_entries(es)
    &&& forall|i: int|
        0 <= i < es.len() ==> m.contains_key((#[trigger] es[i]).key@) && m[es[i].key@] == (
            es[i].scope,
            es[i].value@,
        )
    &&& forall|k: Seq<char>|
        #[trigger] m.contains_key(k) ==> exists|i: int| 0 <= i < es.len() && es[i].key@ == k
}

/// Puts one item into the sorted entries as `merge_step` does.
fn upsert(es: &mut Vec<Entry>, k: Vec<char>, scope: Scope, v: String, Ghost(m): Ghost<Map<Seq<char>, (Scope, Seq<char>)>>)
    requires
        represents(old(es)@, m),
    ensures
        represents(final(es)@, merge_step(m, k@, scope, v@)),
{
    let mut pos: usize = 0;
    while pos < es.len() && chars_lt(&es[pos].key, &k)
        invariant
            pos <= es.len(),
            forall|i: int| 0 <= i < pos ==> text_lt(#[trigger] es@[i].key@, k@),
        decreases es.len() - pos,
    {
        pos = pos + 1;
    }
    let ghost m2 = merge_step(m, k@, scope, v@);
    if pos < es.len() && chars_eq(&es[pos].key, &k) {
        assert(m.contains_key(k@));
        proof {
            assert forall|i: int| 0 <= i < es@.len() && es@[i].key@ == k@ implies i == pos by {
                if i < pos {
                    lemma_text_lt_irreflexive(k@);
                } else if i > pos {
                    assert(text_lt(es@[pos as int].key@, es@[i].key@));
                    lemma_text_lt_irreflexive(k@);
                }
            }
        }
        if es[pos].scope == Scope::Env && scope == Scope::Project {
            assert(m2 == m);
        } else {
            let ghost old_es = es@;
            es.set(pos, Entry { key: k, scope, value: v });
            proof {
                assert(sorted_entries(es@)) by {
                    assert forall|i: int, j: int| 0 <= i < j < es@.len() implies text_lt(
                        #[trigger] es@[i].key@,
                        #[trigger] es@[j].key@,
                    ) by {
                        assert(text_lt(old_es[i].key@, old_es[j].key@));
                    }
                }
                assert forall|kk: Seq<char>| #[trigger] m2.contains_key(kk) implies exists|i: int|
                    0 <= i < es@.len() && es@[i].key@ == kk by {
                    if kk == k@ {
                        assert(es@[pos as int].key@ == kk);
                    } else {
                        assert(m.contains_key(kk));
                        let i = choose|i: int| 0 <= i < old_es.len() && old_es[i].key@ == kk;
                        assert(es@[i].key@ == kk);
                    }
                }
                assert forall|i: int| 0 <= i < es@.len() implies m2.contains_key(
                    (#[trigger] es@[i]).key@,
                ) && m2[es@[i].key@] == (es@[i].scope, es@[i].value@) by {
                    if i != pos {
                        assert(es@[i] == old_es[i]);
                        assert(old_es[i].key@ != k@);
                    }
                }
            }
        }
    } else {
        proof {
            if pos < es.len() {
                lemma_text_lt_total(k@, es@[pos as int].key@);
            }
            assert(!m.contains_key(k@)) by {
                if m.contains_key(k@) {
                    let i = choose|i: int| 0 <= i < es@.len() && es@[i].key@ == k@;
                    if i < pos {
                        lemma_text_lt_irreflexive(k@);
                    } else if i == pos {
                    } else {
                        assert(text_lt(es@[pos as int].key@, es@[i].key@));
                        lemma_text_lt_transitive(k@, es@[pos as int].key@, es@[i].key@);
                        lemma_text_lt_irreflexive(k@);
                    }
                }
            }
        }
        let ghost old_es = es@;
        es.insert(pos, Entry { key: k, scope, value: v });
        proof {
            assert(es@[pos as int].key@ == k@);
            assert forall|i: int| 0 <= i < es@.len() && i != pos implies (#[trigger] es@[i]) == (if i
                < pos {
                old_es[i]
            } else {
                old_es[i - 1]
            }) by {}
            assert(sorted_entries(es@)) by {
                assert forall|i: int, j: int| 0 <= i < j < es@.len() implies text_lt(
                    #[trigger] es@[i].key@,
                    #[trigger] es@[j].key@,
                ) by {
                    if j < pos {
                        assert(text_lt(old_es[i].key@, old_es[j].key@));
                    } else if i > pos {
                        assert(text_lt(old_es[i - 1].key@, old_es[j - 1].key@));
                    } else if i == pos {
                        if j - 1 > pos {
                            assert(text_lt(old_es[pos as int].key@, old_es[j - 1].key@));
                            lemma_text_lt_transitive(k@, old_es[pos as int].key@, old_es[j - 1].key@);
                        }
                    } else if j == pos {
                        assert(text_lt(old_es[i].key@, k@));
                    } else {
                        assert(text_lt(old_es[i].key@, k@));
                        if j - 1 > pos {
                            assert(text_lt(old_es[pos as int].key@, old_es[j - 1].key@));
                            lemma_text_lt_transitive(k@, old_es[pos as int].key@, old_es[j - 1].key@);
                        }
                        lemma_text_lt_transitive(old_es[i].key@, k@, old_es[j - 1].key@);
                    }
                }
            }
            assert forall|kk: Seq<char>| #[trigger] m2.contains_key(kk) implies exists|i: int|
                0 <= i < es@.len() && es@[i].key@ == kk by {
                if kk == k@ {
                    assert(es@[pos as int].key@ == kk);
                } else {
                    assert(m.contains_key(kk));
                    let i = choose|i: int| 0 <= i < old_es.len() && old_es[i].key@ == kk;
                    if i < pos {
                        assert(es@[i].key@ == kk);
                    } else {
                        assert(es@[i + 1].key@ == kk);
                    }
                }
            }
            assert forall|i: int| 0 <= i < es@.len() implies m2.contains_key(
                (#[trigger] es@[i]).key@,
            ) && m2[es@[i].key@] == (es@[i].scope, es@[i].value@) by {
                if i < pos {
                    assert(old_es[i].key@ != k@);
                    assert(m.contains_key(old_es[i].key@));
                } else if i > pos {
                    assert(old_es[i - 1].key@ != k@);
                    assert(m.contains_key(old_es[i - 1].key@));
                }
            }
        }
    }
}

/// The key and scope of an item's path for an env (see `item_entry`).
fn entry_of(path: &str, env: &Vec<char>) -> (r: Option<(Vec<char>, Scope)>)
    ensures
        match r {
            Some(e) => item_entry(path@, env@) == Some((e.0@, e.1)),
            None => item_entry(path@, env@) is None,
        },
{
    let v = chars_of(path);
    let t = trim_start_chars(&v, &Strip::Only('/'));
    let segs = split_chars(&t, '/');
    assert(views(segs@).len() == segs@.len());
    if segs.len() == 3 {
        assert(views(segs@)[2] == segs@[2]@);
        Some((sub_all(&segs[2]), Scope::Project))
    } else if segs.len() == 4 && chars_eq(&segs[2], env) {
        assert(views(segs@)[2] == segs@[2]@);
        assert(views(segs@)[3] == segs@[3]@);
        Some((sub_all(&segs[3]), Scope::Env))
    } else {
        proof {
            if segs.len() == 4 {
                assert(views(segs@)[2] == segs@[2]@);
            }
        }
        None
    }
}

fn sub_all(v: &Vec<char>) -> (r: Vec<char>)
    ensures
        r@ == v@,
{
    let r = crate::text::sub_chars(v, 0, v.len());
    assert(v@.subrange(0, v@.len() as int) =~= v@);
    r
}

/// A refusal for the first items is the refusal for the whole listing.
proof fn lemma_merge_err_prefix(items: Seq<ListItemView>, n: int, env: Seq<char>, preserve_case: bool)
    requires
        0 <= n <= items.len(),
        merge_items(items.take(n), env, preserve_case) is Err,
    ensures
        merge_items(items, env, preserve_case) == merge_items(items.take(n), env, preserve_case),
    decreases items.len(),
{
    if n == items.len() {
        assert(items.take(n) =~= items);
    } else {
        assert(items.drop_last().take(n) =~= items.take(n));
        lemma_merge_err_prefix(items.drop_last(), n, env, preserve_case);
    }
}

/// Merges the listed items for an env (see `merge_items`) into entries in ascending
/// key order.
pub fn merge_env(items: &Vec<ListItem>, env: &str, preserve_case: bool) -> (res: Result<Vec<Entry>, String>)
    ensures
        match res {
            Ok(es) => merge_items(items_view(items@), env@, preserve_case) is Ok && represents(
                es@,
                merge_items(items_view(items@), env@, preserve_case)->Ok_0,
            ),
            Err(e) => merge_items(items_view(items@), env@, preserve_case) == Err::<
                Map<Seq<char>, (Scope, Seq<char>)>,
                Seq<char>,
            >(e@),
        },
{
    let env_v = chars_of(env);
    let mut es: Vec<Entry> = Vec::new();
    let ghost mut m: Map<Seq<char>, (Scope, Seq<char>)> = Map::empty();
    let ghost all = items_view(items@);
    let mut i: usize = 0;
    assert(all.take(0) =~= Seq::<ListItemView>::empty());
    while i < items.len()
        invariant
            i <= items.len(),
            all == items_view(items@),
            env_v@ == env@,
            merge_items(all.take(i as int), env@, preserve_case) == Ok::<
                Map<Seq<char>, (Scope, Seq<char>)>,
                Seq<char>,
            >(m),
            represents(es@, m),
        decreases items.len() - i,
    {
        let ghost pre = all.take(i as int);
        assert(all.take(i + 1).drop_last() =~= pre);
        assert(all.take(i + 1).last() == items@[i as int]@);
        let item = &items[i];
        let path = match &item.path {
            Some(p) => p,
            None => {
                proof {
                    lemma_merge_err_prefix(all, i + 1, env@, preserve_case);
                }
                return Err(concat3("response missing string field '", "path", "'"));
            },
        };
        match entry_of(path.as_str(), &env_v) {
            None => {},
            Some(entry) => {
                let value = match &item.value {
                    Some(v) => v,
                    None => {
                        proof {
                            lemma_merge_err_prefix(all, i + 1, env@, preserve_case);
                        }
                        return Err(concat3("response missing string field '", "value", "'"));
                    },
                };
                let key = if preserve_case {
                    entry.0
                } else {
                    let upper = to_uppercase(string_of(&entry.0).as_str());
                    chars_of(upper.as_str())
                };
                upsert(&mut es, key, entry.1, value.clone(), Ghost(m));
                proof {
                    m = merge_step(m, out_key(entry.0@, preserve_case), entry.1, value@);
                }
            },
        }
        i = i + 1;
    }
    assert(all.take(items.len() as int) =~= all);
    Ok(es)
}

/// One line of the `env` command's output.
pub enum EnvLine {
    /// A line for standard output.
    Out(String),
    /// A warning for standard error.
    Warn(String),
}

/// The line for one variable: `export KEY='value'` for a shell; otherwise `KEY=value`,
/// or a warning when the value holds a newline (an env file cannot carry it).
/// The `bool` is true for standard output.
pub open spec fn env_line_spec(k: Seq<char>, v: Seq<char>, shell: bool) -> (bool, Seq<char>) {
    if shell {
        (true, "export "@ + k + "="@ + shell_quote_spec(v))
    } else if v.contains('\n') {
        (
            false,
            "warn: value for "@ + k
                + " contains newlines, skipping (incompatible with --env-file)"@,
        )
    } else {
        (true, k + "="@ + v)
    }
}

pub open spec fn env_line_view(l: EnvLine) -> (bool, Seq<char>) {
    match l {
        EnvLine::Out(s) => (true, s@),
        EnvLine::Warn(s) => (false, s@),
    }
}

/// The output lines for the merged variables, one per variable, in their order.
pub fn env_lines(es: &Vec<Entry>, shell: bool) -> (r: Vec<EnvLine>)
    ensures
        r@.len() == es@.len(),
        forall|i: int|
            0 <= i < es@.len() ==> env_line_view(#[trigger] r@[i]) == env_line_spec(
                es@[i].key@,
                es@[i].value@,
                shell,
            ),
{
    let mut r: Vec<EnvLine> = Vec::new();
    let mut i: usize = 0;
    while i < es.len()
        invariant
            i <= es.len(),
            r@.len() == i,
            forall|j: int|
                0 <= j < i ==> env_line_view(#[trigger] r@[j]) == env_line_spec(
                    es@[j].key@,
                    es@[j].value@,
                    shell,
                ),
        decreases es.len() - i,
    {
        let e = &es[i];
        let key = string_of(&e.key);
        let line = if shell {
            let mut l = "export ".to_owned();
            l.append(key.as_str());
            l.append("=");
            let q = shell_quote(e.value.as_str());
            l.append(q.as_str());
            EnvLine::Out(l)
        } else {
            let vv = chars_of(e.value.as_str());
            if contains_char(&vv, '\n') {
                EnvLine::Warn(
                    concat3(
                        "warn: value for ",
                        key.as_str(),
                        " contains newlines, skipping (incompatible with --env-file)",
                    ),
                )
            } else {
                EnvLine::Out(concat3(key.as_str(), "=", e.value.as_str()))
            }
        };
        r.push(line);
        i = i + 1;
    }
    r
}

/// The last value that an env-scoped item of the env gives for a variable name.
pub open spec fn last_value_in(
    items: Seq<ListItemView>,
    env: Seq<char>,
    preserve_case: bool,
    k: Seq<char>,
    scope: Scope,
) -> Option<Seq<char>>
    decreases items.len(),
{
    if items.len() == 0 {
        None
    } else {
        let it = items.last();
        let here = match it.path {
            Some(p) => match item_entry(p, env) {
                Some(entry) => if entry.1 == scope && out_key(entry.0, preserve_case) == k {
                    it.value
                } else {
                    None
                },
                None => None,
            },
            None => None,
        };
        match here {
            Some(v) => Some(v),
            None => last_value_in(items.drop_last(), env, preserve_case, k, scope),
        }
    }
}

/// Env-scoped values win over project-scoped ones whatever the order of the listing:
/// a variable takes the last env-scoped value given for it, and only when there is
/// none, the last project-scoped one; a variable that neither gives is absent.
pub proof fn lemma_env_scope_wins(items: Seq<ListItemView>, env: Seq<char>, preserve_case: bool, k: Seq<char>)
    requires
        merge_items(items, env, preserve_case) is Ok,
    ensures
        ({
            let m = merge_items(items, env, preserve_case)->Ok_0;
            match last_value_in(items, env, preserve_case, k, Scope::Env) {
                Some(v) => m.contains_key(k) && m[k] == (Scope::Env, v),
                None => match last_value_in(items, env, preserve_case, k, Scope::Project) {
                    Some(v) => m.contains_key(k) && m[k] == (Scope::Project, v),
                    None => !m.contains_key(k),
                },
            }
        }),
    decreases items.len(),
{
    if items.len() > 0 {
        lemma_env_scope_wins(items.drop_last(), env, preserve_case, k);
    }
}


/// What `env` writes for a variable. Without `--shell`, a value with no line feed is
/// written to standard output as exactly the key, `=` and the value, whatever else the value
/// holds; only a value with a line feed is skipped, with a warning on standard error naming
/// the key. With `--shell`, every variable is written to standard output as `export`, the
/// key, `=` and a word that a shell reads back as the value.
pub proof fn lemma_env_line_shapes(k: Seq<char>, v: Seq<char>)
    ensures
        !v.contains('\n') ==> env_line_spec(k, v, false) == (true, k + seq!['='] + v),
        v.contains('\n') ==> !env_line_spec(k, v, false).0 && env_line_spec(k, v, false).1
            == "warn: value for "@ + k + " contains newlines, skipping (incompatible with --env-file)"@,
        env_line_spec(k, v, true).0,
        exists|q: Seq<char>|
            env_line_spec(k, v, true).1 == "export "@ + k + seq!['='] + q && crate::shell::shell_read(q) == v,
{
    assert("="@ =~= seq!['=']) by {
        reveal_strlit("=");
    }
    crate::shell::lemma_shell_quote_reads_back(v);
    let q = shell_quote_spec(v);
    assert(env_line_spec(k, v, true).1 == "export "@ + k + seq!['='] + q);
}

} // verus!
