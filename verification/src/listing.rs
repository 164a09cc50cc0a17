//! The `list` command: the envs of a listing, its rows in order, and how each cell reads.

use vstd::prelude::*;
use crate::paths::{split_secret_path, split_secret_path_spec};
use crate::response::{items_view, missing_field_message, opt_text, ListItem, ListItemView};
use crate::json::{json_compact, json_compact_text, json_valid};
use crate::style::{ansi, paint_spec, push_painted};
use crate::number::{decimal_text, push_decimal};
use crate::text::{
    chars_eq, chars_eq_str, join_text, push_replacing, replace_char, chars_lt, chars_of, concat3, lemma_text_lt_irreflexive, lemma_text_lt_total,
    lemma_text_lt_transitive, split_chars, split_on, string_of, sub_chars, text_lt, trim_start,
    trim_start_chars, views, Strip,
};

verus! {

/// Texts in strictly ascending order.
pub open spec fn strictly_sorted(s: Seq<Seq<char>>) -> bool {
    forall|i: int, j: int| 0 <= i < j < s.len() ==> text_lt(#[trigger] s[i], #[trigger] s[j])
}

/// Adds a text to a strictly sorted vector unless it is there already.
fn insert_sorted_unique(v: &mut Vec<Vec<char>>, k: Vec<char>)
    requires
        strictly_sorted(views(old(v)@)),
    ensures
        strictly_sorted(views(final(v)@)),
        views(final(v)@).to_set() == views(old(v)@).to_set().insert(k@),
{
    let ghost old_v = views(v@);
    let mut pos: usize = 0;
    while pos < v.len() && chars_lt(&v[pos], &k)
        invariant
            pos <= v.len(),
            views(v@) == old_v,
            forall|i: int| 0 <= i < pos ==> text_lt(#[trigger] views(v@)[i], k@),
        decreases v.len() - pos,
    {
        assert(views(v@)[pos as int] == v@[pos as int]@);
        pos = pos + 1;
    }
    if pos < v.len() && chars_eq(&v[pos], &k) {
        assert(old_v[pos as int] == k@);
        assert(old_v.to_set().insert(k@) =~= old_v.to_set()) by {
            assert(old_v.to_set().contains(k@)) by {
                assert(old_v.contains(k@));
            }
        }
    } else {
        proof {
            if pos < v.len() {
                assert(old_v[pos as int] == v@[pos as int]@);
                lemma_text_lt_total(k@, old_v[pos as int]);
            }
        }
        v.insert(pos, k);
        let ghost nv = views(v@);
        assert(nv =~= old_v.insert(pos as int, k@));
        assert(strictly_sorted(nv)) by {
            assert forall|i: int, j: int| 0 <= i < j < nv.len() implies text_lt(
                #[trigger] nv[i],
                #[trigger] nv[j],
            ) by {
                if j < pos {
                    assert(text_lt(old_v[i], old_v[j]));
                } else if i > pos {
                    assert(text_lt(old_v[i - 1], old_v[j - 1]));
                } else if i == pos {
                    if j - 1 > pos {
                        assert(text_lt(old_v[pos as int], old_v[j - 1]));
                        lemma_text_lt_transitive(k@, old_v[pos as int], old_v[j - 1]);
                    }
                } else if j == pos {
                } else {
                    if j - 1 > pos {
                        assert(text_lt(old_v[pos as int], old_v[j - 1]));
                        lemma_text_lt_transitive(k@, old_v[pos as int], old_v[j - 1]);
                    }
                    lemma_text_lt_transitive(old_v[i], k@, old_v[j - 1]);
                }
            }
        }
        assert(nv.to_set() =~= old_v.to_set().insert(k@)) by {
            assert forall|x: Seq<char>| nv.to_set().contains(x) <==> old_v.to_set().insert(
                k@,
            ).contains(x) by {
                if nv.contains(x) {
                    let i = choose|i: int| 0 <= i < nv.len() && nv[i] == x;
                    if i < pos {
                        assert(old_v[i] == x);
                    } else if i > pos {
                        assert(old_v[i - 1] == x);
                    }
                }
                if old_v.contains(x) {
                    let i = choose|i: int| 0 <= i < old_v.len() && old_v[i] == x;
                    if i < pos {
                        assert(nv[i] == x);
                    } else {
                        assert(nv[i + 1] == x);
                    }
                }
                if x == k@ {
                    assert(nv[pos as int] == x);
                }
            }
        }
    }
}

/// The env of an item's path, when it has four segments (leading slashes dropped).
pub open spec fn item_env(it: ListItemView) -> Option<Seq<char>> {
    match it.path {
        Some(p) => {
            let parts = split_on(trim_start(p, Strip::Only('/')), '/');
            if parts.len() == 4 {
                Some(parts[2])
            } else {
                None
            }
        },
        None => None,
    }
}

/// The envs that the listed items name.
pub open spec fn envs_of(items: Seq<ListItemView>) -> Set<Seq<char>> {
    Set::new(|e: Seq<char>| exists|i: int| 0 <= i < items.len() && item_env(items[i]) == Some(e))
}

fn env_of_item(it: &ListItem) -> (r: Option<Vec<char>>)
    ensures
        match r {
            Some(e) => item_env(it@) == Some(e@),
            None => item_env(it@) is None,
        },
{
    match &it.path {
        Some(p) => {
            let v = chars_of(p.as_str());
            let t = trim_start_chars(&v, &Strip::Only('/'));
            let parts = split_chars(&t, '/');
            if parts.len() == 4 {
                assert(views(parts@)[2] == parts@[2]@);
                let e = sub_chars(&parts[2], 0, parts[2].len());
                assert(parts@[2]@.subrange(0, parts@[2]@.len() as int) =~= parts@[2]@);
                Some(e)
            } else {
                None
            }
        },
        None => None,
    }
}

/// The envs named by the listed items, each once, in ascending order.
pub fn derive_envs(items: &Vec<ListItem>) -> (r: Vec<String>)
    ensures
        strictly_sorted(r@.map_values(|s: String| s@)),
        r@.map_values(|s: String| s@).to_set() == envs_of(items_view(items@)),
{
    let ghost all = items_view(items@);
    let mut acc: Vec<Vec<char>> = Vec::new();
    let mut i: usize = 0;
    assert(views(acc@).to_set() =~= envs_of(all.take(0)));
    while i < items.len()
        invariant
            i <= items.len(),
            all == items_view(items@),
            strictly_sorted(views(acc@)),
            views(acc@).to_set() == envs_of(all.take(i as int)),
        decreases items.len() - i,
    {
        let ghost pre = all.take(i as int);
        let ghost next = all.take(i + 1);
        assert(next[i as int] == items@[i as int]@);
        match env_of_item(&items[i]) {
            Some(e) => {
                let ghost ev = e@;
                insert_sorted_unique(&mut acc, e);
                assert(envs_of(next) =~= envs_of(pre).insert(ev)) by {
                    assert forall|x: Seq<char>| envs_of(next).contains(x) implies envs_of(
                        pre,
                    ).insert(ev).contains(x) by {
                        let j = choose|j: int| 0 <= j < next.len() && item_env(next[j]) == Some(x);
                        if j < i {
                            assert(pre[j] == next[j]);
                        }
                    }
                    assert forall|x: Seq<char>| envs_of(pre).insert(ev).contains(x) implies envs_of(
                        next,
                    ).contains(x) by {
                        if x == ev {
                            assert(item_env(next[i as int]) == Some(x));
                        } else {
                            let j = choose|j: int| 0 <= j < pre.len() && item_env(pre[j]) == Some(x);
                            assert(next[j] == pre[j]);
                        }
                    }
                }
            },
            None => {
                assert(envs_of(next) =~= envs_of(pre)) by {
                    assert forall|x: Seq<char>| envs_of(next).contains(x) implies envs_of(
                        pre,
                    ).contains(x) by {
                        let j = choose|j: int| 0 <= j < next.len() && item_env(next[j]) == Some(x);
                        assert(j != i);
                        assert(pre[j] == next[j]);
                    }
                    assert forall|x: Seq<char>| envs_of(pre).contains(x) implies envs_of(
                        next,
                    ).contains(x) by {
                        let j = choose|j: int| 0 <= j < pre.len() && item_env(pre[j]) == Some(x);
                        assert(next[j] == pre[j]);
                    }
                }
            },
        }
        i = i + 1;
    }
    assert(all.take(items.len() as int) =~= all);
    let mut out: Vec<String> = Vec::new();
    let mut j: usize = 0;
    while j < acc.len()
        invariant
            j <= acc.len(),
            out@.map_values(|s: String| s@) =~= views(acc@).take(j as int),
        decreases acc.len() - j,
    {
        out.push(string_of(&acc[j]));
        assert(views(acc@).take(j + 1) =~= views(acc@).take(j as int).push(acc@[j as int]@));
        j = j + 1;
    }
    assert(views(acc@).take(acc.len() as int) =~= views(acc@));
    out
}

/// One row of a listing: env (none for project-scoped), key, type and value if fetched.
pub struct Row {
    pub env: Option<String>,
    pub key: String,
    pub vtype: String,
    pub value: Option<String>,
}

pub struct RowView {
    pub env: Option<Seq<char>>,
    pub key: Seq<char>,
    pub vtype: Seq<char>,
    pub value: Option<Seq<char>>,
}

impl View for Row {
    type V = RowView;

    open spec fn view(&self) -> RowView {
        RowView { env: opt_text(self.env), key: self.key@, vtype: self.vtype@, value: opt_text(self.value) }
    }
}

pub open spec fn rows_view(rows: Seq<Row>) -> Seq<RowView> {
    rows.map_values(|r: Row| r@)
}

/// The order of optional texts: none first, then by `text_lt`.
pub open spec fn opt_text_lt(a: Option<Seq<char>>, b: Option<Seq<char>>) -> bool {
    match (a, b) {
        (None, Some(_)) => true,
        (Some(x), Some(y)) => text_lt(x, y),
        _ => false,
    }
}

/// Rows are ordered by env (project-scoped first), then by key.
pub open spec fn row_lt(a: RowView, b: RowView) -> bool {
    opt_text_lt(a.env, b.env) || (a.env == b.env && text_lt(a.key, b.key))
}

/// A row put into sorted rows after every row that it does not come before.
pub open spec fn insert_row(s: Seq<RowView>, x: RowView) -> Seq<RowView>
    decreases s.len(),
{
    if s.len() == 0 {
        seq![x]
    } else if row_lt(x, s.last()) {
        insert_row(s.drop_last(), x).push(s.last())
    } else {
        s.push(x)
    }
}

/// The rows in the order of `row_lt`, rows that tie keeping their order (a stable sort).
pub open spec fn sort_rows(s: Seq<RowView>) -> Seq<RowView>
    decreases s.len(),
{
    if s.len() == 0 {
        s
    } else {
        insert_row(sort_rows(s.drop_last()), s.last())
    }
}

/// The header (workspace and project of the first item whose path has them, as the
/// first such item sets them) and the rows of a listing in reply order, or the message
/// for the first item that lacks its path or type.
pub open spec fn collect_spec(items: Seq<ListItemView>) -> Result<
    (Option<Seq<char>>, Option<Seq<char>>, Seq<RowView>),
    Seq<char>,
>
    decreases items.len(),
{
    if items.len() == 0 {
        Ok((None, None, Seq::<RowView>::empty()))
    } else {
        match collect_spec(items.drop_last()) {
            Err(e) => Err(e),
            Ok(acc) => {
                let it = items.last();
                match it.path {
                    None => Err(missing_field_message("path"@)),
                    Some(p) => match it.vtype {
                        None => Err(missing_field_message("type"@)),
                        Some(t) => {
                            let sp = split_secret_path_spec(p);
                            let ws = if acc.0 is None {
                                sp.0
                            } else {
                                acc.0
                            };
                            let proj = if acc.0 is None {
                                sp.1
                            } else {
                                acc.1
                            };
                            Ok(
                                (
                                    ws,
                                    proj,
                                    acc.2.push(
                                        RowView { env: sp.2, key: sp.3, vtype: t, value: it.value },
                                    ),
                                ),
                            )
                        },
                    },
                }
            },
        }
    }
}

/// What `collect_rows` gives: the header and the rows sorted by `sort_rows`.
pub open spec fn collect_rows_spec(items: Seq<ListItemView>) -> Result<
    (Option<Seq<char>>, Option<Seq<char>>, Seq<RowView>),
    Seq<char>,
> {
    match collect_spec(items) {
        Err(e) => Err(e),
        Ok(acc) => Ok((acc.0, acc.1, sort_rows(acc.2))),
    }
}

fn opt_chars_lt(a: &Option<String>, b: &Option<String>) -> (r: bool)
    ensures
        r == opt_text_lt(opt_text(*a), opt_text(*b)),
{
    match (a, b) {
        (None, Some(_)) => true,
        (Some(x), Some(y)) => chars_lt(&chars_of(x.as_str()), &chars_of(y.as_str())),
        _ => false,
    }
}

fn opt_chars_eq(a: &Option<String>, b: &Option<String>) -> (r: bool)
    ensures
        r == (opt_text(*a) == opt_text(*b)),
{
    match (a, b) {
        (None, None) => true,
        (Some(x), Some(y)) => chars_eq(&chars_of(x.as_str()), &chars_of(y.as_str())),
        _ => false,
    }
}

fn row_before(a: &Row, b: &Row) -> (r: bool)
    ensures
        r == row_lt(a@, b@),
{
    opt_chars_lt(&a.env, &b.env) || (opt_chars_eq(&a.env, &b.env) && chars_lt(
        &chars_of(a.key.as_str()),
        &chars_of(b.key.as_str()),
    ))
}

/// Inserting at the place found from the end is `insert_row`.
proof fn lemma_insert_row_at(s: Seq<RowView>, x: RowView, p: int)
    requires
        0 <= p <= s.len(),
        forall|j: int| p <= j < s.len() ==> row_lt(x, #[trigger] s[j]),
        p == 0 || !row_lt(x, s[p - 1]),
    ensures
        insert_row(s, x) == s.insert(p, x),
    decreases s.len(),
{
    if s.len() == 0 {
        assert(s.insert(p, x) =~= seq![x]);
    } else if p == s.len() {
        assert(s.insert(p, x) =~= s.push(x));
    } else {
        assert(row_lt(x, s.last()));
        lemma_insert_row_at(s.drop_last(), x, p);
        assert(s.drop_last().insert(p, x).push(s.last()) =~= s.insert(p, x));
    }
}

fn copy_opt(o: &Option<String>) -> (r: Option<String>)
    ensures
        opt_text(r) == opt_text(*o),
{
    match o {
        Some(s) => Some(s.clone()),
        None => None,
    }
}

fn copy_row(r: &Row) -> (c: Row)
    ensures
        c@ == r@,
{
    Row { env: copy_opt(&r.env), key: r.key.clone(), vtype: r.vtype.clone(), value: copy_opt(&r.value) }
}

/// Puts a row into rows sorted by `sort_rows`.
fn insert_row_exec(out: &mut Vec<Row>, x: Row)
    ensures
        rows_view(final(out)@) == insert_row(rows_view(old(out)@), x@),
{
    let mut p = out.len();
    while p > 0 && row_before(&x, &out[p - 1])
        invariant
            p <= out.len(),
            forall|j: int| p <= j < out@.len() ==> row_lt(x@, #[trigger] out@[j]@),
        decreases p,
    {
        p = p - 1;
    }
    let ghost s = rows_view(out@);
    proof {
        assert forall|j: int| p <= j < s.len() implies row_lt(x@, #[trigger] s[j]) by {
            assert(s[j] == out@[j]@);
        }
        if p > 0 {
            assert(s[p - 1] == out@[p - 1]@);
        }
        lemma_insert_row_at(s, x@, p as int);
    }
    out.insert(p, x);
    assert(rows_view(out@) =~= s.insert(p as int, rows_view(out@)[p as int]));
}

/// The header and the rows of a listing (see `collect_rows_spec`).
pub fn collect_rows(items: &Vec<ListItem>) -> (res: Result<(Option<String>, Option<String>, Vec<Row>), String>)
    ensures
        match res {
            Ok(t) => collect_rows_spec(items_view(items@)) == Ok::<
                (Option<Seq<char>>, Option<Seq<char>>, Seq<RowView>),
                Seq<char>,
            >((opt_text(t.0), opt_text(t.1), rows_view(t.2@))),
            Err(e) => collect_rows_spec(items_view(items@)) == Err::<
                (Option<Seq<char>>, Option<Seq<char>>, Seq<RowView>),
                Seq<char>,
            >(e@),
        },
{
    let ghost all = items_view(items@);
    let mut header_ws: Option<String> = None;
    let mut header_proj: Option<String> = None;
    let mut rows: Vec<Row> = Vec::new();
    let mut i: usize = 0;
    assert(all.take(0) =~= Seq::<ListItemView>::empty());
    assert(rows_view(rows@) =~= Seq::<RowView>::empty());
    while i < items.len()
        invariant
            i <= items.len(),
            all == items_view(items@),
            collect_spec(all.take(i as int)) == Ok::<
                (Option<Seq<char>>, Option<Seq<char>>, Seq<RowView>),
                Seq<char>,
            >((opt_text(header_ws), opt_text(header_proj), rows_view(rows@))),
        decreases items.len() - i,
    {
        let ghost pre = all.take(i as int);
        assert(all.take(i + 1).drop_last() =~= pre);
        assert(all.take(i + 1).last() == items@[i as int]@);
        let it = &items[i];
        let path = match &it.path {
            Some(p) => p,
            None => {
                proof {
                    lemma_collect_err_prefix(all, i + 1);
                }
                return Err(concat3("response missing string field '", "path", "'"));
            },
        };
        let vtype = match &it.vtype {
            Some(t) => t,
            None => {
                proof {
                    lemma_collect_err_prefix(all, i + 1);
                }
                return Err(concat3("response missing string field '", "type", "'"));
            },
        };
        let (ws, proj, env, key) = split_secret_path(path.as_str());
        if header_ws.is_none() {
            header_ws = ws;
            header_proj = proj;
        }
        let ghost before = rows_view(rows@);
        rows.push(Row { env, key, vtype: vtype.clone(), value: it.value.clone() });
        assert(rows_view(rows@) =~= before.push(rows_view(rows@).last()));
        i = i + 1;
    }
    assert(all.take(items.len() as int) =~= all);
    let ghost unsorted = rows_view(rows@);
    let mut sorted: Vec<Row> = Vec::new();
    let mut j: usize = 0;
    assert(unsorted.take(0) =~= Seq::<RowView>::empty());
    while j < rows.len()
        invariant
            j <= rows.len(),
            unsorted == rows_view(rows@),
            rows_view(sorted@) == sort_rows(unsorted.take(j as int)),
        decreases rows.len() - j,
    {
        assert(unsorted.take(j + 1).drop_last() =~= unsorted.take(j as int));
        assert(unsorted.take(j + 1).last() == rows@[j as int]@);
        insert_row_exec(&mut sorted, copy_row(&rows[j]));
        j = j + 1;
    }
    assert(unsorted.take(rows.len() as int) =~= unsorted);
    Ok((header_ws, header_proj, sorted))
}

/// A refusal for the first items is the refusal for the whole listing.
proof fn lemma_collect_err_prefix(items: Seq<ListItemView>, n: int)
    requires
        0 <= n <= items.len(),
        collect_spec(items.take(n)) is Err,
    ensures
        collect_spec(items) == collect_spec(items.take(n)),
    decreases items.len(),
{
    if n == items.len() {
        assert(items.take(n) =~= items);
    } else {
        assert(items.drop_last().take(n) =~= items.take(n));
        lemma_collect_err_prefix(items.drop_last(), n);
    }
}

/// Rows in non-descending `row_lt` order.
pub open spec fn rows_sorted(s: Seq<RowView>) -> bool {
    forall|i: int, j: int| 0 <= i < j < s.len() ==> !row_lt(#[trigger] s[j], #[trigger] s[i])
}

proof fn lemma_opt_text_lt_order(a: Option<Seq<char>>, b: Option<Seq<char>>, c: Option<Seq<char>>)
    ensures
        !opt_text_lt(a, a),
        !(opt_text_lt(a, b) && opt_text_lt(b, a)),
        a != b ==> opt_text_lt(a, b) || opt_text_lt(b, a),
        opt_text_lt(a, b) && opt_text_lt(b, c) ==> opt_text_lt(a, c),
{
    if let Some(x) = a {
        lemma_text_lt_irreflexive(x);
        if let Some(y) = b {
            lemma_text_lt_total(x, y);
            if let Some(z) = c {
                if text_lt(x, y) && text_lt(y, z) {
                    lemma_text_lt_transitive(x, y, z);
                }
            }
        }
    }
}

/// `row_lt` is a strict order, and rows that neither precede the other share env and key.
proof fn lemma_row_order(a: RowView, b: RowView, c: RowView)
    ensures
        !row_lt(a, a),
        !(row_lt(a, b) && row_lt(b, a)),
        !row_lt(a, b) && !row_lt(b, a) ==> a.env == b.env && a.key == b.key,
        row_lt(a, b) && row_lt(b, c) ==> row_lt(a, c),
        !row_lt(b, a) && !row_lt(c, b) ==> !row_lt(c, a),
{
    lemma_opt_text_lt_order(a.env, b.env, c.env);
    lemma_opt_text_lt_order(b.env, c.env, a.env);
    lemma_opt_text_lt_order(c.env, a.env, b.env);
    lemma_opt_text_lt_order(a.env, c.env, b.env);
    lemma_opt_text_lt_order(b.env, a.env, c.env);
    lemma_opt_text_lt_order(c.env, b.env, a.env);
    lemma_text_lt_irreflexive(a.key);
    lemma_text_lt_total(a.key, b.key);
    lemma_text_lt_total(b.key, c.key);
    lemma_text_lt_total(a.key, c.key);
    if text_lt(a.key, b.key) && text_lt(b.key, c.key) {
        lemma_text_lt_transitive(a.key, b.key, c.key);
    }
    if text_lt(c.key, b.key) && text_lt(b.key, a.key) {
        lemma_text_lt_transitive(c.key, b.key, a.key);
    }
    if text_lt(c.key, a.key) && text_lt(a.key, b.key) {
        lemma_text_lt_transitive(c.key, a.key, b.key);
    }
    if text_lt(b.key, c.key) && text_lt(c.key, a.key) {
        lemma_text_lt_transitive(b.key, c.key, a.key);
    }
}

proof fn lemma_insert_row_props(s: Seq<RowView>, x: RowView)
    requires
        rows_sorted(s),
    ensures
        rows_sorted(insert_row(s, x)),
        insert_row(s, x).to_multiset() == s.to_multiset().insert(x),
        insert_row(s, x).len() == s.len() + 1,
        forall|i: int| 0 <= i < insert_row(s, x).len() ==> (#[trigger] insert_row(s, x)[i] == x || s.contains(insert_row(s, x)[i])),
    decreases s.len(),
{
    broadcast use vstd::seq_lib::group_to_multiset_ensures;

    let r = insert_row(s, x);
    if s.len() == 0 {
        assert(r =~= Seq::<RowView>::empty().push(x));
    } else if row_lt(x, s.last()) {
        let t = s.drop_last();
        assert(rows_sorted(t)) by {
            assert forall|i: int, j: int| 0 <= i < j < t.len() implies !row_lt(
                #[trigger] t[j],
                #[trigger] t[i],
            ) by {
                assert(t[i] == s[i] && t[j] == s[j]);
            }
        }
        lemma_insert_row_props(t, x);
        let u = insert_row(t, x);
        assert(s =~= t.push(s.last()));
        assert forall|i: int| 0 <= i < u.len() implies !row_lt(s.last(), #[trigger] u[i]) by {
            if u[i] == x {
                lemma_row_order(x, s.last(), x);
            } else {
                assert(t.contains(u[i]));
                let k = choose|k: int| 0 <= k < t.len() && t[k] == u[i];
                assert(s[k] == u[i]);
                assert(!row_lt(s[s.len() - 1], s[k]));
            }
        }
        assert forall|i: int| 0 <= i < r.len() implies (#[trigger] r[i] == x || s.contains(r[i])) by {
            if i < u.len() {
                if u[i] != x {
                    let k = choose|k: int| 0 <= k < t.len() && t[k] == u[i];
                    assert(s[k] == u[i]);
                }
            } else {
                assert(s[s.len() - 1] == r[i]);
            }
        }
    } else {
        assert forall|i: int| 0 <= i < s.len() implies !row_lt(x, #[trigger] s[i]) by {
            lemma_row_order(s[i], s.last(), x);
            if i < s.len() - 1 {
                assert(!row_lt(s[s.len() - 1], s[i]));
            }
        }
        assert forall|i: int| 0 <= i < r.len() implies (#[trigger] r[i] == x || s.contains(r[i])) by {
            if i < s.len() {
                assert(s[i] == r[i]);
            }
        }
    }
}

/// Sorting rows gives rows in `row_lt` order that are the same rows as before.
pub proof fn lemma_sort_rows(s: Seq<RowView>)
    ensures
        rows_sorted(sort_rows(s)),
        sort_rows(s).to_multiset() == s.to_multiset(),
    decreases s.len(),
{
    broadcast use vstd::seq_lib::group_to_multiset_ensures;

    if s.len() > 0 {
        lemma_sort_rows(s.drop_last());
        lemma_insert_row_props(sort_rows(s.drop_last()), s.last());
        assert(s =~= s.drop_last().push(s.last()));
    }
}

/// The rows of a listing come out ordered by env (project-scoped first), then by key,
/// and they are exactly the listed items' rows.
pub proof fn lemma_listing_rows_ordered(items: Seq<ListItemView>)
    requires
        collect_rows_spec(items) is Ok,
    ensures
        rows_sorted(collect_rows_spec(items)->Ok_0.2),
        collect_rows_spec(items)->Ok_0.2.to_multiset() == collect_spec(items)->Ok_0.2.to_multiset(),
{
    lemma_sort_rows(collect_spec(items)->Ok_0.2);
}

/// The label of a row's env column.
pub open spec fn env_label_spec(env: Option<Seq<char>>) -> Seq<char> {
    match env {
        Some(e) => e,
        None => "(project)"@,
    }
}

/// The env column's label: the env, or `(project)` for project-scoped rows.
pub fn env_label(env: &Option<String>) -> (r: &str)
    ensures
        r@ == env_label_spec(opt_text(*env)),
{
    match env {
        Some(e) => e.as_str(),
        None => "(project)",
    }
}

/// A 24-bit terminal color.
#[derive(PartialEq, Eq, Structural, Clone, Copy, Debug)]
pub struct Rgb {
    pub r: u8,
    pub g: u8,
    pub b: u8,
}

/// The color of project-scoped rows (a grey that reads on dark and light terminals).
pub open spec fn project_color() -> Rgb {
    Rgb { r: 131, g: 148, b: 150 }
}

/// The env colors: blue, cyan, green, yellow, orange, magenta, violet.
pub open spec fn palette(i: int) -> Rgb {
    if i == 0 {
        Rgb { r: 38, g: 139, b: 210 }
    } else if i == 1 {
        Rgb { r: 42, g: 161, b: 152 }
    } else if i == 2 {
        Rgb { r: 133, g: 153, b: 0 }
    } else if i == 3 {
        Rgb { r: 181, g: 137, b: 0 }
    } else if i == 4 {
        Rgb { r: 203, g: 75, b: 22 }
    } else if i == 5 {
        Rgb { r: 211, g: 54, b: 130 }
    } else {
        Rgb { r: 108, g: 113, b: 196 }
    }
}

/// The hash of an env name's UTF-8 bytes: `h * 131 + byte` per byte, wrapping at 64 bits.
pub open spec fn env_hash(bytes: Seq<u8>) -> u64
    decreases bytes.len(),
{
    if bytes.len() == 0 {
        0
    } else {
        env_hash(bytes.drop_last()).wrapping_mul(131).wrapping_add(bytes.last() as u64)
    }
}

/// The color of a row's env: the project grey, or the palette entry that the env's hash
/// picks (taken as a `usize`, modulo the seven colors).
pub open spec fn env_color_spec(env: Option<Seq<char>>) -> Rgb {
    match env {
        None => project_color(),
        Some(e) => palette(((env_hash(vstd::utf8::encode_utf8(e)) as usize) % 7) as int),
    }
}

fn palette_color(i: usize) -> (c: Rgb)
    requires
        i < 7,
    ensures
        c == palette(i as int),
{
    if i == 0 {
        Rgb { r: 38, g: 139, b: 210 }
    } else if i == 1 {
        Rgb { r: 42, g: 161, b: 152 }
    } else if i == 2 {
        Rgb { r: 133, g: 153, b: 0 }
    } else if i == 3 {
        Rgb { r: 181, g: 137, b: 0 }
    } else if i == 4 {
        Rgb { r: 203, g: 75, b: 22 }
    } else if i == 5 {
        Rgb { r: 211, g: 54, b: 130 }
    } else {
        Rgb { r: 108, g: 113, b: 196 }
    }
}

/// The color of a row's env (see `env_color_spec`).
pub fn env_color(env: &Option<String>) -> (c: Rgb)
    ensures
        c == env_color_spec(opt_text(*env)),
{
    match env {
        None => Rgb { r: 131, g: 148, b: 150 },
        Some(e) => {
            let bytes = e.as_str().as_bytes();
            let mut h: u64 = 0;
            let mut i: usize = 0;
            assert(bytes@.take(0) =~= Seq::<u8>::empty());
            while i < bytes.len()
                invariant
                    i <= bytes@.len(),
                    h == env_hash(bytes@.take(i as int)),
                decreases bytes@.len() - i,
            {
                assert(bytes@.take(i + 1).drop_last() =~= bytes@.take(i as int));
                h = h.wrapping_mul(131).wrapping_add(bytes[i] as u64);
                i = i + 1;
            }
            assert(bytes@.take(bytes@.len() as int) =~= bytes@);
            palette_color((h as usize) % 7)
        },
    }
}

/// The SGR parameters for a 24-bit foreground color: `38;2;r;g;b`.
pub open spec fn rgb_ansi_spec(c: Rgb) -> Seq<char> {
    "38;2;"@ + decimal_text(c.r as nat) + seq![';'] + decimal_text(c.g as nat) + seq![';']
        + decimal_text(c.b as nat)
}

/// The SGR parameters for a color (see `rgb_ansi_spec`).
pub fn rgb_ansi(c: Rgb) -> (r: String)
    ensures
        r@ == rgb_ansi_spec(c),
{
    let mut r = "38;2;".to_owned();
    push_decimal(&mut r, c.r as u64);
    r.push(';');
    push_decimal(&mut r, c.g as u64);
    r.push(';');
    push_decimal(&mut r, c.b as u64);
    assert(r@ =~= rgb_ansi_spec(c));
    r
}

/// The widest a value is shown inline, in characters.
pub const VALUE_DISPLAY_MAX: usize = 60;

/// A value for a table cell: at most `VALUE_DISPLAY_MAX` characters; a longer one keeps
/// its first `VALUE_DISPLAY_MAX - 1` and ends with `…`.
pub open spec fn truncate_display_spec(raw: Seq<char>) -> Seq<char> {
    if raw.len() > VALUE_DISPLAY_MAX {
        raw.take(VALUE_DISPLAY_MAX - 1) + seq!['\u{2026}']
    } else {
        raw
    }
}

/// Shortens a value for a table cell (see `truncate_display_spec`).
pub fn truncate_display(raw: &str) -> (r: String)
    ensures
        r@ == truncate_display_spec(raw@),
{
    let v = chars_of(raw);
    if v.len() > VALUE_DISPLAY_MAX {
        let head = sub_chars(&v, 0, VALUE_DISPLAY_MAX - 1);
        let mut r = string_of(&head);
        r.push('\u{2026}');
        assert(v@.subrange(0, VALUE_DISPLAY_MAX - 1) =~= v@.take(VALUE_DISPLAY_MAX - 1));
        r
    } else {
        raw.to_owned()
    }
}

/// A value's text before shortening: for JSON, its reformatted text when there is one
/// (else the value); for a string, each line break shown as ` ↵ `.
pub open spec fn inline_text_spec(vtype: Seq<char>, value: Seq<char>, reformatted: Option<Seq<char>>) -> Seq<char> {
    if vtype == "json"@ {
        match reformatted {
            Some(c) => c,
            None => value,
        }
    } else {
        replace_char(value, '\n', seq![' ', '\u{21b5}', ' '])
    }
}

/// A value's text before shortening (see `inline_text_spec`).
pub fn inline_text(vtype: &str, value: &str, reformatted: Option<&str>) -> (r: String)
    ensures
        r@ == inline_text_spec(
            vtype@,
            value@,
            match reformatted {
                Some(c) => Some(c@),
                None => None,
            },
        ),
{
    if chars_eq_str(&chars_of(vtype), "json") {
        match reformatted {
            Some(c) => c.to_owned(),
            None => value.to_owned(),
        }
    } else {
        let mut rep = String::new();
        rep.push(' ');
        rep.push('\u{21b5}');
        rep.push(' ');
        assert(rep@ =~= seq![' ', '\u{21b5}', ' ']);
        let mut r = String::new();
        push_replacing(&mut r, &chars_of(value), '\n', rep.as_str());
        assert(r@ =~= inline_text_spec(vtype@, value@, None));
        r
    }
}

/// A value as a table cell shows it: JSON that parses is reformatted compactly by
/// `serde_json`, then the text is shortened.
pub open spec fn inline_value_spec(vtype: Seq<char>, value: Seq<char>) -> Seq<char> {
    truncate_display_spec(
        inline_text_spec(
            vtype,
            value,
            if vtype == "json"@ && json_valid(value) {
                Some(json_compact_text(value))
            } else {
                None
            },
        ),
    )
}

/// A value as a table cell shows it (see `inline_value_spec`).
pub fn render_value_inline(vtype: &str, value: &str) -> (r: String)
    ensures
        r@ == inline_value_spec(vtype@, value@),
{
    let compact: Option<String> = if chars_eq_str(&chars_of(vtype), "json") {
        json_compact(value)
    } else {
        None
    };
    let raw = match &compact {
        Some(c) => inline_text(vtype, value, Some(c.as_str())),
        None => inline_text(vtype, value, None),
    };
    truncate_display(raw.as_str())
}

/// The line above a listing: workspace and project, then the env or envs in their colors;
/// nothing unless both workspace and project are known.
pub open spec fn header_line_spec(
    color: bool,
    ws: Option<Seq<char>>,
    proj: Option<Seq<char>>,
    envs: Seq<Seq<char>>,
) -> Option<Seq<char>> {
    match (ws, proj) {
        (Some(w), Some(p)) => {
            let base = paint_spec(color, "2"@, "workspace"@) + seq![' '] + paint_spec(color, "2"@, "="@)
                + seq![' '] + paint_spec(color, "1;36"@, w) + paint_spec(color, "2"@, ","@) + seq![' ']
                + paint_spec(color, "2"@, "project"@) + seq![' '] + paint_spec(color, "2"@, "="@) + seq![
                ' ',
            ] + paint_spec(color, "1;35"@, p);
            let colored = Seq::new(
                envs.len(),
                |i: int| paint_spec(color, rgb_ansi_spec(env_color_spec(Some(envs[i]))), envs[i]),
            );
            if envs.len() == 0 {
                Some(base)
            } else if envs.len() == 1 {
                Some(
                    base + paint_spec(color, "2"@, ","@) + seq![' '] + paint_spec(color, "2"@, "env"@)
                        + seq![' '] + paint_spec(color, "2"@, "="@) + seq![' '] + colored[0],
                )
            } else {
                Some(
                    base + paint_spec(color, "2"@, ","@) + seq![' '] + paint_spec(color, "2"@, "envs"@)
                        + seq![' '] + paint_spec(color, "2"@, " { "@) + join_text(
                        colored,
                        paint_spec(color, "2"@, ", "@),
                    ) + paint_spec(color, "2"@, " }"@),
                )
            }
        },
        _ => None,
    }
}

/// An env in its own color.
fn colored_env(color: bool, e: &String) -> (r: String)
    ensures
        r@ == paint_spec(color, rgb_ansi_spec(env_color_spec(Some(e@))), e@),
{
    let some_e = Some(e.clone());
    let code = rgb_ansi(env_color(&some_e));
    ansi(color, code.as_str(), e.as_str())
}

/// The line above a listing (see `header_line_spec`).
pub fn header_line(color: bool, ws: &Option<String>, proj: &Option<String>, envs: &Vec<String>) -> (r: Option<String>)
    ensures
        opt_text(r) == header_line_spec(
            color,
            opt_text(*ws),
            opt_text(*proj),
            envs@.map_values(|s: String| s@),
        ),
{
    match (ws, proj) {
        (Some(w), Some(p)) => {
            let ghost ev = envs@.map_values(|s: String| s@);
            let mut line = String::new();
            push_painted(&mut line, color, "2", "workspace");
            line.push(' ');
            push_painted(&mut line, color, "2", "=");
            line.push(' ');
            push_painted(&mut line, color, "1;36", w.as_str());
            push_painted(&mut line, color, "2", ",");
            line.push(' ');
            push_painted(&mut line, color, "2", "project");
            line.push(' ');
            push_painted(&mut line, color, "2", "=");
            line.push(' ');
            push_painted(&mut line, color, "1;35", p.as_str());
            let ghost base = line@;
            let ghost colored = Seq::new(
                ev.len(),
                |i: int| paint_spec(color, rgb_ansi_spec(env_color_spec(Some(ev[i]))), ev[i]),
            );
            if envs.len() == 1 {
                push_painted(&mut line, color, "2", ",");
                line.push(' ');
                push_painted(&mut line, color, "2", "env");
                line.push(' ');
                push_painted(&mut line, color, "2", "=");
                line.push(' ');
                let c0 = colored_env(color, &envs[0]);
                line.append(c0.as_str());
                assert(ev[0] == envs@[0]@);
            } else if envs.len() > 1 {
                push_painted(&mut line, color, "2", ",");
                line.push(' ');
                push_painted(&mut line, color, "2", "envs");
                line.push(' ');
                push_painted(&mut line, color, "2", " { ");
                let sep = ansi(color, "2", ", ");
                let ghost before = line@;
                let mut i: usize = 0;
                while i < envs.len()
                    invariant
                        i <= envs.len(),
                        envs.len() > 1,
                        ev == envs@.map_values(|s: String| s@),
                        colored.len() == ev.len(),
                        forall|k: int| 0 <= k < ev.len() ==> #[trigger] colored[k] == paint_spec(color, rgb_ansi_spec(env_color_spec(Some(ev[k]))), ev[k]),
                        line@ == before + join_text(colored.take(i as int), sep@),
                    decreases envs.len() - i,
                {
                    let ghost prev = line@;
                    if i > 0 {
                        line.append(sep.as_str());
                    }
                    let ci = colored_env(color, &envs[i]);
                    line.append(ci.as_str());
                    proof {
                        assert(ev[i as int] == envs@[i as int]@);
                        let t = colored.take(i + 1);
                        assert(t.drop_last() =~= colored.take(i as int));
                        if i == 0 {
                            assert(colored.take(0) =~= Seq::<Seq<char>>::empty());
                            assert(t =~= seq![colored[0]]);
                        }
                    }
                    i = i + 1;
                }
                assert(colored.take(envs.len() as int) =~= colored);
                push_painted(&mut line, color, "2", " }");
            } else {
            }
            Some(line)
        },
        _ => None,
    }
}

/// One cell of a table: its text and, for the env column, its color.
pub struct TableCell {
    pub text: String,
    pub color: Option<Rgb>,
}

/// Whether a value cell's text is what the listing shows for a value: `<no value>` when the
/// value was not fetched, else the value as `render_value_inline` shows it.
pub open spec fn value_cell_ok(vtype: Seq<char>, value: Option<Seq<char>>, text: Seq<char>) -> bool {
    match value {
        None => text == "<no value>"@,
        Some(v) => text == inline_value_spec(vtype, v),
    }
}

/// Whether a table row shows a listing row: env label in the env's color, key, type, and
/// with values, the value cell.
pub open spec fn table_row_ok(r: RowView, cells: Seq<TableCell>, values: bool) -> bool {
    &&& cells.len() == if values {
        4int
    } else {
        3int
    }
    &&& cells[0].text@ == env_label_spec(r.env)
    &&& cells[0].color == Some(env_color_spec(r.env))
    &&& cells[1].text@ == r.key && cells[1].color is None
    &&& cells[2].text@ == r.vtype && cells[2].color is None
    &&& values ==> value_cell_ok(r.vtype, r.value, cells[3].text@) && cells[3].color is None
}

fn plain(text: String) -> (c: TableCell)
    ensures
        c.text@ == text@,
        c.color is None,
{
    TableCell { text, color: None }
}

/// The cells of one listing row.
pub fn table_row(r: &Row, values: bool) -> (cells: Vec<TableCell>)
    ensures
        table_row_ok(r@, cells@, values),
{
    let mut cells: Vec<TableCell> = Vec::new();
    cells.push(TableCell { text: env_label(&r.env).to_owned(), color: Some(env_color(&r.env)) });
    cells.push(plain(r.key.clone()));
    cells.push(plain(r.vtype.clone()));
    assert(cells@[0].text@ == env_label_spec(r@.env));
    assert(cells@[1].text@ == r@.key);
    assert(cells@[2].text@ == r@.vtype);
    if values {
        let text = match &r.value {
            Some(v) => {
                let t = render_value_inline(r.vtype.as_str(), v.as_str());
                t
            },
            None => "<no value>".to_owned(),
        };
        assert(value_cell_ok(r@.vtype, r@.value, text@));
        cells.push(plain(text));
    }
    cells
}

/// The column titles of a listing.
pub fn list_columns(values: bool) -> (r: Vec<&'static str>)
    ensures
        r@.len() == if values {
            4int
        } else {
            3int
        },
        r@[0]@ == "ENV"@,
        r@[1]@ == "KEY"@,
        r@[2]@ == "TYPE"@,
        values ==> r@[3]@ == "VALUE"@,
{
    let mut r: Vec<&'static str> = Vec::new();
    r.push("ENV");
    r.push("KEY");
    r.push("TYPE");
    if values {
        r.push("VALUE");
    }
    r
}

/// What the `list` command shows: the header line if any, and the table rows, or no
/// table when nothing is listed (then `(no secrets)` is reported).
pub struct ListOutput {
    pub header: Option<String>,
    pub rows: Option<Vec<Vec<TableCell>>>,
}

/// The output of the `list` command for a reply (see `collect_rows_spec`, `header_line_spec`
/// and `table_row_ok`): an empty listing shows no header and no table.
pub fn list_output(items: &Vec<ListItem>, envs: &Vec<String>, values: bool, color: bool) -> (res: Result<ListOutput, String>)
    ensures
        match res {
            Err(e) => items@.len() > 0 && collect_rows_spec(items_view(items@)) == Err::<
                (Option<Seq<char>>, Option<Seq<char>>, Seq<RowView>),
                Seq<char>,
            >(e@),
            Ok(out) => if items@.len() == 0 {
                out.header is None && out.rows is None
            } else {
                collect_rows_spec(items_view(items@)) is Ok && {
                    let t = collect_rows_spec(items_view(items@))->Ok_0;
                    &&& opt_text(out.header) == header_line_spec(
                        color,
                        t.0,
                        t.1,
                        envs@.map_values(|s: String| s@),
                    )
                    &&& out.rows is Some
                    &&& out.rows->0@.len() == t.2.len()
                    &&& forall|i: int|
                        0 <= i < t.2.len() ==> table_row_ok(t.2[i], #[trigger] out.rows->0@[i]@, values)
                }
            },
        },
{
    if items.len() == 0 {
        return Ok(ListOutput { header: None, rows: None });
    }
    let (ws, proj, rows) = match collect_rows(items) {
        Ok(t) => t,
        Err(e) => {
            return Err(e);
        },
    };
    let header = header_line(color, &ws, &proj, envs);
    let mut table: Vec<Vec<TableCell>> = Vec::new();
    let mut i: usize = 0;
    while i < rows.len()
        invariant
            i <= rows.len(),
            table@.len() == i,
            forall|k: int| 0 <= k < i ==> table_row_ok(rows@[k]@, #[trigger] table@[k]@, values),
        decreases rows.len() - i,
    {
        table.push(table_row(&rows[i], values));
        i = i + 1;
    }
    proof {
        assert forall|k: int| 0 <= k < rows@.len() implies table_row_ok(
            rows_view(rows@)[k],
            #[trigger] table@[k]@,
            values,
        ) by {
            assert(rows_view(rows@)[k] == rows@[k]@);
        }
    }
    Ok(ListOutput { header, rows: Some(table) })
}

} // verus!
