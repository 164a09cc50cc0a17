//! Principals (API key holders): finding one by id or name, and what their replies show.

use vstd::prelude::*;
use crate::number::{push_signed, signed_text};
use crate::response::{missing_field_message, opt_text, principals_view, PrincipalRecord, PrincipalView};
use crate::ttl::{format_unix_secs, format_unix_secs_spec};
use crate::text::{chars_eq, chars_eq_str, chars_of, concat3};

verus! {

/// The index of the first principal with the id, if any.
pub open spec fn first_with_id(ps: Seq<PrincipalView>, id: i64) -> Option<int>
    decreases ps.len(),
{
    if ps.len() == 0 {
        None
    } else {
        match first_with_id(ps.drop_last(), id) {
            Some(i) => Some(i),
            None => if ps.last().id == Some(id) {
                Some(ps.len() - 1)
            } else {
                None
            },
        }
    }
}

/// The name of the first principal with the id; an error when it has no name or when
/// no principal has the id.
pub open spec fn name_by_id_spec(ps: Seq<PrincipalView>, id: i64) -> Result<Seq<char>, Seq<char>> {
    match first_with_id(ps, id) {
        Some(i) => match ps[i].name {
            Some(n) => Ok(n),
            None => Err("principal "@ + signed_text(id as int) + " has no name field"@),
        },
        None => Err("principal id "@ + signed_text(id as int) + " not found"@),
    }
}

/// Finds a principal's name by id (see `name_by_id_spec`).
pub fn lookup_principal_name_by_id(principals: &Vec<PrincipalRecord>, id: i64) -> (res: Result<String, String>)
    ensures
        match res {
            Ok(n) => name_by_id_spec(principals_view(principals@), id) == Ok::<Seq<char>, Seq<char>>(n@),
            Err(e) => name_by_id_spec(principals_view(principals@), id) == Err::<Seq<char>, Seq<char>>(e@),
        },
{
    let ghost all = principals_view(principals@);
    let mut i: usize = 0;
    assert(all.take(0) =~= Seq::<PrincipalView>::empty());
    while i < principals.len()
        invariant
            i <= principals.len(),
            all == principals_view(principals@),
            first_with_id(all.take(i as int), id) is None,
        decreases principals.len() - i,
    {
        assert(all.take(i + 1).drop_last() =~= all.take(i as int));
        assert(all.take(i + 1).last() == principals@[i as int]@);
        if principals[i].id == Some(id) {
            proof {
                lemma_first_prefix(all, i + 1, i as int);
            }
            match &principals[i].name {
                Some(n) => {
                    return Ok(n.clone());
                },
                None => {
                    let mut e = "principal ".to_owned();
                    push_signed(&mut e, id);
                    e.append(" has no name field");
                    return Err(e);
                },
            }
        }
        i = i + 1;
    }
    assert(all.take(principals.len() as int) =~= all);
    let mut e = "principal id ".to_owned();
    push_signed(&mut e, id);
    e.append(" not found");
    Err(e)
}

/// A first match among the first items is the first match of all.
proof fn lemma_first_prefix(ps: Seq<PrincipalView>, n: int, i: int)
    requires
        0 <= n <= ps.len(),
        first_with_id(ps.take(n), ps[i].id->0) == Some(i),
        ps[i].id is Some,
        0 <= i < n,
    ensures
        first_with_id(ps, ps[i].id->0) == Some(i),
    decreases ps.len(),
{
    if n == ps.len() {
        assert(ps.take(n) =~= ps);
    } else {
        assert(ps.drop_last().take(n) =~= ps.take(n));
        assert(ps.drop_last()[i] == ps[i]);
        lemma_first_prefix(ps.drop_last(), n, i);
    }
}

/// The index of the first principal with the name, if any.
pub open spec fn first_with_name(ps: Seq<PrincipalView>, name: Seq<char>) -> Option<int>
    decreases ps.len(),
{
    if ps.len() == 0 {
        None
    } else {
        match first_with_name(ps.drop_last(), name) {
            Some(i) => Some(i),
            None => if ps.last().name == Some(name) {
                Some(ps.len() - 1)
            } else {
                None
            },
        }
    }
}

/// The id of the first principal with the name; an error when it has no integer id or
/// when no principal has the name.
pub open spec fn id_by_name_spec(ps: Seq<PrincipalView>, name: Seq<char>) -> Result<i64, Seq<char>> {
    match first_with_name(ps, name) {
        Some(i) => match ps[i].id {
            Some(id) => Ok(id),
            None => Err("principal '"@ + name + "' has no id field"@),
        },
        None => Err("principal name '"@ + name + "' not found"@),
    }
}

proof fn lemma_first_name_prefix(ps: Seq<PrincipalView>, n: int, i: int, name: Seq<char>)
    requires
        0 <= n <= ps.len(),
        first_with_name(ps.take(n), name) == Some(i),
        0 <= i < n,
    ensures
        first_with_name(ps, name) == Some(i),
    decreases ps.len(),
{
    if n == ps.len() {
        assert(ps.take(n) =~= ps);
    } else {
        assert(ps.drop_last().take(n) =~= ps.take(n));
        lemma_first_name_prefix(ps.drop_last(), n, i, name);
    }
}

/// Finds a principal's id by name (see `id_by_name_spec`).
pub fn lookup_principal_id_by_name(principals: &Vec<PrincipalRecord>, name: &str) -> (res: Result<i64, String>)
    ensures
        match res {
            Ok(id) => id_by_name_spec(principals_view(principals@), name@) == Ok::<i64, Seq<char>>(id),
            Err(e) => id_by_name_spec(principals_view(principals@), name@) == Err::<i64, Seq<char>>(e@),
        },
{
    let ghost all = principals_view(principals@);
    let wanted = chars_of(name);
    let mut i: usize = 0;
    assert(all.take(0) =~= Seq::<PrincipalView>::empty());
    while i < principals.len()
        invariant
            i <= principals.len(),
            all == principals_view(principals@),
            wanted@ == name@,
            first_with_name(all.take(i as int), name@) is None,
        decreases principals.len() - i,
    {
        assert(all.take(i + 1).drop_last() =~= all.take(i as int));
        assert(all.take(i + 1).last() == principals@[i as int]@);
        let matches = match &principals[i].name {
            Some(n) => chars_eq(&chars_of(n.as_str()), &wanted),
            None => false,
        };
        if matches {
            proof {
                lemma_first_name_prefix(all, i + 1, i as int, name@);
            }
            match principals[i].id {
                Some(id) => {
                    return Ok(id);
                },
                None => {
                    return Err(concat3("principal '", name, "' has no id field"));
                },
            }
        }
        i = i + 1;
    }
    assert(all.take(principals.len() as int) =~= all);
    Err(concat3("principal name '", name, "' not found"))
}

/// A field/value table about one principal, and the notice printed below it, if any.
pub struct PrincipalReport {
    pub rows: Vec<(String, String)>,
    pub notice: Option<String>,
}

pub open spec fn pairs_view(rows: Seq<(String, String)>) -> Seq<(Seq<char>, Seq<char>)> {
    rows.map_values(|r: (String, String)| (r.0@, r.1@))
}

/// How an expiry shows in a report: the formatted timestamp, or `(never)`.
pub open spec fn expires_text(e: Option<Seq<char>>) -> Seq<char> {
    match e {
        Some(t) => format_unix_secs_spec(t),
        None => "(never)"@,
    }
}

pub open spec fn text_or(o: Option<Seq<char>>, d: Seq<char>) -> Seq<char> {
    match o {
        Some(t) => t,
        None => d,
    }
}

/// The report for `principal set`: action, id, name, role and expiry, the key when one was
/// minted, and a notice to save it when the principal was created. The reply must hold
/// action, name and role.
pub open spec fn set_report_spec(b: PrincipalView) -> Result<(Seq<(Seq<char>, Seq<char>)>, Option<Seq<char>>), Seq<char>> {
    match b.action {
        None => Err(missing_field_message("action"@)),
        Some(action) => match b.name {
            None => Err(missing_field_message("name"@)),
            Some(nm) => match b.role {
                None => Err(missing_field_message("role"@)),
                Some(rl) => {
                    let base = seq![
                        ("Action"@, action),
                        ("ID"@, text_or(b.id_text, Seq::<char>::empty())),
                        ("Name"@, nm),
                        ("Role"@, rl),
                        ("Expires"@, expires_text(b.expires_at)),
                    ];
                    let rows = match b.key {
                        Some(k) => base.push(("Key"@, k)),
                        None => base,
                    };
                    Ok(
                        (
                            rows,
                            if action == "created"@ {
                                Some("SAVE THIS KEY. It will not be shown again."@)
                            } else {
                                None
                            },
                        ),
                    )
                },
            },
        },
    }
}

pub open spec fn report_view(r: PrincipalReport) -> (Seq<(Seq<char>, Seq<char>)>, Option<Seq<char>>) {
    (pairs_view(r.rows@), opt_text(r.notice))
}

fn text_or_default(o: &Option<String>, d: &str) -> (r: String)
    ensures
        r@ == text_or(opt_text(*o), d@),
{
    match o {
        Some(t) => t.clone(),
        None => d.to_owned(),
    }
}

fn expires_cell(e: &Option<String>) -> (r: String)
    ensures
        r@ == expires_text(opt_text(*e)),
{
    match e {
        Some(t) => format_unix_secs(t.as_str()),
        None => "(never)".to_owned(),
    }
}

fn pair(a: &str, b: String) -> (r: (String, String))
    ensures
        r.0@ == a@,
        r.1@ == b@,
{
    (a.to_owned(), b)
}

/// Builds the report for `principal set` (see `set_report_spec`).
pub fn principal_set_report(b: &PrincipalRecord) -> (res: Result<PrincipalReport, String>)
    ensures
        match res {
            Ok(r) => set_report_spec(b@) == Ok::<(Seq<(Seq<char>, Seq<char>)>, Option<Seq<char>>), Seq<char>>(report_view(r)),
            Err(e) => set_report_spec(b@) == Err::<(Seq<(Seq<char>, Seq<char>)>, Option<Seq<char>>), Seq<char>>(e@),
        },
{
    let action = match &b.action {
        Some(a) => a,
        None => {
            return Err(concat3("response missing string field '", "action", "'"));
        },
    };
    let nm = match &b.name {
        Some(n) => n,
        None => {
            return Err(concat3("response missing string field '", "name", "'"));
        },
    };
    let rl = match &b.role {
        Some(r) => r,
        None => {
            return Err(concat3("response missing string field '", "role", "'"));
        },
    };
    let mut rows: Vec<(String, String)> = Vec::new();
    rows.push(pair("Action", action.clone()));
    rows.push(pair("ID", text_or_default(&b.id_text, "")));
    rows.push(pair("Name", nm.clone()));
    rows.push(pair("Role", rl.clone()));
    rows.push(pair("Expires", expires_cell(&b.expires_at)));
    let ghost base = pairs_view(rows@);
    match &b.key {
        Some(k) => {
            rows.push(pair("Key", k.clone()));
            assert(pairs_view(rows@) =~= base.push(("Key"@, k@)));
        },
        None => {},
    }
    let created = chars_eq_str(&chars_of(action.as_str()), "created");
    let notice = if created {
        Some("SAVE THIS KEY. It will not be shown again.".to_owned())
    } else {
        None
    };
    let r = PrincipalReport { rows, notice };
    proof {
        let sv = set_report_spec(b@)->Ok_0;
        assert(base =~= seq![
            ("Action"@, action@),
            ("ID"@, text_or(b@.id_text, Seq::<char>::empty())),
            ("Name"@, nm@),
            ("Role"@, rl@),
            ("Expires"@, expires_text(b@.expires_at)),
        ]) by {
            assert(""@ =~= Seq::<char>::empty()) by {
                reveal_strlit("");
            }
        }
        assert(report_view(r).0 =~= sv.0);
    }
    Ok(r)
}

/// The report for `principal rotate`: id, name, role, expiry and the new key, with a
/// notice to save it. The reply must hold name, role and key.
pub open spec fn rotate_report_spec(b: PrincipalView) -> Result<(Seq<(Seq<char>, Seq<char>)>, Option<Seq<char>>), Seq<char>> {
    match b.name {
        None => Err(missing_field_message("name"@)),
        Some(nm) => match b.role {
            None => Err(missing_field_message("role"@)),
            Some(rl) => match b.key {
                None => Err(missing_field_message("key"@)),
                Some(k) => Ok(
                    (
                        seq![
                            ("ID"@, text_or(b.id_text, Seq::<char>::empty())),
                            ("Name"@, nm),
                            ("Role"@, rl),
                            ("Expires"@, expires_text(b.expires_at)),
                            ("Key"@, k),
                        ],
                        Some("SAVE THIS KEY. The old key is now invalid."@),
                    ),
                ),
            },
        },
    }
}

/// Builds the report for `principal rotate` (see `rotate_report_spec`).
pub fn principal_rotate_report(b: &PrincipalRecord) -> (res: Result<PrincipalReport, String>)
    ensures
        match res {
            Ok(r) => rotate_report_spec(b@) == Ok::<(Seq<(Seq<char>, Seq<char>)>, Option<Seq<char>>), Seq<char>>(report_view(r)),
            Err(e) => rotate_report_spec(b@) == Err::<(Seq<(Seq<char>, Seq<char>)>, Option<Seq<char>>), Seq<char>>(e@),
        },
{
    let nm = match &b.name {
        Some(n) => n,
        None => {
            return Err(concat3("response missing string field '", "name", "'"));
        },
    };
    let rl = match &b.role {
        Some(r) => r,
        None => {
            return Err(concat3("response missing string field '", "role", "'"));
        },
    };
    let key = match &b.key {
        Some(k) => k,
        None => {
            return Err(concat3("response missing string field '", "key", "'"));
        },
    };
    let mut rows: Vec<(String, String)> = Vec::new();
    rows.push(pair("ID", text_or_default(&b.id_text, "")));
    rows.push(pair("Name", nm.clone()));
    rows.push(pair("Role", rl.clone()));
    rows.push(pair("Expires", expires_cell(&b.expires_at)));
    rows.push(pair("Key", key.clone()));
    let r = PrincipalReport { rows, notice: Some("SAVE THIS KEY. The old key is now invalid.".to_owned()) };
    proof {
        assert(""@ =~= Seq::<char>::empty()) by {
            reveal_strlit("");
        }
        assert(report_view(r).0 =~= rotate_report_spec(b@)->Ok_0.0);
    }
    Ok(r)
}

/// The cells of `principal list` for one principal: id, name (`?` if none), role (`?` if
/// none), expiry (formatted, empty if none) and revocation time (empty if none).
pub open spec fn list_row_spec(p: PrincipalView) -> Seq<Seq<char>> {
    seq![
        text_or(p.id_text, Seq::<char>::empty()),
        text_or(p.name, "?"@),
        text_or(p.role, "?"@),
        match p.expires_at {
            Some(t) => format_unix_secs_spec(t),
            None => Seq::<char>::empty(),
        },
        text_or(p.revoked_at, Seq::<char>::empty()),
    ]
}

/// The rows of `principal list`, one per principal in reply order.
pub fn principal_list_rows(ps: &Vec<PrincipalRecord>) -> (r: Vec<Vec<String>>)
    ensures
        r@.len() == ps@.len(),
        forall|i: int|
            0 <= i < ps@.len() ==> (#[trigger] r@[i])@.map_values(|s: String| s@) == list_row_spec(ps@[i]@),
{
    proof {
        assert(""@ =~= Seq::<char>::empty()) by {
            reveal_strlit("");
        }
    }
    let mut r: Vec<Vec<String>> = Vec::new();
    let mut i: usize = 0;
    while i < ps.len()
        invariant
            i <= ps.len(),
            r@.len() == i,
            ""@ =~= Seq::<char>::empty(),
            forall|j: int|
                0 <= j < i ==> (#[trigger] r@[j])@.map_values(|s: String| s@) == list_row_spec(ps@[j]@),
        decreases ps.len() - i,
    {
        let p = &ps[i];
        let mut row: Vec<String> = Vec::new();
        row.push(text_or_default(&p.id_text, ""));
        row.push(text_or_default(&p.name, "?"));
        row.push(text_or_default(&p.role, "?"));
        row.push(
            match &p.expires_at {
                Some(t) => format_unix_secs(t.as_str()),
                None => String::new(),
            },
        );
        row.push(text_or_default(&p.revoked_at, ""));
        assert(row@.map_values(|s: String| s@) =~= list_row_spec(p@));
        r.push(row);
        i = i + 1;
    }
    r
}


/// The columns of `principal list` are ID, NAME, ROLE, EXPIRES and REVOKED, each from its
/// own field: the id's text (or nothing), the name and role (or `?`), the expiry as
/// `format_unix_secs` shows it (or nothing when there is none), the revocation time as
/// given (or nothing when the principal is not revoked).
pub proof fn lemma_principal_row_columns(p: PrincipalView)
    ensures
        list_row_spec(p).len() == 5,
        p.id_text matches Some(t) ==> list_row_spec(p)[0] == t,
        p.id_text is None ==> list_row_spec(p)[0] == Seq::<char>::empty(),
        p.name matches Some(t) ==> list_row_spec(p)[1] == t,
        p.name is None ==> list_row_spec(p)[1] == "?"@,
        p.role matches Some(t) ==> list_row_spec(p)[2] == t,
        p.role is None ==> list_row_spec(p)[2] == "?"@,
        p.expires_at matches Some(t) ==> list_row_spec(p)[3] == format_unix_secs_spec(t),
        p.expires_at is None ==> list_row_spec(p)[3] == Seq::<char>::empty(),
        p.revoked_at matches Some(t) ==> list_row_spec(p)[4] == t,
        p.revoked_at is None ==> list_row_spec(p)[4] == Seq::<char>::empty(),
{
}

/// Each cell of a `principal list` row depends on its own field alone: two principals that
/// agree on a field agree on its cell, whatever their other fields hold.
pub proof fn lemma_principal_row_cells_independent(p: PrincipalView, q: PrincipalView)
    ensures
        p.id_text == q.id_text ==> list_row_spec(p)[0] == list_row_spec(q)[0],
        p.name == q.name ==> list_row_spec(p)[1] == list_row_spec(q)[1],
        p.role == q.role ==> list_row_spec(p)[2] == list_row_spec(q)[2],
        p.expires_at == q.expires_at ==> list_row_spec(p)[3] == list_row_spec(q)[3],
        p.revoked_at == q.revoked_at ==> list_row_spec(p)[4] == list_row_spec(q)[4],
{
}

} // verus!
