//! What the logic reads of the server's JSON replies, as plain values.

use vstd::prelude::*;

verus! {

/// One element of a listing: each field is present when the reply has it as a string.
pub struct ListItem {
    pub path: Option<String>,
    pub vtype: Option<String>,
    pub value: Option<String>,
}

/// The plain view of a listed item.
pub struct ListItemView {
    pub path: Option<Seq<char>>,
    pub vtype: Option<Seq<char>>,
    pub value: Option<Seq<char>>,
}

pub open spec fn opt_text(o: Option<String>) -> Option<Seq<char>> {
    match o {
        Some(s) => Some(s@),
        None => None,
    }
}

impl View for ListItem {
    type V = ListItemView;

    open spec fn view(&self) -> ListItemView {
        ListItemView { path: opt_text(self.path), vtype: opt_text(self.vtype), value: opt_text(self.value) }
    }
}

/// The views of listed items.
pub open spec fn items_view(items: Seq<ListItem>) -> Seq<ListItemView> {
    items.map_values(|i: ListItem| i@)
}

/// The message for a reply that lacks a string field.
pub open spec fn missing_field_message(field: Seq<char>) -> Seq<char> {
    "response missing string field '"@ + field + "'"@
}

/// What the logic reads of a principal object in a reply. Each text field is present when
/// the reply has it as a string; `id` is present when the id is an integer; `id_text` is the
/// id as JSON text (whatever its JSON type), present when the reply has an id at all.
pub struct PrincipalRecord {
    pub id: Option<i64>,
    pub id_text: Option<String>,
    pub name: Option<String>,
    pub role: Option<String>,
    pub expires_at: Option<String>,
    pub revoked_at: Option<String>,
    pub action: Option<String>,
    pub key: Option<String>,
}

/// The plain view of a principal object.
pub struct PrincipalView {
    pub id: Option<i64>,
    pub id_text: Option<Seq<char>>,
    pub name: Option<Seq<char>>,
    pub role: Option<Seq<char>>,
    pub expires_at: Option<Seq<char>>,
    pub revoked_at: Option<Seq<char>>,
    pub action: Option<Seq<char>>,
    pub key: Option<Seq<char>>,
}

impl View for PrincipalRecord {
    type V = PrincipalView;

    open spec fn view(&self) -> PrincipalView {
        PrincipalView {
            id: self.id,
            id_text: opt_text(self.id_text),
            name: opt_text(self.name),
            role: opt_text(self.role),
            expires_at: opt_text(self.expires_at),
            revoked_at: opt_text(self.revoked_at),
            action: opt_text(self.action),
            key: opt_text(self.key),
        }
    }
}

pub open spec fn principals_view(ps: Seq<PrincipalRecord>) -> Seq<PrincipalView> {
    ps.map_values(|p: PrincipalRecord| p@)
}

} // verus!
