//! Credential profiles: named sets of server and API key kept in one configuration file,
//! and which one a command uses.

use vstd::prelude::*;
use crate::command::{key_tail, tail_ok, tail_text};
use crate::config::CliConfig;
use crate::style::{paint_spec, push_painted};
use crate::text::{
    chars_eq, chars_lt, chars_of, concat2, concat3, lemma_text_lt_irreflexive, lemma_text_lt_total,
    lemma_text_lt_transitive, text_lt,
};

verus! {

/// The plain view of credentials: server and API key.
pub open spec fn config_view(c: CliConfig) -> (Seq<char>, Seq<char>) {
    (c.server@, c.api_key@)
}

/// One saved profile.
pub struct Profile {
    pub name: String,
    pub config: CliConfig,
}

/// The saved profiles, by name.
pub struct ProfileStore {
    entries: Vec<Profile>,
    model: Ghost<Map<Seq<char>, (Seq<char>, Seq<char>)>>,
}

/// Profiles in strictly ascending name order.
pub open spec fn sorted_profiles(es: Seq<Profile>) -> bool {
    forall|i: int, j: int| 0 <= i < j < es.len() ==> text_lt(#[trigger] es[i].name@, #[trigger] es[j].name@)
}

/// The profiles hold exactly the map.
pub open spec fn holds(es: Seq<Profile>, m: Map<Seq<char>, (Seq<char>, Seq<char>)>) -> bool {
    &&& sorted_profiles(es)
    &&& forall|i: int|
        0 <= i < es.len() ==> m.contains_key((#[trigger] es[i]).name@) && m[es[i].name@] == config_view(
            es[i].config,
        )
    &&& forall|k: Seq<char>| #[trigger] m.contains_key(k) ==> exists|i: int| 0 <= i < es.len() && es[i].name@ == k
}

impl View for ProfileStore {
    type V = Map<Seq<char>, (Seq<char>, Seq<char>)>;

    closed spec fn view(&self) -> Map<Seq<char>, (Seq<char>, Seq<char>)> {
        self.model@
    }
}

fn copy_config(c: &CliConfig) -> (r: CliConfig)
    ensures
        config_view(r) == config_view(*c),
{
    CliConfig { server: c.server.clone(), api_key: c.api_key.clone() }
}

impl ProfileStore {
    /// The store keeps its profiles in name order and holds exactly its view.
    pub closed spec fn wf(&self) -> bool {
        holds(self.entries@, self.model@)
    }

    /// The saved profiles in ascending name order.
    pub closed spec fn ordered(&self) -> Seq<Profile> {
        self.entries@
    }

    /// Facts about the ordered profiles of a well-formed store.
    pub proof fn lemma_ordered(&self)
        requires
            self.wf(),
        ensures
            holds(self.ordered(), self@),
    {
    }

    /// A store without profiles.
    pub fn new() -> (s: ProfileStore)
        ensures
            s.wf(),
            s@ == Map::<Seq<char>, (Seq<char>, Seq<char>)>::empty(),
    {
        ProfileStore { entries: Vec::new(), model: Ghost(Map::empty()) }
    }

    /// The number of saved profiles.
    pub fn len(&self) -> (n: usize)
        ensures
            n == self.ordered().len(),
    {
        self.entries.len()
    }

    /// The profile at a position of the name order.
    pub fn at(&self, i: usize) -> (p: &Profile)
        requires
            i < self.ordered().len(),
        ensures
            *p == self.ordered()[i as int],
    {
        &self.entries[i]
    }

    /// The credentials saved under a name, if any.
    pub fn get(&self, name: &str) -> (r: Option<CliConfig>)
        requires
            self.wf(),
        ensures
            match r {
                Some(c) => self@.contains_key(name@) && self@[name@] == config_view(c),
                None => !self@.contains_key(name@),
            },
    {
        let key = chars_of(name);
        let mut i: usize = 0;
        while i < self.entries.len()
            invariant
                i <= self.entries.len(),
                key@ == name@,
                holds(self.entries@, self.model@),
                forall|j: int| 0 <= j < i ==> self.entries@[j].name@ != name@,
            decreases self.entries.len() - i,
        {
            if chars_eq(&chars_of(self.entries[i].name.as_str()), &key) {
                assert(self.model@.contains_key(self.entries@[i as int].name@));
                return Some(copy_config(&self.entries[i].config));
            }
            i = i + 1;
        }
        proof {
            if self.model@.contains_key(name@) {
                let j = choose|j: int| 0 <= j < self.entries@.len() && self.entries@[j].name@ == name@;
                assert(self.entries@[j].name@ != name@);
            }
        }
        None
    }

    /// Saves credentials under a name, replacing any there; other profiles stay.
    pub fn upsert(&mut self, name: String, config: CliConfig)
        requires
            old(self).wf(),
        ensures
            final(self).wf(),
            final(self)@ == old(self)@.insert(name@, config_view(config)),
    {
        let k = chars_of(name.as_str());
        let ghost m = self.model@;
        let ghost m2 = m.insert(name@, config_view(config));
        let mut pos: usize = 0;
        while pos < self.entries.len() && chars_lt(&chars_of(self.entries[pos].name.as_str()), &k)
            invariant
                pos <= self.entries.len(),
                k@ == name@,
                forall|i: int| 0 <= i < pos ==> text_lt(#[trigger] self.entries@[i].name@, name@),
            decreases self.entries.len() - pos,
        {
            pos = pos + 1;
        }
        let ghost old_es = self.entries@;
        if pos < self.entries.len() && chars_eq(&chars_of(self.entries[pos].name.as_str()), &k) {
            proof {
                assert forall|i: int| 0 <= i < old_es.len() && old_es[i].name@ == name@ implies i == pos by {
                    if i < pos {
                        lemma_text_lt_irreflexive(name@);
                    } else if i > pos {
                        assert(text_lt(old_es[pos as int].name@, old_es[i].name@));
                        lemma_text_lt_irreflexive(name@);
                    }
                }
            }
            self.entries.set(pos, Profile { name, config });
            proof {
                let es = self.entries@;
                assert(sorted_profiles(es)) by {
                    assert forall|i: int, j: int| 0 <= i < j < es.len() implies text_lt(
                        #[trigger] es[i].name@,
                        #[trigger] es[j].name@,
                    ) by {
                        assert(text_lt(old_es[i].name@, old_es[j].name@));
                    }
                }
                assert forall|kk: Seq<char>| #[trigger] m2.contains_key(kk) implies exists|i: int|
                    0 <= i < es.len() && es[i].name@ == kk by {
                    if kk == name@ {
                        assert(es[pos as int].name@ == kk);
                    } else {
                        let i = choose|i: int| 0 <= i < old_es.len() && old_es[i].name@ == kk;
                        assert(es[i].name@ == kk);
                    }
                }
                assert forall|i: int| 0 <= i < es.len() implies m2.contains_key((#[trigger] es[i]).name@)
                    && m2[es[i].name@] == config_view(es[i].config) by {
                    if i != pos {
                        assert(es[i] == old_es[i]);
                    }
                }
            }
        } else {
            proof {
                if pos < old_es.len() {
                    lemma_text_lt_total(name@, old_es[pos as int].name@);
                }
                assert(!m.contains_key(name@)) by {
                    if m.contains_key(name@) {
                        let i = choose|i: int| 0 <= i < old_es.len() && old_es[i].name@ == name@;
                        if i < pos {
                            lemma_text_lt_irreflexive(name@);
                        } else if i > pos {
                            assert(text_lt(old_es[pos as int].name@, old_es[i].name@));
                            lemma_text_lt_transitive(name@, old_es[pos as int].name@, old_es[i].name@);
                            lemma_text_lt_irreflexive(name@);
                        }
                    }
                }
            }
            self.entries.insert(pos, Profile { name, config });
            proof {
                let es = self.entries@;
                assert forall|i: int| 0 <= i < es.len() && i != pos implies (#[trigger] es[i]) == (if i
                    < pos {
                    old_es[i]
                } else {
                    old_es[i - 1]
                }) by {}
                assert(sorted_profiles(es)) by {
                    assert forall|i: int, j: int| 0 <= i < j < es.len() implies text_lt(
                        #[trigger] es[i].name@,
                        #[trigger] es[j].name@,
                    ) by {
                        if j < pos {
                            assert(text_lt(old_es[i].name@, old_es[j].name@));
                        } else if i > pos {
                            assert(text_lt(old_es[i - 1].name@, old_es[j - 1].name@));
                        } else if i == pos {
                            if j - 1 > pos {
                                assert(text_lt(old_es[pos as int].name@, old_es[j - 1].name@));
                                lemma_text_lt_transitive(name@, old_es[pos as int].name@, old_es[j - 1].name@);
                            }
                        } else if j == pos {
                        } else {
                            if j - 1 > pos {
                                assert(text_lt(old_es[pos as int].name@, old_es[j - 1].name@));
                                lemma_text_lt_transitive(name@, old_es[pos as int].name@, old_es[j - 1].name@);
                            }
                            lemma_text_lt_transitive(old_es[i].name@, name@, old_es[j - 1].name@);
                        }
                    }
                }
                assert forall|kk: Seq<char>| #[trigger] m2.contains_key(kk) implies exists|i: int|
                    0 <= i < es.len() && es[i].name@ == kk by {
                    if kk == name@ {
                        assert(es[pos as int].name@ == kk);
                    } else {
                        let i = choose|i: int| 0 <= i < old_es.len() && old_es[i].name@ == kk;
                        if i < pos {
                            assert(es[i].name@ == kk);
                        } else {
                            assert(es[i + 1].name@ == kk);
                        }
                    }
                }
                assert forall|i: int| 0 <= i < es.len() implies m2.contains_key((#[trigger] es[i]).name@)
                    && m2[es[i].name@] == config_view(es[i].config) by {
                    if i < pos {
                        assert(old_es[i].name@ != name@);
                    } else if i > pos {
                        assert(old_es[i - 1].name@ != name@);
                    }
                }
            }
        }
        self.model = Ghost(m2);
    }

    /// Deletes the profile with a name; says whether there was one. Other profiles stay.
    pub fn remove(&mut self, name: &str) -> (found: bool)
        requires
            old(self).wf(),
        ensures
            final(self).wf(),
            final(self)@ == old(self)@.remove(name@),
            found == old(self)@.contains_key(name@),
    {
        let key = chars_of(name);
        let ghost m = self.model@;
        let mut i: usize = 0;
        while i < self.entries.len()
            invariant
                i <= self.entries.len(),
                key@ == name@,
                holds(self.entries@, m),
                self.model@ == m,
                m == old(self)@,
                forall|j: int| 0 <= j < i ==> self.entries@[j].name@ != name@,
            decreases self.entries.len() - i,
        {
            if chars_eq(&chars_of(self.entries[i].name.as_str()), &key) {
                let ghost old_es = self.entries@;
                let ghost m2 = m.remove(name@);
                assert(m.contains_key(old_es[i as int].name@));
                proof {
                    assert forall|j: int| 0 <= j < old_es.len() && old_es[j].name@ == name@ implies j == i by {
                        if j > i {
                            assert(text_lt(old_es[i as int].name@, old_es[j].name@));
                            lemma_text_lt_irreflexive(name@);
                        }
                    }
                }
                let _gone = self.entries.remove(i);
                proof {
                    let es = self.entries@;
                    assert forall|j: int| 0 <= j < es.len() implies (#[trigger] es[j]) == (if j < i {
                        old_es[j]
                    } else {
                        old_es[j + 1]
                    }) by {}
                    assert(sorted_profiles(es)) by {
                        assert forall|a: int, b: int| 0 <= a < b < es.len() implies text_lt(
                            #[trigger] es[a].name@,
                            #[trigger] es[b].name@,
                        ) by {
                            let oa = if a < i { a } else { a + 1 };
                            let ob = if b < i { b } else { b + 1 };
                            assert(text_lt(old_es[oa].name@, old_es[ob].name@));
                        }
                    }
                    assert forall|kk: Seq<char>| #[trigger] m2.contains_key(kk) implies exists|j: int|
                        0 <= j < es.len() && es[j].name@ == kk by {
                        let j = choose|j: int| 0 <= j < old_es.len() && old_es[j].name@ == kk;
                        assert(j != i);
                        if j < i {
                            assert(es[j].name@ == kk);
                        } else {
                            assert(es[j - 1].name@ == kk);
                        }
                    }
                    assert forall|j: int| 0 <= j < es.len() implies m2.contains_key((#[trigger] es[j]).name@)
                        && m2[es[j].name@] == config_view(es[j].config) by {
                        let oj = if j < i { j } else { j + 1 };
                        assert(es[j] == old_es[oj]);
                        assert(oj != i);
                    }
                }
                self.model = Ghost(m2);
                return true;
            }
            i = i + 1;
        }
        proof {
            assert(!m.contains_key(name@)) by {
                if m.contains_key(name@) {
                    let j = choose|j: int| 0 <= j < self.entries@.len() && self.entries@[j].name@ == name@;
                    assert(self.entries@[j].name@ != name@);
                }
            }
            assert(m.remove(name@) =~= m);
        }
        false
    }
}

/// The message when no credentials are saved or given.
pub open spec fn not_logged_in_text() -> Seq<char> {
    "not logged in. Run `opaq login --server URL --key KEY`, or set OPAQ_SERVER and OPAQ_KEY."@
}

/// What the configuration file gave: nothing, a refusal, or the saved profiles.
pub enum StoreState {
    Missing,
    Invalid(String),
    Loaded(ProfileStore),
}

pub open spec fn state_wf(st: &StoreState) -> bool {
    match st {
        StoreState::Loaded(s) => s.wf(),
        _ => true,
    }
}

/// The credentials of a profile by name: a refusal when there is no file, the file's
/// own refusal when it is invalid; otherwise the saved profile, or, when it is missing,
/// `profile '<name>' not found` for a named profile and the not-logged-in message for the
/// fallback to a missing `default`.
pub open spec fn pick_spec(st: StoreState, name: Seq<char>, explicit: bool) -> Result<(Seq<char>, Seq<char>), Seq<char>> {
    match st {
        StoreState::Missing => Err(not_logged_in_text()),
        StoreState::Invalid(e) => Err(e@),
        StoreState::Loaded(s) => if s@.contains_key(name) {
            Ok(s@[name])
        } else if explicit {
            Err("profile '"@ + name + "' not found"@)
        } else {
            Err(not_logged_in_text())
        },
    }
}

/// Which credentials a command uses, highest first: the `--profile` flag, the
/// `OPAQ_PROFILE` variable, the `OPAQ_SERVER` and `OPAQ_KEY` variables (both or neither;
/// the file is then not consulted), the `default` profile.
pub open spec fn resolve_spec(
    flag: Option<Seq<char>>,
    env_profile: Option<Seq<char>>,
    env_server: Option<Seq<char>>,
    env_key: Option<Seq<char>>,
    st: StoreState,
) -> Result<(Seq<char>, Seq<char>), Seq<char>> {
    let named = match flag {
        Some(n) => Some(n),
        None => env_profile,
    };
    match named {
        Some(n) => pick_spec(st, n, true),
        None => match (env_server, env_key) {
            (Some(server), Some(key)) => Ok((server, key)),
            (Some(_), None) => Err("OPAQ_SERVER is set but OPAQ_KEY is missing."@),
            (None, Some(_)) => Err("OPAQ_KEY is set but OPAQ_SERVER is missing."@),
            (None, None) => pick_spec(st, "default"@, false),
        },
    }
}

pub open spec fn opt_str(o: Option<String>) -> Option<Seq<char>> {
    match o {
        Some(s) => Some(s@),
        None => None,
    }
}

pub open spec fn config_result_view(r: Result<CliConfig, String>) -> Result<(Seq<char>, Seq<char>), Seq<char>> {
    match r {
        Ok(c) => Ok(config_view(c)),
        Err(e) => Err(e@),
    }
}

fn pick_profile(st: &StoreState, name: &str, explicit: bool) -> (r: Result<CliConfig, String>)
    requires
        state_wf(st),
    ensures
        config_result_view(r) == pick_spec(*st, name@, explicit),
{
    match st {
        StoreState::Missing => Err(
            "not logged in. Run `opaq login --server URL --key KEY`, or set OPAQ_SERVER and OPAQ_KEY.".to_owned(),
        ),
        StoreState::Invalid(e) => Err(e.clone()),
        StoreState::Loaded(s) => match s.get(name) {
            Some(c) => Ok(c),
            None => if explicit {
                Err(concat3("profile '", name, "' not found"))
            } else {
                Err(
                    "not logged in. Run `opaq login --server URL --key KEY`, or set OPAQ_SERVER and OPAQ_KEY.".to_owned(),
                )
            },
        },
    }
}

/// The credentials that a command uses (see `resolve_spec`).
pub fn resolve_config(
    flag_profile: Option<String>,
    env_profile: Option<String>,
    env_server: Option<String>,
    env_key: Option<String>,
    store: &StoreState,
) -> (r: Result<CliConfig, String>)
    requires
        state_wf(store),
    ensures
        config_result_view(r) == resolve_spec(
            opt_str(flag_profile),
            opt_str(env_profile),
            opt_str(env_server),
            opt_str(env_key),
            *store,
        ),
{
    let named = match flag_profile {
        Some(n) => Some(n),
        None => env_profile,
    };
    match named {
        Some(n) => pick_profile(store, n.as_str(), true),
        None => match (env_server, env_key) {
            (Some(server), Some(api_key)) => Ok(CliConfig { server, api_key }),
            (Some(_), None) => Err("OPAQ_SERVER is set but OPAQ_KEY is missing.".to_owned()),
            (None, Some(_)) => Err("OPAQ_KEY is set but OPAQ_SERVER is missing.".to_owned()),
            (None, None) => pick_profile(store, "default", false),
        },
    }
}

/// The profile that `profile list` marks as active: the flag's, else `OPAQ_PROFILE`'s,
/// else `default` (raw environment credentials are no named profile).
pub fn active_profile_name(flag_profile: Option<String>, env_profile: Option<String>) -> (r: String)
    ensures
        r@ == match flag_profile {
            Some(f) => f@,
            None => match env_profile {
                Some(e) => e@,
                None => "default"@,
            },
        },
{
    match flag_profile {
        Some(f) => f,
        None => match env_profile {
            Some(e) => e,
            None => "default".to_owned(),
        },
    }
}

/// The profiles that `login` starts from: those saved, or none when the file is missing
/// or invalid.
pub open spec fn base_view(st: StoreState) -> Map<Seq<char>, (Seq<char>, Seq<char>)> {
    match st {
        StoreState::Loaded(s) => s@,
        _ => Map::empty(),
    }
}

/// `login`: saves the credentials under the flag's profile name (`default` without one),
/// keeping every other saved profile; gives the store to write and the message to print.
pub fn login(state: StoreState, flag_profile: Option<String>, server: String, key: String) -> (r: (ProfileStore, String))
    requires
        state_wf(&state),
    ensures
        r.0.wf(),
        ({
            let name = match flag_profile {
                Some(n) => n@,
                None => "default"@,
            };
            &&& r.0@ == base_view(state).insert(name, (server@, key@))
            &&& r.1@ == "Logged in (profile: "@ + name + ")."@
        }),
{
    let mut store = match state {
        StoreState::Loaded(s) => s,
        _ => ProfileStore::new(),
    };
    let name = match flag_profile {
        Some(n) => n,
        None => "default".to_owned(),
    };
    let msg = concat3("Logged in (profile: ", name.as_str(), ").");
    store.upsert(name, CliConfig { server, api_key: key });
    (store, msg)
}

/// `profile remove`: deletes a saved profile; `profile '<name>' not found` when there is
/// none of that name.
pub fn remove_profile(store: &mut ProfileStore, name: &str) -> (r: Result<String, String>)
    requires
        old(store).wf(),
    ensures
        final(store).wf(),
        final(store)@ == old(store)@.remove(name@),
        match r {
            Ok(m) => old(store)@.contains_key(name@) && m@ == "Removed profile: "@ + name@,
            Err(e) => !old(store)@.contains_key(name@) && e@ == "profile '"@ + name@ + "' not found"@,
        },
{
    if store.remove(name) {
        Ok(concat2("Removed profile: ", name))
    } else {
        Err(concat3("profile '", name, "' not found"))
    }
}

/// The map that saving the profiles one after another gives (a later one with the same
/// name replaces an earlier one).
pub open spec fn profiles_map(ps: Seq<Profile>) -> Map<Seq<char>, (Seq<char>, Seq<char>)>
    decreases ps.len(),
{
    if ps.len() == 0 {
        Map::empty()
    } else {
        profiles_map(ps.drop_last()).insert(ps.last().name@, config_view(ps.last().config))
    }
}

/// The store of a configuration file, from what the file parsed as: the profile map when
/// it has that shape; else a single-credential file, which becomes the `default` profile
/// (and is reported as migrated, to be written back); else the file is refused with the
/// message of the single-credential reading.
pub fn store_from_file(profiles: Option<Vec<Profile>>, flat: Result<CliConfig, String>) -> (r: Result<(ProfileStore, bool), String>)
    ensures
        match profiles {
            Some(ps) => r matches Ok(t) && t.0.wf() && t.0@ == profiles_map(ps@) && !t.1,
            None => match flat {
                Ok(c) => r matches Ok(t) && t.0.wf() && t.0@ == Map::<Seq<char>, (Seq<char>, Seq<char>)>::empty().insert(
                    "default"@,
                    config_view(c),
                ) && t.1,
                Err(e) => r matches Err(m) && m@ == "invalid config: "@ + e@,
            },
        },
{
    match profiles {
        Some(ps) => {
            let mut store = ProfileStore::new();
            let mut i: usize = 0;
            assert(ps@.take(0) =~= Seq::<Profile>::empty());
            while i < ps.len()
                invariant
                    i <= ps.len(),
                    store.wf(),
                    store@ == profiles_map(ps@.take(i as int)),
                decreases ps.len() - i,
            {
                assert(ps@.take(i + 1).drop_last() =~= ps@.take(i as int));
                assert(ps@.take(i + 1).last() == ps@[i as int]);
                store.upsert(ps[i].name.clone(), copy_config(&ps[i].config));
                i = i + 1;
            }
            assert(ps@.take(ps.len() as int) =~= ps@);
            Ok((store, false))
        },
        None => match flat {
            Ok(c) => {
                let mut store = ProfileStore::new();
                store.upsert("default".to_owned(), c);
                Ok((store, true))
            },
            Err(e) => Err(concat2("invalid config: ", e.as_str())),
        },
    }
}

/// What `login` saves is what a command then uses: naming the profile by flag or
/// `OPAQ_PROFILE` gives back the saved server and key, whatever the environment's raw
/// credentials are; and a profile saved as `default` is what a command uses when nothing
/// else is given.
pub proof fn lemma_saved_profile_resolves(
    s: ProfileStore,
    base: Map<Seq<char>, (Seq<char>, Seq<char>)>,
    name: Seq<char>,
    server: Seq<char>,
    key: Seq<char>,
    env_server: Option<Seq<char>>,
    env_key: Option<Seq<char>>,
)
    requires
        s@ == base.insert(name, (server, key)),
    ensures
        resolve_spec(Some(name), None, env_server, env_key, StoreState::Loaded(s)) == Ok::<
            (Seq<char>, Seq<char>),
            Seq<char>,
        >((server, key)),
        resolve_spec(None, Some(name), env_server, env_key, StoreState::Loaded(s)) == Ok::<
            (Seq<char>, Seq<char>),
            Seq<char>,
        >((server, key)),
        name == "default"@ ==> resolve_spec(None, None, None, None, StoreState::Loaded(s)) == Ok::<
            (Seq<char>, Seq<char>),
            Seq<char>,
        >((server, key)),
{
}

/// Saving one profile leaves every other profile as it was.
pub proof fn lemma_login_keeps_other_profiles(
    s: ProfileStore,
    base: Map<Seq<char>, (Seq<char>, Seq<char>)>,
    name: Seq<char>,
    cfg: (Seq<char>, Seq<char>),
    other: Seq<char>,
)
    requires
        s@ == base.insert(name, cfg),
        other != name,
    ensures
        s@.contains_key(other) == base.contains_key(other),
        base.contains_key(other) ==> s@[other] == base[other],
{
}

/// After `profile remove`, naming that profile is refused as not found, and every other
/// profile resolves as before.
pub proof fn lemma_removed_profile_not_found(
    before: ProfileStore,
    after: ProfileStore,
    name: Seq<char>,
    other: Seq<char>,
)
    requires
        after@ == before@.remove(name),
        other != name,
    ensures
        pick_spec(StoreState::Loaded(after), name, true) == Err::<(Seq<char>, Seq<char>), Seq<char>>(
            "profile '"@ + name + "' not found"@,
        ),
        pick_spec(StoreState::Loaded(after), other, true) == pick_spec(StoreState::Loaded(before), other, true),
{
}

/// A named profile decides alone: the raw environment credentials make no difference.
pub proof fn lemma_named_profile_beats_env_credentials(
    name: Seq<char>,
    env_profile: Option<Seq<char>>,
    env_server: Option<Seq<char>>,
    env_key: Option<Seq<char>>,
    st: StoreState,
)
    ensures
        resolve_spec(Some(name), env_profile, env_server, env_key, st) == pick_spec(st, name, true),
        resolve_spec(None, Some(name), env_server, env_key, st) == pick_spec(st, name, true),
{
}

/// With both raw environment credentials set and no profile named, the configuration
/// file is not consulted: the result is those credentials whatever the file holds.
pub proof fn lemma_env_credentials_ignore_file(server: Seq<char>, key: Seq<char>, st1: StoreState, st2: StoreState)
    ensures
        resolve_spec(None, None, Some(server), Some(key), st1) == resolve_spec(
            None,
            None,
            Some(server),
            Some(key),
            st2,
        ),
        resolve_spec(None, None, Some(server), Some(key), st1) == Ok::<(Seq<char>, Seq<char>), Seq<char>>(
            (server, key),
        ),
{
}

/// A single-credential file, once migrated, is the `default` profile: with nothing else
/// given, a command uses exactly those credentials.
pub proof fn lemma_migrated_file_is_default(s: ProfileStore, c: (Seq<char>, Seq<char>))
    requires
        s@ == Map::<Seq<char>, (Seq<char>, Seq<char>)>::empty().insert("default"@, c),
    ensures
        resolve_spec(None, None, None, None, StoreState::Loaded(s)) == Ok::<(Seq<char>, Seq<char>), Seq<char>>(c),
{
}

proof fn lemma_profiles_map_of_sorted(es: Seq<Profile>)
    requires
        sorted_profiles(es),
    ensures
        forall|k: Seq<char>|
            #[trigger] profiles_map(es).contains_key(k) <==> exists|i: int| 0 <= i < es.len() && es[i].name@ == k,
        forall|i: int|
            0 <= i < es.len() ==> profiles_map(es)[(#[trigger] es[i]).name@] == config_view(es[i].config),
    decreases es.len(),
{
    if es.len() > 0 {
        let init = es.drop_last();
        let n = (es.len() - 1) as int;
        assert forall|i: int, j: int| 0 <= i < j < init.len() implies text_lt(
            #[trigger] init[i].name@,
            #[trigger] init[j].name@,
        ) by {
            assert(init[i] == es[i] && init[j] == es[j]);
        }
        lemma_profiles_map_of_sorted(init);
        let m = profiles_map(es);
        assert(m == profiles_map(init).insert(es[n].name@, config_view(es[n].config)));
        assert forall|i: int| 0 <= i < es.len() implies m[(#[trigger] es[i]).name@] == config_view(es[i].config) by {
            if i < n {
                lemma_text_lt_irreflexive(es[i].name@);
                assert(text_lt(es[i].name@, es[n].name@));
                assert(init[i] == es[i]);
            }
        }
        assert forall|k: Seq<char>|
            #[trigger] m.contains_key(k) <==> exists|i: int| 0 <= i < es.len() && es[i].name@ == k by {
            if m.contains_key(k) {
                if k == es[n].name@ {
                    assert(0 <= n < es.len() && es[n].name@ == k);
                } else {
                    assert(profiles_map(init).contains_key(k));
                    let i = choose|i: int| 0 <= i < init.len() && init[i].name@ == k;
                    assert(init[i] == es[i]);
                    assert(0 <= i < es.len() && es[i].name@ == k);
                }
            }
            if exists|i: int| 0 <= i < es.len() && es[i].name@ == k {
                let i = choose|i: int| 0 <= i < es.len() && es[i].name@ == k;
                if i < n {
                    assert(init[i] == es[i]);
                    assert(profiles_map(init).contains_key(init[i].name@));
                }
            }
        }
    }
}

/// What is saved of a store reads back as the same store: the profiles in name order,
/// saved one after another (as a configuration file in the profile shape is read by
/// `store_from_file`), give exactly the store's map.
pub proof fn lemma_saved_profiles_read_back(s: ProfileStore)
    requires
        s.wf(),
    ensures
        profiles_map(s.ordered()) == s@,
{
    let es = s.ordered();
    lemma_profiles_map_of_sorted(es);
    assert forall|k: Seq<char>| #[trigger] s@.contains_key(k) implies profiles_map(es).contains_key(k) && profiles_map(es)[k] == s@[k] by {
        let i = choose|i: int| 0 <= i < es.len() && es[i].name@ == k;
        assert(profiles_map(es)[es[i].name@] == config_view(es[i].config));
    }
    assert forall|k: Seq<char>| #[trigger] profiles_map(es).contains_key(k) implies s@.contains_key(k) by {
        let i = choose|i: int| 0 <= i < es.len() && es[i].name@ == k;
        assert(s@.contains_key(es[i].name@));
    }
    assert(profiles_map(es) =~= s@);
}

/// One line of `profile list`: `*` for the active profile (else a space), the name in
/// bold, the server, and the key's tail, dimmed.
pub open spec fn profile_line_spec(color: bool, p: Profile, active: Seq<char>) -> Seq<char> {
    (if p.name@ == active {
        seq!['*']
    } else {
        seq![' ']
    }) + seq![' '] + paint_spec(color, "1"@, p.name@) + seq![' ', ' '] + p.config.server@ + seq![' ', ' ']
        + paint_spec(color, "2"@, "..."@ + tail_text(p.config.api_key@))
}

/// The lines of `profile list`, one per profile in name order, or a hint when none is saved.
/// Each key must be cut at a character boundary (see `tail_ok`).
pub fn profile_list_lines(store: &ProfileStore, active: &str, color: bool) -> (r: Vec<String>)
    requires
        store.wf(),
        forall|i: int|
            0 <= i < store.ordered().len() ==> tail_ok((#[trigger] store.ordered()[i]).config.api_key@)
                && vstd::utf8::encode_utf8(store.ordered()[i].config.api_key@).len() <= usize::MAX,
    ensures
        store.ordered().len() == 0 ==> r@.map_values(|l: String| l@) == seq![
            "No profiles. Run `opaq login` to create one."@,
        ],
        store.ordered().len() > 0 ==> r@.len() == store.ordered().len() && forall|i: int|
            0 <= i < r@.len() ==> (#[trigger] r@[i])@ == profile_line_spec(color, store.ordered()[i], active@),
{
    let mut r: Vec<String> = Vec::new();
    if store.len() == 0 {
        r.push("No profiles. Run `opaq login` to create one.".to_owned());
        assert(r@.map_values(|l: String| l@) =~= seq!["No profiles. Run `opaq login` to create one."@]);
        return r;
    }
    let act = chars_of(active);
    let mut i: usize = 0;
    while i < store.len()
        invariant
            i <= store.ordered().len(),
            act@ == active@,
            r@.len() == i,
            forall|j: int|
                0 <= j < store.ordered().len() ==> tail_ok((#[trigger] store.ordered()[j]).config.api_key@)
                    && vstd::utf8::encode_utf8(store.ordered()[j].config.api_key@).len() <= usize::MAX,
            forall|j: int| 0 <= j < i ==> (#[trigger] r@[j])@ == profile_line_spec(color, store.ordered()[j], active@),
        decreases store.ordered().len() - i,
    {
        let p = store.at(i);
        let mut line = String::new();
        if chars_eq(&chars_of(p.name.as_str()), &act) {
            line.push('*');
        } else {
            line.push(' ');
        }
        line.push(' ');
        push_painted(&mut line, color, "1", p.name.as_str());
        line.push(' ');
        line.push(' ');
        line.append(p.config.server.as_str());
        line.push(' ');
        line.push(' ');
        let tail = key_tail(p.config.api_key.as_str());
        let dimmed = concat2("...", tail);
        push_painted(&mut line, color, "2", dimmed.as_str());
        assert(line@ =~= profile_line_spec(color, store.ordered()[i as int], active@));
        r.push(line);
        i = i + 1;
    }
    r
}

} // verus!
