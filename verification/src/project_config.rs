//! Per-project connection configs under `.gt-config/`.
//!
//! Layout, rooted at the working project's repo root (the nearest ancestor with a `.git`):
//!
//! ```text
//! .gt-config/
//!   config.toml      # { active = "<name>" } — which named config is current
//!   <name>.toml      # one ProjectConfig per named config (server + ws + rig + tokens)
//! ```
//!
//! The directory holds tokens, so it must be git-ignored; [`ensure_gitignored`] computes the
//! `.gitignore` edit that guarantees it.

use vstd::prelude::*;

use crate::text::{
    chars_of, is_white, lemma_lex_irreflexive, lemma_lex_transitive, matches_at, chars_eq, sorted_position, lex_lt, strictly_sorted, subvec, views, lemma_trim_end_char_no_trailing, string_from_chars, strip_suffix, strip_suffix_chars, trim, trim_chars, trim_end_char,
    trim_end, trim_end_char_chars, trim_start,
};

verus! {

/// The characters of `/mcp`, the MCP endpoint suffix stripped from a server URL.
pub open spec fn mcp_suffix() -> Seq<char> {
    seq!['/', 'm', 'c', 'p']
}

/// What [`normalize_server_url`] returns: trim surrounding whitespace, drop trailing `/`s, drop
/// one trailing `/mcp`, then drop trailing `/`s again.
pub open spec fn spec_normalize_server_url(url: Seq<char>) -> Seq<char> {
    let trimmed = trim_end_char(trim(url), '/');
    let base = match strip_suffix(trimmed, mcp_suffix()) {
        Some(b) => b,
        None => trimmed,
    };
    trim_end_char(base, '/')
}

/// Normalize a server base URL: drop a trailing `/` and a trailing `/mcp` segment, so a user
/// who pastes the MCP endpoint (`https://host/mcp`) still gets the REST base (`https://host`).
pub fn normalize_server_url(url: &str) -> (r: String)
    ensures
        r@ == spec_normalize_server_url(url@),
{
    let v = chars_of(url);
    let trimmed = trim_end_char_chars(&trim_chars(&v), '/');
    let suffix = chars_of("/mcp");
    proof {
        reveal_strlit("/mcp");
        assert(suffix@ =~= mcp_suffix());
    }
    let base = match strip_suffix_chars(&trimmed, &suffix) {
        Some(b) => b,
        None => trimmed,
    };
    let out = trim_end_char_chars(&base, '/');
    string_from_chars(out.as_slice())
}

/// A normalized URL never ends with `/`.
pub proof fn lemma_normalized_has_no_trailing_slash(url: Seq<char>)
    ensures
        spec_normalize_server_url(url).len() == 0 || spec_normalize_server_url(url).last() != '/',
{
    let trimmed = trim_end_char(trim(url), '/');
    let base = match strip_suffix(trimmed, mcp_suffix()) {
        Some(b) => b,
        None => trimmed,
    };
    lemma_trim_end_char_no_trailing(base, '/');
}

/// A server base without surrounding whitespace, trailing `/` or trailing `/mcp` is its own
/// normal form, and pasting it with a trailing `/`, `/mcp` or `/mcp/` normalizes back to it.
pub proof fn lemma_normalize_recovers_base(b: Seq<char>)
    requires
        b.len() > 0 ==> !is_white(b[0]) && !is_white(b.last()) && b.last() != '/',
        strip_suffix(b, mcp_suffix()) is None,
    ensures
        spec_normalize_server_url(b) == b,
        spec_normalize_server_url(b + seq!['/']) == b,
        spec_normalize_server_url(b + mcp_suffix()) == b,
        spec_normalize_server_url(b + mcp_suffix() + seq!['/']) == b,
{
    let m = mcp_suffix();
    let slash = seq!['/'];
    // b itself
    assert(trim_end(b) == b);
    assert(trim_start(b) == b);
    assert(trim_end_char(b, '/') == b);
    // b + "/"
    let b1 = b + slash;
    assert(b1.last() == '/');
    assert(b1[0] == if b.len() > 0 { b[0] } else { '/' });
    assert(trim_end(b1) == b1);
    assert(trim_start(b1) == b1);
    assert(b1.drop_last() =~= b);
    assert(trim_end_char(b1, '/') == trim_end_char(b, '/'));
    // b + "/mcp"
    let b2 = b + m;
    assert(b2.last() == 'p');
    assert(b2[0] == if b.len() > 0 { b[0] } else { '/' });
    assert(trim_end(b2) == b2);
    assert(trim_start(b2) == b2);
    assert(trim_end_char(b2, '/') == b2);
    assert(b2.subrange(b2.len() - 4, b2.len() as int) =~= m);
    assert(b2.subrange(0, b2.len() - 4) =~= b);
    // b + "/mcp/"
    let b3 = b + m + slash;
    assert(b3.last() == '/');
    assert(b3[0] == if b.len() > 0 { b[0] } else { '/' });
    assert(trim_end(b3) == b3);
    assert(trim_start(b3) == b3);
    assert(b3.drop_last() =~= b2);
    assert(trim_end_char(b3, '/') == trim_end_char(b2, '/'));
}

/// The config directory name, also the `.gitignore` entry.
pub const CONFIG_DIR: &'static str = ".gt-config";

/// The active-pointer file inside [`CONFIG_DIR`].
pub const ACTIVE_FILE: &'static str = "config.toml";

/// The characters of [`CONFIG_DIR`].
pub open spec fn config_dir_name() -> Seq<char> {
    seq!['.', 'g', 't', '-', 'c', 'o', 'n', 'f', 'i', 'g']
}

/// The characters of [`ACTIVE_FILE`].
pub open spec fn active_file_name() -> Seq<char> {
    seq!['c', 'o', 'n', 'f', 'i', 'g', '.', 't', 'o', 'm', 'l']
}

/// The characters of `.toml`.
pub open spec fn toml_ext() -> Seq<char> {
    seq!['.', 't', 'o', 'm', 'l']
}

/// `PathBuf::join` of a relative component: the component is appended after a `/`, unless the
/// base is empty or already ends with `/`.
pub open spec fn path_join(base: Seq<char>, rel: Seq<char>) -> Seq<char> {
    if base.len() == 0 {
        rel
    } else if base.last() == '/' {
        base + rel
    } else {
        base + seq!['/'] + rel
    }
}

/// `PathBuf::join` for a relative component, on character vectors.
pub fn path_join_chars(base: &Vec<char>, rel: &Vec<char>) -> (r: Vec<char>)
    ensures
        r@ == path_join(base@, rel@),
{
    let mut r: Vec<char> = Vec::new();
    if base.len() == 0 {
        r = subvec(rel, 0, rel.len());
        assert(rel@.subrange(0, rel@.len() as int) == rel@);
        return r;
    }
    r = subvec(base, 0, base.len());
    assert(base@.subrange(0, base@.len() as int) == base@);
    if base[base.len() - 1] != '/' {
        r.push('/');
    }
    let mut i: usize = 0;
    let ghost start = r@;
    while i < rel.len()
        invariant
            i <= rel.len(),
            r@ == start + rel@.subrange(0, i as int),
        decreases rel.len() - i,
    {
        r.push(rel[i]);
        i = i + 1;
    }
    assert(rel@.subrange(0, rel@.len() as int) == rel@);
    r
}

/// One named config: where the server is, which tenant + rig this project targets, and the
/// token pair obtained at login.
#[derive(Debug, Clone, PartialEq, Eq)]
pub struct ProjectConfig {
    /// Base URL of the gt-mcp-server, e.g. `https://gt.example.com`.
    pub server_url: String,
    /// The workspace id (the `X-Workspace` value / token claim) this config targets.
    pub workspace: String,
    /// The rig prefix new beads land under.
    pub rig: String,
    /// The role this shell speaks as (e.g. sheriff/deacon); optional context.
    pub role: Option<String>,
    /// The short-lived access token.
    pub access_token: String,
    /// The opaque refresh token, exchanged at `/auth/refresh` when the access expires.
    pub refresh_token: String,
}

/// A field-by-field copy of an optional string.
pub fn copy_opt_string(s: &Option<String>) -> (r: Option<String>)
    ensures
        r == *s,
{
    match s {
        Some(x) => Some(x.clone()),
        None => None,
    }
}

impl ProjectConfig {
    /// A field-by-field copy (the same value as `clone`, with the equality stated).
    pub fn copy(&self) -> (r: ProjectConfig)
        ensures
            r == *self,
    {
        ProjectConfig {
            server_url: self.server_url.clone(),
            workspace: self.workspace.clone(),
            rig: self.rig.clone(),
            role: copy_opt_string(&self.role),
            access_token: self.access_token.clone(),
            refresh_token: self.refresh_token.clone(),
        }
    }
}

/// The `config.toml` active pointer as read from disk.
#[derive(Debug, Clone, PartialEq, Eq)]
pub enum ActivePointer {
    /// No pointer file, or one without an `active` key.
    Unset,
    /// The pointer names a config.
    Named(String),
    /// The pointer file exists but could not be read or parsed.
    Unreadable,
}

/// The view of an [`ActivePointer`].
pub enum PointerView {
    Unset,
    Named(Seq<char>),
    Unreadable,
}

/// Why a store operation failed.
#[derive(Debug, Clone, PartialEq, Eq)]
pub enum StoreError {
    /// `<name>.toml` exists but could not be read or parsed.
    Unreadable(String),
    /// `config.toml` exists but could not be read or parsed.
    PointerUnreadable,
    /// `set_active` named a config that does not exist.
    NoSuchConfig(String),
}

/// The contents of a project's `.gt-config/`: every named config (a config that failed to
/// read or parse is `None`) and the active pointer.
pub struct StoreView {
    pub root: Seq<char>,
    pub configs: Map<Seq<char>, Option<ProjectConfig>>,
    pub active: PointerView,
}

/// A project's `.gt-config/` store: the repo root it lives at and the configs it holds.
///
/// The caller loads the on-disk files into the store ([`ConfigStore::load`],
/// [`ConfigStore::load_pointer`]) and writes back what [`ConfigStore::save`] and
/// [`ConfigStore::set_active`] change; the store decides what every operation reads and writes.
#[derive(Debug, Clone)]
pub struct ConfigStore {
    root: String,
    names: Vec<String>,
    configs: Vec<Option<ProjectConfig>>,
    pointer: ActivePointer,
}

/// The value stored under `n` among parallel `names`/`configs`.
pub open spec fn entry_of(
    names: Seq<String>,
    configs: Seq<Option<ProjectConfig>>,
    n: Seq<char>,
) -> Option<ProjectConfig> {
    configs[index_of(names, n)]
}

/// The position of `n` among `names` (meaningful when [`has_name`] holds).
pub open spec fn index_of(names: Seq<String>, n: Seq<char>) -> int {
    choose|i: int| 0 <= i < names.len() && #[trigger] names[i]@ == n
}

/// `n` is among `names`.
pub open spec fn has_name(names: Seq<String>, n: Seq<char>) -> bool {
    exists|i: int| 0 <= i < names.len() && #[trigger] names[i]@ == n
}

/// The map from name to config that parallel `names`/`configs` hold.
pub open spec fn contents_of(names: Seq<String>, configs: Seq<Option<ProjectConfig>>) -> Map<
    Seq<char>,
    Option<ProjectConfig>,
> {
    Map::new(|n: Seq<char>| has_name(names, n), |n: Seq<char>| entry_of(names, configs, n))
}

/// In strictly sorted names, the entry under `names[i]` is `configs[i]`.
pub proof fn lemma_entry_at(names: Seq<String>, configs: Seq<Option<ProjectConfig>>, i: int)
    requires
        strictly_sorted(views(names)),
        0 <= i < names.len(),
    ensures
        has_name(names, names[i]@),
        entry_of(names, configs, names[i]@) == configs[i],
{
    let n = names[i]@;
    assert(names[i]@ == n);
    assert(has_name(names, n));
    let j = index_of(names, n);
    assert(0 <= j < names.len() && names[j]@ == n);
    if j != i {
        let (a, b) = if j < i { (j, i) } else { (i, j) };
        assert(views(names)[a] == names[a]@);
        assert(views(names)[b] == names[b]@);
        assert(lex_lt(views(names)[a], views(names)[b]));
        lemma_lex_irreflexive(n);
    }
    assert(j == i);
    assert(entry_of(names, configs, n) == configs[j]);
}

impl View for ConfigStore {
    type V = StoreView;

    closed spec fn view(&self) -> StoreView {
        StoreView {
            root: self.root@,
            configs: contents_of(self.names@, self.configs@),
            active: match self.pointer {
                ActivePointer::Unset => PointerView::Unset,
                ActivePointer::Named(s) => PointerView::Named(s@),
                ActivePointer::Unreadable => PointerView::Unreadable,
            },
        }
    }
}

impl ConfigStore {
    /// Well-formed: one config per name, names strictly sorted.
    pub closed spec fn wf(&self) -> bool {
        &&& self.names.len() == self.configs.len()
        &&& strictly_sorted(views(self.names@))
    }

    /// The sorted names of the store.
    pub closed spec fn names_view(&self) -> Seq<Seq<char>> {
        views(self.names@)
    }

    /// A store rooted at an explicit directory, with nothing loaded yet.
    pub fn at(root: String) -> (s: Self)
        ensures
            s.wf(),
            s@.root == root@,
            s@.configs == Map::<Seq<char>, Option<ProjectConfig>>::empty(),
            s@.active == PointerView::Unset,
    {
        let s = ConfigStore {
            root,
            names: Vec::new(),
            configs: Vec::new(),
            pointer: ActivePointer::Unset,
        };
        assert(s@.configs =~= Map::<Seq<char>, Option<ProjectConfig>>::empty());
        s
    }

    /// `<root>/.gt-config`.
    pub fn dir(&self) -> (r: String)
        ensures
            r@ == path_join(self@.root, config_dir_name()),
    {
        let d = chars_of(CONFIG_DIR);
        proof {
            reveal_strlit(".gt-config");
            assert(d@ =~= config_dir_name());
        }
        string_from_chars(path_join_chars(&chars_of(self.root.as_str()), &d).as_slice())
    }

    /// `<root>/.gt-config/<name>.toml`.
    pub fn named_path(&self, name: &str) -> (r: String)
        ensures
            r@ == path_join(path_join(self@.root, config_dir_name()), name@ + toml_ext()),
    {
        let d = chars_of(self.dir().as_str());
        let mut f = chars_of(name);
        let ext = chars_of(".toml");
        proof {
            reveal_strlit(".toml");
        }
        let mut i: usize = 0;
        let ghost start = f@;
        while i < ext.len()
            invariant
                i <= ext.len(),
                f@ == start + ext@.subrange(0, i as int),
            decreases ext.len() - i,
        {
            f.push(ext[i]);
            i = i + 1;
        }
        assert(ext@.subrange(0, 5) =~= toml_ext());
        string_from_chars(path_join_chars(&d, &f).as_slice())
    }

    /// `<root>/.gt-config/config.toml`.
    pub fn active_path(&self) -> (r: String)
        ensures
            r@ == path_join(path_join(self@.root, config_dir_name()), active_file_name()),
    {
        let d = chars_of(self.dir().as_str());
        let f = chars_of(ACTIVE_FILE);
        proof {
            reveal_strlit("config.toml");
            assert(f@ =~= active_file_name());
        }
        string_from_chars(path_join_chars(&d, &f).as_slice())
    }
}


/// What looking a name up in a store finds.
pub enum Lookup {
    /// No `<name>.toml`.
    Missing,
    /// `<name>.toml` exists but could not be read or parsed.
    Unreadable,
    /// The config saved under the name.
    Found(ProjectConfig),
}

/// What [`ConfigStore::get`] finds under `n`.
pub open spec fn lookup(v: StoreView, n: Seq<char>) -> Lookup {
    if !v.configs.dom().contains(n) {
        Lookup::Missing
    } else {
        match v.configs[n] {
            Some(c) => Lookup::Found(c),
            None => Lookup::Unreadable,
        }
    }
}

/// `r` is how [`ConfigStore::get`] reports the lookup `l` of `name`.
pub open spec fn reports_lookup(
    r: Result<Option<ProjectConfig>, StoreError>,
    l: Lookup,
    name: Seq<char>,
) -> bool {
    match l {
        Lookup::Missing => r == Ok::<Option<ProjectConfig>, StoreError>(None),
        Lookup::Unreadable => r matches Err(StoreError::Unreadable(s)) && s@ == name,
        Lookup::Found(c) => r == Ok::<Option<ProjectConfig>, StoreError>(Some(c)),
    }
}

/// What the active pointer resolves to.
pub enum ActiveLookup {
    /// No active config selected.
    Unset,
    /// The pointer file could not be read or parsed.
    PointerUnreadable,
    /// The pointer names this config; looking it up finds the second component.
    Named(Seq<char>, Lookup),
}

/// Why there is no active config to use.
#[derive(Debug, Clone, PartialEq, Eq)]
pub enum ActiveError {
    /// The store could not be read.
    Store(StoreError),
    /// No active config is selected.
    NoActive,
    /// The active pointer names a config that does not exist.
    ActiveMissing(String),
}

/// What [`ConfigStore::active`] resolves in the store `v`.
pub open spec fn active_lookup(v: StoreView) -> ActiveLookup {
    match v.active {
        PointerView::Unset => ActiveLookup::Unset,
        PointerView::Unreadable => ActiveLookup::PointerUnreadable,
        PointerView::Named(n) => ActiveLookup::Named(n, lookup(v, n)),
    }
}

/// The store `v` after saving `c` under `n`, and pointing the active file at it when
/// `make_active`.
pub open spec fn saved(v: StoreView, n: Seq<char>, c: ProjectConfig, make_active: bool) -> StoreView {
    StoreView {
        root: v.root,
        configs: v.configs.insert(n, Some(c)),
        active: if make_active {
            PointerView::Named(n)
        } else {
            v.active
        },
    }
}

impl ConfigStore {
    /// Insert or replace the entry under `name`.
    fn upsert(&mut self, name: &str, config: Option<ProjectConfig>)
        requires
            old(self).wf(),
        ensures
            final(self).wf(),
            final(self)@.root == old(self)@.root,
            final(self)@.active == old(self)@.active,
            final(self)@.configs == old(self)@.configs.insert(name@, config),
    {
        let x = chars_of(name);
        let ghost old_names = self.names@;
        let ghost old_configs = self.configs@;
        let ghost old_map = contents_of(old_names, old_configs);
        let (p, found) = sorted_position(&self.names, &x);
        if found {
            self.configs.set(p, config);
            proof {
                let new_map = contents_of(self.names@, self.configs@);
                assert forall|k: Seq<char>| #[trigger] new_map.dom().contains(k) <==> old_map.insert(
                    name@,
                    config,
                ).dom().contains(k) by {
                    if k == name@ {
                        assert(self.names@[p as int]@ == k);
                    }
                }
                assert forall|k: Seq<char>| new_map.dom().contains(k) implies #[trigger] new_map[k]
                    == old_map.insert(name@, config)[k] by {
                    if k == name@ {
                        lemma_entry_at(self.names@, self.configs@, p as int);
                    } else {
                        let j = index_of(old_names, k);
                        assert(has_name(old_names, k));
                        lemma_entry_at(old_names, old_configs, j);
                        lemma_entry_at(self.names@, self.configs@, j);
                        assert(j != p);
                    }
                }
                assert(new_map =~= old_map.insert(name@, config));
            }
        } else {
            let s = name.to_owned();
            self.names.insert(p, s);
            self.configs.insert(p, config);
            proof {
                let nn = self.names@;
                let nc = self.configs@;
                assert(nn == old_names.insert(p as int, s));
                assert forall|i: int, j: int| 0 <= i < j < nn.len() implies lex_lt(
                    views(nn)[i],
                    views(nn)[j],
                ) by {
                    assert(views(nn)[i] == nn[i]@);
                    assert(views(nn)[j] == nn[j]@);
                    if j < p {
                        assert(views(old_names)[i] == old_names[i]@);
                        assert(views(old_names)[j] == old_names[j]@);
                    } else if j == p {
                    } else if i < p {
                        assert(lex_lt(old_names[i]@, x@));
                        assert(lex_lt(x@, old_names[j - 1]@));
                        lemma_lex_transitive(old_names[i]@, x@, old_names[j - 1]@);
                    } else if i == p {
                    } else {
                        assert(views(old_names)[i - 1] == old_names[i - 1]@);
                        assert(views(old_names)[j - 1] == old_names[j - 1]@);
                    }
                }
                let new_map = contents_of(nn, nc);
                assert forall|k: Seq<char>| #[trigger] new_map.dom().contains(k) <==> old_map.insert(
                    name@,
                    config,
                ).dom().contains(k) by {
                    if k == name@ {
                        assert(nn[p as int]@ == k);
                    } else if has_name(old_names, k) {
                        let j = index_of(old_names, k);
                        if j < p {
                            assert(nn[j]@ == k);
                        } else {
                            assert(nn[j + 1]@ == k);
                        }
                    } else if has_name(nn, k) {
                        let j = index_of(nn, k);
                        if j < p {
                            assert(old_names[j]@ == k);
                        } else if j > p {
                            assert(old_names[j - 1]@ == k);
                        }
                    }
                }
                assert forall|k: Seq<char>| new_map.dom().contains(k) implies #[trigger] new_map[k]
                    == old_map.insert(name@, config)[k] by {
                    if k == name@ {
                        lemma_entry_at(nn, nc, p as int);
                    } else {
                        let j = index_of(old_names, k);
                        assert(has_name(old_names, k));
                        lemma_entry_at(old_names, old_configs, j);
                        if j < p {
                            lemma_entry_at(nn, nc, j);
                        } else {
                            lemma_entry_at(nn, nc, j + 1);
                        }
                    }
                }
                assert(new_map =~= old_map.insert(name@, config));
            }
        }
    }

    /// Load one `<name>.toml` read from disk into the store: its parsed config, or `None` when
    /// the file could not be read or parsed.
    pub fn load(&mut self, name: &str, config: Option<ProjectConfig>)
        requires
            old(self).wf(),
        ensures
            final(self).wf(),
            final(self)@.root == old(self)@.root,
            final(self)@.active == old(self)@.active,
            final(self)@.configs == old(self)@.configs.insert(name@, config),
    {
        self.upsert(name, config);
    }

    /// Load the active pointer read from `config.toml`.
    pub fn load_pointer(&mut self, pointer: ActivePointer)
        requires
            old(self).wf(),
        ensures
            final(self).wf(),
            final(self)@.root == old(self)@.root,
            final(self)@.configs == old(self)@.configs,
            final(self)@.active == (match pointer {
                ActivePointer::Unset => PointerView::Unset,
                ActivePointer::Named(s) => PointerView::Named(s@),
                ActivePointer::Unreadable => PointerView::Unreadable,
            }),
    {
        self.pointer = pointer;
    }

    /// Names of every saved config, sorted, without duplicates.
    pub fn list(&self) -> (r: Vec<String>)
        requires
            self.wf(),
        ensures
            views(r@) == self.names_view(),
            strictly_sorted(views(r@)),
            forall|n: Seq<char>| views(r@).contains(n) <==> self@.configs.dom().contains(n),
    {
        let mut r: Vec<String> = Vec::new();
        let mut i: usize = 0;
        while i < self.names.len()
            invariant
                i <= self.names.len(),
                r@ == self.names@.subrange(0, i as int),
            decreases self.names.len() - i,
        {
            r.push(self.names[i].clone());
            i = i + 1;
        }
        proof {
            assert(r@ == self.names@);
            assert forall|n: Seq<char>| views(r@).contains(n) <==> self@.configs.dom().contains(n) by {
                if views(r@).contains(n) {
                    let k = choose|k: int| 0 <= k < views(r@).len() && views(r@)[k] == n;
                    assert(r@[k]@ == n);
                }
                if self@.configs.dom().contains(n) {
                    let k = index_of(self.names@, n);
                    assert(views(r@)[k] == n);
                }
            }
        }
        r
    }

    /// Read one named config: `None` when no such `<name>.toml` exists.
    pub fn get(&self, name: &str) -> (r: Result<Option<ProjectConfig>, StoreError>)
        requires
            self.wf(),
        ensures
            reports_lookup(r, lookup(self@, name@), name@),
    {
        let x = chars_of(name);
        let (p, found) = sorted_position(&self.names, &x);
        if !found {
            assert(!self@.configs.dom().contains(name@));
            return Ok(None);
        }
        proof {
            lemma_entry_at(self.names@, self.configs@, p as int);
        }
        match &self.configs[p] {
            Some(c) => Ok(Some(c.copy())),
            None => Err(StoreError::Unreadable(name.to_owned())),
        }
    }

    /// The name of the active config, if the pointer is set.
    pub fn active_name(&self) -> (r: Result<Option<String>, StoreError>)
        ensures
            match self@.active {
                PointerView::Unset => r == Ok::<Option<String>, StoreError>(None),
                PointerView::Named(n) => r matches Ok(Some(s)) && s@ == n,
                PointerView::Unreadable => r == Err::<Option<String>, StoreError>(
                    StoreError::PointerUnreadable,
                ),
            },
    {
        match &self.pointer {
            ActivePointer::Unset => Ok(None),
            ActivePointer::Named(s) => Ok(Some(s.clone())),
            ActivePointer::Unreadable => Err(StoreError::PointerUnreadable),
        }
    }

    /// The active config itself, resolving the pointer through [`ConfigStore::get`].
    pub fn active(&self) -> (r: Result<Option<ProjectConfig>, StoreError>)
        requires
            self.wf(),
        ensures
            match active_lookup(self@) {
                ActiveLookup::Unset => r == Ok::<Option<ProjectConfig>, StoreError>(None),
                ActiveLookup::PointerUnreadable => r == Err::<Option<ProjectConfig>, StoreError>(
                    StoreError::PointerUnreadable,
                ),
                ActiveLookup::Named(n, l) => reports_lookup(r, l, n),
            },
    {
        match self.active_name() {
            Err(e) => Err(e),
            Ok(None) => Ok(None),
            Ok(Some(name)) => self.get(name.as_str()),
        }
    }

    /// The active config's name and contents, or why there is none: the pointer is unset or
    /// unreadable, or names a config that is missing or unreadable.
    pub fn active_entry(&self) -> (r: Result<(String, ProjectConfig), ActiveError>)
        requires
            self.wf(),
        ensures
            match active_lookup(self@) {
                ActiveLookup::Unset => r == Err::<(String, ProjectConfig), ActiveError>(
                    ActiveError::NoActive,
                ),
                ActiveLookup::PointerUnreadable => r == Err::<(String, ProjectConfig), ActiveError>(
                    ActiveError::Store(StoreError::PointerUnreadable),
                ),
                ActiveLookup::Named(n, Lookup::Missing) => r matches Err(
                    ActiveError::ActiveMissing(s),
                ) && s@ == n,
                ActiveLookup::Named(n, Lookup::Unreadable) => r matches Err(
                    ActiveError::Store(StoreError::Unreadable(s)),
                ) && s@ == n,
                ActiveLookup::Named(n, Lookup::Found(c)) => r matches Ok((s, d)) && s@ == n && d
                    == c,
            },
    {
        let name = match self.active_name() {
            Err(e) => {
                return Err(ActiveError::Store(e));
            },
            Ok(None) => {
                return Err(ActiveError::NoActive);
            },
            Ok(Some(n)) => n,
        };
        match self.get(name.as_str()) {
            Err(e) => Err(ActiveError::Store(e)),
            Ok(None) => Err(ActiveError::ActiveMissing(name)),
            Ok(Some(c)) => Ok((name, c)),
        }
    }

    /// Point the active file at `name`; errors when no such config exists (or it cannot be
    /// read), leaving the store unchanged, so the pointer can never dangle.
    pub fn set_active(&mut self, name: &str) -> (r: Result<(), StoreError>)
        requires
            old(self).wf(),
        ensures
            final(self).wf(),
            match lookup(old(self)@, name@) {
                Lookup::Found(_) => r is Ok && final(self)@ == (StoreView {
                    active: PointerView::Named(name@),
                    ..old(self)@
                }),
                Lookup::Missing => r matches Err(StoreError::NoSuchConfig(s)) && s@ == name@
                    && final(self)@ == old(self)@,
                Lookup::Unreadable => r matches Err(StoreError::Unreadable(s)) && s@ == name@
                    && final(self)@ == old(self)@,
            },
    {
        match self.get(name) {
            Err(e) => Err(e),
            Ok(None) => Err(StoreError::NoSuchConfig(name.to_owned())),
            Ok(Some(_)) => {
                self.pointer = ActivePointer::Named(name.to_owned());
                Ok(())
            },
        }
    }

    /// Write a named config and, when `make_active`, point the active file at it. (The caller
    /// ensures `.gt-config/` is git-ignored and writes the changed files back.)
    pub fn save(&mut self, name: &str, cfg: &ProjectConfig, make_active: bool) -> (r: Result<
        (),
        StoreError,
    >)
        requires
            old(self).wf(),
        ensures
            final(self).wf(),
            r is Ok,
            final(self)@ == saved(old(self)@, name@, *cfg, make_active),
    {
        self.upsert(name, Some(cfg.copy()));
        if make_active {
            let res = self.set_active(name);
            assert(lookup(self@, name@) == Lookup::Found(*cfg));
            assert(res is Ok);
        }
        Ok(())
    }
}

/// The store's names are its configs' names, sorted and without duplicates.
pub proof fn lemma_names_view(store: &ConfigStore)
    requires
        store.wf(),
    ensures
        strictly_sorted(store.names_view()),
        forall|n: Seq<char>| store.names_view().contains(n) <==> store@.configs.dom().contains(n),
{
    assert forall|n: Seq<char>| store.names_view().contains(n) <==> store@.configs.dom().contains(n) by {
        if store.names_view().contains(n) {
            let k = choose|k: int| 0 <= k < store.names_view().len() && store.names_view()[k] == n;
            assert(store.names@[k]@ == n);
        }
        if store@.configs.dom().contains(n) {
            let k = index_of(store.names@, n);
            assert(store.names_view()[k] == n);
        }
    }
}

/// Read what you wrote: after saving `c` under `n`, looking `n` up finds `c`, and every other
/// name finds what it found before.
pub proof fn lemma_save_then_get(v: StoreView, n: Seq<char>, c: ProjectConfig, make_active: bool, m: Seq<char>)
    ensures
        lookup(saved(v, n, c, make_active), n) == Lookup::Found(c),
        m != n ==> lookup(saved(v, n, c, make_active), m) == lookup(v, m),
{
}

/// Saving with `make_active` makes the saved config the active one.
pub proof fn lemma_save_active(v: StoreView, n: Seq<char>, c: ProjectConfig)
    ensures
        active_lookup(saved(v, n, c, true)) == ActiveLookup::Named(n, Lookup::Found(c)),
{
}

/// Saving without `make_active` leaves the active pointer alone.
pub proof fn lemma_save_keeps_pointer(v: StoreView, n: Seq<char>, c: ProjectConfig)
    ensures
        saved(v, n, c, false).active == v.active,
{
}


/// `f` names a saved config: a `<stem>.toml` file with a non-empty stem, other than
/// [`ACTIVE_FILE`].
pub open spec fn is_config_file(f: Seq<char>) -> bool {
    &&& f.len() > 5
    &&& f.subrange(f.len() - 5, f.len() as int) == toml_ext()
    &&& f != active_file_name()
}

/// The stem of a `<stem>.toml` file name.
pub open spec fn toml_stem(f: Seq<char>) -> Seq<char> {
    f.subrange(0, f.len() - 5)
}

/// Insert `s` into the strictly sorted `names` (no change when it is already there).
pub fn insert_sorted(names: &mut Vec<String>, s: String)
    requires
        strictly_sorted(views(old(names)@)),
    ensures
        strictly_sorted(views(final(names)@)),
        forall|n: Seq<char>| #[trigger] has_name(final(names)@, n) <==> (has_name(old(names)@, n) || n == s@),
{
    let x = chars_of(s.as_str());
    let ghost old_names = names@;
    let (p, found) = sorted_position(names, &x);
    if found {
        assert forall|n: Seq<char>| #[trigger] has_name(names@, n) <==> (has_name(old_names, n) || n == s@) by {
            if n == s@ {
                assert(names@[p as int]@ == n);
            }
        }
        return;
    }
    names.insert(p, s);
    proof {
        let nn = names@;
        assert forall|i: int, j: int| 0 <= i < j < nn.len() implies lex_lt(views(nn)[i], views(nn)[j]) by {
            assert(views(nn)[i] == nn[i]@);
            assert(views(nn)[j] == nn[j]@);
            if j < p {
                assert(views(old_names)[i] == old_names[i]@);
                assert(views(old_names)[j] == old_names[j]@);
            } else if j == p {
            } else if i < p {
                lemma_lex_transitive(old_names[i]@, x@, old_names[j - 1]@);
            } else if i == p {
            } else {
                assert(views(old_names)[i - 1] == old_names[i - 1]@);
                assert(views(old_names)[j - 1] == old_names[j - 1]@);
            }
        }
        assert forall|n: Seq<char>| #[trigger] has_name(nn, n) <==> (has_name(old_names, n) || n == s@) by {
            if n == s@ {
                assert(nn[p as int]@ == n);
            } else if has_name(old_names, n) {
                let j = index_of(old_names, n);
                if j < p {
                    assert(nn[j]@ == n);
                } else {
                    assert(nn[j + 1]@ == n);
                }
            } else if has_name(nn, n) {
                let j = index_of(nn, n);
                if j < p {
                    assert(old_names[j]@ == n);
                } else if j > p {
                    assert(old_names[j - 1]@ == n);
                }
            }
        }
    }
}

/// The names of the saved configs among the file names of a `.gt-config/` directory: the stems
/// of the `<stem>.toml` files other than [`ACTIVE_FILE`], sorted, without duplicates.
pub fn config_names(file_names: &Vec<String>) -> (r: Vec<String>)
    ensures
        strictly_sorted(views(r@)),
        forall|n: Seq<char>| #[trigger] has_name(r@, n) <==> exists|i: int| 0 <= i < file_names.len()
            && is_config_file(#[trigger] file_names@[i]@) && toml_stem(file_names@[i]@) == n,
{
    let mut r: Vec<String> = Vec::new();
    let ext = chars_of(".toml");
    let active = chars_of(ACTIVE_FILE);
    proof {
        reveal_strlit(".toml");
        reveal_strlit("config.toml");
        assert(ext@ =~= toml_ext());
        assert(active@ =~= active_file_name());
    }
    let mut i: usize = 0;
    while i < file_names.len()
        invariant
            i <= file_names.len(),
            ext@ == toml_ext(),
            active@ == active_file_name(),
            strictly_sorted(views(r@)),
            forall|n: Seq<char>| #[trigger] has_name(r@, n) <==> exists|k: int| 0 <= k < i
                && is_config_file(#[trigger] file_names@[k]@) && toml_stem(file_names@[k]@) == n,
        decreases file_names.len() - i,
    {
        let f = chars_of(file_names[i].as_str());
        let ghost before = r@;
        if f.len() > 5 && matches_at(&f, f.len() - 5, &ext) && !chars_eq(&f, &active) {
            let stem = subvec(&f, 0, f.len() - 5);
            insert_sorted(&mut r, string_from_chars(stem.as_slice()));
        }
        proof {
            assert forall|n: Seq<char>| #[trigger] has_name(r@, n) <==> exists|k: int| 0 <= k < i + 1
                && is_config_file(#[trigger] file_names@[k]@) && toml_stem(file_names@[k]@) == n by {
                if exists|k: int| 0 <= k < i + 1 && is_config_file(#[trigger] file_names@[k]@)
                    && toml_stem(file_names@[k]@) == n {
                    let k = choose|k: int| 0 <= k < i + 1 && is_config_file(#[trigger] file_names@[k]@)
                        && toml_stem(file_names@[k]@) == n;
                    if k < i {
                        assert(has_name(before, n));
                    }
                }
                if has_name(before, n) {
                    let k = choose|k: int| 0 <= k < i && is_config_file(#[trigger] file_names@[k]@)
                        && toml_stem(file_names@[k]@) == n;
                    assert(0 <= k < i + 1);
                }
            }
        }
        i = i + 1;
    }
    r
}

/// One ancestor directory of the working directory, and whether it holds a `.git` entry.
#[derive(Debug, Clone)]
pub struct Ancestor {
    pub path: String,
    pub has_git: bool,
}

/// The repo root: the nearest of `ancestors` (listed from the working directory upward) holding
/// a `.git`; `start` itself when none does.
pub fn find_repo_root(start: &str, ancestors: &Vec<Ancestor>) -> (r: String)
    ensures
        (exists|i: int| 0 <= i < ancestors.len() && ancestors@[i].has_git) ==> exists|i: int|
            0 <= i < ancestors.len() && ancestors@[i].has_git && r@ == ancestors@[i].path@ && forall|
                k: int,
            | 0 <= k < i ==> !ancestors@[k].has_git,
        (forall|i: int| 0 <= i < ancestors.len() ==> !ancestors@[i].has_git) ==> r@ == start@,
{
    let mut i: usize = 0;
    while i < ancestors.len()
        invariant
            i <= ancestors.len(),
            forall|k: int| 0 <= k < i ==> !ancestors@[k].has_git,
        decreases ancestors.len() - i,
    {
        if ancestors[i].has_git {
            return ancestors[i].path.clone();
        }
        i = i + 1;
    }
    start.to_owned()
}


/// The `.gitignore` entry for the config directory: `.gt-config/`.
pub open spec fn ignore_entry() -> Seq<char> {
    config_dir_name().push('/')
}

/// `c[i..j]` is a line of `c`: a maximal run of characters without `\n`.
pub open spec fn is_line(c: Seq<char>, i: int, j: int) -> bool {
    &&& 0 <= i <= j <= c.len()
    &&& (i == 0 || c[i - 1] == '\n')
    &&& (j == c.len() || c[j] == '\n')
    &&& forall|k: int| i <= k < j ==> c[k] != '\n'
}

/// The line `c[i..j]`, trimmed, is `.gt-config/` or `.gt-config`.
pub open spec fn is_ignore_line(c: Seq<char>, i: int, j: int) -> bool {
    trim(c.subrange(i, j)) == ignore_entry() || trim(c.subrange(i, j)) == config_dir_name()
}

/// Some line of the `.gitignore` text `c` ignores the config directory.
pub open spec fn ignores_config_dir(c: Seq<char>) -> bool {
    exists|i: int, j: int| is_line(c, i, j) && is_ignore_line(c, i, j)
}

/// The new `.gitignore` contents that guarantee the config directory is ignored, given the
/// current contents (`None` when there is no `.gitignore`); `None` when nothing must change.
pub open spec fn spec_gitignore_update(existing: Option<Seq<char>>) -> Option<Seq<char>> {
    match existing {
        None => Some(ignore_entry().push('\n')),
        Some(c) => if ignores_config_dir(c) {
            None
        } else {
            let sep = if c.len() > 0 && c.last() != '\n' {
                seq!['\n']
            } else {
                Seq::<char>::empty()
            };
            Some(c + sep + ignore_entry().push('\n'))
        },
    }
}

/// The view of an optional string.
pub open spec fn opt_view(o: Option<String>) -> Option<Seq<char>> {
    match o {
        Some(s) => Some(s@),
        None => None,
    }
}

/// The first `\n` at or after `st`, or the end of `c`.
fn line_end(c: &Vec<char>, st: usize) -> (en: usize)
    requires
        st <= c.len(),
    ensures
        st <= en <= c.len(),
        en == c.len() || c@[en as int] == '\n',
        forall|k: int| st <= k < en ==> c@[k] != '\n',
{
    let mut en: usize = st;
    while en < c.len() && c[en] != '\n'
        invariant
            st <= en <= c.len(),
            forall|k: int| st <= k < en ==> c@[k] != '\n',
        decreases c.len() - en,
    {
        en = en + 1;
    }
    en
}

/// Whether some line of `c` ignores the config directory.
fn has_ignore_line(c: &Vec<char>) -> (b: bool)
    ensures
        b == ignores_config_dir(c@),
{
    let entry = chars_of(".gt-config/");
    let dir = chars_of(CONFIG_DIR);
    proof {
        reveal_strlit(".gt-config/");
        reveal_strlit(".gt-config");
        assert(entry@ =~= ignore_entry());
        assert(dir@ =~= config_dir_name());
    }
    let mut st: usize = 0;
    loop
        invariant
            st <= c.len(),
            entry@ == ignore_entry(),
            dir@ == config_dir_name(),
            st == 0 || c@[st - 1] == '\n',
            forall|i: int, j: int| #![trigger is_line(c@, i, j)] is_line(c@, i, j) && i < st ==> !is_ignore_line(c@, i, j),
        decreases c.len() - st,
    {
        let en = line_end(c, st);
        let line = trim_chars(&subvec(c, st, en));
        if chars_eq(&line, &entry) || chars_eq(&line, &dir) {
            assert(is_line(c@, st as int, en as int));
            return true;
        }
        proof {
            assert forall|i: int, j: int| #![trigger is_line(c@, i, j)] is_line(c@, i, j) && i < en + 1 implies !is_ignore_line(c@, i, j) by {
                if i >= st {
                    if i > st {
                        assert(c@[i - 1] == '\n');
                        assert(i - 1 == en);
                    }
                    if j < en {
                        assert(c@[j] == '\n');
                    }
                    if j > en {
                        assert(c@[en as int] == '\n');
                    }
                }
            }
        }
        if en == c.len() {
            assert forall|i: int, j: int| is_line(c@, i, j) implies !is_ignore_line(c@, i, j) by {
                assert(is_line(c@, i, j) && i < en + 1);
            }
            return false;
        }
        st = en + 1;
    }
}

/// Guarantee that `.gitignore` ignores `.gt-config/`: given its current contents (`None` when it
/// does not exist), the contents to write — the single entry when it is absent, the existing
/// text with the entry appended when no line (trimmed) is `.gt-config/` or `.gt-config` — or
/// `None` when it is already correct (nothing to write).
pub fn ensure_gitignored(existing: Option<&str>) -> (r: Option<String>)
    ensures
        opt_view(r) == spec_gitignore_update(match existing {
            Some(s) => Some(s@),
            None => None,
        }),
        existing is None ==> (r is Some && r->0@ == ".gt-config/\n"@),
        existing is Some && ignores_config_dir(existing->0@) ==> r is None,
{
    let entry = chars_of(".gt-config/\n");
    proof {
        reveal_strlit(".gt-config/\n");
        assert(entry@ =~= ignore_entry().push('\n'));
    }
    match existing {
        None => Some(string_from_chars(entry.as_slice())),
        Some(s) => {
            let c = chars_of(s);
            if has_ignore_line(&c) {
                return None;
            }
            let mut next = subvec(&c, 0, c.len());
            assert(c@.subrange(0, c@.len() as int) == c@);
            if c.len() > 0 && c[c.len() - 1] != '\n' {
                next.push('\n');
            }
            let ghost start = next@;
            let mut i: usize = 0;
            while i < entry.len()
                invariant
                    i <= entry.len(),
                    next@ == start + entry@.subrange(0, i as int),
                decreases entry.len() - i,
            {
                next.push(entry[i]);
                i = i + 1;
            }
            proof {
                assert(entry@.subrange(0, entry@.len() as int) == entry@);
                let sep = if c@.len() > 0 && c@.last() != '\n' {
                    seq!['\n']
                } else {
                    Seq::<char>::empty()
                };
                assert(start =~= c@ + sep);
            }
            Some(string_from_chars(next.as_slice()))
        },
    }
}

/// After [`ensure_gitignored`] wrote its update, the file ignores the config directory, so a
/// second call changes nothing; the previous contents are kept as a prefix.
pub proof fn lemma_gitignore_update_idempotent(existing: Option<Seq<char>>)
    ensures
        spec_gitignore_update(existing) matches Some(next) ==> {
            &&& ignores_config_dir(next)
            &&& spec_gitignore_update(Some(next)) is None
            &&& existing matches Some(c) ==> next.subrange(0, c.len() as int) == c
        },
{
    if let Some(next) = spec_gitignore_update(existing) {
        let e = ignore_entry();
        let (i, j) = match existing {
            None => (0int, e.len() as int),
            Some(c) => {
                let sep = if c.len() > 0 && c.last() != '\n' {
                    seq!['\n']
                } else {
                    Seq::<char>::empty()
                };
                assert(next.subrange(0, c.len() as int) =~= c);
                ((c + sep).len() as int, ((c + sep).len() + e.len()) as int)
            },
        };
        assert(next.subrange(i, j) =~= e);
        assert(next[j] == '\n');
        assert(trim_end(e) == e);
        assert(trim_start(e) == e);
        assert(is_line(next, i, j));
        assert(is_ignore_line(next, i, j));
    }
}

/// A line counts wherever it stands, the last one too when no newline ends it: a text made of
/// whole lines `prefix` followed by a line that trims to `.gt-config/` or `.gt-config` already
/// ignores the config directory, so [`ensure_gitignored`] leaves it as it is.
pub proof fn lemma_last_line_counts(prefix: Seq<char>, line: Seq<char>)
    requires
        prefix.len() == 0 || prefix.last() == '\n',
        forall|k: int| 0 <= k < line.len() ==> line[k] != '\n',
        trim(line) == ignore_entry() || trim(line) == config_dir_name(),
    ensures
        ignores_config_dir(prefix + line),
        spec_gitignore_update(Some(prefix + line)) is None,
{
    let c = prefix + line;
    let i = prefix.len() as int;
    let j = c.len() as int;
    assert(c.subrange(i, j) =~= line);
    assert forall|k: int| i <= k < j implies c[k] != '\n' by {
        assert(c[k] == line[k - i]);
    }
    assert(is_line(c, i, j));
    assert(is_ignore_line(c, i, j));
}

/// `.gt-config/` and `.gt-config` are already trimmed.
proof fn lemma_entry_names_trimmed()
    ensures
        trim(ignore_entry()) == ignore_entry(),
        trim(config_dir_name()) == config_dir_name(),
{
    let e = ignore_entry();
    let d = config_dir_name();
    assert(trim_end(e) == e);
    assert(trim_start(e) == e);
    assert(trim_end(d) == d);
    assert(trim_start(d) == d);
}

/// The entry followed by a newline, after whole lines, is an ignoring line.
#[verifier::spinoff_prover]
proof fn lemma_entry_line_with_newline(prefix: Seq<char>)
    requires
        prefix.len() == 0 || prefix.last() == '\n',
    ensures
        ignores_config_dir(prefix + ignore_entry().push('\n')),
{
    let e = ignore_entry();
    lemma_entry_names_trimmed();
    let c = prefix + e.push('\n');
    let i = prefix.len() as int;
    let j = i + e.len();
    assert(c.subrange(i, j) =~= e);
    assert(c[j] == '\n');
    assert forall|k: int| i <= k < j implies c[k] != '\n' by {
        assert(c[k] == e[k - i]);
    }
    assert(is_line(c, i, j));
    assert(is_ignore_line(c, i, j));
}

/// The entry as the very last line, with or without a newline after it, needs no update.
#[verifier::spinoff_prover]
pub proof fn lemma_entry_last_line_needs_no_update(prefix: Seq<char>)
    requires
        prefix.len() == 0 || prefix.last() == '\n',
    ensures
        spec_gitignore_update(Some(prefix + ignore_entry())) is None,
        spec_gitignore_update(Some(prefix + config_dir_name())) is None,
        spec_gitignore_update(Some(prefix + ignore_entry().push('\n'))) is None,
{
    lemma_entry_names_trimmed();
    lemma_last_line_counts(prefix, ignore_entry());
    lemma_last_line_counts(prefix, config_dir_name());
    lemma_entry_line_with_newline(prefix);
}

/// One write that saving a config makes on disk.
#[derive(Debug, Clone, PartialEq, Eq)]
pub enum SaveWrite {
    /// Write `<root>/.gitignore` with this text, so that it ignores `.gt-config/`.
    Gitignore(String),
    /// Create `<root>/.gt-config/`.
    ConfigDir,
    /// Write `<name>.toml` with the config (its tokens included).
    Config,
    /// Point `config.toml` at the saved name.
    Pointer,
}

/// The `.gitignore` text as it stands after the writes `w`, starting from `existing`.
pub open spec fn gitignore_after(existing: Option<Seq<char>>, w: Seq<SaveWrite>) -> Option<Seq<char>>
    decreases w.len(),
{
    if w.len() == 0 {
        existing
    } else {
        match w.last() {
            SaveWrite::Gitignore(t) => Some(t@),
            _ => gitignore_after(existing, w.drop_last()),
        }
    }
}

/// The writes that saving a config makes, in order, given the `.gitignore` text there is
/// (`None` when there is none): the `.gitignore` edit when it does not ignore `.gt-config/`
/// yet, then the directory, the config, and, when `make_active`, the pointer.
pub fn save_writes(existing_gitignore: Option<&str>, make_active: bool) -> (r: Vec<SaveWrite>)
    ensures
        ({
            let u = spec_gitignore_update(str_view(existing_gitignore));
            let off: int = if u is Some {
                1
            } else {
                0
            };
            &&& r@.len() == off + 2 + (if make_active {
                1int
            } else {
                0
            })
            &&& u matches Some(t) ==> (r@[0] matches SaveWrite::Gitignore(x) && x@ == t)
            &&& r@[off] == SaveWrite::ConfigDir
            &&& r@[off + 1] == SaveWrite::Config
            &&& make_active ==> r@[off + 2] == SaveWrite::Pointer
            &&& gitignore_after(str_view(existing_gitignore), r@.take(off + 2)) matches Some(c)
                && ignores_config_dir(c)
        }),
{
    let mut w: Vec<SaveWrite> = Vec::new();
    match ensure_gitignored(existing_gitignore) {
        Some(t) => w.push(SaveWrite::Gitignore(t)),
        None => {},
    }
    w.push(SaveWrite::ConfigDir);
    w.push(SaveWrite::Config);
    if make_active {
        w.push(SaveWrite::Pointer);
    }
    proof {
        let u = spec_gitignore_update(str_view(existing_gitignore));
        let off: int = if u is Some {
            1
        } else {
            0
        };
        assert forall|j: int| off <= j <= off + 1 implies !(#[trigger] w@[j] is Gitignore) by {}
        lemma_ignored_before_token(str_view(existing_gitignore), w@, off + 1);
    }
    w
}

/// The view of an optional string slice.
pub open spec fn str_view(o: Option<&str>) -> Option<Seq<char>> {
    match o {
        Some(s) => Some(s@),
        None => None,
    }
}

/// The token never lands in a tracked file: whenever saving writes the config, the
/// `.gitignore` written so far ignores `.gt-config/`.
pub proof fn lemma_ignored_before_token(existing: Option<Seq<char>>, w: Seq<SaveWrite>, k: int)
    requires
        ({
            let u = spec_gitignore_update(existing);
            let off: int = if u is Some {
                1
            } else {
                0
            };
            &&& u matches Some(t) ==> (w[0] matches SaveWrite::Gitignore(x) && x@ == t)
            &&& off <= k < w.len()
            &&& forall|j: int| off <= j <= k ==> !(#[trigger] w[j] is Gitignore)
        }),
    ensures
        gitignore_after(existing, w.take(k + 1)) matches Some(c) && ignores_config_dir(c),
    decreases k,
{
    lemma_gitignore_update_idempotent(existing);
    let u = spec_gitignore_update(existing);
    let off: int = if u is Some {
        1
    } else {
        0
    };
    if k == off {
        if off == 1 {
            assert(w.take(2).drop_last() =~= w.take(1));
            assert(w.take(2).last() == w[1]);
            assert(!(w[1] is Gitignore));
            assert(gitignore_after(existing, w.take(2)) == gitignore_after(existing, w.take(1)));
            assert(w.take(1).last() == w[0]);
            assert(gitignore_after(existing, w.take(1)) == Some(u->0));
        } else {
            assert(w.take(1).drop_last() =~= Seq::<SaveWrite>::empty());
            assert(w.take(1).last() == w[0]);
            assert(!(w[0] is Gitignore));
            assert(gitignore_after(existing, w.take(1)) == gitignore_after(existing, w.take(1).drop_last()));
            assert(gitignore_after(existing, Seq::<SaveWrite>::empty()) == existing);
            assert(gitignore_after(existing, w.take(1)) == existing);
            assert(existing matches Some(c) && ignores_config_dir(c));
        }
    } else {
        lemma_ignored_before_token(existing, w, k - 1);
        assert(w.take(k + 1).drop_last() =~= w.take(k));
        assert(w.take(k + 1).last() == w[k]);
        assert(!(w[k] is Gitignore));
        assert(gitignore_after(existing, w.take(k + 1)) == gitignore_after(existing, w.take(k)));
    }
}

} // verus!
