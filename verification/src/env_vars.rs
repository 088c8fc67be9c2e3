//! Environment allowlist builder.
//!
//! A launched MCP server receives only a curated set of environment
//! variables: a fixed platform allowlist, caller-supplied extra names, and
//! caller-supplied overrides that always win. The ambient environment is
//! passed in as a snapshot ([`EnvMap`]), so the builder is a pure function
//! of its arguments.

use vstd::prelude::*;

verus! {

/// Family of operating systems the default environment allowlist is chosen for.
#[derive(Clone, Copy, Debug)]
pub enum PlatformFamily {
    Posix,
    Windows,
}

/// The abstract mapping a sequence of `(name, value)` pairs denotes;
/// a later pair for the same name shadows an earlier one.
pub open spec fn pairs_to_map(s: Seq<(String, String)>) -> Map<Seq<char>, Seq<char>>
    decreases s.len(),
{
    if s.len() == 0 {
        Map::empty()
    } else {
        pairs_to_map(s.drop_last()).insert(s.last().0@, s.last().1@)
    }
}

/// The value the last pair with the given name carries, if any.
pub open spec fn lookup_pairs(s: Seq<(String, String)>, name: Seq<char>) -> Option<Seq<char>>
    decreases s.len(),
{
    if s.len() == 0 {
        None
    } else if s.last().0@ == name {
        Some(s.last().1@)
    } else {
        lookup_pairs(s.drop_last(), name)
    }
}

pub proof fn lemma_pairs_to_map_get(s: Seq<(String, String)>, name: Seq<char>)
    ensures
        pairs_to_map(s).contains_key(name) <==> lookup_pairs(s, name) is Some,
        pairs_to_map(s).contains_key(name) ==> Some(pairs_to_map(s)[name]) == lookup_pairs(
            s,
            name,
        ),
    decreases s.len(),
{
    if s.len() > 0 {
        lemma_pairs_to_map_get(s.drop_last(), name);
    }
}

/// A finite string-to-string mapping, used both for snapshots of the
/// ambient environment and for the environment handed to a server process.
/// Its abstract value is [`pairs_to_map`] of its entries: a later entry for
/// the same name shadows an earlier one.
pub struct EnvMap {
    pub entries: Vec<(String, String)>,
}

impl View for EnvMap {
    type V = Map<Seq<char>, Seq<char>>;

    open spec fn view(&self) -> Map<Seq<char>, Seq<char>> {
        pairs_to_map(self.entries@)
    }
}

impl EnvMap {
    /// The empty mapping.
    pub fn new() -> (r: EnvMap)
        ensures
            r@ == Map::<Seq<char>, Seq<char>>::empty(),
            r.entries@.len() == 0,
    {
        EnvMap { entries: Vec::new() }
    }

    /// Binds `name` to `value`, shadowing any earlier binding of `name`.
    pub fn insert(&mut self, name: String, value: String)
        ensures
            final(self)@ == old(self)@.insert(name@, value@),
    {
        let ghost pre = self.entries@;
        self.entries.push((name, value));
        proof {
            assert(self.entries@.drop_last() =~= pre);
            assert(pairs_to_map(self.entries@) == pairs_to_map(pre).insert(
                self.entries@.last().0@,
                self.entries@.last().1@,
            ));
        }
    }

    /// Looks the name up, answering from the latest binding.
    pub fn get(&self, name: &String) -> (r: Option<&String>)
        ensures
            match r {
                Some(v) => self@.contains_key(name@) && v@ == self@[name@],
                None => !self@.contains_key(name@),
            },
    {
        proof {
            lemma_pairs_to_map_get(self.entries@, name@);
        }
        assert(self.entries@.take(self.entries@.len() as int) =~= self.entries@);
        let mut i: usize = self.entries.len();
        while i > 0
            invariant
                i <= self.entries.len(),
                lookup_pairs(self.entries@, name@) == lookup_pairs(
                    self.entries@.take(i as int),
                    name@,
                ),
            decreases i,
        {
            i = i - 1;
            assert(self.entries@.take(i + 1).drop_last() =~= self.entries@.take(i as int));
            assert(self.entries@.take(i + 1).last() == self.entries@[i as int]);
            if self.entries[i].0 == *name {
                proof {
                    lemma_pairs_to_map_get(self.entries@, name@);
                }
                assert(lookup_pairs(self.entries@.take(i + 1), name@) == Some(
                    self.entries@[i as int].1@,
                ));
                return Some(&self.entries[i].1);
            }
        }
        None
    }
}

/// The variable names forwarded by default on POSIX-like systems.
pub open spec fn posix_default_names() -> Seq<Seq<char>> {
    seq![
        "HOME"@,
        "LOGNAME"@,
        "PATH"@,
        "SHELL"@,
        "USER"@,
        "__CF_USER_TEXT_ENCODING"@,
        "LANG"@,
        "LC_ALL"@,
        "TERM"@,
        "TMPDIR"@,
        "TZ"@,
    ]
}

/// The variable names forwarded by default on Windows-like systems.
pub open spec fn windows_default_names() -> Seq<Seq<char>> {
    seq!["PATH"@, "PATHEXT"@, "USERNAME"@, "USERDOMAIN"@, "USERPROFILE"@, "TEMP"@, "TMP"@]
}

pub open spec fn default_names(platform: PlatformFamily) -> Seq<Seq<char>> {
    match platform {
        PlatformFamily::Posix => posix_default_names(),
        PlatformFamily::Windows => windows_default_names(),
    }
}

/// The compiled-in allowlist of variable names for the given platform.
pub fn default_env_vars(platform: PlatformFamily) -> (r: Vec<String>)
    ensures
        r@.map_values(|s: String| s@) == default_names(platform),
{
    let mut r: Vec<String> = Vec::new();
    match platform {
        PlatformFamily::Posix => {
            r.push("HOME".to_owned());
            r.push("LOGNAME".to_owned());
            r.push("PATH".to_owned());
            r.push("SHELL".to_owned());
            r.push("USER".to_owned());
            r.push("__CF_USER_TEXT_ENCODING".to_owned());
            r.push("LANG".to_owned());
            r.push("LC_ALL".to_owned());
            r.push("TERM".to_owned());
            r.push("TMPDIR".to_owned());
            r.push("TZ".to_owned());
            assert(r@.map_values(|s: String| s@) =~= posix_default_names());
        },
        PlatformFamily::Windows => {
            r.push("PATH".to_owned());
            r.push("PATHEXT".to_owned());
            r.push("USERNAME".to_owned());
            r.push("USERDOMAIN".to_owned());
            r.push("USERPROFILE".to_owned());
            r.push("TEMP".to_owned());
            r.push("TMP".to_owned());
            assert(r@.map_values(|s: String| s@) =~= windows_default_names());
        },
    }
    r
}

/// The names resolved against the reader, in order: the platform defaults
/// first, then the caller-supplied extra names.
pub open spec fn requested_names(platform: PlatformFamily, extra_names: Seq<Seq<char>>) -> Seq<
    Seq<char>,
> {
    default_names(platform) + extra_names
}

/// Resolving a list of names against a reader: each name that the reader
/// knows is bound to the reader's value; unset names are omitted.
pub open spec fn allowlist_resolution(
    names: Seq<Seq<char>>,
    reader: Map<Seq<char>, Seq<char>>,
) -> Map<Seq<char>, Seq<char>>
    decreases names.len(),
{
    if names.len() == 0 {
        Map::empty()
    } else {
        let m = allowlist_resolution(names.drop_last(), reader);
        if reader.contains_key(names.last()) {
            m.insert(names.last(), reader[names.last()])
        } else {
            m
        }
    }
}

pub open spec fn override_view(extra_env: Option<EnvMap>) -> Map<Seq<char>, Seq<char>> {
    match extra_env {
        Some(m) => m@,
        None => Map::empty(),
    }
}

/// The environment handed to a launched server: the allowlisted names that
/// the reader knows, overlaid with the caller's overrides, which always win.
pub open spec fn built_environment(
    platform: PlatformFamily,
    extra_env: Option<EnvMap>,
    extra_names: Seq<Seq<char>>,
    reader: Map<Seq<char>, Seq<char>>,
) -> Map<Seq<char>, Seq<char>> {
    allowlist_resolution(requested_names(platform, extra_names), reader).union_prefer_right(
        override_view(extra_env),
    )
}

/// Builds the environment for an MCP server process from a snapshot of the
/// ambient environment.
///
/// Every platform-default name and every extra name that is set in `reader`
/// is forwarded with the reader's value; unset names are silently omitted;
/// the bindings of `extra_env` are then applied unconditionally.
pub fn create_env_for_mcp_server_internal(
    platform: PlatformFamily,
    extra_env: Option<EnvMap>,
    env_vars: &Vec<String>,
    reader: &EnvMap,
) -> (r: EnvMap)
    ensures
        r@ == built_environment(
            platform,
            extra_env,
            env_vars@.map_values(|s: String| s@),
            reader@,
        ),
{
    let ghost extra_name_views = env_vars@.map_values(|s: String| s@);
    let defaults: Vec<String> = default_env_vars(platform);
    let ghost default_views = defaults@.map_values(|s: String| s@);

    let mut result = EnvMap::new();
    let mut j: usize = 0;
    while j < defaults.len()
        invariant
            j <= defaults.len(),
            default_views == defaults@.map_values(|s: String| s@),
            default_views == default_names(platform),
            result@ == allowlist_resolution(default_views.take(j as int), reader@),
        decreases defaults.len() - j,
    {
        assert(default_views.take(j + 1).drop_last() =~= default_views.take(j as int));
        assert(default_views[j as int] == defaults@[j as int]@);
        assert(default_views.take(j + 1).last() == defaults@[j as int]@);
        match reader.get(&defaults[j]) {
            Some(value) => {
                let value = value.clone();
                result.insert(defaults[j].clone(), value);
            },
            None => {},
        }
        j = j + 1;
    }
    assert(default_views.take(defaults@.len() as int) =~= default_views);

    let mut i: usize = 0;
    assert(default_names(platform) + extra_name_views.take(0) =~= default_names(platform));
    while i < env_vars.len()
        invariant
            i <= env_vars.len(),
            extra_name_views == env_vars@.map_values(|s: String| s@),
            result@ == allowlist_resolution(
                default_names(platform) + extra_name_views.take(i as int),
                reader@,
            ),
        decreases env_vars.len() - i,
    {
        assert((default_names(platform) + extra_name_views.take(i + 1)).drop_last()
            =~= default_names(platform) + extra_name_views.take(i as int));
        assert(extra_name_views[i as int] == env_vars@[i as int]@);
        assert((default_names(platform) + extra_name_views.take(i + 1)).last() == env_vars@[
            i as int
        ]@);
        match reader.get(&env_vars[i]) {
            Some(value) => {
                let value = value.clone();
                result.insert(env_vars[i].clone(), value);
            },
            None => {},
        }
        i = i + 1;
    }
    assert(default_names(platform) + extra_name_views.take(env_vars@.len() as int)
        =~= requested_names(platform, extra_name_views));

    match extra_env {
        Some(extra) => {
            let ghost base = result@;
            let mut k: usize = 0;
            while k < extra.entries.len()
                invariant
                    k <= extra.entries.len(),
                    result@ == base.union_prefer_right(pairs_to_map(extra.entries@.take(k as int))),
                decreases extra.entries.len() - k,
            {
                assert(extra.entries@.take(k + 1).drop_last() =~= extra.entries@.take(k as int));
                let name = extra.entries[k].0.clone();
                let value = extra.entries[k].1.clone();
                result.insert(name, value);
                assert(result@ =~= base.union_prefer_right(
                    pairs_to_map(extra.entries@.take(k + 1)),
                ));
                k = k + 1;
            }
            assert(extra.entries@.take(extra.entries@.len() as int) =~= extra.entries@);
            assert(result@ == base.union_prefer_right(override_view(Some(extra))));
            result
        },
        None => {
            assert(result@ =~= result@.union_prefer_right(
                Map::<Seq<char>, Seq<char>>::empty(),
            ));
            result
        },
    }
}

/// Every allowlisted name behaves as the reader answers: a name on the
/// resolution list that is not overridden is forwarded exactly when the
/// reader knows it, with the reader's value, and omitted otherwise.
pub proof fn lemma_allowlisted_name_forwarded(
    names: Seq<Seq<char>>,
    reader: Map<Seq<char>, Seq<char>>,
    name: Seq<char>,
)
    ensures
        names.contains(name) && reader.contains_key(name) ==> allowlist_resolution(
            names,
            reader,
        ).contains_key(name) && allowlist_resolution(names, reader)[name] == reader[name],
        !reader.contains_key(name) ==> !allowlist_resolution(names, reader).contains_key(name),
        !names.contains(name) ==> !allowlist_resolution(names, reader).contains_key(name),
    decreases names.len(),
{
    if names.len() > 0 {
        lemma_allowlisted_name_forwarded(names.drop_last(), reader, name);
        if names.contains(name) && names.last() != name {
            let i = choose|i: int| 0 <= i < names.len() && names[i] == name;
            assert(names.drop_last()[i] == name);
        }
    }
}

/// The builder includes each allowlisted, non-overridden name exactly when
/// the reader knows it, with the reader's value.
pub proof fn lemma_env_allowlisted(
    platform: PlatformFamily,
    extra_env: Option<EnvMap>,
    extra_names: Seq<Seq<char>>,
    reader: Map<Seq<char>, Seq<char>>,
    name: Seq<char>,
)
    requires
        !override_view(extra_env).contains_key(name),
    ensures
        requested_names(platform, extra_names).contains(name) && reader.contains_key(name)
            ==> built_environment(platform, extra_env, extra_names, reader).contains_key(name)
            && built_environment(platform, extra_env, extra_names, reader)[name] == reader[name],
        !reader.contains_key(name) ==> !built_environment(
            platform,
            extra_env,
            extra_names,
            reader,
        ).contains_key(name),
{
    lemma_allowlisted_name_forwarded(requested_names(platform, extra_names), reader, name);
}

/// Overrides always win: a name bound in `extra_env` is bound in the result
/// to the override value, whatever the reader answers for it.
pub proof fn lemma_env_override_wins(
    platform: PlatformFamily,
    extra_env: Option<EnvMap>,
    extra_names: Seq<Seq<char>>,
    reader: Map<Seq<char>, Seq<char>>,
    name: Seq<char>,
)
    requires
        override_view(extra_env).contains_key(name),
    ensures
        built_environment(platform, extra_env, extra_names, reader).contains_key(name),
        built_environment(platform, extra_env, extra_names, reader)[name] == override_view(
            extra_env,
        )[name],
{
}

} // verus!
