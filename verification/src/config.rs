//! The proxy's configuration: a record resolved once from named string inputs,
//! and the string-keyed parameter map that templates are rendered against.
use crate::template::{render, rendered, template_of, well_formed, Piece};
use crate::text::str_eq;
use vstd::prelude::*;

verus! {

/// Input key of the path prefix at which the proxy is mounted.
pub const ENV_BASE_URL: &'static str = "BASE_URL";

/// Input key of the path prefix on the backend.
pub const ENV_PROXY_BASE_URL: &'static str = "PROXY_BASE_URL";

/// Input key of the backend authority.
pub const ENV_PROXY_HOST: &'static str = "PROXY_HOST";

/// Input key of the backend scheme.
pub const ENV_PROXY_SCHEME: &'static str = "PROXY_SCHEME";

/// Environment key of the listen address.
pub const ENV_BIND_ADDR: &'static str = "BIND_ADDR";

/// The listen address used when none is given.
pub const DEFAULT_BIND_ADDR: &'static str = "0.0.0.0:80";

/// The seconds that requests in flight are given to finish on shutdown.
pub const SHUTDOWN_TIMEOUT: u64 = 20;

/// The mount path used when none is given.
pub const DEFAULT_BASE_URL: &'static str = "/";

/// The backend scheme used when none is given.
pub const DEFAULT_PROXY_SCHEME: &'static str = "https";

/// The template of the computed field.
pub const PROXY_BASE_URL_WITH_HOST_FORMAT: &'static str = "{proxy_host}{proxy_base_url}";

/// Parameter name of the mount path.
pub const FIELD_BASE_URL: &'static str = "base_url";

/// Parameter name of the backend path prefix.
pub const FIELD_PROXY_BASE_URL: &'static str = "proxy_base_url";

/// Parameter name of the backend authority.
pub const FIELD_PROXY_HOST: &'static str = "proxy_host";

/// Parameter name of the backend scheme.
pub const FIELD_PROXY_SCHEME: &'static str = "proxy_scheme";

/// Parameter name of the computed field.
pub const FIELD_PROXY_BASE_URL_WITH_HOST: &'static str = "proxy_base_url_with_host";

/// A string-keyed, string-valued dictionary. Keys are unique; the order of
/// insertion carries no meaning.
#[derive(Debug)]
pub struct ConfigMap {
    pub(crate) entries: Vec<(String, String)>,
}

impl View for ConfigMap {
    type V = Map<Seq<char>, Seq<char>>;

    closed spec fn view(&self) -> Map<Seq<char>, Seq<char>> {
        entries_map(self.entries@)
    }
}

/// Whether `entries` holds `key` at some position.
spec fn has_key(entries: Seq<(String, String)>, key: Seq<char>) -> bool {
    exists|i: int| 0 <= i < entries.len() && (#[trigger] entries[i]).0@ == key
}

/// A position at which `entries` holds `key`.
spec fn position_of(entries: Seq<(String, String)>, key: Seq<char>) -> int {
    choose|i: int| 0 <= i < entries.len() && (#[trigger] entries[i]).0@ == key
}

/// The dictionary that a list of pairs with distinct keys stands for.
spec fn entries_map(entries: Seq<(String, String)>) -> Map<Seq<char>, Seq<char>> {
    Map::new(
        |key: Seq<char>| has_key(entries, key),
        |key: Seq<char>| entries[position_of(entries, key)].1@,
    )
}

/// Whether no key occurs twice.
spec fn distinct_keys(entries: Seq<(String, String)>) -> bool {
    forall|i: int, j: int|
        0 <= i < j < entries.len() ==> (#[trigger] entries[i]).0@ != (#[trigger] entries[j]).0@
}

impl ConfigMap {
    #[verifier::type_invariant]
    spec fn well_formed(self) -> bool {
        distinct_keys(self.entries@)
    }

    /// An empty map.
    pub fn new() -> (r: ConfigMap)
        ensures
            r@ == Map::<Seq<char>, Seq<char>>::empty(),
    {
        let r = ConfigMap { entries: Vec::new() };
        assert(r@ =~= Map::<Seq<char>, Seq<char>>::empty());
        r
    }

    /// The position of `key` among the entries.
    fn find(&self, key: &str) -> (r: Option<usize>)
        ensures
            match r {
                Some(i) => i < self.entries@.len() && self.entries@[i as int].0@ == key@,
                None => !has_key(self.entries@, key@),
            },
    {
        let mut i: usize = 0;
        while i < self.entries.len()
            invariant
                i <= self.entries@.len(),
                forall|j: int| 0 <= j < i ==> (#[trigger] self.entries@[j]).0@ != key@,
            decreases self.entries@.len() - i,
        {
            if str_eq(self.entries[i].0.as_str(), key) {
                return Some(i);
            }
            i += 1;
        }
        None
    }

    /// The value stored under `key`.
    pub fn get(&self, key: &str) -> (r: Option<&String>)
        ensures
            match r {
                Some(value) => self@.contains_key(key@) && self@[key@] == value@,
                None => !self@.contains_key(key@),
            },
    {
        proof {
            use_type_invariant(self);
        }
        match self.find(key) {
            Some(i) => {
                assert(has_key(self.entries@, key@));
                Some(&self.entries[i].1)
            },
            None => None,
        }
    }

    /// Whether a value is stored under `key`.
    pub fn contains_key(&self, key: &str) -> (r: bool)
        ensures
            r == self@.contains_key(key@),
    {
        self.get(key).is_some()
    }

    /// Stores `value` under `key` and returns the value that was stored there
    /// before.
    pub fn insert(&mut self, key: String, value: String) -> (r: Option<String>)
        ensures
            final(self)@ == old(self)@.insert(key@, value@),
            match r {
                Some(previous) => old(self)@.contains_key(key@) && old(self)@[key@] == previous@,
                None => !old(self)@.contains_key(key@),
            },
    {
        proof {
            use_type_invariant(&*self);
        }
        let ghost before = self.entries@;
        match self.find(key.as_str()) {
            Some(i) => {
                assert(has_key(before, key@));
                let previous = self.entries[i].1.clone();
                let mut entries: Vec<(String, String)> = Vec::new();
                std::mem::swap(&mut entries, &mut self.entries);
                entries.set(i, (key, value));
                self.entries = entries;
                proof {
                    let after = self.entries@;
                    assert forall|k: Seq<char>| has_key(after, k) == has_key(before, k) by {
                        if has_key(before, k) {
                            let j = position_of(before, k);
                            assert(after[j].0@ == k);
                        }
                        if has_key(after, k) {
                            let j = position_of(after, k);
                            assert(before[j].0@ == k);
                        }
                    }
                    assert(entries_map(after) =~= entries_map(before).insert(key@, value@));
                }
                Some(previous)
            },
            None => {
                let mut entries: Vec<(String, String)> = Vec::new();
                std::mem::swap(&mut entries, &mut self.entries);
                entries.push((key, value));
                self.entries = entries;
                proof {
                    let after = self.entries@;
                    assert(after[before.len() as int].0@ == key@);
                    assert forall|k: Seq<char>| has_key(after, k) == (k == key@ || has_key(before, k)) by {
                        if has_key(before, k) {
                            let j = position_of(before, k);
                            assert(after[j].0@ == k);
                        }
                        if has_key(after, k) {
                            let j = position_of(after, k);
                            if j < before.len() {
                                assert(before[j].0@ == k);
                            }
                        }
                    }
                    assert(entries_map(after) =~= entries_map(before).insert(key@, value@));
                }
                None
            },
        }
    }
}

impl Clone for ConfigMap {
    /// A map with the same keys and values.
    fn clone(&self) -> (r: ConfigMap)
        ensures
            r@ == self@,
    {
        proof {
            use_type_invariant(self);
        }
        let mut entries: Vec<(String, String)> = Vec::new();
        let mut i: usize = 0;
        while i < self.entries.len()
            invariant
                i <= self.entries@.len(),
                entries@.len() == i,
                forall|j: int|
                    0 <= j < i ==> (#[trigger] entries@[j]).0@ == self.entries@[j].0@ && entries@[j].1@
                        == self.entries@[j].1@,
            decreases self.entries@.len() - i,
        {
            let key = self.entries[i].0.clone();
            let value = self.entries[i].1.clone();
            entries.push((key, value));
            i += 1;
        }
        let r = ConfigMap { entries };
        proof {
            let a = self.entries@;
            let b = r.entries@;
            assert forall|k: Seq<char>| has_key(a, k) == has_key(b, k) by {
                if has_key(a, k) {
                    assert(b[position_of(a, k)].0@ == k);
                }
                if has_key(b, k) {
                    assert(a[position_of(b, k)].0@ == k);
                }
            }
            assert(entries_map(a) =~= entries_map(b));
        }
        r
    }
}

/// The resolved configuration. Built once, before the first request, and
/// read-only from then on.
#[derive(Debug)]
pub struct Config {
    /// Path prefix at which the proxy itself is mounted.
    pub base_url: String,
    /// Path prefix to prepend on the backend.
    pub proxy_base_url: String,
    /// Backend authority, `host[:port]`.
    pub proxy_host: String,
    /// Backend scheme.
    pub proxy_scheme: String,
    /// The backend authority followed by the backend path prefix.
    pub proxy_base_url_with_host: String,
}

/// Why no configuration could be resolved.
#[derive(Debug)]
pub enum ConfigError {
    /// A field has neither an input value nor a default.
    Missing(String),
    /// The template of a computed field could not be rendered.
    Unresolvable { name: String, cause: String },
}

impl ConfigError {
    /// A one-line description naming the field.
    pub fn message(&self) -> (r: String)
        ensures
            r@ == match *self {
                ConfigError::Missing(name) => "missing required field: "@ + name@,
                ConfigError::Unresolvable { name, cause } => "failed to parse field ("@ + name@
                    + "): "@ + cause@,
            },
    {
        match self {
            ConfigError::Missing(name) => {
                let mut out = "missing required field: ".to_owned();
                out.append(name.as_str());
                out
            },
            ConfigError::Unresolvable { name, cause } => {
                let mut out = "failed to parse field (".to_owned();
                out.append(name.as_str());
                out.append("): ");
                out.append(cause.as_str());
                out
            },
        }
    }
}

/// The value that `inputs` gives to `key`, or `default` where it gives none.
pub open spec fn value_or(
    inputs: Map<Seq<char>, Seq<char>>,
    key: Seq<char>,
    default: Seq<char>,
) -> Seq<char> {
    if inputs.contains_key(key) {
        inputs[key]
    } else {
        default
    }
}

/// The characters of the field names hold no brace and no colon.
proof fn lemma_field_names()
    ensures
        crate::template::is_key(FIELD_PROXY_HOST@),
        crate::template::is_key(FIELD_PROXY_BASE_URL@),
        FIELD_BASE_URL@.len() == 8,
        FIELD_PROXY_BASE_URL@.len() == 14,
        FIELD_PROXY_HOST@.len() == 10,
        FIELD_PROXY_SCHEME@.len() == 12,
        FIELD_PROXY_BASE_URL_WITH_HOST@.len() == 24,
        template_of(seq![Piece::Param(FIELD_PROXY_HOST@), Piece::Param(FIELD_PROXY_BASE_URL@)])
            == PROXY_BASE_URL_WITH_HOST_FORMAT@,
{
    reveal_strlit("base_url");
    reveal_strlit("proxy_base_url");
    reveal_strlit("proxy_host");
    reveal_strlit("proxy_scheme");
    reveal_strlit("proxy_base_url_with_host");
    reveal_strlit("{proxy_host}{proxy_base_url}");
    reveal_with_fuel(template_of, 3);
    let pieces = seq![Piece::Param(FIELD_PROXY_HOST@), Piece::Param(FIELD_PROXY_BASE_URL@)];
    assert(pieces.drop_first() =~= seq![Piece::Param(FIELD_PROXY_BASE_URL@)]);
    assert(pieces.drop_first().drop_first() =~= Seq::<Piece>::empty());
    assert(template_of(pieces) =~= PROXY_BASE_URL_WITH_HOST_FORMAT@);
}

/// The stored value of an input, or the default.
fn input_or(inputs: &ConfigMap, key: &str, default: &str) -> (r: String)
    ensures
        r@ == value_or(inputs@, key@, default@),
{
    match inputs.get(key) {
        Some(value) => value.clone(),
        None => default.to_owned(),
    }
}

impl Config {
    /// The parameter map of the record: each field under its own name.
    pub open spec fn params(&self) -> Map<Seq<char>, Seq<char>> {
        Map::<Seq<char>, Seq<char>>::empty().insert(FIELD_BASE_URL@, self.base_url@).insert(
            FIELD_PROXY_BASE_URL@,
            self.proxy_base_url@,
        ).insert(FIELD_PROXY_HOST@, self.proxy_host@).insert(
            FIELD_PROXY_SCHEME@,
            self.proxy_scheme@,
        ).insert(FIELD_PROXY_BASE_URL_WITH_HOST@, self.proxy_base_url_with_host@)
    }

    /// Whether the record is what `inputs` resolve to: each field from its
    /// input or its default, the computed field from the fields before it.
    pub open spec fn resolved_from(&self, inputs: Map<Seq<char>, Seq<char>>) -> bool {
        &&& self.base_url@ == value_or(inputs, ENV_BASE_URL@, DEFAULT_BASE_URL@)
        &&& self.proxy_base_url@ == value_or(inputs, ENV_PROXY_BASE_URL@, self.base_url@)
        &&& self.proxy_host@ == inputs[ENV_PROXY_HOST@]
        &&& self.proxy_scheme@ == value_or(inputs, ENV_PROXY_SCHEME@, DEFAULT_PROXY_SCHEME@)
        &&& self.proxy_base_url_with_host@ == self.proxy_host@ + self.proxy_base_url@
    }

    /// Resolves the fields in their declared order. Each resolved field is
    /// entered into a running parameter map under its own name, and the
    /// computed field is rendered from its template against that map.
    ///
    /// Fails exactly when the backend authority, the one field without a
    /// default, has no input.
    pub fn resolve(inputs: &ConfigMap) -> (r: Result<Config, ConfigError>)
        ensures
            match r {
                Ok(config) => inputs@.contains_key(ENV_PROXY_HOST@) && config.resolved_from(
                    inputs@,
                ),
                Err(ConfigError::Missing(name)) => !inputs@.contains_key(ENV_PROXY_HOST@) && name@
                    == FIELD_PROXY_HOST@,
                Err(ConfigError::Unresolvable { .. }) => false,
            },
    {
        let mut map = ConfigMap::new();

        let base_url = input_or(inputs, ENV_BASE_URL, DEFAULT_BASE_URL);
        map.insert(FIELD_BASE_URL.to_owned(), base_url.clone());

        let proxy_base_url = input_or(inputs, ENV_PROXY_BASE_URL, base_url.as_str());
        map.insert(FIELD_PROXY_BASE_URL.to_owned(), proxy_base_url.clone());

        let proxy_host = match inputs.get(ENV_PROXY_HOST) {
            Some(value) => value.clone(),
            None => {
                return Err(ConfigError::Missing(FIELD_PROXY_HOST.to_owned()));
            },
        };
        map.insert(FIELD_PROXY_HOST.to_owned(), proxy_host.clone());

        let proxy_scheme = input_or(inputs, ENV_PROXY_SCHEME, DEFAULT_PROXY_SCHEME);
        map.insert(FIELD_PROXY_SCHEME.to_owned(), proxy_scheme.clone());

        let ghost pieces = seq![
            Piece::Param(FIELD_PROXY_HOST@),
            Piece::Param(FIELD_PROXY_BASE_URL@),
        ];
        proof {
            lemma_field_names();
            reveal_with_fuel(rendered, 3);
            assert(well_formed(pieces));
            assert(pieces.drop_first() =~= seq![Piece::Param(FIELD_PROXY_BASE_URL@)]);
            assert(pieces.drop_first().drop_first() =~= Seq::<Piece>::empty());
            assert(map@[FIELD_PROXY_HOST@] == proxy_host@);
            assert(map@[FIELD_PROXY_BASE_URL@] == proxy_base_url@);
            assert(rendered(pieces, map@) == Some(
                proxy_host@ + (proxy_base_url@ + Seq::<char>::empty()),
            ));
            assert(proxy_base_url@ + Seq::<char>::empty() =~= proxy_base_url@);
        }
        let proxy_base_url_with_host = match render(PROXY_BASE_URL_WITH_HOST_FORMAT, &map) {
            Ok(value) => value,
            Err(e) => {
                return Err(
                    ConfigError::Unresolvable {
                        name: FIELD_PROXY_BASE_URL_WITH_HOST.to_owned(),
                        cause: e.message(),
                    },
                );
            },
        };

        Ok(Config { base_url, proxy_base_url, proxy_host, proxy_scheme, proxy_base_url_with_host })
    }

    /// The record as a parameter map: each field under its own name.
    pub fn to_map(&self) -> (r: ConfigMap)
        ensures
            r@ == self.params(),
    {
        let mut map = ConfigMap::new();
        map.insert(FIELD_BASE_URL.to_owned(), self.base_url.clone());
        map.insert(FIELD_PROXY_BASE_URL.to_owned(), self.proxy_base_url.clone());
        map.insert(FIELD_PROXY_HOST.to_owned(), self.proxy_host.clone());
        map.insert(FIELD_PROXY_SCHEME.to_owned(), self.proxy_scheme.clone());
        map.insert(
            FIELD_PROXY_BASE_URL_WITH_HOST.to_owned(),
            self.proxy_base_url_with_host.clone(),
        );
        map
    }
}

} // verus!
