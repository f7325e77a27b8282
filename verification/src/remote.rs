//! Remote plugins: repository indexes and manifests, the search through them, the cache file
//! names, the content hash that checks a download, and the local list of installed plugins.
use vstd::prelude::*;

use crate::text::{owned, str_equal};

verus! {

/// A plugin that a repository offers.
#[derive(Debug, Clone)]
pub struct PluginManifest {
    pub name: String,
    pub version: String,
    pub description: String,
    pub author: String,
    pub download_url: String,
    /// The expected content hash of the download, when the repository gives one.
    pub checksum: Option<String>,
    pub min_ayiou_version: Option<String>,
    pub homepage: Option<String>,
    pub license: Option<String>,
}

/// A repository index: its name, URL and plugins.
#[derive(Debug, Clone)]
pub struct PluginRepository {
    pub name: String,
    pub url: String,
    pub plugins: Vec<PluginManifest>,
    pub updated_at: Option<String>,
}

/// The first plugin named `name`, searching the repositories in order and each repository's
/// plugins in order, as (repository, plugin) positions.
pub open spec fn first_named(repos: Seq<PluginRepository>, name: Seq<char>) -> Option<(int, int)>
    decreases repos.len(),
{
    if repos.len() == 0 {
        None
    } else {
        match first_named(repos.drop_last(), name) {
            Some(found) => Some(found),
            None => match repos.last().plugins@.map_values(|p: PluginManifest| p.name@).index_of_first(
                name,
            ) {
                Some(j) => Some(((repos.len() - 1) as int, j)),
                None => None,
            },
        }
    }
}

/// Where the first plugin named `name` is, if a repository offers one.
pub fn search(repositories: &Vec<PluginRepository>, name: &str) -> (r: Option<(usize, usize)>)
    ensures
        match first_named(repositories@, name@) {
            Some((i, j)) => r == Some((i as usize, j as usize)),
            None => r is None,
        },
{
    let mut i: usize = 0;
    while i < repositories.len()
        invariant
            i <= repositories@.len(),
            first_named(repositories@.take(i as int), name@) is None,
        decreases repositories.len() - i,
    {
        let plugins = &repositories[i].plugins;
        let ghost names = plugins@.map_values(|p: PluginManifest| p.name@);
        let mut j: usize = 0;
        while j < plugins.len()
            invariant
                j <= plugins@.len(),
                i < repositories@.len(),
                *plugins == repositories@[i as int].plugins,
                first_named(repositories@.take(i as int), name@) is None,
                names == plugins@.map_values(|p: PluginManifest| p.name@),
                forall|k: int| 0 <= k < j ==> names[k] != name@,
            decreases plugins.len() - j,
        {
            if str_equal(plugins[j].name.as_str(), name) {
                proof {
                    let t = repositories@.take(i as int + 1);
                    assert(t.drop_last() =~= repositories@.take(i as int));
                    lemma_first_index(names, name@, j as int);
                    lemma_first_named_prefix(repositories@, name@, i as int + 1);
                }
                return Some((i, j));
            }
            j = j + 1;
        }
        proof {
            let t = repositories@.take(i as int + 1);
            assert(t.drop_last() =~= repositories@.take(i as int));
            names.index_of_first_ensures(name@);
            if names.index_of_first(name@) is Some {
                let f = names.index_of_first(name@)->Some_0;
                assert(names[f] == name@);
            }
        }
        i = i + 1;
    }
    assert(repositories@.take(repositories@.len() as int) =~= repositories@);
    None
}

proof fn lemma_first_named_prefix(repos: Seq<PluginRepository>, name: Seq<char>, k: int)
    requires
        0 <= k <= repos.len(),
        first_named(repos.take(k), name) is Some,
    ensures
        first_named(repos, name) == first_named(repos.take(k), name),
    decreases repos.len(),
{
    if k < repos.len() {
        assert(repos.drop_last().take(k) =~= repos.take(k));
        lemma_first_named_prefix(repos.drop_last(), name, k);
    } else {
        assert(repos.take(k) =~= repos);
    }
}

/// `i` is the first position of `x` in `s` when no earlier position holds it.
proof fn lemma_first_index<A>(s: Seq<A>, x: A, i: int)
    requires
        0 <= i < s.len(),
        s[i] == x,
        forall|k: int| 0 <= k < i ==> s[k] != x,
    ensures
        s.index_of_first(x) == Some(i),
{
    s.index_of_first_ensures(x);
    match s.index_of_first(x) {
        Some(f) => {
            if f < i {
                assert(s[f] != x);
            }
            if f > i {
                assert(s[i] != x);
            }
        },
        None => {
            assert(s.contains(x));
        },
    }
}

/// The file a downloaded plugin is cached in: its name with `.wasm`.
pub fn cached_file_name(name: &str) -> (r: String)
    ensures
        r@ == name@ + ".wasm"@,
{
    let mut file = owned(name);
    file.push_str(".wasm");
    file
}

/// The FNV-1a hash of `bytes` (64 bits).
pub open spec fn fnv1a(bytes: Seq<u8>) -> u64
    decreases bytes.len(),
{
    if bytes.len() == 0 {
        0xcbf29ce484222325u64
    } else {
        (((fnv1a(bytes.drop_last()) ^ (bytes.last() as u64)) as nat * 0x100000001b3nat)
            % 0x1_0000_0000_0000_0000nat) as u64
    }
}

/// Hashes `bytes` with FNV-1a (a quick content hash, not a cryptographic one).
pub fn md5_like_hash(bytes: &[u8]) -> (r: u64)
    ensures
        r == fnv1a(bytes@),
{
    let mut hash: u64 = 0xcbf29ce484222325;
    let mut i: usize = 0;
    while i < bytes.len()
        invariant
            i <= bytes@.len(),
            hash == fnv1a(bytes@.take(i as int)),
        decreases bytes.len() - i,
    {
        proof {
            let t = bytes@.take(i as int + 1);
            assert(t.drop_last() =~= bytes@.take(i as int));
            assert(t.last() == bytes@[i as int]);
        }
        hash = hash ^ (bytes[i] as u64);
        hash = hash.wrapping_mul(0x100000001b3);
        i = i + 1;
    }
    assert(bytes@.take(bytes@.len() as int) =~= bytes@);
    hash
}

/// The lowercase hexadecimal digit for `d` (below 16).
pub open spec fn hex_digit(d: nat) -> char {
    if d < 10 {
        ((d + 48) as u8) as char
    } else {
        ((d + 87) as u8) as char
    }
}

/// The last `k` hexadecimal digits of `n`, zero-padded.
pub open spec fn hex_digits(n: nat, k: nat) -> Seq<char>
    decreases k,
{
    if k == 0 {
        Seq::empty()
    } else {
        hex_digits(n / 16, (k - 1) as nat).push(hex_digit(n % 16))
    }
}

/// The content hash of `bytes` as sixteen lowercase hexadecimal digits.
pub fn sha256_hex(bytes: &[u8]) -> (r: String)
    ensures
        r@ == hex_digits(fnv1a(bytes@) as nat, 16),
{
    let hash = md5_like_hash(bytes);
    let mut digits: Vec<char> = Vec::new();
    let mut m = hash;
    let mut k: usize = 0;
    while k < 16
        invariant
            k <= 16,
            hex_digits(hash as nat, 16) == hex_digits(m as nat, (16 - k) as nat) + digits@.reverse(),
        decreases 16 - k,
    {
        let d = (m % 16) as u8;
        let c = if d < 10 {
            (d + 48) as char
        } else {
            (d + 87) as char
        };
        assert(c == hex_digit((m % 16) as nat));
        let ghost before = digits@;
        digits.push(c);
        assert(digits@.reverse() =~= seq![c] + before.reverse()) by {
            assert(digits@.drop_last() =~= before);
            assert forall|x: int| 0 <= x < digits@.len() implies digits@.reverse()[x] == (seq![c]
                + before.reverse())[x] by {
                if x > 0 {
                    assert(digits@[digits@.len() - 1 - x] == before[before.len() - 1 - (x - 1)]);
                }
            }
        }
        assert(hex_digits(m as nat, (16 - k) as nat) == hex_digits((m / 16) as nat, (16 - k - 1) as nat).push(c));
        assert(hex_digits(hash as nat, 16) =~= hex_digits((m / 16) as nat, (16 - k - 1) as nat)
            + digits@.reverse());
        m = m / 16;
        k = k + 1;
    }
    assert(hex_digits(m as nat, 0) =~= Seq::<char>::empty());
    let mut out = String::new();
    let mut i = digits.len();
    while i > 0
        invariant
            i <= digits@.len(),
            out@ == digits@.reverse().take((digits@.len() - i) as int),
        decreases i,
    {
        i = i - 1;
        out.push(digits[i]);
        assert(out@ =~= digits@.reverse().take((digits@.len() - i) as int));
    }
    assert(digits@.reverse().take(digits@.len() as int) =~= digits@.reverse());
    assert(hex_digits(hash as nat, 16) =~= digits@.reverse());
    out
}

/// Accepts downloaded `bytes` when their hash is `expected`.
pub fn verify_checksum(expected: &str, bytes: &[u8]) -> (r: Result<(), String>)
    ensures
        r is Ok <==> expected@ == hex_digits(fnv1a(bytes@) as nat, 16),
        r matches Err(msg) ==> msg@ == "Checksum mismatch! Expected: "@ + expected@ + ", Got: "@
            + hex_digits(fnv1a(bytes@) as nat, 16),
{
    let actual = sha256_hex(bytes);
    if str_equal(actual.as_str(), expected) {
        Ok(())
    } else {
        let mut msg = owned("Checksum mismatch! Expected: ");
        msg.push_str(expected);
        msg.push_str(", Got: ");
        msg.push_str(actual.as_str());
        Err(msg)
    }
}

/// Whether an installed plugin is enabled when its entry does not say.
pub fn default_true() -> (r: bool)
    ensures
        r,
{
    true
}

/// A plugin installed locally.
#[derive(Debug, Clone)]
pub struct InstalledPlugin {
    pub name: String,
    pub enabled: bool,
    /// A local path or a remote URL.
    pub source: String,
    pub config: serde_json::Value,
}

/// The local plugin list: repositories to fetch from, and the installed plugins.
#[derive(Debug, Clone)]
pub struct PluginConfig {
    pub repositories: Vec<String>,
    pub plugins: Vec<InstalledPlugin>,
}

/// The plugins not named `name`, in order.
pub open spec fn without_named(plugins: Seq<InstalledPlugin>, name: Seq<char>) -> Seq<InstalledPlugin>
    decreases plugins.len(),
{
    if plugins.len() == 0 {
        plugins
    } else if plugins.last().name@ == name {
        without_named(plugins.drop_last(), name)
    } else {
        without_named(plugins.drop_last(), name).push(plugins.last())
    }
}

fn remove_named(plugins: Vec<InstalledPlugin>, name: &str) -> (r: Vec<InstalledPlugin>)
    ensures
        r@ == without_named(plugins@, name@),
{
    let ghost orig = plugins@;
    let mut kept: Vec<InstalledPlugin> = Vec::new();
    let mut rest = plugins;
    assert(orig.take(0) =~= Seq::<InstalledPlugin>::empty());
    assert(orig.skip(0) =~= orig);
    while rest.len() > 0
        invariant
            rest.len() <= orig.len(),
            rest@ == orig.skip(orig.len() - rest.len()),
            kept@ == without_named(orig.take(orig.len() - rest.len()), name@),
        decreases rest.len(),
    {
        let ghost done = orig.len() - rest.len();
        let p = rest.remove(0);
        assert(p == orig[done]);
        assert(rest@ =~= orig.skip(done + 1));
        proof {
            let t = orig.take(done + 1);
            assert(t.drop_last() =~= orig.take(done));
            assert(t.last() == p);
        }
        if !str_equal(p.name.as_str(), name) {
            kept.push(p);
        }
    }
    assert(orig.take(orig.len() as int) =~= orig);
    kept
}

impl PluginConfig {
    /// No repositories and no plugins.
    pub fn new() -> (r: Self)
        ensures
            r.repositories@.len() == 0,
            r.plugins@.len() == 0,
    {
        PluginConfig { repositories: Vec::new(), plugins: Vec::new() }
    }

    /// Installs `name` from `source`, enabled and without configuration, in place of any entry
    /// of that name.
    pub fn add_plugin(&mut self, name: String, source: String, empty_config: serde_json::Value)
        ensures
            final(self).repositories == old(self).repositories,
            final(self).plugins@ == without_named(old(self).plugins@, name@).push(
                InstalledPlugin { name, enabled: true, source, config: empty_config },
            ),
    {
        let mut plugins: Vec<InstalledPlugin> = Vec::new();
        std::mem::swap(&mut plugins, &mut self.plugins);
        let ghost n = name@;
        let mut kept = remove_named(plugins, name.as_str());
        kept.push(InstalledPlugin { name, enabled: true, source, config: empty_config });
        self.plugins = kept;
    }

    /// Removes every entry named `name`.
    pub fn remove_plugin(&mut self, name: &str)
        ensures
            final(self).repositories == old(self).repositories,
            final(self).plugins@ == without_named(old(self).plugins@, name@),
    {
        let mut plugins: Vec<InstalledPlugin> = Vec::new();
        std::mem::swap(&mut plugins, &mut self.plugins);
        self.plugins = remove_named(plugins, name);
    }

    /// Enables or disables the first entry named `name`; nothing changes when there is none.
    pub fn set_enabled(&mut self, name: &str, enabled: bool)
        ensures
            final(self).repositories == old(self).repositories,
            final(self).plugins@.len() == old(self).plugins@.len(),
            match old(self).plugins@.map_values(|p: InstalledPlugin| p.name@).index_of_first(name@) {
                Some(i) => final(self).plugins@ == old(self).plugins@.update(
                    i,
                    InstalledPlugin { enabled, ..old(self).plugins@[i] },
                ),
                None => final(self).plugins@ == old(self).plugins@,
            },
    {
        let ghost names = self.plugins@.map_values(|p: InstalledPlugin| p.name@);
        proof {
            names.index_of_first_ensures(name@);
        }
        let mut i: usize = 0;
        while i < self.plugins.len()
            invariant
                i <= self.plugins@.len(),
                self.plugins@ == old(self).plugins@,
                self.repositories == old(self).repositories,
                names == old(self).plugins@.map_values(|p: InstalledPlugin| p.name@),
                forall|k: int| 0 <= k < i ==> names[k] != name@,
            decreases self.plugins.len() - i,
        {
            if str_equal(self.plugins[i].name.as_str(), name) {
                proof {
                    lemma_first_index(names, name@, i as int);
                }
                let mut plugins: Vec<InstalledPlugin> = Vec::new();
                std::mem::swap(&mut plugins, &mut self.plugins);
                let mut p = plugins.remove(i);
                p.enabled = enabled;
                plugins.insert(i, p);
                self.plugins = plugins;
                assert(self.plugins@ =~= old(self).plugins@.update(
                    i as int,
                    InstalledPlugin { enabled, ..old(self).plugins@[i as int] },
                ));
                return;
            }
            i = i + 1;
        }
        proof {
            names.index_of_first_ensures(name@);
            if names.index_of_first(name@) is Some {
                let f = names.index_of_first(name@)->Some_0;
                assert(names[f] == name@);
            }
        }
    }
}

/// The serialization a plugin list file uses, by its extension.
#[derive(Debug, Clone, Copy, PartialEq, Eq)]
pub enum ConfigFormat {
    Toml,
    Json,
}

/// `toml` and `json` files are read and written; any other extension is refused.
pub fn config_format(extension: &str) -> (r: Result<ConfigFormat, String>)
    ensures
        extension@ == "toml"@ ==> r == Ok::<ConfigFormat, String>(ConfigFormat::Toml),
        extension@ == "json"@ ==> r == Ok::<ConfigFormat, String>(ConfigFormat::Json),
        extension@ != "toml"@ && extension@ != "json"@ ==> (r matches Err(msg) && msg@
            == "Unsupported config format: "@ + extension@),
{
    proof {
        reveal_strlit("toml");
        reveal_strlit("json");
        assert("toml"@[0] != "json"@[0]);
    }
    if str_equal(extension, "toml") {
        Ok(ConfigFormat::Toml)
    } else if str_equal(extension, "json") {
        Ok(ConfigFormat::Json)
    } else {
        let mut msg = owned("Unsupported config format: ");
        msg.push_str(extension);
        Err(msg)
    }
}

} // verus!
