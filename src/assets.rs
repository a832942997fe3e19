//! Resolution of logical asset names to servable URLs.

use vstd::prelude::*;

verus! {

/// Where an asset is served when nothing maps it elsewhere.
pub open spec fn default_asset_url(name: Seq<char>) -> Seq<char> {
    "/assets/"@ + name
}

/// Maps a logical asset name to the URL it is served under. Never fails.
pub trait AssetResolver {
    spec fn resolved(&self, name: Seq<char>) -> Seq<char>;

    fn resolve(&self, name: &str) -> (r: String)
        ensures
            r@ == self.resolved(name@),
    ;
}

fn default_url(name: &str) -> (r: String)
    ensures
        r@ == default_asset_url(name@),
{
    let mut r = String::from_str("/assets/");
    r.append(name);
    r
}

/// Every asset is served from `/assets/` under its own name.
pub struct IdentityAssets;

impl AssetResolver for IdentityAssets {
    open spec fn resolved(&self, name: Seq<char>) -> Seq<char> {
        default_asset_url(name)
    }

    fn resolve(&self, name: &str) -> (r: String) {
        default_url(name)
    }
}

/// The URL that the first entry named `name` maps it to, if any.
pub open spec fn manifest_lookup(entries: Seq<(String, String)>, name: Seq<char>) -> Option<
    Seq<char>,
>
    decreases entries.len(),
{
    if entries.len() == 0 {
        None
    } else if entries[0].0@ == name {
        Some(entries[0].1@)
    } else {
        manifest_lookup(entries.drop_first(), name)
    }
}

/// Assets mapped by a manifest of `(name, url)` entries; a name the
/// manifest lacks is served as `IdentityAssets` serves it.
pub struct ManifestAssets {
    pub entries: Vec<(String, String)>,
}

impl ManifestAssets {
    pub fn new(entries: Vec<(String, String)>) -> (r: ManifestAssets)
        ensures
            r.entries@ == entries@,
    {
        ManifestAssets { entries }
    }

    /// The URL the manifest maps `name` to, if it holds the name.
    pub fn lookup(&self, name: &str) -> (r: Option<String>)
        ensures
            match r {
                Some(u) => manifest_lookup(self.entries@, name@) == Some(u@),
                None => manifest_lookup(self.entries@, name@) is None,
            },
    {
        let key = String::from_str(name);
        let mut i: usize = 0;
        proof {
            assert(self.entries@.subrange(0, self.entries.len() as int) =~= self.entries@);
        }
        while i < self.entries.len()
            invariant
                i <= self.entries.len(),
                key@ == name@,
                manifest_lookup(self.entries@, name@) == manifest_lookup(
                    self.entries@.subrange(i as int, self.entries.len() as int),
                    name@,
                ),
            decreases self.entries.len() - i,
        {
            proof {
                let rest = self.entries@.subrange(i as int, self.entries.len() as int);
                assert(rest.drop_first() =~= self.entries@.subrange(
                    i + 1,
                    self.entries.len() as int,
                ));
                assert(rest[0] == self.entries@[i as int]);
            }
            if self.entries[i].0 == key {
                return Some(self.entries[i].1.clone());
            }
            i = i + 1;
        }
        None
    }
}

impl AssetResolver for ManifestAssets {
    open spec fn resolved(&self, name: Seq<char>) -> Seq<char> {
        match manifest_lookup(self.entries@, name) {
            Some(url) => url,
            None => default_asset_url(name),
        }
    }

    fn resolve(&self, name: &str) -> (r: String) {
        match self.lookup(name) {
            Some(url) => url,
            None => default_url(name),
        }
    }
}

/// Identity assets are served at `/assets/` followed by their name. A
/// manifest serves a name it holds at the URL of its first entry for that
/// name, and any other name at `/assets/` followed by the name.
pub proof fn lemma_asset_resolution(identity: IdentityAssets, manifest: ManifestAssets, name: Seq<char>)
    ensures
        identity.resolved(name) == "/assets/"@ + name,
        forall|i: int|
            0 <= i < manifest.entries.len() && (#[trigger] manifest.entries@[i]).0@ == name && (
            forall|j: int| 0 <= j < i ==> manifest.entries@[j].0@ != name) ==> manifest.resolved(name)
                == manifest.entries@[i].1@,
        (forall|i: int| 0 <= i < manifest.entries.len() ==> (#[trigger] manifest.entries@[i]).0@ != name)
            ==> manifest.resolved(name) == "/assets/"@ + name,
{
    assert forall|i: int|
        0 <= i < manifest.entries.len() && (#[trigger] manifest.entries@[i]).0@ == name && (forall|j: int|
            0 <= j < i ==> manifest.entries@[j].0@ != name) implies manifest.resolved(name)
        == manifest.entries@[i].1@ by {
        lemma_lookup_first(manifest.entries@, name, i);
    }
    if forall|i: int| 0 <= i < manifest.entries.len() ==> (#[trigger] manifest.entries@[i]).0@ != name {
        lemma_lookup_absent(manifest.entries@, name);
    }
}

proof fn lemma_lookup_first(entries: Seq<(String, String)>, name: Seq<char>, i: int)
    requires
        0 <= i < entries.len(),
        entries[i].0@ == name,
        forall|j: int| 0 <= j < i ==> entries[j].0@ != name,
    ensures
        manifest_lookup(entries, name) == Some(entries[i].1@),
    decreases i,
{
    if i > 0 {
        lemma_lookup_first(entries.drop_first(), name, i - 1);
    }
}

proof fn lemma_lookup_absent(entries: Seq<(String, String)>, name: Seq<char>)
    requires
        forall|i: int| 0 <= i < entries.len() ==> (#[trigger] entries[i]).0@ != name,
    ensures
        manifest_lookup(entries, name) is None,
    decreases entries.len(),
{
    if entries.len() > 0 {
        assert(entries[0].0@ != name);
        assert forall|i: int| 0 <= i < entries.drop_first().len() implies (
        #[trigger] entries.drop_first()[i]).0@ != name by {
            assert(entries.drop_first()[i] == entries[i + 1]);
        }
        lemma_lookup_absent(entries.drop_first(), name);
    }
}

} // verus!
