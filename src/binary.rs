//! A binary, either present locally or obtained from a declared origin, and
//! the rules that place it in the cache, rank its versions and keep it fresh.

use crate::source::{opt_view, GitHub, Source};
use crate::sys::{debug_text, join_path, joined, path_exists, quoted_path};
use crate::version::{
    candidates, cached_marks, compare_text, lemma_version_cmp_flip, order_option, order_u32, parse_version, pick, picked, ranked_first, texts, version_cmp,
};
use std::cmp::Ordering;
use vstd::prelude::*;

verus! {

broadcast use vstd::string::to_string_from_display_ensures_for_str;

/// A binary used to launch a node.
#[derive(Clone, Debug, PartialEq, Eq)]
pub enum Binary {
    /// A local binary.
    Local {
        /// The name of the binary.
        name: String,
        /// The path of the binary.
        path: String,
        /// If applicable, the path to a manifest used to build the binary if missing.
        manifest: Option<String>,
    },
    /// A binary which needs to be sourced.
    Source {
        /// The name of the binary.
        name: String,
        /// The source of the binary.
        source: Source,
        /// The cache to be used to store the binary.
        cache: String,
    },
}

/// A failure to source a binary.
#[derive(Clone, Debug, PartialEq, Eq)]
pub enum Error {
    /// A local binary without a manifest cannot be sourced; the message names its path.
    MissingBinary(String),
}

/// What sourcing a binary takes, for the collaborator that does it.
#[derive(Clone, Debug, PartialEq, Eq)]
pub enum Sourcing<'a> {
    /// Build the local package described by `manifest`, which yields the binary `name`.
    Build { manifest: String, name: String, release: bool, verbose: bool },
    /// Fetch the binary from `source` into `cache`, so that it ends up at `target`.
    Fetch { source: &'a Source, cache: String, target: String, release: bool, verbose: bool },
}

/// The file name under the cache of a binary `name` at version `version`.
pub open spec fn versioned_name(name: Seq<char>, version: Seq<char>) -> Seq<char> {
    name + seq!['-'] + version
}

/// The cache path of a binary `name` whose origin selects `version`.
pub open spec fn cache_path(cache: Seq<char>, name: Seq<char>, version: Option<Seq<char>>) -> Seq<
    char,
> {
    match version {
        Some(v) => joined(cache, versioned_name(name, v)),
        None => joined(cache, name),
    }
}

/// The message of the error for a local binary at `path` that cannot be sourced.
pub open spec fn missing_message(path: Seq<char>) -> Seq<char> {
    "The "@ + debug_text(path) + " binary cannot be sourced automatically."@
}

/// `name-version`, the file name of a versioned binary.
fn versioned_file(name: &str, version: &str) -> (r: String)
    ensures
        r@ == versioned_name(name@, version@),
{
    let mut s = name.to_string();
    s.append("-");
    s.append(version);
    proof {
        reveal_strlit("-");
        assert(s@ =~= versioned_name(name@, version@));
    }
    s
}

impl Binary {
    /// The name of the binary, whatever its kind.
    pub open spec fn spec_name(&self) -> Seq<char> {
        match self {
            Binary::Local { name, .. } => name@,
            Binary::Source { name, .. } => name@,
        }
    }

    /// The version that the binary's origin selects; none for a local binary.
    pub open spec fn spec_version(&self) -> Option<Seq<char>> {
        match self {
            Binary::Local { .. } => None,
            Binary::Source { source, .. } => source.spec_reference(),
        }
    }

    /// The latest known version; only a release archive records one.
    pub open spec fn spec_latest(&self) -> Option<Seq<char>> {
        match self {
            Binary::Source { source: Source::GitHub(GitHub::ReleaseArchive { latest, .. }), .. } =>
                opt_view(*latest),
            _ => None,
        }
    }

    /// Where the binary is, or is to be, stored.
    pub open spec fn spec_path(&self) -> Seq<char> {
        match self {
            Binary::Local { path, .. } => path@,
            Binary::Source { name, source, cache } => cache_path(
                cache@,
                name@,
                source.spec_reference(),
            ),
        }
    }

    /// Whether a release archive has both a tag and a known latest tag, and
    /// the two differ.
    pub open spec fn spec_stale(&self) -> bool {
        match self {
            Binary::Source {
                source: Source::GitHub(GitHub::ReleaseArchive { tag: Some(t), latest: Some(l), .. }),
                ..
            } => t@ != l@,
            _ => false,
        }
    }

    /// The binary after its tag is moved to the latest known one: a release
    /// archive with a known latest tag takes it as its tag; any other binary is
    /// left as it is.
    pub open spec fn upgraded(self) -> Binary {
        match self {
            Binary::Source {
                name,
                source: Source::GitHub(
                    GitHub::ReleaseArchive {
                        owner,
                        repository,
                        tag,
                        tag_format,
                        archive,
                        contents,
                        latest: Some(l),
                    },
                ),
                cache,
            } => Binary::Source {
                name,
                source: Source::GitHub(
                    GitHub::ReleaseArchive {
                        owner,
                        repository,
                        tag: Some(l),
                        tag_format,
                        archive,
                        contents,
                        latest: Some(l),
                    },
                ),
                cache,
            },
            _ => self,
        }
    }

    /// Whether the binary comes from a release archive.
    pub open spec fn is_release_archive(&self) -> bool {
        self matches Binary::Source { source: Source::GitHub(GitHub::ReleaseArchive { .. }), .. }
    }

    /// Whether the binary is defined locally.
    pub fn local(&self) -> (r: bool)
        ensures
            r == (self is Local),
    {
        matches!(self, Binary::Local { .. })
    }

    /// The name of the binary.
    pub fn name(&self) -> (r: &str)
        ensures
            r@ == self.spec_name(),
    {
        match self {
            Binary::Local { name, .. } => name.as_str(),
            Binary::Source { name, .. } => name.as_str(),
        }
    }

    /// If applicable, the version of the binary.
    pub fn version(&self) -> (r: Option<&str>)
        ensures
            r matches Some(v) ==> self.spec_version() == Some(v@),
            r is None ==> self.spec_version() is None,
    {
        match self {
            Binary::Local { .. } => None,
            Binary::Source { source, .. } => source.reference(),
        }
    }

    /// If applicable, the latest version available.
    pub fn latest(&self) -> (r: Option<&str>)
        ensures
            r matches Some(v) ==> self.spec_latest() == Some(v@),
            r is None ==> self.spec_latest() is None,
    {
        match self {
            Binary::Source {
                source: Source::GitHub(GitHub::ReleaseArchive { latest: Some(l), .. }),
                ..
            } => Some(l.as_str()),
            _ => None,
        }
    }

    /// The path of the binary: a local binary's own path, else the cache
    /// joined with `name`, or with `name-version` when the origin selects a
    /// version.
    pub fn path(&self) -> (r: String)
        ensures
            r@ == self.spec_path(),
    {
        match self {
            Binary::Local { path, .. } => path.clone(),
            Binary::Source { name, source, cache } => match source.reference() {
                Some(v) => Binary::cache_file(cache.as_str(), name.as_str(), v),
                None => join_path(cache.as_str(), name.as_str()),
            },
        }
    }

    /// The path under `cache` at which version `version` of the binary `name`
    /// is stored: the cache joined with `name-version`.
    pub fn cache_file(cache: &str, name: &str, version: &str) -> (r: String)
        ensures
            r@ == cache_path(cache@, name@, Some(version@)),
    {
        join_path(cache, versioned_file(name, version).as_str())
    }

    /// Whether the binary exists at its path.
    pub fn is_present(&self) -> bool {
        path_exists(self.path().as_str())
    }

    /// Whether any locally cached version can be replaced with a newer version:
    /// only a release archive whose tag and latest tag are both known and
    /// differ. Without either there is nothing to judge by, and it is not stale.
    pub fn stale(&self) -> (r: bool)
        ensures
            r == self.spec_stale(),
    {
        match self {
            Binary::Source {
                source: Source::GitHub(GitHub::ReleaseArchive { tag, latest: Some(l), .. }),
                ..
            } => match tag {
                Some(t) => !t.eq(l),
                None => false,
            },
            _ => false,
        }
    }
}

impl Binary {
    /// Specifies that the latest available version is to be used, where one
    /// is known: a release archive with a known latest tag takes it as its tag.
    pub fn use_latest(&mut self)
        ensures
            *final(self) == old(self).upgraded(),
    {
        if let Binary::Source {
            source: Source::GitHub(GitHub::ReleaseArchive { tag, latest: Some(latest), .. }),
            ..
        } = self {
            *tag = Some(latest.clone());
        }
    }

    /// Ranks two version references. A reference that starts with `v` reads
    /// its first two `.`-separated pieces as major and minor numbers; one that
    /// starts with `polkadot-stable` reads the number after it as
    /// `major * 100 + minor`. References with a major number rank above those
    /// without; two with major numbers are ordered by major, then minor (an
    /// absent minor ranks lowest); two without are ordered as texts.
    pub fn compare_versions(a: &str, b: &str) -> (r: Ordering)
        ensures
            r == version_cmp(a@, b@),
    {
        let (a_major, a_minor) = parse_version(a);
        let (b_major, b_minor) = parse_version(b);
        match (a_major, b_major) {
            (Some(x), Some(y)) => if x != y {
                order_u32(x, y)
            } else {
                order_option(a_minor, b_minor)
            },
            (Some(_), None) => Ordering::Greater,
            (None, Some(_)) => Ordering::Less,
            (None, None) => compare_text(a, b),
        }
    }

    /// Resolves the version of the binary `name` to use: the `specified` one
    /// if given; else, of the `available` ones, the best ranked one already
    /// cached under `cache` (as `name-version`), or the best ranked one when
    /// none is cached; nothing when `available` is empty.
    pub fn resolve_version(
        name: &str,
        specified: Option<&str>,
        available: &[&str],
        cache: &str,
    ) -> (r: Option<String>)
        ensures
            specified matches Some(v) ==> opt_view(r) == Some(v@),
            specified is None ==> (r is None <==> available@.len() == 0),
            specified is None ==> exists|cached: Seq<bool>|
                cached.len() == available@.len() && picked(texts(available@), cached, opt_view(r)),
    {
        match specified {
            Some(v) => Some(v.to_string()),
            None => {
                let n = available.len();
                let mut cached: Vec<bool> = Vec::new();
                let mut i: usize = 0;
                while i < n
                    invariant
                        i <= n,
                        n == available@.len(),
                        cached@.len() == i,
                    decreases n - i,
                {
                    let path = Binary::cache_file(cache, name, available[i]);
                    cached.push(path_exists(path.as_str()));
                    i = i + 1;
                }
                pick(available, &cached)
            },
        }
    }

    /// Decides how the binary is to be sourced: a local binary without a
    /// manifest cannot be, and fails with `MissingBinary` naming its path; one
    /// with a manifest is built from it; any other is fetched from its origin
    /// into the cache, to exactly the path that `path` gives.
    pub fn source(&self, release: bool, verbose: bool) -> (r: Result<Sourcing<'_>, Error>)
        ensures
            match self {
                Binary::Local { path, manifest: None, .. } => r matches Err(
                    Error::MissingBinary(m),
                ) && m@ == missing_message(path@),
                Binary::Local { name, manifest: Some(mf), .. } => r matches Ok(
                    Sourcing::Build { manifest: m, name: n, release: rl, verbose: vb },
                ) && m@ == mf@ && n@ == name@ && rl == release && vb == verbose,
                Binary::Source { source, cache, .. } => r matches Ok(
                    Sourcing::Fetch { source: s, cache: c, target, release: rl, verbose: vb },
                ) && *s == *source && c@ == cache@ && target@ == self.spec_path() && rl == release
                    && vb == verbose,
            },
    {
        match self {
            Binary::Local { name, path, manifest } => match manifest {
                None => {
                    let mut m = "The ".to_string();
                    m.append(quoted_path(path.as_str()).as_str());
                    m.append(" binary cannot be sourced automatically.");
                    Err(Error::MissingBinary(m))
                },
                Some(mf) => Ok(
                    Sourcing::Build { manifest: mf.clone(), name: name.clone(), release, verbose },
                ),
            },
            Binary::Source { source, cache, .. } => Ok(
                Sourcing::Fetch {
                    source,
                    cache: cache.clone(),
                    target: self.path(),
                    release,
                    verbose,
                },
            ),
        }
    }
}

/// The path of a binary from an origin is fixed by its name, the version its
/// origin selects and its cache: two such binaries that agree on those three
/// agree on their path, whatever else their origins hold.
pub proof fn lemma_path_determined(a: Binary, b: Binary)
    requires
        a is Source,
        b is Source,
        a.spec_name() == b.spec_name(),
        a.spec_version() == b.spec_version(),
        a->cache@ == b->cache@,
    ensures
        a.spec_path() == b.spec_path(),
{
}

/// Only a release archive can be stale or be moved to a newer tag: for every
/// other binary `stale` is false and `use_latest` changes nothing.
pub proof fn lemma_only_release_archives_age(b: Binary)
    requires
        !b.is_release_archive(),
    ensures
        !b.spec_stale(),
        b.upgraded() == b,
{
}

/// After `use_latest`, a release archive with a known latest tag carries that
/// tag as its version and is no longer stale; a second `use_latest` changes
/// nothing.
pub proof fn lemma_use_latest_catches_up(b: Binary)
    requires
        b.is_release_archive(),
        b.spec_latest() is Some,
    ensures
        b.upgraded().spec_version() == b.spec_latest(),
        b.upgraded().spec_latest() == b.spec_latest(),
        !b.upgraded().spec_stale(),
        b.upgraded().upgraded() == b.upgraded(),
{
}

/// A release archive whose tag and latest tag are both known and differ is
/// stale.
pub proof fn lemma_stale_when_behind(b: Binary)
    requires
        b.is_release_archive(),
        b.spec_version() is Some,
        b.spec_latest() is Some,
        b.spec_version() != b.spec_latest(),
    ensures
        b.spec_stale(),
{
}

/// A cached version that every other cached version ranks below is the one
/// picked, whatever ranks above it among the versions not cached.
pub proof fn lemma_cached_preferred(vs: Seq<Seq<char>>, cached: Seq<bool>, k: int, r: Option<Seq<char>>)
    requires
        0 <= k < vs.len(),
        k < cached.len() && cached[k],
        forall|j: int|
            0 <= j < vs.len() && j != k && j < cached.len() && cached[j] ==> version_cmp(
                #[trigger] vs[j],
                vs[k],
            ) == Ordering::Less,
        picked(vs, cached, r),
    ensures
        r == Some(vs[k]),
{
    let n = vs.len();
    let marks = candidates(cached, n);
    assert(cached_marks(cached, n)[k]);
    assert(marks == cached_marks(cached, n));
    let i = choose|i: int| ranked_first(vs, marks, i) && r == Some(vs[i]);
    if i != k {
        lemma_version_cmp_flip(vs[i], vs[k]);
        assert(version_cmp(vs[i], vs[k]) == Ordering::Less);
    }
}

/// When the best ranked of all versions is cached it is the one picked, even
/// where lower ranked versions are cached too.
pub proof fn lemma_top_cached_wins(vs: Seq<Seq<char>>, cached: Seq<bool>, t: int, r: Option<Seq<char>>)
    requires
        ranked_first(vs, Seq::new(vs.len(), |i: int| true), t),
        t < cached.len() && cached[t],
        picked(vs, cached, r),
    ensures
        r == Some(vs[t]),
{
    let n = vs.len();
    let marks = candidates(cached, n);
    assert(cached_marks(cached, n)[t]);
    assert(marks == cached_marks(cached, n));
    let i = choose|i: int| ranked_first(vs, marks, i) && r == Some(vs[i]);
    if i != t {
        assert(Seq::new(vs.len(), |i: int| true)[i]);
        assert(version_cmp(vs[i], vs[t]) != Ordering::Greater);
        assert(version_cmp(vs[t], vs[i]) != Ordering::Greater);
        lemma_version_cmp_flip(vs[i], vs[t]);
        if i < t {
            assert(version_cmp(vs[i], vs[t]) == Ordering::Less);
        } else {
            assert(version_cmp(vs[t], vs[i]) == Ordering::Less);
        }
    }
}

} // verus!
