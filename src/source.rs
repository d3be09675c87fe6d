//! Where a binary that is not present locally comes from.

use vstd::prelude::*;

verus! {

/// The origin of a binary.
#[derive(Clone, Debug, PartialEq, Eq)]
pub enum Source {
    /// A version-control repository, checked out and built.
    Git {
        /// The repository's URL.
        url: String,
        /// If applicable, the branch, tag or commit to check out.
        reference: Option<String>,
        /// If applicable, the path to the manifest used to build the binary.
        manifest: Option<String>,
        /// The name of the package to build.
        package: String,
        /// The artifacts kept after the build.
        artifacts: Vec<String>,
    },
    /// A hosted repository's release or source archives.
    GitHub(GitHub),
    /// An archive at a URL.
    Archive {
        /// The archive's URL.
        url: String,
        /// The names of the binaries that the archive holds.
        contents: Vec<String>,
    },
    /// A binary at a URL.
    Url {
        /// The binary's URL.
        url: String,
        /// The name of the binary.
        name: String,
    },
}

/// An archive of a hosted repository.
#[derive(Clone, Debug, PartialEq, Eq)]
pub enum GitHub {
    /// An archive attached to a release.
    ReleaseArchive {
        /// The owner of the repository.
        owner: String,
        /// The name of the repository.
        repository: String,
        /// If applicable, the release's tag.
        tag: Option<String>,
        /// If applicable, a template that turns a tag into the release's tag.
        tag_format: Option<String>,
        /// The name of the archive, as a template.
        archive: String,
        /// The binaries in the archive, each with its path in the archive if it differs.
        contents: Vec<(String, Option<String>)>,
        /// If known, the tag of the latest release.
        latest: Option<String>,
    },
    /// An archive of the repository's source code, built after download.
    SourceCodeArchive {
        /// The owner of the repository.
        owner: String,
        /// The name of the repository.
        repository: String,
        /// If applicable, the branch, tag or commit.
        reference: Option<String>,
        /// If applicable, the path to the manifest used to build the binary.
        manifest: Option<String>,
        /// The name of the package to build.
        package: String,
        /// The artifacts kept after the build.
        artifacts: Vec<String>,
    },
}

/// The text of an optional string.
pub open spec fn opt_view(o: Option<String>) -> Option<Seq<char>> {
    match o {
        Some(s) => Some(s@),
        None => None,
    }
}

impl Source {
    /// The version reference that the origin selects: the reference of a
    /// checkout or a source archive, the tag of a release archive, and none for
    /// the unversioned kinds.
    pub open spec fn spec_reference(&self) -> Option<Seq<char>> {
        match self {
            Source::Git { reference, .. } => opt_view(*reference),
            Source::GitHub(GitHub::ReleaseArchive { tag, .. }) => opt_view(*tag),
            Source::GitHub(GitHub::SourceCodeArchive { reference, .. }) => opt_view(*reference),
            Source::Archive { .. } | Source::Url { .. } => None,
        }
    }

    /// The version reference that the origin selects, if any.
    pub fn reference(&self) -> (r: Option<&str>)
        ensures
            r matches Some(v) ==> self.spec_reference() == Some(v@),
            r is None ==> self.spec_reference() is None,
    {
        let o = match self {
            Source::Git { reference, .. } => reference,
            Source::GitHub(GitHub::ReleaseArchive { tag, .. }) => tag,
            Source::GitHub(GitHub::SourceCodeArchive { reference, .. }) => reference,
            Source::Archive { .. } | Source::Url { .. } => {
                return None;
            },
        };
        match o {
            Some(v) => Some(v.as_str()),
            None => None,
        }
    }
}

} // verus!
