//! One discovered project: where its manifest lies, what it is called and
//! how much its build artifacts weigh.

use vstd::prelude::*;
use vstd::string::*;
use crate::error::ProjectError;
use crate::manifest::{declared_name, read_declared_name, text_of, toml_parses, usable_name, keep_usable};
use crate::path::{is_manifest_path, names_manifest, parent, parent_name, parent_name_of, parent_of};
use crate::size::{as_nat, label_of, size_label, LABEL_WIDTH};
use crate::text::{text_before, text_lt, lemma_text_lt_total, lemma_text_lt_transitive};

verus! {

/// The name of a project.
#[derive(Debug, PartialEq, Eq)]
pub enum Name {
    /// The name that the manifest declares.
    Explicit(String),
    /// The name of the directory that holds the manifest, used where the
    /// manifest declares none.
    Inferred(String),
}

/// What a `Name` stands for.
pub enum NameView {
    Explicit(Seq<char>),
    Inferred(Seq<char>),
}

impl View for Name {
    type V = NameView;

    open spec fn view(&self) -> NameView {
        match self {
            Name::Explicit(s) => NameView::Explicit(s@),
            Name::Inferred(s) => NameView::Inferred(s@),
        }
    }
}

/// How a name is shown: a declared name bare, an inferred one in square
/// brackets.
pub open spec fn name_label(name: NameView) -> Seq<char> {
    match name {
        NameView::Explicit(s) => s,
        NameView::Inferred(s) => seq!['['] + s + seq![']'],
    }
}

/// The name of a project at `path` whose manifest gave `found` for its
/// name: the declared name where there is a usable one, else the name of
/// the manifest's directory, else nothing.
pub open spec fn resolved_name(found: Option<Seq<char>>, path: Seq<char>) -> Result<
    NameView,
    ProjectError,
> {
    match usable_name(found) {
        Some(name) => Ok(NameView::Explicit(name)),
        None => match parent_name(path) {
            Some(dir) => Ok(NameView::Inferred(dir)),
            None => Err(ProjectError::NameResolutionError),
        },
    }
}

impl Name {
    /// Chooses the name of the project at `path`, given what its manifest
    /// declares.
    pub fn resolve(found: Option<String>, path: &str) -> (r: Result<Name, ProjectError>)
        ensures
            match r {
                Ok(name) => resolved_name(text_of(found), path@) == Ok::<NameView, ProjectError>(
                    name@,
                ),
                Err(e) => resolved_name(text_of(found), path@) == Err::<NameView, ProjectError>(e),
            },
    {
        match keep_usable(found) {
            Some(name) => Ok(Name::Explicit(name)),
            None => match parent_name_of(path) {
                Some(dir) => Ok(Name::Inferred(dir)),
                None => Err(ProjectError::NameResolutionError),
            },
        }
    }

    /// The text of the name, without the mark of where it came from.
    pub fn text(&self) -> (s: &str)
        ensures
            s@ == match self@ {
                NameView::Explicit(t) => t,
                NameView::Inferred(t) => t,
            },
    {
        match self {
            Name::Explicit(s) => s.as_str(),
            Name::Inferred(s) => s.as_str(),
        }
    }

    /// Whether the manifest declared the name.
    pub fn is_explicit(&self) -> (r: bool)
        ensures
            r == (self@ is Explicit),
    {
        match self {
            Name::Explicit(_) => true,
            Name::Inferred(_) => false,
        }
    }

    /// The name as it is shown.
    pub fn label(&self) -> (s: String)
        ensures
            s@ == name_label(self@),
    {
        match self {
            Name::Explicit(name) => String::from_str(name.as_str()),
            Name::Inferred(name) => {
                let mut s = String::from_str("[");
                s.append(name.as_str());
                s.append("]");
                proof {
                    reveal_strlit("[");
                    reveal_strlit("]");
                }
                s
            },
        }
    }
}

/// One entry found beneath an artifact directory.
#[derive(Clone, Copy, Debug, PartialEq, Eq, Structural)]
pub enum ArtifactEntry {
    /// A regular file of this many bytes.
    File(u64),
    /// A directory.
    Directory,
    /// A symbolic link, which is not followed.
    Symlink,
    /// An entry that could not be read, or that is none of the above.
    Unreadable,
}

/// What an entry adds to the size of the artifact directory: the length
/// of a regular file, and nothing for anything else.
pub open spec fn entry_bytes(entry: ArtifactEntry) -> nat {
    match entry {
        ArtifactEntry::File(n) => n as nat,
        _ => 0,
    }
}

/// The bytes of all regular files among `entries`.
pub open spec fn total_bytes(entries: Seq<ArtifactEntry>) -> nat
    decreases entries.len(),
{
    if entries.len() == 0 {
        0
    } else {
        total_bytes(entries.drop_last()) + entry_bytes(entries.last())
    }
}

/// The size of an artifact directory: unknown where the directory does not
/// exist, an error where that could not be told, else the bytes of the
/// regular files beneath it.
pub open spec fn measured(exists: Option<bool>, entries: Seq<ArtifactEntry>) -> Result<
    Option<u64>,
    ProjectError,
> {
    match exists {
        None => Err(ProjectError::AccessError),
        Some(false) => Ok(None),
        Some(true) => Ok(Some(total_bytes(entries) as u64)),
    }
}

/// The bytes of all regular files among `entries`, or `None` where the sum
/// does not fit.
pub fn checked_total(entries: &Vec<ArtifactEntry>) -> (total: Option<u64>)
    ensures
        match total {
            Some(n) => n == total_bytes(entries@),
            None => total_bytes(entries@) > u64::MAX,
        },
{
    let mut sum: u64 = 0;
    let mut i: usize = 0;
    while i < entries.len()
        invariant
            i <= entries.len(),
            sum == total_bytes(entries@.take(i as int)),
        decreases entries.len() - i,
    {
        proof {
            assert(entries@.take(i + 1).drop_last() =~= entries@.take(i as int));
        }
        if let ArtifactEntry::File(n) = entries[i] {
            if n > u64::MAX - sum {
                proof {
                    lemma_total_bytes_grows(entries@, i + 1);
                }
                return None;
            }
            sum = sum + n;
        }
        i += 1;
    }
    assert(entries@.take(i as int) =~= entries@);
    Some(sum)
}

/// The bytes of the first entries are no more than the bytes of all.
pub proof fn lemma_total_bytes_grows(entries: Seq<ArtifactEntry>, n: int)
    requires
        0 <= n <= entries.len(),
    ensures
        total_bytes(entries.take(n)) <= total_bytes(entries),
    decreases entries.len(),
{
    if n == entries.len() {
        assert(entries.take(n) =~= entries);
    } else {
        lemma_total_bytes_grows(entries.drop_last(), n);
        assert(entries.drop_last().take(n) =~= entries.take(n));
    }
}

/// What a `Project` stands for.
pub struct ProjectView {
    pub path: Seq<char>,
    pub name: NameView,
    pub size: Option<u64>,
}

/// Sizes in ascending order, an unknown size before every known one.
pub open spec fn size_lt(a: Option<u64>, b: Option<u64>) -> bool {
    match (a, b) {
        (None, Some(_)) => true,
        (Some(x), Some(y)) => x < y,
        _ => false,
    }
}

/// The order in which projects are shown and handled: by size, the
/// smallest first and an unknown size before all others; among projects
/// of one size, by the text of their paths.
pub open spec fn project_lt(a: ProjectView, b: ProjectView) -> bool {
    size_lt(a.size, b.size) || (a.size == b.size && text_lt(a.path, b.path))
}

/// Two records are of the same project when their manifest paths agree.
pub open spec fn same_project(a: ProjectView, b: ProjectView) -> bool {
    a.path == b.path
}

/// The order is strict: nothing comes before itself, and no two projects
/// come before each other.
pub proof fn lemma_order_is_strict(a: ProjectView, b: ProjectView)
    ensures
        !project_lt(a, a),
        !(project_lt(a, b) && project_lt(b, a)),
{
    lemma_text_lt_total(a.path, a.path);
    lemma_text_lt_total(a.path, b.path);
}

/// The order is total on distinct projects: of two records with different
/// paths, exactly one comes before the other.
pub proof fn lemma_order_is_total(a: ProjectView, b: ProjectView)
    requires
        !same_project(a, b),
    ensures
        project_lt(a, b) <==> !project_lt(b, a),
{
    lemma_text_lt_total(a.path, b.path);
}

/// The order is transitive.
pub proof fn lemma_order_is_transitive(a: ProjectView, b: ProjectView, c: ProjectView)
    requires
        project_lt(a, b),
        project_lt(b, c),
    ensures
        project_lt(a, c),
{
    if a.size == b.size && b.size == c.size {
        lemma_text_lt_transitive(a.path, b.path, c.path);
    }
}

/// What reading and parsing a manifest gives: the name that it declares,
/// if any, or why there is nothing to go by. `manifest` is the text of
/// the manifest, or `None` where it could not be read.
pub open spec fn declared_in(manifest: Option<Seq<char>>) -> Result<
    Option<Seq<char>>,
    ProjectError,
> {
    match manifest {
        None => Err(ProjectError::ReadError),
        Some(text) => if toml_parses(text) {
            Ok(declared_name(text))
        } else {
            Err(ProjectError::ParseError)
        },
    }
}

/// What a `Draft` stands for.
pub struct DraftView {
    pub path: Seq<char>,
    pub name: NameView,
}

/// The draft of the record of the project whose manifest lies at `path`,
/// given what its manifest declares. The steps come in this order: the
/// path, the manifest, the name; the first that fails gives the error.
pub open spec fn drafted(path: Seq<char>, declared: Result<Option<Seq<char>>, ProjectError>) -> Result<
    DraftView,
    ProjectError,
> {
    if !is_manifest_path(path) {
        Err(ProjectError::InvalidManifest)
    } else {
        match declared {
            Err(e) => Err(e),
            Ok(found) => match resolved_name(found, path) {
                Err(e) => Err(e),
                Ok(name) => Ok(DraftView { path, name }),
            },
        }
    }
}

/// The record that a draft becomes once its artifact directory is
/// measured, or the error that the measuring gave.
pub open spec fn finished(draft: DraftView, artifacts: Result<Option<u64>, ProjectError>) -> Result<
    ProjectView,
    ProjectError,
> {
    match artifacts {
        Err(e) => Err(e),
        Ok(size) => Ok(ProjectView { path: draft.path, name: draft.name, size }),
    }
}

/// The record of the project whose manifest lies at `path`, given what
/// its manifest declares and what measuring its artifact directory gave.
/// The steps come in this order: the path, the manifest, the name, the
/// artifacts; the first that fails gives the error.
pub open spec fn assembled(
    path: Seq<char>,
    declared: Result<Option<Seq<char>>, ProjectError>,
    artifacts: Result<Option<u64>, ProjectError>,
) -> Result<ProjectView, ProjectError> {
    match drafted(path, declared) {
        Err(e) => Err(e),
        Ok(draft) => finished(draft, artifacts),
    }
}

/// The record of the project whose manifest lies at `path`, given the text
/// of the manifest, `None` where it could not be read, and what measuring
/// its artifact directory gave.
pub open spec fn created(
    path: Seq<char>,
    manifest: Option<Seq<char>>,
    artifacts: Result<Option<u64>, ProjectError>,
) -> Result<ProjectView, ProjectError> {
    assembled(path, declared_in(manifest), artifacts)
}

/// The texts in what a manifest declares.
pub open spec fn declared_text(declared: Result<Option<String>, ProjectError>) -> Result<
    Option<Seq<char>>,
    ProjectError,
> {
    match declared {
        Ok(found) => Ok(text_of(found)),
        Err(e) => Err(e),
    }
}

/// What a result with a draft in it stands for.
pub open spec fn draft_outcome(r: Result<Draft, ProjectError>) -> Result<DraftView, ProjectError> {
    match r {
        Ok(d) => Ok(d@),
        Err(e) => Err(e),
    }
}

/// What a result with a project in it stands for.
pub open spec fn outcome(r: Result<Project, ProjectError>) -> Result<ProjectView, ProjectError> {
    match r {
        Ok(p) => Ok(p@),
        Err(e) => Err(e),
    }
}

/// The line that shows a project: its size, an arrow and the directory
/// that holds its manifest.
pub open spec fn project_line(p: ProjectView, color: bool) -> Seq<char> {
    label_of(as_nat(p.size), LABEL_WIDTH as nat, color) + " <- "@ + parent(p.path)
}

/// A record in the making: its path and its name are settled, its
/// artifact directory is yet to be measured. A caller makes the draft
/// first, so that nothing is measured for a manifest that gives no record.
#[derive(Debug)]
pub struct Draft {
    path: String,
    name: Name,
}

impl View for Draft {
    type V = DraftView;

    closed spec fn view(&self) -> DraftView {
        DraftView { path: self.path@, name: self.name@ }
    }
}

impl Draft {
    #[verifier::type_invariant]
    spec fn names_a_manifest(self) -> bool {
        is_manifest_path(self.path@)
    }

    /// Drafts the record of the project whose manifest lies at `path`,
    /// from what its manifest declares.
    pub fn new(path: &str, declared: Result<Option<String>, ProjectError>) -> (r: Result<
        Draft,
        ProjectError,
    >)
        ensures
            draft_outcome(r) == drafted(path@, declared_text(declared)),
    {
        if !names_manifest(path) {
            return Err(ProjectError::InvalidManifest);
        }
        let found = match declared {
            Ok(found) => found,
            Err(e) => {
                return Err(e);
            },
        };
        match Name::resolve(found, path) {
            Ok(name) => Ok(Draft { path: String::from_str(path), name }),
            Err(e) => Err(e),
        }
    }

    /// Drafts the record of the project whose manifest lies at `path`.
    /// `manifest` is the text read from that file, `None` where reading
    /// failed.
    pub fn read(path: &str, manifest: Option<&str>) -> (r: Result<Draft, ProjectError>)
        ensures
            draft_outcome(r) == drafted(
                path@,
                declared_in(
                    match manifest {
                        Some(t) => Some(t@),
                        None => None,
                    },
                ),
            ),
    {
        let declared = match manifest {
            Some(text) => read_declared_name(text),
            None => Err(ProjectError::ReadError),
        };
        Draft::new(path, declared)
    }

    /// The path of the manifest.
    pub fn path(&self) -> (path: &str)
        ensures
            path@ == self@.path,
            is_manifest_path(path@),
    {
        proof {
            use_type_invariant(self);
        }
        self.path.as_str()
    }

    /// Completes the record with what `Project::dirsize` gave for the
    /// artifact directory.
    pub fn finish(self, artifacts: Result<Option<u64>, ProjectError>) -> (r: Result<
        Project,
        ProjectError,
    >)
        ensures
            outcome(r) == finished(self@, artifacts),
    {
        proof {
            use_type_invariant(&self);
        }
        match artifacts {
            Ok(size) => Ok(Project { path: self.path, name: self.name, size }),
            Err(e) => Err(e),
        }
    }
}

/// A project, identified by the path of its manifest.
#[derive(Debug)]
pub struct Project {
    path: String,
    name: Name,
    size: Option<u64>,
}

impl View for Project {
    type V = ProjectView;

    closed spec fn view(&self) -> ProjectView {
        ProjectView { path: self.path@, name: self.name@, size: self.size }
    }
}

/// What each of a sequence of projects stands for.
pub open spec fn views_of(records: Seq<Project>) -> Seq<ProjectView> {
    Seq::new(records.len(), |i: int| records[i]@)
}

impl Project {
    #[verifier::type_invariant]
    spec fn names_a_manifest(self) -> bool {
        is_manifest_path(self.path@)
    }

    /// Makes the record of the project whose manifest lies at `path`, from
    /// what its manifest declares and what `dirsize` gave for the
    /// directory next to it.
    pub fn from_parts(
        path: &str,
        declared: Result<Option<String>, ProjectError>,
        artifacts: Result<Option<u64>, ProjectError>,
    ) -> (r: Result<Project, ProjectError>)
        ensures
            outcome(r) == assembled(path@, declared_text(declared), artifacts),
    {
        match Draft::new(path, declared) {
            Ok(draft) => draft.finish(artifacts),
            Err(e) => Err(e),
        }
    }

    /// Makes the record of the project whose manifest lies at `path`.
    /// `manifest` is the text read from that file, `None` where reading
    /// failed; `artifacts` is what `dirsize` gave for the directory next
    /// to it.
    pub fn new(path: &str, manifest: Option<&str>, artifacts: Result<Option<u64>, ProjectError>) -> (r:
        Result<Project, ProjectError>)
        ensures
            outcome(r) == created(
                path@,
                match manifest {
                    Some(t) => Some(t@),
                    None => None,
                },
                artifacts,
            ),
    {
        match Draft::read(path, manifest) {
            Ok(draft) => draft.finish(artifacts),
            Err(e) => Err(e),
        }
    }

    /// The size of the artifact directory of a project. `exists` tells
    /// whether the directory is there, `None` where that could not be
    /// told; `entries` are the entries found beneath it.
    pub fn dirsize(exists: Option<bool>, entries: &Vec<ArtifactEntry>) -> (r: Result<
        Option<u64>,
        ProjectError,
    >)
        requires
            exists == Some(true) ==> total_bytes(entries@) <= u64::MAX,
        ensures
            r == measured(exists, entries@),
    {
        match exists {
            None => Err(ProjectError::AccessError),
            Some(false) => Ok(None),
            Some(true) => Ok(checked_total(entries)),
        }
    }

    /// The path of the manifest.
    pub fn path(&self) -> (path: &str)
        ensures
            path@ == self@.path,
            is_manifest_path(path@),
    {
        proof {
            use_type_invariant(self);
        }
        self.path.as_str()
    }

    /// The name of the project.
    pub fn name(&self) -> (name: &Name)
        ensures
            name@ == self@.name,
    {
        &self.name
    }

    /// The size of the artifact directory, `None` where there is none.
    pub fn size(&self) -> (size: &Option<u64>)
        ensures
            *size == self@.size,
    {
        &self.size
    }

    /// Whether this project comes before `other` in the order of
    /// projects.
    pub fn precedes(&self, other: &Project) -> (r: bool)
        ensures
            r == project_lt(self@, other@),
    {
        match (self.size, other.size) {
            (None, Some(_)) => true,
            (Some(_), None) => false,
            (None, None) => text_before(self.path.as_str(), other.path.as_str()),
            (Some(x), Some(y)) => {
                if x < y {
                    true
                } else if x > y {
                    false
                } else {
                    text_before(self.path.as_str(), other.path.as_str())
                }
            },
        }
    }

    /// Whether this record and `other` are of the same project.
    pub fn same_as(&self, other: &Project) -> (r: bool)
        ensures
            r == same_project(self@, other@),
    {
        self.path == other.path
    }

    /// The line that shows this project.
    pub fn line(&self, color: bool) -> (line: String)
        ensures
            line@ == project_line(self@, color),
    {
        let mut line = match self.size {
            Some(n) => size_label(Some(n as u128), LABEL_WIDTH, color),
            None => size_label(None, LABEL_WIDTH, color),
        };
        line.append(" <- ");
        let dir = parent_of(self.path.as_str());
        line.append(dir.as_str());
        line
    }
}

} // verus!
