//! The projects of one scan, split by a pattern into those to act on and
//! those to leave alone.

use vstd::prelude::*;
use vstd::string::*;
use crate::clean::{begun, Cleaning, CleaningView, Confirmation};
use crate::pattern::{matches_any, pattern_matches, source_of, Pattern};
use crate::project::{views_of, Project, ProjectView};
use crate::project_set::{has_path, lemma_ordered_is_unique, listing, ordered, paths_of, ProjectSet};
use crate::scan::{admitted, Scan, ScanView};
use crate::text::texts;

verus! {

/// The heading that stands before the listing of the ignored projects.
pub const IGNORED_HEADING: &'static str = "Ignored:";

/// What `Projects` stands for: the two parts, each in the order of
/// projects.
pub struct ProjectsView {
    pub included: Seq<ProjectView>,
    pub ignored: Seq<ProjectView>,
}

/// A discovered record together with whether the pattern matched its
/// path.
pub type Found = (ProjectView, bool);

/// What each of a sequence of projects with their matches stands for.
pub open spec fn found_of(found: Seq<(Project, bool)>) -> Seq<Found> {
    Seq::new(found.len(), |i: int| (found[i].0@, found[i].1))
}

/// Each record with whether the pattern matches its manifest path. No
/// pattern matches no path.
pub open spec fn flagged(records: Seq<ProjectView>, pattern: Option<Seq<char>>) -> Seq<Found> {
    Seq::new(records.len(), |i: int| (records[i], pattern_matches(pattern, records[i].path)))
}

/// Whether a project is one to act on. Without `invert` those are the
/// projects that the pattern did not match; with it, those that it
/// matched.
pub open spec fn included_by(matched: bool, invert: bool) -> bool {
    matched == invert
}

/// Whether no record before the one at `i` has the same path.
pub open spec fn first_with_path(found: Seq<Found>, i: int) -> bool {
    forall|j: int| 0 <= j < i ==> (#[trigger] found[j]).0.path != found[i].0.path
}

/// Whether `part` holds exactly those of the first `n` records that are
/// the first with their path and fall on the side `side`.
pub open spec fn gathered(
    part: Seq<ProjectView>,
    found: Seq<Found>,
    n: int,
    invert: bool,
    side: bool,
) -> bool {
    forall|v: ProjectView| #[trigger]
        part.contains(v) <==> exists|i: int|
            0 <= i < n && (#[trigger] found[i]).0 == v && first_with_path(found, i) && included_by(
                found[i].1,
                invert,
            ) == side
}

/// Whether `parts` sorts out `found`: of each path the first record, on
/// the side that its match gives it, and each side in the order of
/// projects.
pub open spec fn sorted_out(found: Seq<Found>, invert: bool, parts: ProjectsView) -> bool {
    &&& ordered(parts.included)
    &&& ordered(parts.ignored)
    &&& gathered(parts.included, found, found.len() as int, invert, true)
    &&& gathered(parts.ignored, found, found.len() as int, invert, false)
}

/// Whether the two sides share no path.
pub open spec fn apart(parts: ProjectsView) -> bool {
    forall|path: Seq<char>| !(has_path(parts.included, path) && has_path(parts.ignored, path))
}

/// Whether the two sides are as every `Projects` has them: each in the
/// order of projects, and no path on both.
pub open spec fn well_formed(parts: ProjectsView) -> bool {
    &&& ordered(parts.included)
    &&& ordered(parts.ignored)
    &&& apart(parts)
}

/// Those of `records` that a scan on these terms can have reached, in
/// their order.
pub open spec fn admitted_of(scan: ScanView, records: Seq<ProjectView>) -> Seq<ProjectView>
    decreases records.len(),
{
    if records.len() == 0 {
        records
    } else if admitted(scan, records.last().path) {
        admitted_of(scan, records.drop_last()).push(records.last())
    } else {
        admitted_of(scan, records.drop_last())
    }
}

/// What is admitted is admitted, and was among the records.
pub proof fn lemma_admitted_of(scan: ScanView, records: Seq<ProjectView>)
    ensures
        forall|v: ProjectView| #[trigger]
            admitted_of(scan, records).contains(v) <==> records.contains(v) && admitted(
                scan,
                v.path,
            ),
    decreases records.len(),
{
    let kept = admitted_of(scan, records);
    if records.len() > 0 {
        let rest = records.drop_last();
        let last = records.last();
        lemma_admitted_of(scan, rest);
        assert forall|v: ProjectView| #[trigger]
            kept.contains(v) <==> records.contains(v) && admitted(scan, v.path) by {
            if kept.contains(v) {
                let i = choose|i: int| 0 <= i < kept.len() && kept[i] == v;
                if !(admitted(scan, last.path) && i == kept.len() - 1) {
                    assert(admitted_of(scan, rest).contains(v));
                }
            }
            if records.contains(v) && admitted(scan, v.path) {
                let j = choose|j: int| 0 <= j < records.len() && records[j] == v;
                if j == records.len() - 1 {
                    assert(kept[kept.len() - 1] == v);
                } else {
                    assert(rest[j] == v);
                    assert(admitted_of(scan, rest).contains(v));
                    let i = choose|i: int|
                        0 <= i < admitted_of(scan, rest).len() && admitted_of(scan, rest)[i] == v;
                    assert(kept[i] == v);
                }
            }
        }
    }
}

/// Whether `parts` is the classification of `records` by `pattern`.
pub open spec fn classified(
    records: Seq<ProjectView>,
    pattern: Option<Seq<char>>,
    invert: bool,
    parts: ProjectsView,
) -> bool {
    sorted_out(flagged(records, pattern), invert, parts)
}

/// The listing of the ignored projects under its heading.
pub open spec fn ignored_report(parts: ProjectsView, color: bool) -> Seq<Seq<char>> {
    seq![IGNORED_HEADING@] + listing(parts.ignored, color)
}

/// What is shown once a cleaning is through: the ignored projects, where
/// they were asked for and the cleaning was confirmed; nothing after a
/// cleaning that was declined or is still undecided.
pub open spec fn closing_report(
    parts: ProjectsView,
    cleaning: CleaningView,
    show_ignored: bool,
    color: bool,
) -> Seq<Seq<char>> {
    if show_ignored && cleaning.state == Confirmation::Confirmed {
        ignored_report(parts, color)
    } else {
        Seq::<Seq<char>>::empty()
    }
}

/// The lines of a report: the listing of the included projects, unless
/// there are none, and, where asked for and unless there are none, the
/// listing of the ignored ones under its heading.
pub open spec fn report(parts: ProjectsView, show_ignored: bool, color: bool) -> Seq<Seq<char>> {
    let first = if parts.included.len() > 0 {
        listing(parts.included, color)
    } else {
        Seq::<Seq<char>>::empty()
    };
    let second = if show_ignored && parts.ignored.len() > 0 {
        ignored_report(parts, color)
    } else {
        Seq::<Seq<char>>::empty()
    };
    first + second
}

/// Whether no two of `found` have the same manifest path.
pub open spec fn distinct_paths(found: Seq<Found>) -> bool {
    forall|i: int, j: int|
        0 <= i < j < found.len() ==> (#[trigger] found[i]).0.path != (#[trigger] found[j]).0.path
}

/// Among the first `n` records, a path that occurs at all occurs at a
/// record that is the first with it.
pub proof fn lemma_first_occurrence(found: Seq<Found>, n: int, path: Seq<char>)
    requires
        0 <= n <= found.len(),
        exists|j: int| 0 <= j < n && (#[trigger] found[j]).0.path == path,
    ensures
        exists|i: int|
            0 <= i < n && (#[trigger] found[i]).0.path == path && first_with_path(found, i),
    decreases n,
{
    let j = choose|j: int| 0 <= j < n && (#[trigger] found[j]).0.path == path;
    if !first_with_path(found, j) {
        lemma_first_occurrence(found, j, path);
    }
}

/// The two sides are a partition of what was discovered: no path is on
/// both sides, every discovered path is on one of them, and each side
/// holds discovered records only. Where every path was discovered once,
/// every discovered record is on one of the sides.
pub proof fn lemma_sides_are_a_partition(found: Seq<Found>, invert: bool, parts: ProjectsView)
    requires
        sorted_out(found, invert, parts),
    ensures
        forall|path: Seq<char>|
            !(has_path(parts.included, path) && has_path(parts.ignored, path)),
        forall|i: int|
            0 <= i < found.len() ==> (has_path(parts.included, (#[trigger] found[i]).0.path)
                || has_path(parts.ignored, found[i].0.path)),
        forall|v: ProjectView|
            parts.included.contains(v) || parts.ignored.contains(v) ==> exists|i: int|
                0 <= i < found.len() && (#[trigger] found[i]).0 == v,
        distinct_paths(found) ==> forall|i: int|
            0 <= i < found.len() ==> parts.included.contains((#[trigger] found[i]).0)
                || parts.ignored.contains(found[i].0),
{
    assert forall|path: Seq<char>|
        !(has_path(parts.included, path) && has_path(parts.ignored, path)) by {
        if has_path(parts.included, path) && has_path(parts.ignored, path) {
            let a = choose|a: int|
                0 <= a < parts.included.len() && (#[trigger] parts.included[a]).path == path;
            let b = choose|b: int|
                0 <= b < parts.ignored.len() && (#[trigger] parts.ignored[b]).path == path;
            assert(parts.included.contains(parts.included[a]));
            assert(parts.ignored.contains(parts.ignored[b]));
        }
    }
    assert forall|i: int| 0 <= i < found.len() implies (has_path(
        parts.included,
        (#[trigger] found[i]).0.path,
    ) || has_path(parts.ignored, found[i].0.path)) by {
        let path = found[i].0.path;
        lemma_first_occurrence(found, found.len() as int, path);
        let f = choose|f: int|
            0 <= f < found.len() && (#[trigger] found[f]).0.path == path && first_with_path(
                found,
                f,
            );
        let v = found[f].0;
        if included_by(found[f].1, invert) {
            assert(parts.included.contains(v));
        } else {
            assert(parts.ignored.contains(v));
        }
    }
}

/// Nothing is lost and nothing is counted twice: with every path discovered
/// once, the two sides together hold as many projects as were discovered.
pub proof fn lemma_sides_hold_all(found: Seq<Found>, invert: bool, parts: ProjectsView)
    requires
        sorted_out(found, invert, parts),
        distinct_paths(found),
    ensures
        parts.included.len() + parts.ignored.len() == found.len(),
{
    let records = found.map_values(|f: Found| f.0);
    let included = parts.included.to_set();
    let ignored = parts.ignored.to_set();
    // As sets the two sides are disjoint and make up the records; none of
    // the three sequences holds a record twice.
    assert(included + ignored =~= records.to_set()) by {
        assert forall|v: ProjectView| (included + ignored).contains(v) implies records.to_set().contains(
            v,
        ) by {
            let i = choose|i: int| 0 <= i < found.len() && (#[trigger] found[i]).0 == v;
            assert(records[i] == v);
        }
    }
    records.unique_seq_to_set();
    parts.included.unique_seq_to_set();
    parts.ignored.unique_seq_to_set();
    vstd::set_lib::lemma_set_disjoint_lens(included, ignored);
}

/// What was found fixes how it is sorted out: there is one way only.
pub proof fn lemma_sorting_out_is_unique(
    found: Seq<Found>,
    invert: bool,
    a: ProjectsView,
    b: ProjectsView,
)
    requires
        sorted_out(found, invert, a),
        sorted_out(found, invert, b),
    ensures
        a == b,
{
    lemma_ordered_is_unique(a.included, b.included);
    lemma_ordered_is_unique(a.ignored, b.ignored);
}

/// Inverting swaps the two sides: what is included without `invert` is
/// ignored with it, and the other way round.
pub proof fn lemma_invert_swaps_sides(found: Seq<Found>, plain: ProjectsView, inverted: ProjectsView)
    requires
        sorted_out(found, false, plain),
        sorted_out(found, true, inverted),
    ensures
        plain.included == inverted.ignored,
        plain.ignored == inverted.included,
{
    lemma_ordered_is_unique(plain.included, inverted.ignored);
    lemma_ordered_is_unique(plain.ignored, inverted.included);
}

/// The order of discovery does not matter: two runs that find the same
/// records, each path once, are sorted out alike, whatever the order in
/// which the records came.
pub proof fn lemma_discovery_order_is_irrelevant(
    first: Seq<Found>,
    second: Seq<Found>,
    invert: bool,
    a: ProjectsView,
    b: ProjectsView,
)
    requires
        distinct_paths(first),
        distinct_paths(second),
        forall|f: Found| first.contains(f) <==> second.contains(f),
        sorted_out(first, invert, a),
        sorted_out(second, invert, b),
    ensures
        a == b,
{
    lemma_gathered_of_distinct(a.included, first, invert, true);
    lemma_gathered_of_distinct(b.included, second, invert, true);
    lemma_gathered_of_distinct(a.ignored, first, invert, false);
    lemma_gathered_of_distinct(b.ignored, second, invert, false);
    lemma_ordered_is_unique(a.included, b.included);
    lemma_ordered_is_unique(a.ignored, b.ignored);
}

proof fn lemma_gathered_of_distinct(
    part: Seq<ProjectView>,
    found: Seq<Found>,
    invert: bool,
    side: bool,
)
    requires
        distinct_paths(found),
        gathered(part, found, found.len() as int, invert, side),
    ensures
        forall|v: ProjectView|
            part.contains(v) <==> exists|m: bool| #[trigger]
                found.contains((v, m)) && included_by(m, invert) == side,
{
    assert forall|v: ProjectView|
        part.contains(v) <==> exists|m: bool| #[trigger]
            found.contains((v, m)) && included_by(m, invert) == side by {
        if part.contains(v) {
            let i = choose|i: int|
                0 <= i < found.len() && (#[trigger] found[i]).0 == v && first_with_path(found, i)
                    && included_by(found[i].1, invert) == side;
            assert(found.contains((v, found[i].1)));
        }
    }
}

/// No path is held twice: not within a side, and not across the two.
pub proof fn lemma_each_path_once(found: Seq<Found>, invert: bool, parts: ProjectsView)
    requires
        sorted_out(found, invert, parts),
    ensures
        forall|i: int, j: int|
            0 <= i < j < parts.included.len() ==> (#[trigger] parts.included[i]).path != (
            #[trigger] parts.included[j]).path,
        forall|i: int, j: int|
            0 <= i < j < parts.ignored.len() ==> (#[trigger] parts.ignored[i]).path != (
            #[trigger] parts.ignored[j]).path,
        forall|i: int, j: int|
            0 <= i < parts.included.len() && 0 <= j < parts.ignored.len() ==> (
            #[trigger] parts.included[i]).path != (#[trigger] parts.ignored[j]).path,
{
    lemma_sides_are_a_partition(found, invert, parts);
    assert forall|i: int, j: int|
        0 <= i < parts.included.len() && 0 <= j < parts.ignored.len() implies (
    #[trigger] parts.included[i]).path != (#[trigger] parts.ignored[j]).path by {
        let path = parts.included[i].path;
        if parts.ignored[j].path == path {
            assert(has_path(parts.included, path));
        }
    }
}

/// Discovering a path once more changes nothing: a record whose path was
/// already discovered leaves both sides as they were.
pub proof fn lemma_rediscovery_changes_nothing(
    found: Seq<Found>,
    again: Found,
    invert: bool,
    parts: ProjectsView,
)
    requires
        exists|j: int| 0 <= j < found.len() && (#[trigger] found[j]).0.path == again.0.path,
        sorted_out(found, invert, parts),
    ensures
        sorted_out(found.push(again), invert, parts),
{
    let more = found.push(again);
    let n = found.len() as int;
    assert(!first_with_path(more, n)) by {
        let j = choose|j: int| 0 <= j < found.len() && (#[trigger] found[j]).0.path == again.0.path;
        assert(more[j].0.path == more[n].0.path);
    }
    lemma_gathered_extends(parts.included, found, more, invert, true);
    lemma_gathered_extends(parts.ignored, found, more, invert, false);
}

proof fn lemma_first_with_path_of_prefix(found: Seq<Found>, more: Seq<Found>, i: int)
    requires
        0 <= i < found.len() <= more.len(),
        forall|k: int| 0 <= k < found.len() ==> #[trigger] more[k] == found[k],
    ensures
        first_with_path(more, i) == first_with_path(found, i),
{
    if first_with_path(more, i) {
        assert forall|j: int| 0 <= j < i implies (#[trigger] found[j]).0.path
            != found[i].0.path by {
            assert(more[j].0.path != more[i].0.path);
        }
    }
}

proof fn lemma_gathered_extends(
    part: Seq<ProjectView>,
    found: Seq<Found>,
    more: Seq<Found>,
    invert: bool,
    side: bool,
)
    requires
        more.len() == found.len() + 1,
        forall|i: int| 0 <= i < found.len() ==> #[trigger] more[i] == found[i],
        !first_with_path(more, found.len() as int),
        gathered(part, found, found.len() as int, invert, side),
    ensures
        gathered(part, more, more.len() as int, invert, side),
{
    assert forall|v: ProjectView| #[trigger]
        part.contains(v) <==> exists|i: int|
            0 <= i < more.len() && (#[trigger] more[i]).0 == v && first_with_path(more, i)
                && included_by(more[i].1, invert) == side by {
        if part.contains(v) {
            let i = choose|i: int|
                0 <= i < found.len() && (#[trigger] found[i]).0 == v && first_with_path(found, i)
                    && included_by(found[i].1, invert) == side;
            lemma_first_with_path_of_prefix(found, more, i);
        }
        if exists|i: int|
            0 <= i < more.len() && (#[trigger] more[i]).0 == v && first_with_path(more, i)
                && included_by(more[i].1, invert) == side {
            let i = choose|i: int|
                0 <= i < more.len() && (#[trigger] more[i]).0 == v && first_with_path(more, i)
                    && included_by(more[i].1, invert) == side;
            lemma_first_with_path_of_prefix(found, more, i);
        }
    }
}

/// The projects of one scan in two ordered sets: those to act on and
/// those that the pattern set aside.
#[derive(Debug)]
pub struct Projects {
    included: ProjectSet,
    ignored: ProjectSet,
}

impl View for Projects {
    type V = ProjectsView;

    closed spec fn view(&self) -> ProjectsView {
        ProjectsView { included: self.included@, ignored: self.ignored@ }
    }
}

impl Projects {
    #[verifier::type_invariant]
    spec fn sides_are_well_formed(self) -> bool {
        well_formed(self@)
    }

    /// Sorts out what was found, as it is: each project comes with whether
    /// the pattern matched its manifest path. A project that was matched is
    /// ignored, every other is included; with `invert` it is the other
    /// way round. Of records with one path only the first counts.
    pub fn from_matches(found: Vec<(Project, bool)>, invert: bool) -> (parts: Projects)
        ensures
            sorted_out(found_of(found@), invert, parts@),
            well_formed(parts@),
    {
        let ghost all = found_of(found@);
        let mut included = ProjectSet::new();
        let mut ignored = ProjectSet::new();
        for pair in it: found
            invariant
                it.seq() == found@,
                all == found_of(found@),
                ordered(included@),
                ordered(ignored@),
                gathered(included@, all, it.index() as int, invert, true),
                gathered(ignored@, all, it.index() as int, invert, false),
                forall|j: int|
                    0 <= j < it.index() ==> has_path(included@, (#[trigger] all[j]).0.path)
                        || has_path(ignored@, all[j].0.path),
        {
            let ghost n = it.index() as int;
            let ghost inc = included@;
            let ghost ign = ignored@;
            let (project, matched) = pair;
            if included.contains_path(project.path()) || ignored.contains_path(project.path()) {
                proof {
                    lemma_step_passed(inc, ign, all, n, invert);
                }
            } else if matched == invert {
                included.insert(project);
                proof {
                    lemma_step_added(inc, included@, ign, all, n, invert, true);
                }
            } else {
                ignored.insert(project);
                proof {
                    lemma_step_added(ign, ignored@, inc, all, n, invert, false);
                }
            }
        }
        proof {
            lemma_sides_are_a_partition(
                all,
                invert,
                ProjectsView { included: included@, ignored: ignored@ },
            );
        }
        Projects { included, ignored }
    }

    /// Classifies the records that a scan discovered. A project whose
    /// manifest path the pattern matches is ignored, every other is
    /// included; with `invert` it is the other way round. Without a
    /// pattern no path matches. Of records with one path only the first
    /// counts. A record that the scan cannot have reached, since its path
    /// runs through a hidden entry below the root of a scan that leaves
    /// hidden entries out, is on neither side.
    pub fn new(scan: &Scan, records: Vec<Project>, pattern: Option<&Pattern>, invert: bool) -> (parts:
        Projects)
        ensures
            classified(
                admitted_of(scan@, views_of(records@)),
                source_of(pattern),
                invert,
                parts@,
            ),
            well_formed(parts@),
            forall|v: ProjectView|
                parts@.included.contains(v) || parts@.ignored.contains(v) ==> admitted(
                    scan@,
                    v.path,
                ),
    {
        let ghost all = views_of(records@);
        let ghost source = source_of(pattern);
        let mut found: Vec<(Project, bool)> = Vec::new();
        for project in it: records
            invariant
                it.seq() == records@,
                all == views_of(records@),
                source == source_of(pattern),
                found_of(found@) == flagged(admitted_of(scan@, all.take(it.index() as int)), source),
        {
            let ghost before = found_of(found@);
            let ghost n = it.index() as int;
            proof {
                assert(all.take(n + 1).drop_last() =~= all.take(n));
            }
            if scan.admits(project.path()) {
                let matched = matches_any(pattern, project.path());
                found.push((project, matched));
                assert(found_of(found@) =~= before.push((all[n], matched)));
            }
        }
        assert(all.take(records@.len() as int) =~= all);
        let ghost kept = admitted_of(scan@, all);
        let parts = Projects::from_matches(found, invert);
        proof {
            lemma_admitted_of(scan@, all);
            assert forall|v: ProjectView|
                parts@.included.contains(v) || parts@.ignored.contains(v) implies admitted(
                scan@,
                v.path,
            ) by {
                assert(kept.contains(v));
            }
        }
        parts
    }

    /// The projects to act on.
    pub fn included(&self) -> (set: &ProjectSet)
        ensures
            set@ == self@.included,
            well_formed(self@),
    {
        proof {
            use_type_invariant(self);
        }
        &self.included
    }

    /// The projects that the pattern set aside.
    pub fn ignored(&self) -> (set: &ProjectSet)
        ensures
            set@ == self@.ignored,
            well_formed(self@),
    {
        proof {
            use_type_invariant(self);
        }
        &self.ignored
    }

    /// The lines of the report on these projects.
    pub fn list(&self, show_ignored: bool, color: bool) -> (lines: Vec<String>)
        ensures
            texts(lines@) == report(self@, show_ignored, color),
    {
        let mut lines: Vec<String> = Vec::new();
        if !self.included.is_empty() {
            lines = self.included.list(color);
        }
        if show_ignored && !self.ignored.is_empty() {
            let mut rest = self.list_ignored(color);
            lines.append(&mut rest);
        }
        lines
    }

    /// The lines that show the ignored projects: the heading, then their
    /// listing.
    pub fn list_ignored(&self, color: bool) -> (lines: Vec<String>)
        ensures
            texts(lines@) == ignored_report(self@, color),
    {
        let mut lines: Vec<String> = Vec::new();
        lines.push(String::from_str(IGNORED_HEADING));
        let mut rest = self.ignored.list(color);
        lines.append(&mut rest);
        lines
    }

    /// The lines to show once `cleaning` is through.
    pub fn list_after(&self, cleaning: &Cleaning, show_ignored: bool, color: bool) -> (lines: Vec<
        String,
    >)
        ensures
            texts(lines@) == closing_report(self@, cleaning@, show_ignored, color),
    {
        match cleaning.state() {
            Confirmation::Confirmed => {
                if show_ignored {
                    self.list_ignored(color)
                } else {
                    Vec::new()
                }
            },
            _ => Vec::new(),
        }
    }

    /// Sets out the cleaning of the included projects: the question of
    /// consent, unless it is settled beforehand, and the run over the
    /// projects, which hands out a project only once the question is
    /// confirmed.
    pub fn clean(&self, auto_confirm: bool) -> (cleaning: Cleaning)
        ensures
            cleaning@ == begun(auto_confirm, paths_of(self@.included)),
    {
        Cleaning::new(auto_confirm, self.included.paths())
    }
}

/// One step of sorting out: the record at `n` has a path that one of the
/// sides holds already, so both sides stay as they are.
proof fn lemma_step_passed(
    included: Seq<ProjectView>,
    ignored: Seq<ProjectView>,
    all: Seq<Found>,
    n: int,
    invert: bool,
)
    requires
        0 <= n < all.len(),
        gathered(included, all, n, invert, true),
        gathered(ignored, all, n, invert, false),
        has_path(included, all[n].0.path) || has_path(ignored, all[n].0.path),
    ensures
        gathered(included, all, n + 1, invert, true),
        gathered(ignored, all, n + 1, invert, false),
{
    let path = all[n].0.path;
    assert(!first_with_path(all, n)) by {
        if has_path(included, path) {
            let a = choose|a: int| 0 <= a < included.len() && (#[trigger] included[a]).path == path;
            assert(included.contains(included[a]));
        } else {
            let b = choose|b: int| 0 <= b < ignored.len() && (#[trigger] ignored[b]).path == path;
            assert(ignored.contains(ignored[b]));
        }
    }
}

/// One step of sorting out: the record at `n`, whose path neither side
/// held, went to the part on its side.
proof fn lemma_step_added(
    before: Seq<ProjectView>,
    after: Seq<ProjectView>,
    other: Seq<ProjectView>,
    all: Seq<Found>,
    n: int,
    invert: bool,
    side: bool,
)
    requires
        0 <= n < all.len(),
        included_by(all[n].1, invert) == side,
        gathered(before, all, n, invert, side),
        gathered(other, all, n, invert, !side),
        forall|j: int|
            0 <= j < n ==> has_path(before, (#[trigger] all[j]).0.path) || has_path(
                other,
                all[j].0.path,
            ),
        !has_path(before, all[n].0.path),
        !has_path(other, all[n].0.path),
        exists|k: int| 0 <= k <= before.len() && after == #[trigger] before.insert(k, all[n].0),
    ensures
        gathered(after, all, n + 1, invert, side),
        gathered(other, all, n + 1, invert, !side),
        forall|j: int|
            0 <= j < n + 1 ==> has_path(after, (#[trigger] all[j]).0.path) || has_path(
                other,
                all[j].0.path,
            ),
{
    let v = all[n].0;
    let k = choose|k: int| 0 <= k <= before.len() && after == #[trigger] before.insert(k, v);
    assert(after[k] == v);
    assert forall|w: ProjectView| after.contains(w) <==> (before.contains(w) || w == v) by {
        if before.contains(w) {
            let i = choose|i: int| 0 <= i < before.len() && before[i] == w;
            if i < k {
                assert(after[i] == w);
            } else {
                assert(after[i + 1] == w);
            }
        }
    }
    assert forall|j: int| 0 <= j < n + 1 implies has_path(after, (#[trigger] all[j]).0.path)
        || has_path(other, all[j].0.path) by {
        if j < n && has_path(before, all[j].0.path) {
            let i = choose|i: int|
                0 <= i < before.len() && (#[trigger] before[i]).path == all[j].0.path;
            if i < k {
                assert(after[i].path == all[j].0.path);
            } else {
                assert(after[i + 1].path == all[j].0.path);
            }
        }
    }
}

} // verus!
