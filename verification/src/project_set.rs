//! An ordered set of projects: no path twice, smallest project first.

use vstd::prelude::*;
use vstd::string::*;
use crate::clean::{fresh, CleanRun};
use crate::project::{
    lemma_order_is_strict, lemma_order_is_total, lemma_order_is_transitive, project_line,
    project_lt, views_of, Project, ProjectView,
};
use crate::size::{label_of, lemma_trimmed_label, size_label, trimmed_width, LABEL_WIDTH};
use crate::text::{decimal, push_decimal, text_eq, texts, trim, trimmed};

verus! {

/// Whether some record in `s` has the manifest path `path`.
pub open spec fn has_path(s: Seq<ProjectView>, path: Seq<char>) -> bool {
    exists|i: int| 0 <= i < s.len() && (#[trigger] s[i]).path == path
}

/// Whether `s` is in the order of projects and holds no path twice.
pub open spec fn ordered(s: Seq<ProjectView>) -> bool {
    &&& forall|i: int, j: int| 0 <= i < j < s.len() ==> project_lt(#[trigger] s[i], #[trigger] s[j])
    &&& forall|i: int, j: int|
        0 <= i < j < s.len() ==> (#[trigger] s[i]).path != (#[trigger] s[j]).path
}

/// The manifest paths of `s`, in order.
pub open spec fn paths_of(s: Seq<ProjectView>) -> Seq<Seq<char>> {
    Seq::new(s.len(), |i: int| s[i].path)
}

/// The bytes that a size adds to a total: an unknown size adds nothing.
pub open spec fn known_bytes(size: Option<u64>) -> nat {
    match size {
        Some(n) => n as nat,
        None => 0,
    }
}

/// The sum of the known sizes in `s`.
pub open spec fn total_size(s: Seq<ProjectView>) -> nat
    decreases s.len(),
{
    if s.len() == 0 {
        0
    } else {
        total_size(s.drop_last()) + known_bytes(s.last().size)
    }
}

/// The line that sums up a listing: how many projects it shows and what
/// their known sizes add up to. The total is labelled as a size is, with
/// the white space at the two ends of the label left out; a coloured label
/// starts and ends with its escape sequences and so keeps its padding.
pub open spec fn summary_line(s: Seq<ProjectView>, color: bool) -> Seq<char> {
    "Summary: "@ + decimal(s.len()) + " projects, "@ + trimmed(
        label_of(Some(total_size(s)), LABEL_WIDTH as nat, color),
    )
}

/// The summary spelled out: the label of the total keeps its padding
/// where it is coloured and the total reaches a kilobyte, and has none
/// otherwise.
pub proof fn lemma_summary_line(s: Seq<ProjectView>, color: bool)
    ensures
        summary_line(s, color) == "Summary: "@ + decimal(s.len()) + " projects, "@ + label_of(
            Some(total_size(s)),
            trimmed_width(Some(total_size(s)), color),
            color,
        ),
{
    lemma_trimmed_label(Some(total_size(s)), color);
}

/// The listing of `s`: one line for each project, in order, and the
/// summary after them.
pub open spec fn listing(s: Seq<ProjectView>, color: bool) -> Seq<Seq<char>> {
    Seq::new(s.len(), |i: int| project_line(s[i], color)).push(summary_line(s, color))
}

/// Two sequences in the order of projects that hold the same records are
/// the same sequence.
pub proof fn lemma_ordered_is_unique(a: Seq<ProjectView>, b: Seq<ProjectView>)
    requires
        ordered(a),
        ordered(b),
        forall|v: ProjectView| a.contains(v) <==> b.contains(v),
    ensures
        a == b,
    decreases a.len(),
{
    if a.len() == 0 {
        if b.len() > 0 {
            assert(b.contains(b[0]));
        }
    } else {
        // The first of `a` lies somewhere in `b`, and the first of `b`
        // somewhere in `a`. Were they different, each would come before
        // the other.
        assert(a.contains(a[0]));
        let k = choose|k: int| 0 <= k < b.len() && b[k] == a[0];
        assert(b.contains(b[0]));
        if k > 0 {
            lemma_order_is_strict(a[0], b[0]);
        }
        // So the two start alike, and what follows holds the same records.
        let ra = a.drop_first();
        let rb = b.drop_first();
        assert forall|v: ProjectView| ra.contains(v) <==> rb.contains(v) by {
            if ra.contains(v) {
                assert(a.contains(v));
                let j = choose|j: int| 0 <= j < b.len() && b[j] == v;
                assert(rb[j - 1] == v);
            }
            if rb.contains(v) {
                assert(b.contains(v));
                let j = choose|j: int| 0 <= j < a.len() && a[j] == v;
                assert(ra[j - 1] == v);
            }
        }
        lemma_ordered_is_unique(ra, rb);
        assert(a =~= seq![a[0]] + ra);
    }
}

/// Putting a record with a new path at the place that the order gives it
/// keeps a sequence ordered.
pub proof fn lemma_insert_keeps_order(s: Seq<ProjectView>, k: int, p: ProjectView)
    requires
        ordered(s),
        0 <= k <= s.len(),
        !has_path(s, p.path),
        forall|i: int| 0 <= i < k ==> project_lt(#[trigger] s[i], p),
        k < s.len() ==> !project_lt(s[k], p),
    ensures
        ordered(s.insert(k, p)),
{
    // What stands at `k` does not come before `p`, so `p` comes before it
    // and before all that follows it.
    assert forall|j: int| k <= j < s.len() implies project_lt(p, #[trigger] s[j]) by {
        lemma_order_is_total(s[k], p);
        if j > k {
            lemma_order_is_transitive(p, s[k], s[j]);
        }
    }
}

/// Projects in their order, each path once.
#[derive(Debug)]
pub struct ProjectSet {
    items: Vec<Project>,
}

impl View for ProjectSet {
    type V = Seq<ProjectView>;

    closed spec fn view(&self) -> Seq<ProjectView> {
        views_of(self.items@)
    }
}

impl ProjectSet {
    #[verifier::type_invariant]
    spec fn in_order(self) -> bool {
        ordered(self@)
    }

    /// The empty set.
    pub fn new() -> (set: ProjectSet)
        ensures
            set@ == Seq::<ProjectView>::empty(),
    {
        let set = ProjectSet { items: Vec::new() };
        set
    }

    /// The number of projects in the set.
    pub fn len(&self) -> (n: usize)
        ensures
            n == self@.len(),
            ordered(self@),
    {
        proof {
            use_type_invariant(self);
        }
        self.items.len()
    }

    /// Whether the set holds no project.
    pub fn is_empty(&self) -> (r: bool)
        ensures
            r == (self@.len() == 0),
    {
        self.items.len() == 0
    }

    /// The project at place `index`, counted from the smallest.
    pub fn get(&self, index: usize) -> (r: Option<&Project>)
        ensures
            match r {
                Some(p) => index < self@.len() && p@ == self@[index as int],
                None => index >= self@.len(),
            },
    {
        if index < self.items.len() {
            Some(&self.items[index])
        } else {
            None
        }
    }

    /// Whether the set holds a project with the manifest path `path`.
    pub fn contains_path(&self, path: &str) -> (r: bool)
        ensures
            r == has_path(self@, path@),
    {
        let n = self.items.len();
        let mut i: usize = 0;
        while i < n
            invariant
                i <= n,
                n == self.items@.len(),
                forall|j: int| 0 <= j < i ==> (#[trigger] self@[j]).path != path@,
            decreases n - i,
        {
            if text_eq(self.items[i].path(), path) {
                assert(self@[i as int].path == path@);
                return true;
            }
            i += 1;
        }
        false
    }

    /// Adds `project` at the place that the order gives it, unless the set
    /// already holds a project with the same manifest path: then the set
    /// stays as it is. Tells whether the project was added.
    pub fn insert(&mut self, project: Project) -> (added: bool)
        ensures
            ordered(final(self)@),
            added == !has_path(old(self)@, project@.path),
            !added ==> final(self)@ == old(self)@,
            added ==> exists|k: int|
                0 <= k <= old(self)@.len() && final(self)@ == #[trigger] old(self)@.insert(
                    k,
                    project@,
                ),
    {
        proof {
            use_type_invariant(&*self);
        }
        if self.contains_path(project.path()) {
            return false;
        }
        let n = self.items.len();
        let mut k: usize = 0;
        while k < n
            invariant
                k <= n,
                n == self.items@.len(),
                forall|j: int| 0 <= j < k ==> project_lt(#[trigger] self@[j], project@),
            ensures
                k <= n,
                forall|j: int| 0 <= j < k ==> project_lt(#[trigger] self@[j], project@),
                k < n ==> !project_lt(self@[k as int], project@),
            decreases n - k,
        {
            if !self.items[k].precedes(&project) {
                break;
            }
            k += 1;
        }
        let ghost before = self@;
        let ghost added_view = project@;
        proof {
            lemma_insert_keeps_order(before, k as int, added_view);
        }
        let mut items: Vec<Project> = Vec::new();
        core::mem::swap(&mut self.items, &mut items);
        items.insert(k, project);
        assert(views_of(items@) =~= before.insert(k as int, added_view));
        self.items = items;
        true
    }

    /// The sum of the known sizes of the projects in the set.
    pub fn total(&self) -> (sum: u128)
        ensures
            sum == total_size(self@),
    {
        let n = self.items.len();
        let mut sum: u128 = 0;
        let mut i: usize = 0;
        while i < n
            invariant
                i <= n,
                n == self.items@.len(),
                sum == total_size(self@.take(i as int)),
                sum <= i * u64::MAX,
            decreases n - i,
        {
            proof {
                assert(self@.take(i + 1).drop_last() =~= self@.take(i as int));
            }
            match self.items[i].size() {
                Some(bytes) => {
                    sum = sum + *bytes as u128;
                },
                None => {},
            }
            i += 1;
        }
        assert(self@.take(n as int) =~= self@);
        sum
    }

    /// The manifest paths of the projects, in order.
    pub fn paths(&self) -> (paths: Vec<String>)
        ensures
            texts(paths@) == paths_of(self@),
    {
        let n = self.items.len();
        let mut paths: Vec<String> = Vec::new();
        let mut i: usize = 0;
        while i < n
            invariant
                i <= n,
                n == self.items@.len(),
                paths.len() == i,
                forall|j: int| 0 <= j < i ==> (#[trigger] paths[j])@ == self@[j].path,
            decreases n - i,
        {
            paths.push(String::from_str(self.items[i].path()));
            i += 1;
        }
        paths
    }

    /// A run that cleans the projects of the set, in order.
    pub fn clean(&self) -> (run: CleanRun)
        ensures
            run@ == fresh(paths_of(self@)),
    {
        CleanRun::new(self.paths())
    }

    /// The lines that show the set: one for each project, in order, and
    /// the summary after them.
    pub fn list(&self, color: bool) -> (lines: Vec<String>)
        ensures
            texts(lines@) == listing(self@, color),
            lines@.len() == self@.len() + 1,
    {
        let n = self.items.len();
        let mut lines: Vec<String> = Vec::new();
        let mut i: usize = 0;
        while i < n
            invariant
                i <= n,
                n == self.items@.len(),
                lines.len() == i,
                forall|j: int| 0 <= j < i ==> (#[trigger] lines[j])@ == project_line(self@[j], color),
            decreases n - i,
        {
            lines.push(self.items[i].line(color));
            i += 1;
        }
        let mut summary = String::from_str("Summary: ");
        push_decimal(&mut summary, n as u128);
        summary.append(" projects, ");
        let label = size_label(Some(self.total()), LABEL_WIDTH, color);
        summary.append(trim(label.as_str()).as_str());
        lines.push(summary);
        lines
    }
}

} // verus!
