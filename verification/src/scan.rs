//! The terms of a scan: where it starts and whether it looks at hidden
//! entries. The walk itself is the caller's; a scan tells which entries
//! the walk is to look at and which paths it can have reached.

use vstd::prelude::*;
use vstd::string::*;
use crate::path::{
    file_name, hidden, hidden_beyond, is_component, lemma_reached_path_is_not_hidden,
    name_start_in, path_below, reached, visited, visits, HIDDEN_MARK,
};
use crate::text::chars_of;

verus! {

/// What a `Scan` stands for.
pub struct ScanView {
    pub root: Seq<char>,
    pub include_hidden: bool,
}

/// Whether a scan on these terms can have reached `path`: it includes
/// hidden entries, or no component of `path` beyond the root is hidden.
/// Components of the root itself do not count.
pub open spec fn admitted(scan: ScanView, path: Seq<char>) -> bool {
    scan.include_hidden || !hidden_beyond(path, scan.root.len())
}

/// What the walk reaches by the rule for single entries is admitted: the
/// path of an entry below the root is admitted if each of the entries
/// that lead to it is one that the scan looks at.
pub proof fn lemma_reached_is_admitted(scan: ScanView, names: Seq<Seq<char>>)
    requires
        forall|i: int| 0 <= i < names.len() ==> is_component(#[trigger] names[i]),
        reached(names, scan.include_hidden),
    ensures
        admitted(scan, path_below(scan.root, names)),
{
    if !scan.include_hidden {
        lemma_reached_path_is_not_hidden(scan.root, names);
    }
}

/// Whether `chars` has a hidden component beyond its first `from`
/// characters.
fn has_hidden_beyond(chars: &Vec<char>, from: usize) -> (r: bool)
    ensures
        r == hidden_beyond(chars@, from as nat),
{
    let mut end: usize = chars.len();
    assert(chars@.take(end as int) =~= chars@);
    while end > from
        invariant
            end <= chars.len(),
            hidden_beyond(chars@, from as nat) == hidden_beyond(chars@.take(end as int), from as nat),
        decreases end,
    {
        let start = name_start_in(chars, end);
        let ghost path = chars@.take(end as int);
        if start < end && chars[start] == HIDDEN_MARK {
            return true;
        }
        if start == 0 {
            return false;
        }
        assert(path.take(start - 1) =~= chars@.take(start - 1));
        end = start - 1;
    }
    false
}

/// The terms of a scan.
#[derive(Debug)]
pub struct Scan {
    root: String,
    root_len: usize,
    include_hidden: bool,
}

impl View for Scan {
    type V = ScanView;

    closed spec fn view(&self) -> ScanView {
        ScanView { root: self.root@, include_hidden: self.include_hidden }
    }
}

impl Scan {
    #[verifier::type_invariant]
    spec fn knows_its_root(self) -> bool {
        self.root_len == self.root@.len()
    }

    /// A scan that starts at `root`.
    pub fn new(root: &str, include_hidden: bool) -> (scan: Scan)
        ensures
            scan@ == (ScanView { root: root@, include_hidden }),
    {
        let root_len = chars_of(root).len();
        Scan { root: String::from_str(root), root_len, include_hidden }
    }

    /// Where the scan starts.
    pub fn root(&self) -> (root: &str)
        ensures
            root@ == self@.root,
    {
        self.root.as_str()
    }

    /// Whether the scan looks at hidden entries.
    pub fn includes_hidden(&self) -> (r: bool)
        ensures
            r == self@.include_hidden,
    {
        self.include_hidden
    }

    /// Whether the scan looks at the entry `name` that lies `depth` levels
    /// below its root; an entry that is not looked at is not descended
    /// into either.
    pub fn visits(&self, depth: usize, name: Option<&str>) -> (r: bool)
        ensures
            r == visited(
                depth as nat,
                match name {
                    Some(n) => Some(n@),
                    None => None,
                },
                self@.include_hidden,
            ),
    {
        visits(depth, name, self.include_hidden)
    }

    /// Whether the scan can have reached `path`.
    pub fn admits(&self, path: &str) -> (r: bool)
        ensures
            r == admitted(self@, path@),
    {
        proof {
            use_type_invariant(self);
        }
        if self.include_hidden {
            true
        } else {
            let chars = chars_of(path);
            !has_hidden_beyond(&chars, self.root_len)
        }
    }
}

} // verus!
