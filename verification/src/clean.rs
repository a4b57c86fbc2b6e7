//! Cleaning the included projects: asking for consent, then going through
//! the projects one by one. The caller reads the replies and runs the
//! clean command; what to do next is decided here.

use vstd::prelude::*;
use vstd::string::*;
use crate::text::{chars_of, texts, trim_bounds, trimmed};

verus! {

/// The question that is put before cleaning.
pub const QUESTION: &'static str = "Are you sure you would like to clean these projects? [y/n]:";

/// What is said when the user declines.
pub const ABORTING: &'static str = "Aborting.";

/// What is said to a reply that is neither yes nor no.
pub const UNKNOWN_RESPONSE: &'static str = "Unknown response. Please try again.";

/// The program that cleans a project, and the arguments that stand before
/// the manifest path.
pub const CLEAN_PROGRAM: &'static str = "cargo";

pub const CLEAN_COMMAND: &'static str = "clean";

pub const MANIFEST_FLAG: &'static str = "--manifest-path";

/// Whether `s` is the word that `lower` writes in small letters and
/// `upper` in capitals, each letter in either case.
pub open spec fn reads_as(s: Seq<char>, lower: Seq<char>, upper: Seq<char>) -> bool {
    &&& s.len() == lower.len()
    &&& forall|i: int| 0 <= i < s.len() ==> s[i] == lower[i] || s[i] == upper[i]
}

/// What a line of input means.
#[derive(Clone, Copy, Debug, PartialEq, Eq, Structural)]
pub enum Reply {
    Yes,
    No,
    Unknown,
}

/// The meaning of a line of input: white space around it is dropped and
/// the case of its letters does not count; `y` and `yes` consent, `n` and
/// `no` decline, anything else is not understood.
pub open spec fn reply_of(line: Seq<char>) -> Reply {
    let word = trimmed(line);
    if reads_as(word, seq!['y'], seq!['Y']) || reads_as(
        word,
        seq!['y', 'e', 's'],
        seq!['Y', 'E', 'S'],
    ) {
        Reply::Yes
    } else if reads_as(word, seq!['n'], seq!['N']) || reads_as(
        word,
        seq!['n', 'o'],
        seq!['N', 'O'],
    ) {
        Reply::No
    } else {
        Reply::Unknown
    }
}

fn is_letter(chars: &Vec<char>, at: usize, lower: char, upper: char) -> (r: bool)
    requires
        at < chars.len(),
    ensures
        r == (chars@[at as int] == lower || chars@[at as int] == upper),
{
    chars[at] == lower || chars[at] == upper
}

/// Reads a line of input as a reply.
pub fn parse_reply(line: &str) -> (reply: Reply)
    ensures
        reply == reply_of(line@),
{
    let chars = chars_of(line);
    let (from, to) = trim_bounds(&chars);
    let ghost word = chars@.subrange(from as int, to as int);
    let len = to - from;
    proof {
        lemma_reading(word);
    }
    if len == 1 {
        if is_letter(&chars, from, 'y', 'Y') {
            Reply::Yes
        } else if is_letter(&chars, from, 'n', 'N') {
            Reply::No
        } else {
            Reply::Unknown
        }
    } else if len == 2 {
        if is_letter(&chars, from, 'n', 'N') && is_letter(&chars, from + 1, 'o', 'O') {
            Reply::No
        } else {
            Reply::Unknown
        }
    } else if len == 3 {
        if is_letter(&chars, from, 'y', 'Y') && is_letter(&chars, from + 1, 'e', 'E') && is_letter(
            &chars,
            from + 2,
            's',
            'S',
        ) {
            Reply::Yes
        } else {
            Reply::Unknown
        }
    } else {
        Reply::Unknown
    }
}

/// What it takes to read as one of the four words.
proof fn lemma_reading(word: Seq<char>)
    ensures
        reads_as(word, seq!['y'], seq!['Y']) <==> word.len() == 1 && (word[0] == 'y' || word[0]
            == 'Y'),
        reads_as(word, seq!['n'], seq!['N']) <==> word.len() == 1 && (word[0] == 'n' || word[0]
            == 'N'),
        reads_as(word, seq!['n', 'o'], seq!['N', 'O']) <==> word.len() == 2 && (word[0] == 'n'
            || word[0] == 'N') && (word[1] == 'o' || word[1] == 'O'),
        reads_as(word, seq!['y', 'e', 's'], seq!['Y', 'E', 'S']) <==> word.len() == 3 && (word[0]
            == 'y' || word[0] == 'Y') && (word[1] == 'e' || word[1] == 'E') && (word[2] == 's'
            || word[2] == 'S'),
{
}

/// Where the question of consent stands.
#[derive(Clone, Copy, Debug, PartialEq, Eq, Structural)]
pub enum Confirmation {
    /// The question is open: a reply is awaited.
    AwaitingInput,
    /// Cleaning may go ahead.
    Confirmed,
    /// The user declined: nothing is cleaned.
    Aborted,
}

/// What is to be said to the user after a reply.
#[derive(Clone, Copy, Debug, PartialEq, Eq, Structural)]
pub enum Notice {
    /// Nothing.
    Nothing,
    /// That nothing will be cleaned.
    Aborting,
    /// That the reply was not understood.
    UnknownResponse,
    /// A warning that no reply could be read.
    ReadFailed,
}

/// Where the question stands at the start: it is put only when consent
/// is not given beforehand and there is something to clean.
pub open spec fn opening(auto_confirm: bool, included: nat) -> Confirmation {
    if auto_confirm || included == 0 {
        Confirmation::Confirmed
    } else {
        Confirmation::AwaitingInput
    }
}

/// Where the question stands after an attempt to read a reply, and what
/// is to be said. `None` stands for a failed read; it and a reply that is
/// not understood leave the question open. Once the question is settled
/// nothing changes it.
pub open spec fn answered(state: Confirmation, input: Option<Seq<char>>) -> (Confirmation, Notice) {
    match state {
        Confirmation::AwaitingInput => match input {
            None => (Confirmation::AwaitingInput, Notice::ReadFailed),
            Some(line) => match reply_of(line) {
                Reply::Yes => (Confirmation::Confirmed, Notice::Nothing),
                Reply::No => (Confirmation::Aborted, Notice::Aborting),
                Reply::Unknown => (Confirmation::AwaitingInput, Notice::UnknownResponse),
            },
        },
        Confirmation::Confirmed => (Confirmation::Confirmed, Notice::Nothing),
        Confirmation::Aborted => (Confirmation::Aborted, Notice::Nothing),
    }
}

/// Where the question stands after all of `inputs`, taken in turn.
pub open spec fn answered_all(state: Confirmation, inputs: Seq<Option<Seq<char>>>) -> Confirmation
    decreases inputs.len(),
{
    if inputs.len() == 0 {
        state
    } else {
        answered(answered_all(state, inputs.drop_last()), inputs.last()).0
    }
}

/// Whether an attempt to read a reply gave consent.
pub open spec fn consents(input: Option<Seq<char>>) -> bool {
    match input {
        Some(line) => reply_of(line) == Reply::Yes,
        None => false,
    }
}

/// Cleaning goes ahead only on consent: an open question becomes
/// confirmed only if one of the replies said yes.
pub proof fn lemma_confirmed_only_by_yes(inputs: Seq<Option<Seq<char>>>)
    requires
        answered_all(Confirmation::AwaitingInput, inputs) == Confirmation::Confirmed,
    ensures
        exists|i: int| 0 <= i < inputs.len() && consents(#[trigger] inputs[i]),
    decreases inputs.len(),
{
    if inputs.len() > 0 {
        let before = answered_all(Confirmation::AwaitingInput, inputs.drop_last());
        if before == Confirmation::Confirmed {
            lemma_confirmed_only_by_yes(inputs.drop_last());
        }
    }
}

impl Confirmation {
    /// Where the question stands before any reply.
    pub fn begin(auto_confirm: bool, included: usize) -> (state: Confirmation)
        ensures
            state == opening(auto_confirm, included as nat),
    {
        if auto_confirm || included == 0 {
            Confirmation::Confirmed
        } else {
            Confirmation::AwaitingInput
        }
    }

    /// Takes one attempt to read a reply into account: `input` is the
    /// line that was read, or `None` where reading failed.
    pub fn step(self, input: Option<&str>) -> (r: (Confirmation, Notice))
        ensures
            r == answered(
                self,
                match input {
                    Some(line) => Some(line@),
                    None => None,
                },
            ),
    {
        match self {
            Confirmation::AwaitingInput => match input {
                None => (Confirmation::AwaitingInput, Notice::ReadFailed),
                Some(line) => match parse_reply(line) {
                    Reply::Yes => (Confirmation::Confirmed, Notice::Nothing),
                    Reply::No => (Confirmation::Aborted, Notice::Aborting),
                    Reply::Unknown => (Confirmation::AwaitingInput, Notice::UnknownResponse),
                },
            },
            Confirmation::Confirmed => (Confirmation::Confirmed, Notice::Nothing),
            Confirmation::Aborted => (Confirmation::Aborted, Notice::Nothing),
        }
    }

    /// Whether a reply is still awaited.
    pub fn is_open(self) -> (r: bool)
        ensures
            r == (self == Confirmation::AwaitingInput),
    {
        match self {
            Confirmation::AwaitingInput => true,
            _ => false,
        }
    }
}

impl Notice {
    /// The words of the notice; a failed read and no notice have none.
    pub fn message(self) -> (words: Option<&'static str>)
        ensures
            words == match self {
                Notice::Aborting => Some(ABORTING),
                Notice::UnknownResponse => Some(UNKNOWN_RESPONSE),
                _ => None,
            },
    {
        match self {
            Notice::Aborting => Some(ABORTING),
            Notice::UnknownResponse => Some(UNKNOWN_RESPONSE),
            _ => None,
        }
    }
}

/// The command that cleans the project whose manifest lies at `path`:
/// the program, then its arguments, the manifest path behind its flag.
pub open spec fn clean_command(path: Seq<char>) -> Seq<Seq<char>> {
    seq![CLEAN_PROGRAM@, CLEAN_COMMAND@, MANIFEST_FLAG@, path]
}

/// The command that cleans the project whose manifest lies at `path`.
pub fn command_for(path: &str) -> (words: Vec<String>)
    ensures
        texts(words@) == clean_command(path@),
{
    let mut words: Vec<String> = Vec::new();
    words.push(String::from_str(CLEAN_PROGRAM));
    words.push(String::from_str(CLEAN_COMMAND));
    words.push(String::from_str(MANIFEST_FLAG));
    words.push(String::from_str(path));
    words
}

/// What a `CleanRun` stands for: the manifest paths to clean, in order,
/// and for each project attempted so far whether the clean command was
/// launched.
pub struct CleanRunView {
    pub targets: Seq<Seq<char>>,
    pub launched: Seq<bool>,
}

/// A run that has attempted nothing yet.
pub open spec fn fresh(targets: Seq<Seq<char>>) -> CleanRunView {
    CleanRunView { targets, launched: Seq::empty() }
}

/// The manifest path of the project to clean next, if any is left.
pub open spec fn next_target(run: CleanRunView) -> Option<Seq<char>> {
    if run.launched.len() < run.targets.len() {
        Some(run.targets[run.launched.len() as int])
    } else {
        None
    }
}

/// The run after the outcome of one attempt is recorded: it moves on to
/// the next project whether or not the command was launched. A finished
/// run stays as it is.
pub open spec fn recorded(run: CleanRunView, launched: bool) -> CleanRunView {
    if run.launched.len() < run.targets.len() {
        CleanRunView { targets: run.targets, launched: run.launched.push(launched) }
    } else {
        run
    }
}

/// The run after all of `outcomes` are recorded in turn.
pub open spec fn replayed(run: CleanRunView, outcomes: Seq<bool>) -> CleanRunView
    decreases outcomes.len(),
{
    if outcomes.len() == 0 {
        run
    } else {
        recorded(replayed(run, outcomes.drop_last()), outcomes.last())
    }
}

/// A failure never ends the batch: whatever the outcomes, the attempts go
/// through the targets in order, one for each outcome.
pub proof fn lemma_every_target_is_attempted(targets: Seq<Seq<char>>, outcomes: Seq<bool>)
    requires
        outcomes.len() <= targets.len(),
    ensures
        replayed(fresh(targets), outcomes).targets == targets,
        replayed(fresh(targets), outcomes).launched == outcomes,
        outcomes.len() < targets.len() ==> next_target(replayed(fresh(targets), outcomes)) == Some(
            targets[outcomes.len() as int],
        ),
        outcomes.len() == targets.len() ==> next_target(replayed(fresh(targets), outcomes))
            is None,
    decreases outcomes.len(),
{
    if outcomes.len() > 0 {
        lemma_every_target_is_attempted(targets, outcomes.drop_last());
    }
}

/// The cleaning of a batch of projects, one after the other.
#[derive(Debug)]
pub struct CleanRun {
    targets: Vec<String>,
    launched: Vec<bool>,
}

impl View for CleanRun {
    type V = CleanRunView;

    closed spec fn view(&self) -> CleanRunView {
        CleanRunView { targets: texts(self.targets@), launched: self.launched@ }
    }
}

impl CleanRun {
    #[verifier::type_invariant]
    spec fn within_targets(self) -> bool {
        self.launched@.len() <= self.targets@.len()
    }

    /// A run over the projects with these manifest paths, in this order.
    pub fn new(targets: Vec<String>) -> (run: CleanRun)
        ensures
            run@ == fresh(texts(targets@)),
    {
        CleanRun { targets, launched: Vec::new() }
    }

    /// The manifest path of the project to clean next, or `None` when the
    /// run is over.
    pub fn next(&self) -> (target: Option<&str>)
        ensures
            match target {
                Some(path) => next_target(self@) == Some(path@),
                None => next_target(self@) is None,
            },
    {
        proof {
            use_type_invariant(self);
        }
        let done = self.launched.len();
        if done < self.targets.len() {
            Some(self.targets[done].as_str())
        } else {
            None
        }
    }

    /// Records the outcome of cleaning the project that `next` gave:
    /// whether the command was launched. Tells whether a warning is due,
    /// which it is for a command that was not launched.
    pub fn record(&mut self, launched: bool) -> (warn: bool)
        ensures
            final(self)@ == recorded(old(self)@, launched),
            warn == (next_target(old(self)@) is Some && !launched),
    {
        proof {
            use_type_invariant(&*self);
        }
        if self.launched.len() < self.targets.len() {
            let mut outcomes: Vec<bool> = Vec::new();
            core::mem::swap(&mut self.launched, &mut outcomes);
            outcomes.push(launched);
            self.launched = outcomes;
            !launched
        } else {
            false
        }
    }

    /// Whether every project has been attempted.
    pub fn is_finished(&self) -> (r: bool)
        ensures
            r == (next_target(self@) is None),
    {
        proof {
            use_type_invariant(self);
        }
        self.launched.len() >= self.targets.len()
    }

    /// For each project attempted so far, in order, its manifest path and
    /// whether the command was launched.
    pub fn outcomes(&self) -> (report: Vec<(String, bool)>)
        ensures
            report.len() == self@.launched.len(),
            forall|i: int|
                0 <= i < report.len() ==> (#[trigger] report[i]).0@ == self@.targets[i]
                    && report[i].1 == self@.launched[i],
    {
        proof {
            use_type_invariant(self);
        }
        let n = self.launched.len();
        let mut report: Vec<(String, bool)> = Vec::new();
        let mut i: usize = 0;
        while i < n
            invariant
                i <= n,
                n == self.launched@.len(),
                n <= self.targets@.len(),
                report.len() == i,
                forall|j: int|
                    0 <= j < i ==> (#[trigger] report[j]).0@ == self@.targets[j] && report[j].1
                        == self@.launched[j],
            decreases n - i,
        {
            report.push((String::from_str(self.targets[i].as_str()), self.launched[i]));
            i += 1;
        }
        report
    }
}

/// What a `Cleaning` stands for: where the question of consent stands, and
/// the run over the projects.
pub struct CleaningView {
    pub state: Confirmation,
    pub run: CleanRunView,
}

/// The cleaning at its start: the question as it opens, and nothing
/// attempted yet.
pub open spec fn begun(auto_confirm: bool, targets: Seq<Seq<char>>) -> CleaningView {
    CleaningView { state: opening(auto_confirm, targets.len()), run: fresh(targets) }
}

/// The manifest path of the project that is due for cleaning: there is
/// one only once the question is confirmed, and then it is the next target
/// of the run.
pub open spec fn due(cleaning: CleaningView) -> Option<Seq<char>> {
    if cleaning.state == Confirmation::Confirmed {
        next_target(cleaning.run)
    } else {
        None
    }
}

/// The cleaning after an attempt to read a reply: the question moves on,
/// the run stays.
pub open spec fn replied(cleaning: CleaningView, input: Option<Seq<char>>) -> CleaningView {
    CleaningView { state: answered(cleaning.state, input).0, run: cleaning.run }
}

/// The cleaning after the outcome of an attempt is recorded: the run
/// moves on if a project was due, and nothing changes if none was.
pub open spec fn attempted(cleaning: CleaningView, launched: bool) -> CleaningView {
    if due(cleaning) is Some {
        CleaningView { state: cleaning.state, run: recorded(cleaning.run, launched) }
    } else {
        cleaning
    }
}

/// Without consent nothing is cleaned: as long as the question is open,
/// and once it is declined, no project is due and the run stands still,
/// whatever is recorded.
pub proof fn lemma_nothing_cleaned_without_consent(cleaning: CleaningView, launched: bool)
    requires
        cleaning.state != Confirmation::Confirmed,
    ensures
        due(cleaning) is None,
        attempted(cleaning, launched) == cleaning,
{
}

/// The cleaning of the included projects, from the question of consent to
/// the last project.
#[derive(Debug)]
pub struct Cleaning {
    state: Confirmation,
    run: CleanRun,
}

impl View for Cleaning {
    type V = CleaningView;

    closed spec fn view(&self) -> CleaningView {
        CleaningView { state: self.state, run: self.run@ }
    }
}

impl Cleaning {
    /// Sets out the cleaning of the projects with these manifest paths,
    /// in this order. The question of consent is put unless consent was
    /// given beforehand or there is nothing to clean.
    pub fn new(auto_confirm: bool, targets: Vec<String>) -> (cleaning: Cleaning)
        ensures
            cleaning@ == begun(auto_confirm, texts(targets@)),
    {
        let state = Confirmation::begin(auto_confirm, targets.len());
        Cleaning { state, run: CleanRun::new(targets) }
    }

    /// Where the question of consent stands.
    pub fn state(&self) -> (state: Confirmation)
        ensures
            state == self@.state,
    {
        self.state
    }

    /// Whether a reply is still awaited.
    pub fn is_open(&self) -> (r: bool)
        ensures
            r == (self@.state == Confirmation::AwaitingInput),
    {
        self.state.is_open()
    }

    /// Takes one attempt to read a reply into account: `input` is the
    /// line that was read, or `None` where reading failed. Gives what is
    /// to be said to the user.
    pub fn answer(&mut self, input: Option<&str>) -> (notice: Notice)
        ensures
            final(self)@ == replied(
                old(self)@,
                match input {
                    Some(line) => Some(line@),
                    None => None,
                },
            ),
            notice == answered(
                old(self)@.state,
                match input {
                    Some(line) => Some(line@),
                    None => None,
                },
            ).1,
    {
        let (state, notice) = self.state.step(input);
        self.state = state;
        notice
    }

    /// The manifest path of the project to clean now, or `None` where none
    /// is due: the question is not confirmed, or the run is over.
    pub fn next(&self) -> (target: Option<&str>)
        ensures
            match target {
                Some(path) => due(self@) == Some(path@),
                None => due(self@) is None,
            },
    {
        match self.state {
            Confirmation::Confirmed => self.run.next(),
            _ => None,
        }
    }

    /// Records the outcome of cleaning the project that `next` gave:
    /// whether the command was launched. Tells whether a warning is due,
    /// which it is for a command that was not launched.
    pub fn record(&mut self, launched: bool) -> (warn: bool)
        ensures
            final(self)@ == attempted(old(self)@, launched),
            warn == (due(old(self)@) is Some && !launched),
    {
        match self.state {
            Confirmation::Confirmed => self.run.record(launched),
            _ => false,
        }
    }

    /// Whether nothing is left to do: the question is settled and no
    /// project is due.
    pub fn is_finished(&self) -> (r: bool)
        ensures
            r == (self@.state != Confirmation::AwaitingInput && due(self@) is None),
    {
        !self.state.is_open() && self.next().is_none()
    }

    /// For each project attempted so far, in order, its manifest path and
    /// whether the command was launched.
    pub fn outcomes(&self) -> (report: Vec<(String, bool)>)
        ensures
            report.len() == self@.run.launched.len(),
            forall|i: int|
                0 <= i < report.len() ==> (#[trigger] report[i]).0@ == self@.run.targets[i]
                    && report[i].1 == self@.run.launched[i],
    {
        self.run.outcomes()
    }
}

} // verus!
