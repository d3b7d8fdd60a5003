//! Browser processes: finding the executable, their life cycle and the pool that holds them.

pub mod instance;
pub mod pool;

use vstd::prelude::*;

use crate::error::ChromePathError;
use crate::text::{same_text, trim};
#[allow(unused_imports)]
use crate::text::{text_opt, texts, trimmed};

verus! {

// ---------------------------------------------------------------------------
// Validating one executable
// ---------------------------------------------------------------------------

/// What the file system says of a path. Links may be followed to another path, or fail to be.
#[derive(Debug)]
pub enum PathLookup {
    Missing,
    Resolved(String),
    Unresolved,
}

/// How a trial run of an executable ended.
#[derive(Debug)]
pub enum RunOutcome {
    Success,
    Failure,
    NotStarted(String),
}

/// What happened last in the validation of a path.
#[derive(Debug)]
pub enum ProbeInput {
    Looked(PathLookup),
    Ran { resolved: String, outcome: RunOutcome },
    RanOriginal { error: String, success: bool },
}

/// What to do next in the validation of a path.
#[derive(Debug)]
pub enum ProbeAction {
    Run { resolved: String },
    RunOriginal { error: String },
    Valid(String),
    Invalid(ChromePathError),
}

/// What the file system says, as a value: nothing for a path that is missing, else the path that
/// it leads to, if that could be found out.
pub enum LookupView {
    Missing,
    Resolved(Seq<char>),
    Unresolved,
}

/// How a trial run ended, as a value.
pub enum RunView {
    Success,
    Failure,
    NotStarted(Seq<char>),
}

/// What happened last, as a value.
pub enum ProbeEvent {
    Looked(LookupView),
    Ran(Seq<char>, RunView),
    RanOriginal(Seq<char>, bool),
}

/// Why a path is not valid, as a value.
pub enum PathProblem {
    NotFound,
    NotExecutable,
    ValidationFailed(Seq<char>),
}

/// What to do next, as a value: a path to run, the error to keep while the path itself is run, or
/// the result.
pub enum ProbeStep {
    Run(Seq<char>),
    RunOriginal(Seq<char>),
    Valid(Seq<char>),
    Invalid(PathProblem),
}

impl View for PathLookup {
    type V = LookupView;

    open spec fn view(&self) -> LookupView {
        match *self {
            PathLookup::Missing => LookupView::Missing,
            PathLookup::Resolved(path) => LookupView::Resolved(path@),
            PathLookup::Unresolved => LookupView::Unresolved,
        }
    }
}

impl View for RunOutcome {
    type V = RunView;

    open spec fn view(&self) -> RunView {
        match *self {
            RunOutcome::Success => RunView::Success,
            RunOutcome::Failure => RunView::Failure,
            RunOutcome::NotStarted(error) => RunView::NotStarted(error@),
        }
    }
}

impl View for ProbeInput {
    type V = ProbeEvent;

    open spec fn view(&self) -> ProbeEvent {
        match *self {
            ProbeInput::Looked(lookup) => ProbeEvent::Looked(lookup@),
            ProbeInput::Ran { resolved, outcome } => ProbeEvent::Ran(resolved@, outcome@),
            ProbeInput::RanOriginal { error, success } => ProbeEvent::RanOriginal(error@, success),
        }
    }
}

/// The next step in the validation of `path`.
pub open spec fn probe_step(path: Seq<char>, event: ProbeEvent) -> ProbeStep {
    match event {
        ProbeEvent::Looked(LookupView::Missing) => ProbeStep::Invalid(PathProblem::NotFound),
        ProbeEvent::Looked(LookupView::Resolved(resolved)) => ProbeStep::Run(resolved),
        ProbeEvent::Looked(LookupView::Unresolved) => ProbeStep::Run(path),
        ProbeEvent::Ran(resolved, RunView::Success) => ProbeStep::Valid(resolved),
        ProbeEvent::Ran(_, RunView::Failure) => ProbeStep::Invalid(PathProblem::NotExecutable),
        ProbeEvent::Ran(resolved, RunView::NotStarted(error)) => if resolved != path {
            ProbeStep::RunOriginal(error)
        } else {
            ProbeStep::Invalid(PathProblem::ValidationFailed(error))
        },
        ProbeEvent::RanOriginal(error, success) => if success {
            ProbeStep::Valid(path)
        } else {
            ProbeStep::Invalid(PathProblem::ValidationFailed(error))
        },
    }
}

impl ProbeAction {
    /// The action carries out the step; an error names the path as it was given.
    pub open spec fn does(self, path: Seq<char>, step: ProbeStep) -> bool {
        match step {
            ProbeStep::Run(p) => self matches ProbeAction::Run { resolved } && resolved@ == p,
            ProbeStep::RunOriginal(e) => self matches ProbeAction::RunOriginal { error } && error@
                == e,
            ProbeStep::Valid(p) => self matches ProbeAction::Valid(valid) && valid@ == p,
            ProbeStep::Invalid(PathProblem::NotFound) => {
                &&& self matches ProbeAction::Invalid(ChromePathError::NotFound { path: p })
                &&& p@ == path
            },
            ProbeStep::Invalid(PathProblem::NotExecutable) => {
                &&& self matches ProbeAction::Invalid(ChromePathError::NotExecutable { path: p })
                &&& p@ == path
            },
            ProbeStep::Invalid(PathProblem::ValidationFailed(e)) => {
                &&& self matches ProbeAction::Invalid(
                    ChromePathError::ValidationFailed { path: p, error },
                )
                &&& p@ == path
                &&& error@ == e
            },
        }
    }
}

/// One step in telling whether `path` names a browser that can be run: it has to exist, and a
/// trial run has to succeed, of the path that it leads to or, where that cannot be started, of
/// the path itself.
pub fn validate_chrome_path(path: &str, input: ProbeInput) -> (r: ProbeAction)
    ensures
        r.does(path@, probe_step(path@, input@)),
{
    match input {
        ProbeInput::Looked(PathLookup::Missing) => ProbeAction::Invalid(
            ChromePathError::NotFound { path: path.to_owned() },
        ),
        ProbeInput::Looked(PathLookup::Resolved(resolved)) => ProbeAction::Run { resolved },
        ProbeInput::Looked(PathLookup::Unresolved) => ProbeAction::Run {
            resolved: path.to_owned(),
        },
        ProbeInput::Ran { resolved, outcome } => match outcome {
            RunOutcome::Success => ProbeAction::Valid(resolved),
            RunOutcome::Failure => ProbeAction::Invalid(
                ChromePathError::NotExecutable { path: path.to_owned() },
            ),
            RunOutcome::NotStarted(error) => if !same_text(path, resolved.as_str()) {
                ProbeAction::RunOriginal { error }
            } else {
                ProbeAction::Invalid(
                    ChromePathError::ValidationFailed { path: path.to_owned(), error },
                )
            },
        },
        ProbeInput::RanOriginal { error, success } => if success {
            ProbeAction::Valid(path.to_owned())
        } else {
            ProbeAction::Invalid(ChromePathError::ValidationFailed { path: path.to_owned(), error })
        },
    }
}

// ---------------------------------------------------------------------------
// Searching for an executable
// ---------------------------------------------------------------------------

/// The commands that are looked up, in order.
pub open spec fn command_names() -> Seq<Seq<char>> {
    seq!["google-chrome-stable"@, "chromium"@, "chromium-browser"@, "google-chrome"@]
}

/// The usual places of an installation, in order.
pub open spec fn fallback_paths() -> Seq<Seq<char>> {
    seq![
        "/usr/bin/google-chrome-stable"@,
        "/usr/bin/google-chrome"@,
        "/usr/bin/chromium-browser"@,
        "/usr/bin/chromium"@,
        "/opt/google/chrome/chrome"@,
        "/Applications/Google Chrome.app/Contents/MacOS/Google Chrome"@,
        "C:\\Program Files\\Google\\Chrome\\Application\\chrome.exe"@,
        "C:\\Program Files (x86)\\Google\\Chrome\\Application\\chrome.exe"@,
    ]
}

/// The sources of a search are numbered: the path that was provided, then the commands, then the
/// usual places.
pub const FIRST_COMMAND: usize = 1;

pub const FIRST_FALLBACK: usize = 5;

pub const SEARCH_END: usize = 13;

/// A search: the source that it has come to and the paths that it tried.
#[derive(Debug)]
pub struct ChromeSearch {
    pub position: usize,
    pub tried_paths: Vec<String>,
}

/// What happened last in a search. The lookup of a command gives what it printed, where it
/// succeeded.
#[derive(Debug)]
pub enum SearchInput {
    Begin(Option<String>),
    Validated(Result<String, ChromePathError>),
    LookedUp(Option<String>),
}

/// What to do next in a search.
#[derive(Debug)]
pub enum SearchAction {
    Validate(String),
    LookUp(String),
    Found(String),
    NotFound(ChromePathError),
}

/// What happened last, as a value; a validation gives the valid path, if it is one.
pub enum SearchEvent {
    Begin(Option<Seq<char>>),
    Validated(Option<Seq<char>>),
    LookedUp(Option<Seq<char>>),
}

impl View for SearchInput {
    type V = SearchEvent;

    open spec fn view(&self) -> SearchEvent {
        match *self {
            SearchInput::Begin(provided) => SearchEvent::Begin(text_opt(provided)),
            SearchInput::Validated(Ok(path)) => SearchEvent::Validated(Some(path@)),
            SearchInput::Validated(Err(_)) => SearchEvent::Validated(None),
            SearchInput::LookedUp(output) => SearchEvent::LookedUp(text_opt(output)),
        }
    }
}

/// A search as a value.
pub struct SearchState {
    pub position: int,
    pub tried: Seq<Seq<char>>,
}

/// An action as a value.
pub enum SearchStep {
    Validate(Seq<char>),
    LookUp(Seq<char>),
    Found(Seq<char>),
    NotFound(Seq<Seq<char>>),
}

impl SearchState {
    /// Goes to the source at this position: looks a command up, or tries a usual place that was
    /// not tried before.
    pub open spec fn advance(self) -> (SearchState, SearchStep)
        decreases SEARCH_END - self.position,
    {
        if self.position < FIRST_FALLBACK {
            (self, SearchStep::LookUp(command_names()[self.position - FIRST_COMMAND]))
        } else if self.position < SEARCH_END {
            let path = fallback_paths()[self.position - FIRST_FALLBACK];
            if self.tried.contains(path) {
                self.next().advance()
            } else {
                self.trying(path)
            }
        } else {
            (self, SearchStep::NotFound(self.tried))
        }
    }

    pub open spec fn next(self) -> SearchState {
        SearchState { position: self.position + 1, tried: self.tried }
    }

    pub open spec fn trying(self, path: Seq<char>) -> (SearchState, SearchStep) {
        (
            SearchState { position: self.position, tried: self.tried.push(path) },
            SearchStep::Validate(path),
        )
    }

    /// The search and its next action.
    pub open spec fn step(self, event: SearchEvent) -> (SearchState, SearchStep) {
        match event {
            SearchEvent::Begin(Some(path)) => SearchState {
                position: 0,
                tried: Seq::empty(),
            }.trying(path),
            SearchEvent::Begin(None) => SearchState {
                position: FIRST_COMMAND as int,
                tried: Seq::empty(),
            }.advance(),
            SearchEvent::Validated(Some(path)) => (self, SearchStep::Found(path)),
            SearchEvent::Validated(None) => self.next().advance(),
            SearchEvent::LookedUp(None) => self.next().advance(),
            SearchEvent::LookedUp(Some(output)) => {
                let path = trimmed(output);
                if path.len() == 0 || (self.position > FIRST_COMMAND && self.tried.contains(path)) {
                    self.next().advance()
                } else {
                    self.trying(path)
                }
            },
        }
    }
}

impl SearchAction {
    /// The action carries out the step.
    pub open spec fn does(self, step: SearchStep) -> bool {
        match step {
            SearchStep::Validate(path) => self matches SearchAction::Validate(p) && p@ == path,
            SearchStep::LookUp(name) => self matches SearchAction::LookUp(n) && n@ == name,
            SearchStep::Found(path) => self matches SearchAction::Found(p) && p@ == path,
            SearchStep::NotFound(tried) => self matches SearchAction::NotFound(
                ChromePathError::NoValidInstallation { paths },
            ) && texts(paths@) == tried,
        }
    }
}

fn command_name(k: usize) -> (r: String)
    requires
        k < 4,
    ensures
        r@ == command_names()[k as int],
{
    if k == 0 {
        "google-chrome-stable".to_owned()
    } else if k == 1 {
        "chromium".to_owned()
    } else if k == 2 {
        "chromium-browser".to_owned()
    } else {
        "google-chrome".to_owned()
    }
}

fn fallback_path(k: usize) -> (r: String)
    requires
        k < 8,
    ensures
        r@ == fallback_paths()[k as int],
{
    if k == 0 {
        "/usr/bin/google-chrome-stable".to_owned()
    } else if k == 1 {
        "/usr/bin/google-chrome".to_owned()
    } else if k == 2 {
        "/usr/bin/chromium-browser".to_owned()
    } else if k == 3 {
        "/usr/bin/chromium".to_owned()
    } else if k == 4 {
        "/opt/google/chrome/chrome".to_owned()
    } else if k == 5 {
        "/Applications/Google Chrome.app/Contents/MacOS/Google Chrome".to_owned()
    } else if k == 6 {
        "C:\\Program Files\\Google\\Chrome\\Application\\chrome.exe".to_owned()
    } else {
        "C:\\Program Files (x86)\\Google\\Chrome\\Application\\chrome.exe".to_owned()
    }
}

impl ChromeSearch {
    pub open spec fn state(self) -> SearchState {
        SearchState { position: self.position as int, tried: texts(self.tried_paths@) }
    }

    pub fn new() -> (r: Self)
        ensures
            r.state() == (SearchState { position: 0, tried: Seq::empty() }),
    {
        let r = ChromeSearch { position: 0, tried_paths: Vec::new() };
        assert(texts(r.tried_paths@) =~= Seq::empty());
        r
    }

    fn has_tried(&self, path: &str) -> (r: bool)
        ensures
            r == self.state().tried.contains(path@),
    {
        let mut i: usize = 0;
        while i < self.tried_paths.len()
            invariant
                i <= self.tried_paths@.len(),
                forall|j: int| 0 <= j < i ==> #[trigger] self.state().tried[j] != path@,
            decreases self.tried_paths@.len() - i,
        {
            if same_text(self.tried_paths[i].as_str(), path) {
                assert(self.state().tried[i as int] == path@);
                return true;
            }
            i += 1;
        }
        false
    }

    fn try_path(&mut self, path: String) -> (r: SearchAction)
        ensures
            final(self).state() == old(self).state().trying(path@).0,
            r.does(old(self).state().trying(path@).1),
    {
        self.tried_paths.push(path.clone());
        assert(self.state().tried =~= old(self).state().tried.push(path@));
        SearchAction::Validate(path)
    }

    fn advance(&mut self) -> (r: SearchAction)
        requires
            FIRST_COMMAND <= old(self).position <= SEARCH_END,
        ensures
            final(self).state() == old(self).state().advance().0,
            r.does(old(self).state().advance().1),
        decreases SEARCH_END - old(self).position,
    {
        if self.position < FIRST_FALLBACK {
            return SearchAction::LookUp(command_name(self.position - FIRST_COMMAND));
        }
        if self.position < SEARCH_END {
            let path = fallback_path(self.position - FIRST_FALLBACK);
            if self.has_tried(path.as_str()) {
                self.position = self.position + 1;
                return self.advance();
            }
            return self.try_path(path);
        }
        let paths = copy_texts(&self.tried_paths);
        SearchAction::NotFound(ChromePathError::NoValidInstallation { paths })
    }
}

fn copy_texts(v: &Vec<String>) -> (r: Vec<String>)
    ensures
        texts(r@) == texts(v@),
{
    let mut r: Vec<String> = Vec::new();
    let mut i: usize = 0;
    while i < v.len()
        invariant
            i <= v@.len(),
            r@.len() == i,
            forall|j: int| 0 <= j < i ==> (#[trigger] r@[j])@ == v@[j]@,
        decreases v@.len() - i,
    {
        r.push(v[i].clone());
        i += 1;
    }
    assert(texts(r@) =~= texts(v@));
    r
}

/// One step of the search for a browser: the provided path, what the lookup of the usual commands
/// finds, and the usual places are validated in turn, until one is valid.
pub fn find_chrome_executable(search: &mut ChromeSearch, input: SearchInput) -> (r: SearchAction)
    requires
        input is Begin || old(search).position < SEARCH_END,
    ensures
        final(search).state() == old(search).state().step(input@).0,
        r.does(old(search).state().step(input@).1),
{
    match input {
        SearchInput::Begin(provided) => {
            search.tried_paths = Vec::new();
            assert(texts(search.tried_paths@) =~= Seq::empty());
            match provided {
                Some(path) => {
                    search.position = 0;
                    search.try_path(path)
                },
                None => {
                    search.position = FIRST_COMMAND;
                    search.advance()
                },
            }
        },
        SearchInput::Validated(Ok(path)) => SearchAction::Found(path),
        SearchInput::Validated(Err(_)) => {
            search.position = search.position + 1;
            search.advance()
        },
        SearchInput::LookedUp(output) => {
            if let Some(output) = output {
                let path = trim(output.as_str());
                if !path.as_str().is_empty() && !(search.position > FIRST_COMMAND && search.has_tried(
                    path.as_str(),
                )) {
                    return search.try_path(path);
                }
            }
            search.position = search.position + 1;
            search.advance()
        },
    }
}

// ---------------------------------------------------------------------------
// Laws
// ---------------------------------------------------------------------------

/// What happens outside in the validation of a path: what the file system says of it, how the
/// trial run ends, and whether a second one, of the path itself, succeeds.
pub struct ProbeWorld {
    pub lookup: LookupView,
    pub first: RunView,
    pub second: bool,
}

impl ProbeWorld {
    /// What a validation is told after a step.
    pub open spec fn answer(self, step: ProbeStep) -> ProbeEvent {
        match step {
            ProbeStep::RunOriginal(error) => ProbeEvent::RanOriginal(error, self.second),
            ProbeStep::Run(resolved) => ProbeEvent::Ran(resolved, self.first),
            _ => ProbeEvent::Looked(self.lookup),
        }
    }

    /// How a validation ends that has come to this step, within so many more steps.
    pub open spec fn run(self, path: Seq<char>, step: ProbeStep, steps: nat) -> Option<ProbeStep>
        decreases steps,
    {
        if step is Valid || step is Invalid {
            Some(step)
        } else if steps == 0 {
            None
        } else {
            self.run(path, probe_step(path, self.answer(step)), (steps - 1) as nat)
        }
    }

    /// The path that is run first.
    pub open spec fn resolved(self, path: Seq<char>) -> Seq<char> {
        match self.lookup {
            LookupView::Resolved(resolved) => resolved,
            _ => path,
        }
    }
}

/// A whole validation ends after at most two runs. A path that is missing is not found. Else what
/// it leads to is run: if that succeeds, what it leads to is valid; if it fails, the path is not
/// executable. If it cannot be started, the path itself is valid where it is another and a run of
/// it succeeds; otherwise the validation failed, with the error of the first run.
pub proof fn law_validation_run(w: ProbeWorld, path: Seq<char>, steps: nat)
    requires
        steps >= 2,
    ensures
        w.run(path, probe_step(path, ProbeEvent::Looked(w.lookup)), steps) == Some(
            if w.lookup is Missing {
                ProbeStep::Invalid(PathProblem::NotFound)
            } else {
                match w.first {
                    RunView::Success => ProbeStep::Valid(w.resolved(path)),
                    RunView::Failure => ProbeStep::Invalid(PathProblem::NotExecutable),
                    RunView::NotStarted(error) => if w.resolved(path) != path && w.second {
                        ProbeStep::Valid(path)
                    } else {
                        ProbeStep::Invalid(PathProblem::ValidationFailed(error))
                    },
                }
            },
        ),
{
    reveal_with_fuel(ProbeWorld::run, 3);
}

/// The usual places up to the one that the search has come to were tried.
pub open spec fn fallbacks_tried(s: SearchState) -> bool {
    forall|j: int|
        0 <= j < fallback_paths().len() && j <= s.position - FIRST_FALLBACK ==> s.tried.contains(
            #[trigger] fallback_paths()[j],
        )
}

proof fn lemma_contains_push<A>(s: Seq<A>, x: A, y: A)
    requires
        s.contains(x),
    ensures
        s.push(y).contains(x),
{
    let k = choose|k: int| 0 <= k < s.len() && s[k] == x;
    assert(s.push(y)[k] == x);
}

proof fn lemma_advance(s: SearchState)
    requires
        FIRST_COMMAND <= s.position <= SEARCH_END,
        forall|j: int|
            0 <= j < fallback_paths().len() && j < s.position - FIRST_FALLBACK ==> s.tried.contains(
                #[trigger] fallback_paths()[j],
            ),
    ensures
        ({
            let (t, step) = s.advance();
            &&& s.position <= t.position <= SEARCH_END
            &&& fallbacks_tried(t)
            &&& match step {
                SearchStep::Validate(path) => {
                    &&& t.position < SEARCH_END
                    &&& t.tried == s.tried.push(path)
                    &&& !s.tried.contains(path)
                },
                SearchStep::LookUp(_) => t == s && s.position < FIRST_FALLBACK,
                SearchStep::Found(_) => false,
                SearchStep::NotFound(tried) => {
                    &&& tried == s.tried
                    &&& t.tried == s.tried
                    &&& t.position == SEARCH_END
                },
            }
        }),
    decreases SEARCH_END - s.position,
{
    let (t, step) = s.advance();
    assert(fallback_paths().len() == SEARCH_END - FIRST_FALLBACK);
    if FIRST_FALLBACK <= s.position < SEARCH_END {
        let path = fallback_paths()[s.position - FIRST_FALLBACK];
        if s.tried.contains(path) {
            assert forall|j: int|
                0 <= j < fallback_paths().len() && j < s.next().position
                    - FIRST_FALLBACK implies s.next().tried.contains(
                #[trigger] fallback_paths()[j],
            ) by {
                assert(fallback_paths()[s.position - FIRST_FALLBACK] == path);
            }
            lemma_advance(s.next());
        } else {
            assert forall|j: int|
                0 <= j < fallback_paths().len() && j <= t.position
                    - FIRST_FALLBACK implies t.tried.contains(#[trigger] fallback_paths()[j]) by {
                if j < s.position - FIRST_FALLBACK {
                    lemma_contains_push(s.tried, fallback_paths()[j], path);
                } else {
                    assert(t.tried[t.tried.len() - 1] == path);
                }
            }
        }
    }
}

/// Every path that a search validates is the last of the paths that it tried, and was not among
/// them before unless it is the one provided or what the first command's lookup gave. Each step
/// but the last asks for a source that is further on, or for the validation of what the lookup
/// found, so a search ends. One that finds nothing reports all paths that it tried, in order, and
/// has then tried all the usual places.
pub proof fn law_search(s: SearchState, event: SearchEvent)
    requires
        event is Begin || 0 <= s.position < SEARCH_END,
        event is LookedUp ==> FIRST_COMMAND <= s.position < FIRST_FALLBACK,
        event is Begin || fallbacks_tried(s),
    ensures
        ({
            let (t, step) = s.step(event);
            let before = if event is Begin {
                Seq::empty()
            } else {
                s.tried
            };
            &&& fallbacks_tried(t)
            &&& 0 <= t.position <= SEARCH_END
            &&& match step {
                SearchStep::Validate(path) => {
                    &&& t.tried == before.push(path)
                    &&& t.position < SEARCH_END
                    &&& t.position > FIRST_COMMAND ==> !before.contains(path)
                    &&& event is Validated ==> t.position > s.position
                    &&& event is LookedUp ==> t.position >= s.position
                },
                SearchStep::LookUp(name) => {
                    &&& t.tried == before
                    &&& FIRST_COMMAND <= t.position < FIRST_FALLBACK
                    &&& name == command_names()[t.position - FIRST_COMMAND]
                    &&& !(event is Begin) ==> t.position == s.position + 1
                },
                SearchStep::Found(path) => event == SearchEvent::Validated(Some(path)),
                SearchStep::NotFound(tried) => {
                    &&& tried == before
                    &&& forall|j: int|
                        0 <= j < fallback_paths().len() ==> tried.contains(
                            #[trigger] fallback_paths()[j],
                        )
                },
            }
        }),
{
    match event {
        SearchEvent::Begin(Some(path)) => {},
        SearchEvent::Begin(None) => {
            lemma_advance(SearchState { position: FIRST_COMMAND as int, tried: Seq::empty() });
        },
        SearchEvent::Validated(Some(path)) => {},
        SearchEvent::Validated(None) => {
            lemma_advance(s.next());
        },
        SearchEvent::LookedUp(_) => {
            lemma_advance(s.next());
        },
    }
}

/// What happens outside in a search: the outputs of the commands, in their order, and the outcomes
/// of the validations, in the order in which they are made.
pub struct SearchWorld {
    pub outputs: spec_fn(int) -> Option<Seq<char>>,
    pub validations: spec_fn(int) -> Option<Seq<char>>,
}

impl SearchWorld {
    /// The path that a source offers, if any.
    pub open spec fn offer(self, provided: Option<Seq<char>>, source: int) -> Option<Seq<char>> {
        if source < FIRST_COMMAND {
            provided
        } else if source < FIRST_FALLBACK {
            match (self.outputs)(source - FIRST_COMMAND) {
                Some(output) => if trimmed(output).len() == 0 {
                    None
                } else {
                    Some(trimmed(output))
                },
                None => None,
            }
        } else {
            Some(fallback_paths()[source - FIRST_FALLBACK])
        }
    }

    /// The candidates that the sources before `end` offer, in order. A path that was offered
    /// before is left out, except where it is the first command's.
    pub open spec fn candidates(self, provided: Option<Seq<char>>, end: int) -> Seq<Seq<char>>
        decreases end,
    {
        if end <= 0 {
            Seq::empty()
        } else {
            let before = self.candidates(provided, end - 1);
            match self.offer(provided, end - 1) {
                Some(path) => if end - 1 > FIRST_COMMAND && before.contains(path) {
                    before
                } else {
                    before.push(path)
                },
                None => before,
            }
        }
    }

    /// What a search is told after a step.
    pub open spec fn answer(self, s: SearchState, step: SearchStep) -> SearchEvent {
        match step {
            SearchStep::LookUp(_) => SearchEvent::LookedUp(
                (self.outputs)(s.position - FIRST_COMMAND),
            ),
            _ => SearchEvent::Validated((self.validations)(s.tried.len() - 1)),
        }
    }

    /// How a search ends that has come to this step, within so many more steps.
    pub open spec fn run(self, s: SearchState, step: SearchStep, steps: nat) -> Option<SearchStep>
        decreases steps,
    {
        if step is Found || step is NotFound {
            Some(step)
        } else if steps == 0 {
            None
        } else {
            let (t, next) = s.step(self.answer(s, step));
            self.run(t, next, (steps - 1) as nat)
        }
    }

    /// The end is that of a search over these candidates: the first that validates is found, and
    /// where none does all are reported.
    pub open spec fn settles(self, candidates: Seq<Seq<char>>, end: Option<SearchStep>) -> bool {
        match end {
            Some(SearchStep::Found(path)) => exists|n: int|
                {
                    &&& 0 <= n < candidates.len()
                    &&& #[trigger] (self.validations)(n) == Some(path)
                    &&& forall|m: int| 0 <= m < n ==> #[trigger] (self.validations)(m) is None
                },
            Some(SearchStep::NotFound(tried)) => {
                &&& tried == candidates
                &&& forall|m: int|
                    0 <= m < candidates.len() ==> #[trigger] (self.validations)(m) is None
            },
            _ => false,
        }
    }
}

proof fn lemma_candidates_grow(w: SearchWorld, provided: Option<Seq<char>>, from: int, to: int)
    requires
        0 <= from <= to,
    ensures
        w.candidates(provided, from).len() <= w.candidates(provided, to).len(),
    decreases to - from,
{
    if from < to {
        lemma_candidates_grow(w, provided, from, to - 1);
    }
}

/// A search that validates the last of its candidates so far, with none valid before it.
proof fn lemma_run_validate(
    w: SearchWorld,
    provided: Option<Seq<char>>,
    s: SearchState,
    path: Seq<char>,
    steps: nat,
)
    requires
        0 <= s.position < SEARCH_END,
        s.tried == w.candidates(provided, s.position + 1),
        s.tried.len() > 0,
        forall|m: int| 0 <= m < s.tried.len() - 1 ==> #[trigger] (w.validations)(m) is None,
        steps >= 2 * (SEARCH_END - s.position) - 1,
    ensures
        w.settles(
            w.candidates(provided, SEARCH_END as int),
            w.run(s, SearchStep::Validate(path), steps),
        ),
    decreases SEARCH_END - s.position, 0int,
{
    let n = s.tried.len() - 1;
    lemma_candidates_grow(w, provided, s.position + 1, SEARCH_END as int);
    match (w.validations)(n) {
        Some(valid) => {
            assert(s.step(SearchEvent::Validated(Some(valid))) == (s, SearchStep::Found(valid)));
            assert(w.run(s, SearchStep::Found(valid), (steps - 1) as nat) == Some(
                SearchStep::Found(valid),
            ));
        },
        None => {
            lemma_run_advance(w, provided, s.next(), (steps - 1) as nat);
        },
    }
}

/// A search that has come to a source, with no candidate before it valid.
proof fn lemma_run_advance(
    w: SearchWorld,
    provided: Option<Seq<char>>,
    s: SearchState,
    steps: nat,
)
    requires
        FIRST_COMMAND <= s.position <= SEARCH_END,
        s.tried == w.candidates(provided, s.position),
        forall|m: int| 0 <= m < s.tried.len() ==> #[trigger] (w.validations)(m) is None,
        steps >= 2 * (SEARCH_END - s.position),
    ensures
        w.settles(
            w.candidates(provided, SEARCH_END as int),
            w.run(s.advance().0, s.advance().1, steps),
        ),
    decreases SEARCH_END - s.position, 1int,
{
    if s.position < FIRST_FALLBACK {
        let k = s.position - FIRST_COMMAND;
        let (t, next) = s.step(SearchEvent::LookedUp((w.outputs)(k)));
        assert(w.run(s, s.advance().1, steps) == w.run(t, next, (steps - 1) as nat));
        match w.offer(provided, s.position) {
            Some(path) => if s.position > FIRST_COMMAND && s.tried.contains(path) {
                lemma_run_advance(w, provided, s.next(), (steps - 1) as nat);
            } else {
                lemma_run_validate(w, provided, t, path, (steps - 1) as nat);
            },
            None => {
                lemma_run_advance(w, provided, s.next(), (steps - 1) as nat);
            },
        }
    } else if s.position < SEARCH_END {
        let path = fallback_paths()[s.position - FIRST_FALLBACK];
        if s.tried.contains(path) {
            lemma_run_advance(w, provided, s.next(), steps);
        } else {
            lemma_run_validate(w, provided, s.trying(path).0, path, steps);
        }
    }
}

/// A whole search, whatever the commands print and the validations give: it ends, after at most
/// two steps for each source, with the first of its candidates that is valid, and where none is
/// with a report of all of them, in order.
pub proof fn law_search_run(w: SearchWorld, provided: Option<Seq<char>>, s: SearchState, steps: nat)
    requires
        steps >= 2 * SEARCH_END,
    ensures
        ({
            let (t, step) = s.step(SearchEvent::Begin(provided));
            w.settles(w.candidates(provided, SEARCH_END as int), w.run(t, step, steps))
        }),
{
    reveal_with_fuel(SearchWorld::candidates, 2);
    match provided {
        Some(path) => {
            let (t, step) = s.step(SearchEvent::Begin(provided));
            assert(t.tried =~= w.candidates(provided, 1));
            lemma_run_validate(w, provided, t, path, steps);
        },
        None => {
            let t = SearchState { position: FIRST_COMMAND as int, tried: Seq::empty() };
            lemma_run_advance(w, provided, t, steps);
        },
    }
}

/// A validation and a search seen from outside: inputs are what happened, text by text, and an
/// action is the one that the step says, with that path, command or report. An error names the
/// path that was given.
pub proof fn law_probe_actions(
    path: Seq<char>,
    action: ProbeAction,
    step: ProbeStep,
    input: ProbeInput,
)
    requires
        action.does(path, step),
    ensures
        step matches ProbeStep::Run(p) ==> (action matches ProbeAction::Run { resolved } && resolved@
            == p),
        step matches ProbeStep::RunOriginal(e) ==> (action matches ProbeAction::RunOriginal { error }
            && error@ == e),
        step matches ProbeStep::Valid(p) ==> (action matches ProbeAction::Valid(v) && v@ == p),
        step matches ProbeStep::Invalid(problem) ==> {
            &&& action matches ProbeAction::Invalid(error)
            &&& problem is NotFound ==> (error matches ChromePathError::NotFound { path: p } && p@
                == path)
            &&& problem is NotExecutable ==> (error matches ChromePathError::NotExecutable {
                path: p,
            } && p@ == path)
            &&& problem matches PathProblem::ValidationFailed(e) ==> (
            error matches ChromePathError::ValidationFailed { path: p, error: cause } && p@ == path
                && cause@ == e)
        },
        input matches ProbeInput::Looked(lookup) ==> {
            &&& input@ matches ProbeEvent::Looked(seen)
            &&& lookup is Missing <==> seen is Missing
            &&& lookup is Unresolved <==> seen is Unresolved
            &&& lookup matches PathLookup::Resolved(p) ==> seen == LookupView::Resolved(p@)
        },
        input matches ProbeInput::Ran { resolved, outcome } ==> {
            &&& input@ matches ProbeEvent::Ran(p, seen)
            &&& p == resolved@
            &&& outcome is Success <==> seen is Success
            &&& outcome is Failure <==> seen is Failure
            &&& outcome matches RunOutcome::NotStarted(e) ==> seen == RunView::NotStarted(e@)
        },
        input matches ProbeInput::RanOriginal { error, success } ==> input@
            == ProbeEvent::RanOriginal(error@, success),
{
}

/// The same of a search, which has come to its own position and tried its own paths.
pub proof fn law_search_actions(
    search: ChromeSearch,
    action: SearchAction,
    step: SearchStep,
    input: SearchInput,
)
    requires
        action.does(step),
    ensures
        search.state().position == search.position,
        search.state().tried.len() == search.tried_paths@.len(),
        forall|i: int|
            0 <= i < search.tried_paths@.len() ==> #[trigger] search.state().tried[i]
                == search.tried_paths@[i]@,
        step matches SearchStep::Validate(p) ==> (action matches SearchAction::Validate(path)
            && path@ == p),
        step matches SearchStep::LookUp(n) ==> (action matches SearchAction::LookUp(name) && name@
            == n),
        step matches SearchStep::Found(p) ==> (action matches SearchAction::Found(path) && path@
            == p),
        step matches SearchStep::NotFound(tried) ==> (action matches SearchAction::NotFound(
            ChromePathError::NoValidInstallation { paths },
        ) && texts(paths@) == tried),
        input matches SearchInput::Begin(provided) ==> {
            &&& input@ matches SearchEvent::Begin(seen)
            &&& provided is None <==> seen is None
            &&& provided matches Some(p) ==> seen == Some(p@)
        },
        input matches SearchInput::Validated(Ok(p)) ==> input@ == SearchEvent::Validated(Some(p@)),
        input matches SearchInput::Validated(Err(_)) ==> input@ == SearchEvent::Validated(None),
        input matches SearchInput::LookedUp(output) ==> {
            &&& input@ matches SearchEvent::LookedUp(seen)
            &&& output is None <==> seen is None
            &&& output matches Some(o) ==> seen == Some(o@)
        },
{
}

/// The places that a search goes to of itself: it looks up four commands and then tries eight
/// paths, in the order of the systems and names that they are for.
pub proof fn law_search_places(k: int)
    ensures
        command_names().len() == 4,
        fallback_paths().len() == 8,
        command_names()[0] == "google-chrome-stable"@,
        command_names()[1] == "chromium"@,
        command_names()[2] == "chromium-browser"@,
        command_names()[3] == "google-chrome"@,
        0 <= k < 4 ==> fallback_paths()[k] == "/usr/bin/"@ + command_names()[if k == 0 {
            0
        } else {
            4 - k
        }],
        fallback_paths()[4] == "/opt/google/chrome/chrome"@,
        fallback_paths()[5] == "/Applications/Google Chrome.app/Contents/MacOS/Google Chrome"@,
        fallback_paths()[6] == "C:\\Program Files\\"@ + "Google\\Chrome\\Application\\chrome.exe"@,
        fallback_paths()[7] == "C:\\Program Files (x86)\\"@
            + "Google\\Chrome\\Application\\chrome.exe"@,
        FIRST_COMMAND == 1,
        FIRST_FALLBACK == FIRST_COMMAND + command_names().len(),
        SEARCH_END == FIRST_FALLBACK + fallback_paths().len(),
{
    reveal_strlit("/usr/bin/");
    reveal_strlit("google-chrome-stable");
    reveal_strlit("chromium");
    reveal_strlit("chromium-browser");
    reveal_strlit("google-chrome");
    reveal_strlit("/usr/bin/google-chrome-stable");
    reveal_strlit("/usr/bin/google-chrome");
    reveal_strlit("/usr/bin/chromium-browser");
    reveal_strlit("/usr/bin/chromium");
    assert("/usr/bin/google-chrome-stable"@ =~= "/usr/bin/"@ + "google-chrome-stable"@);
    assert("/usr/bin/google-chrome"@ =~= "/usr/bin/"@ + "google-chrome"@);
    assert("/usr/bin/chromium-browser"@ =~= "/usr/bin/"@ + "chromium-browser"@);
    assert("/usr/bin/chromium"@ =~= "/usr/bin/"@ + "chromium"@);
    reveal_strlit("C:\\Program Files\\");
    reveal_strlit("C:\\Program Files (x86)\\");
    reveal_strlit("Google\\Chrome\\Application\\chrome.exe");
    reveal_strlit("C:\\Program Files\\Google\\Chrome\\Application\\chrome.exe");
    reveal_strlit("C:\\Program Files (x86)\\Google\\Chrome\\Application\\chrome.exe");
    assert("C:\\Program Files\\Google\\Chrome\\Application\\chrome.exe"@
        =~= "C:\\Program Files\\"@ + "Google\\Chrome\\Application\\chrome.exe"@);
    assert("C:\\Program Files (x86)\\Google\\Chrome\\Application\\chrome.exe"@
        =~= "C:\\Program Files (x86)\\"@ + "Google\\Chrome\\Application\\chrome.exe"@);
}

} // verus!
