//! The generation of documents: attempts, waits between them, and the limit on their size.

use vstd::prelude::*;

use crate::browser::pool::BrowserPool;
#[allow(unused_imports)]
use crate::browser::pool::PoolState;
use crate::error::{size_exceeded_message, PdfError, BYTES_PER_MB};
#[allow(unused_imports)]
use crate::error::size_exceeded_text;
use crate::text::decimal;
#[allow(unused_imports)]
use crate::text::{decimal_text, text_opt};
#[allow(unused_imports)]
use vstd::arithmetic::power2::pow2;

verus! {

/// How often the generation of a document is tried.
pub const MAX_GENERATE_ATTEMPTS: usize = 3;

/// How long one attempt may take.
pub const PDF_TIMEOUT_SECS: u64 = 30;

/// How long to wait between two maintenance runs.
pub const MAINTENANCE_INTERVAL_SECS: u64 = 15;

/// How long a shutdown waits for the maintenance task to end.
pub const MAINTENANCE_END_SECS: u64 = 5;

/// How long a shutdown leaves the browsers to clean up after themselves.
pub const CLEANUP_SECS: u64 = 3;

/// The service: its browsers, the limit on the size of a document, none where it is zero, and
/// whether it still holds its maintenance task.
#[derive(Debug)]
pub struct PdfService {
    pub pool: BrowserPool,
    pub max_pdf_size_bytes: usize,
    pub maintenance: bool,
}

/// A service as a value.
#[verifier::ext_equal]
pub struct ServiceState {
    pub pool: PoolState,
    pub max_pdf_size_bytes: usize,
    pub maintenance: bool,
}

/// How the wait for the maintenance task ended.
#[derive(Clone, Copy, Debug, PartialEq, Eq, Structural)]
pub enum MaintenanceEnd {
    Completed,
    Panicked,
    TimedOut,
}

/// What happened last in a shutdown.
#[derive(Clone, Copy, Debug, PartialEq, Eq, Structural)]
pub enum ShutdownInput {
    Begin,
    StopSignalled,
    MaintenanceEnded(MaintenanceEnd),
    CleanedUp,
}

/// What to do next in a shutdown.
#[derive(Clone, Copy, Debug, PartialEq, Eq, Structural)]
pub enum ShutdownAction {
    /// Tell the maintenance task to stop.
    SignalStop,
    /// Wait for the maintenance task, but no longer than this.
    AwaitMaintenance { secs: u64 },
    /// So many browsers were let go: leave them this long to clean up.
    AwaitCleanup { count: usize, secs: u64 },
    Done,
}

/// Where the content of a document comes from.
#[derive(Clone, Copy, Debug, PartialEq, Eq, Structural)]
pub enum Source {
    Url,
    Html,
}

/// A generation: the attempt that it has come to, counted from zero, and the last error.
#[derive(Debug)]
pub struct Generation {
    pub attempt: usize,
    pub last_error: Option<String>,
}

/// What happened last in a generation.
#[derive(Debug)]
pub enum GenerateInput {
    Begin,
    Waited,
    NoInstance(PdfError),
    Rendered(Vec<u8>),
    RenderFailed(PdfError),
    TimedOut,
}

/// What to do next in a generation.
#[derive(Debug)]
pub enum GenerateAction {
    /// Have a browser and render with it.
    Attempt,
    Wait { millis: u64 },
    Done(Vec<u8>),
    Failed(String),
}

/// The next action, and whether the browser that was used is to be marked unhealthy.
#[derive(Debug)]
pub struct GenerateStep {
    pub action: GenerateAction,
    pub mark_unhealthy: bool,
}

/// An action as a value.
#[verifier::ext_equal]
pub enum ActionView {
    Attempt,
    Wait(nat),
    Done(Seq<u8>),
    Failed(Seq<char>),
}

/// A generation as a value.
#[verifier::ext_equal]
pub struct GenerationView {
    pub attempt: int,
    pub last_error: Option<Seq<char>>,
}

/// A step as a value: the generation that is left, the action, and whether the browser is lost.
#[verifier::ext_equal]
pub struct StepView {
    pub generation: GenerationView,
    pub action: ActionView,
    pub mark_unhealthy: bool,
}

impl View for Generation {
    type V = GenerationView;

    open spec fn view(&self) -> GenerationView {
        GenerationView { attempt: self.attempt as int, last_error: text_opt(self.last_error) }
    }
}

impl View for GenerateAction {
    type V = ActionView;

    open spec fn view(&self) -> ActionView {
        match *self {
            GenerateAction::Attempt => ActionView::Attempt,
            GenerateAction::Wait { millis } => ActionView::Wait(millis as nat),
            GenerateAction::Done(data) => ActionView::Done(data@),
            GenerateAction::Failed(message) => ActionView::Failed(message@),
        }
    }
}

// ---------------------------------------------------------------------------
// Model
// ---------------------------------------------------------------------------

/// A document of `size` bytes is above the limit.
pub open spec fn above_limit(limit: usize, size: nat) -> bool {
    limit > 0 && size > limit
}

/// What a timeout is reported as.
pub open spec fn timeout_text(source: Source) -> Seq<char> {
    match source {
        Source::Url => "PDF generation timed out"@,
        Source::Html => "HTML PDF generation timed out"@,
    }
}

/// What a generation reports after its last attempt.
pub open spec fn failure_text(source: Source, last_error: Seq<char>) -> Seq<char> {
    (match source {
        Source::Url => "PDF generation failed after "@,
        Source::Html => "HTML PDF generation failed after "@,
    }) + decimal_text(MAX_GENERATE_ATTEMPTS as nat) + " attempts. Last error: "@ + last_error
}

impl GenerationView {
    /// The wait before an attempt doubles with each.
    pub open spec fn backoff_millis(attempt: int) -> nat {
        100 * pow2(attempt as nat)
    }

    /// After an attempt that failed with this error: wait for the next, or report the failure.
    pub open spec fn retry(self, source: Source, error: Seq<char>, mark_unhealthy: bool) -> StepView {
        if self.attempt + 1 < MAX_GENERATE_ATTEMPTS {
            StepView {
                generation: GenerationView { attempt: self.attempt + 1, last_error: Some(error) },
                action: ActionView::Wait(Self::backoff_millis(self.attempt + 1)),
                mark_unhealthy,
            }
        } else {
            StepView {
                generation: GenerationView { attempt: self.attempt, last_error: Some(error) },
                action: ActionView::Failed(failure_text(source, error)),
                mark_unhealthy,
            }
        }
    }

    /// The generation, its next action and what becomes of the browser.
    pub open spec fn step(self, source: Source, limit: usize, input: GenerateInput) -> StepView {
        match input {
            GenerateInput::Begin => StepView {
                generation: GenerationView { attempt: 0, last_error: None },
                action: ActionView::Attempt,
                mark_unhealthy: false,
            },
            GenerateInput::Waited => StepView {
                generation: self,
                action: ActionView::Attempt,
                mark_unhealthy: false,
            },
            GenerateInput::NoInstance(e) => self.retry(source, e.message_text(), false),
            GenerateInput::Rendered(data) => StepView {
                generation: self,
                action: if above_limit(limit, data@.len()) {
                    ActionView::Failed(
                        size_exceeded_text(data@.len(), (limit / BYTES_PER_MB) as nat),
                    )
                } else {
                    ActionView::Done(data@)
                },
                mark_unhealthy: false,
            },
            GenerateInput::RenderFailed(e) => self.retry(
                source,
                e.message_text(),
                e is BrowserConnectionLost || e is PageCreationFailed,
            ),
            GenerateInput::TimedOut => self.retry(source, timeout_text(source), true),
        }
    }
}

impl ServiceState {
    /// All browsers are let go.
    pub open spec fn let_go(self) -> (ServiceState, ShutdownAction) {
        (
            ServiceState { pool: self.pool.cleared(), ..self },
            ShutdownAction::AwaitCleanup {
                count: self.pool.instances.len() as usize,
                secs: CLEANUP_SECS,
            },
        )
    }

    /// The service and the next action of a shutdown.
    pub open spec fn shutdown_step(self, input: ShutdownInput) -> (ServiceState, ShutdownAction) {
        match input {
            ShutdownInput::Begin => (self, ShutdownAction::SignalStop),
            ShutdownInput::StopSignalled => if self.maintenance {
                (
                    ServiceState { maintenance: false, ..self },
                    ShutdownAction::AwaitMaintenance { secs: MAINTENANCE_END_SECS },
                )
            } else {
                self.let_go()
            },
            ShutdownInput::MaintenanceEnded(_) => self.let_go(),
            ShutdownInput::CleanedUp => (self, ShutdownAction::Done),
        }
    }

    /// The service after a whole shutdown in which the wait for the maintenance task, where there
    /// is one to wait for, ends in this way.
    pub open spec fn shut_down(self, end: MaintenanceEnd) -> ServiceState {
        let begun = self.shutdown_step(ShutdownInput::Begin).0;
        let (told, action) = begun.shutdown_step(ShutdownInput::StopSignalled);
        let emptied = if action is AwaitMaintenance {
            told.shutdown_step(ShutdownInput::MaintenanceEnded(end)).0
        } else {
            told
        };
        emptied.shutdown_step(ShutdownInput::CleanedUp).0
    }
}

// ---------------------------------------------------------------------------
// Operations
// ---------------------------------------------------------------------------

impl Generation {
    pub fn new() -> (r: Self)
        ensures
            r@ == (GenerationView { attempt: 0, last_error: None }),
    {
        Generation { attempt: 0, last_error: None }
    }

    fn retry(&mut self, source: Source, error: String, mark_unhealthy: bool) -> (r: GenerateStep)
        requires
            old(self).attempt < MAX_GENERATE_ATTEMPTS,
        ensures
            (StepView {
                generation: final(self)@,
                action: r.action@,
                mark_unhealthy: r.mark_unhealthy,
            }) == old(self)@.retry(source, error@, mark_unhealthy),
    {
        self.last_error = Some(error.clone());
        if self.attempt + 1 < MAX_GENERATE_ATTEMPTS {
            self.attempt = self.attempt + 1;
            let millis: u64 = if self.attempt == 1 {
                200
            } else {
                400
            };
            proof {
                vstd::arithmetic::power2::lemma2_to64();
            }
            return GenerateStep { action: GenerateAction::Wait { millis }, mark_unhealthy };
        }
        let mut message = match source {
            Source::Url => "PDF generation failed after ".to_owned(),
            Source::Html => "HTML PDF generation failed after ".to_owned(),
        };
        message.append(decimal(MAX_GENERATE_ATTEMPTS as u128).as_str());
        message.append(" attempts. Last error: ");
        message.append(error.as_str());
        GenerateStep { action: GenerateAction::Failed(message), mark_unhealthy }
    }
}

impl PdfService {
    pub open spec fn state(self) -> ServiceState {
        ServiceState {
            pool: self.pool.state(),
            max_pdf_size_bytes: self.max_pdf_size_bytes,
            maintenance: self.maintenance,
        }
    }

    /// The service of a pool, with a limit in megabytes on the size of a document. A maintenance
    /// task is started for it.
    pub fn new(pool: BrowserPool, max_pdf_size_mb: usize) -> (r: Self)
        requires
            max_pdf_size_mb * BYTES_PER_MB <= usize::MAX,
        ensures
            r.pool == pool,
            r.max_pdf_size_bytes == max_pdf_size_mb * BYTES_PER_MB,
            r.max_pdf_size_bytes == 1024 * (1024 * max_pdf_size_mb),
            r.maintenance,
    {
        PdfService {
            pool,
            max_pdf_size_bytes: max_pdf_size_mb * BYTES_PER_MB,
            maintenance: true,
        }
    }

    fn let_go(&mut self) -> (r: ShutdownAction)
        ensures
            (final(self).state(), r) == old(self).state().let_go(),
            final(self).pool.chrome_path == old(self).pool.chrome_path,
    {
        let count: usize = self.pool.clear();
        ShutdownAction::AwaitCleanup { count, secs: CLEANUP_SECS }
    }

    /// One step of a shutdown: the maintenance task is told to stop and waited for, however it
    /// ends; then all browsers are let go.
    pub fn shutdown(&mut self, input: ShutdownInput) -> (r: ShutdownAction)
        ensures
            (final(self).state(), r) == old(self).state().shutdown_step(input),
            final(self).pool.chrome_path == old(self).pool.chrome_path,
    {
        match input {
            ShutdownInput::Begin => ShutdownAction::SignalStop,
            ShutdownInput::StopSignalled => {
                if self.maintenance {
                    self.maintenance = false;
                    return ShutdownAction::AwaitMaintenance { secs: MAINTENANCE_END_SECS };
                }
                self.let_go()
            },
            ShutdownInput::MaintenanceEnded(_) => self.let_go(),
            ShutdownInput::CleanedUp => ShutdownAction::Done,
        }
    }

    fn advance(&self, source: Source, generation: &mut Generation, input: GenerateInput) -> (r:
        GenerateStep)
        requires
            input is Begin || old(generation).attempt < MAX_GENERATE_ATTEMPTS,
        ensures
            (StepView {
                generation: final(generation)@,
                action: r.action@,
                mark_unhealthy: r.mark_unhealthy,
            }) == old(generation)@.step(source, self.max_pdf_size_bytes, input),
    {
        match input {
            GenerateInput::Begin => {
                generation.attempt = 0;
                generation.last_error = None;
                GenerateStep { action: GenerateAction::Attempt, mark_unhealthy: false }
            },
            GenerateInput::Waited => {
                GenerateStep { action: GenerateAction::Attempt, mark_unhealthy: false }
            },
            GenerateInput::NoInstance(e) => generation.retry(source, e.message(), false),
            GenerateInput::Rendered(data) => {
                let size: usize = data.len();
                if self.max_pdf_size_bytes > 0 && size > self.max_pdf_size_bytes {
                    let limit_mb: usize = self.max_pdf_size_bytes / BYTES_PER_MB;
                    let message = size_exceeded_message(size, limit_mb);
                    return GenerateStep {
                        action: GenerateAction::Failed(message),
                        mark_unhealthy: false,
                    };
                }
                GenerateStep { action: GenerateAction::Done(data), mark_unhealthy: false }
            },
            GenerateInput::RenderFailed(e) => {
                let lost = match e {
                    PdfError::BrowserConnectionLost => true,
                    PdfError::PageCreationFailed(_) => true,
                    _ => false,
                };
                generation.retry(source, e.message(), lost)
            },
            GenerateInput::TimedOut => {
                let message = match source {
                    Source::Url => "PDF generation timed out".to_owned(),
                    Source::Html => "HTML PDF generation timed out".to_owned(),
                };
                generation.retry(source, message, true)
            },
        }
    }

    /// One step in the generation of a document from a web page.
    pub fn generate_pdf(&self, generation: &mut Generation, input: GenerateInput) -> (r:
        GenerateStep)
        requires
            input is Begin || old(generation).attempt < MAX_GENERATE_ATTEMPTS,
        ensures
            (StepView {
                generation: final(generation)@,
                action: r.action@,
                mark_unhealthy: r.mark_unhealthy,
            }) == old(generation)@.step(Source::Url, self.max_pdf_size_bytes, input),
    {
        self.advance(Source::Url, generation, input)
    }

    /// One step in the generation of a document from raw HTML.
    pub fn generate_pdf_from_html(&self, generation: &mut Generation, input: GenerateInput) -> (r:
        GenerateStep)
        requires
            input is Begin || old(generation).attempt < MAX_GENERATE_ATTEMPTS,
        ensures
            (StepView {
                generation: final(generation)@,
                action: r.action@,
                mark_unhealthy: r.mark_unhealthy,
            }) == old(generation)@.step(Source::Html, self.max_pdf_size_bytes, input),
    {
        self.advance(Source::Html, generation, input)
    }
}

// ---------------------------------------------------------------------------
// Rendering
// ---------------------------------------------------------------------------

/// The stages of one attempt in the browser.
#[derive(Clone, Copy, Debug, PartialEq, Eq, Structural)]
pub enum RenderStage {
    OpenPage,
    WaitForNavigation,
    SetContent,
    AwaitFonts,
    AwaitImages,
    Settle { millis: u64 },
    Print,
}

/// What follows on a stage.
#[derive(Debug)]
pub enum RenderAction {
    Go(RenderStage),
    Finished,
    Failed(PdfError),
}

/// The stage after one that succeeded, none after the last.
pub open spec fn next_stage(source: Source, stage: RenderStage) -> Option<RenderStage> {
    match stage {
        RenderStage::OpenPage => Some(
            match source {
                Source::Url => RenderStage::WaitForNavigation,
                Source::Html => RenderStage::SetContent,
            },
        ),
        RenderStage::WaitForNavigation => Some(RenderStage::Settle { millis: 500 }),
        RenderStage::SetContent => Some(RenderStage::AwaitFonts),
        RenderStage::AwaitFonts => Some(RenderStage::AwaitImages),
        RenderStage::AwaitImages => Some(RenderStage::Settle { millis: 100 }),
        RenderStage::Settle { .. } => Some(RenderStage::Print),
        RenderStage::Print => None,
    }
}

/// The error that the failure of a stage is reported as; the failure of a stage that has none
/// does no harm.
pub open spec fn stage_failure(stage: RenderStage, error: Seq<char>) -> Option<(bool, Seq<char>)> {
    match stage {
        RenderStage::OpenPage => Some((true, error)),
        RenderStage::WaitForNavigation => Some((false, "Navigation failed: "@ + error)),
        RenderStage::SetContent => Some((false, "Failed to set HTML content: "@ + error)),
        RenderStage::Print => Some((false, error)),
        _ => None,
    }
}

/// One step of an attempt in the browser: opens a page, has it load or sets its content, waits for
/// what is still loading, and prints. Fonts and images that fail to load are done without.
pub fn render_step(source: Source, stage: RenderStage, outcome: Result<(), String>) -> (r:
    RenderAction)
    ensures
        match outcome {
            Err(e) if stage_failure(stage, e@) is Some => {
                let (page_failed, message) = stage_failure(stage, e@)->0;
                &&& r matches RenderAction::Failed(error)
                &&& if page_failed {
                    error matches PdfError::PageCreationFailed(m) && m@ == message
                } else {
                    error matches PdfError::GenerationFailed(m) && m@ == message
                }
            },
            _ => match next_stage(source, stage) {
                Some(next) => r == RenderAction::Go(next),
                None => r == RenderAction::Finished,
            },
        },
        r is Failed <==> outcome is Err && (stage is OpenPage || stage is WaitForNavigation
            || stage is SetContent || stage is Print),
        r is Finished <==> outcome is Ok && stage is Print,
{
    if let Err(e) = outcome {
        match stage {
            RenderStage::OpenPage => {
                return RenderAction::Failed(PdfError::PageCreationFailed(e));
            },
            RenderStage::WaitForNavigation => {
                let mut message = "Navigation failed: ".to_owned();
                message.append(e.as_str());
                return RenderAction::Failed(PdfError::GenerationFailed(message));
            },
            RenderStage::SetContent => {
                let mut message = "Failed to set HTML content: ".to_owned();
                message.append(e.as_str());
                return RenderAction::Failed(PdfError::GenerationFailed(message));
            },
            RenderStage::Print => {
                return RenderAction::Failed(PdfError::GenerationFailed(e));
            },
            _ => {},
        }
    }
    match stage {
        RenderStage::OpenPage => match source {
            Source::Url => RenderAction::Go(RenderStage::WaitForNavigation),
            Source::Html => RenderAction::Go(RenderStage::SetContent),
        },
        RenderStage::WaitForNavigation => RenderAction::Go(RenderStage::Settle { millis: 500 }),
        RenderStage::SetContent => RenderAction::Go(RenderStage::AwaitFonts),
        RenderStage::AwaitFonts => RenderAction::Go(RenderStage::AwaitImages),
        RenderStage::AwaitImages => RenderAction::Go(RenderStage::Settle { millis: 100 }),
        RenderStage::Settle { .. } => RenderAction::Go(RenderStage::Print),
        RenderStage::Print => RenderAction::Finished,
    }
}

// ---------------------------------------------------------------------------
// Laws
// ---------------------------------------------------------------------------

/// A document is handed out exactly as it was rendered, and only if it is within the limit, which
/// a limit of zero puts on none.
pub proof fn law_size_limit(g: GenerationView, source: Source, limit: usize, input: GenerateInput)
    ensures
        match g.step(source, limit, input).action {
            ActionView::Done(data) => {
                &&& input matches GenerateInput::Rendered(rendered)
                &&& rendered@ == data
                &&& limit == 0 || data.len() <= limit
            },
            _ => input matches GenerateInput::Rendered(rendered) ==> limit > 0 && rendered@.len()
                > limit,
        },
{
}

/// An attempt that fails is followed by another, after a wait of two or four tenths of a second,
/// until the third; then its error is the one that is reported. So a generation makes at most
/// three attempts.
pub proof fn law_attempts(g: GenerationView, source: Source, limit: usize, input: GenerateInput)
    requires
        0 <= g.attempt < MAX_GENERATE_ATTEMPTS,
        input is NoInstance || input is RenderFailed || input is TimedOut,
    ensures
        ({
            let s = g.step(source, limit, input);
            &&& s.generation.last_error matches Some(error)
            &&& g.attempt == 0 ==> s.action == ActionView::Wait(200) && s.generation.attempt == 1
            &&& g.attempt == 1 ==> s.action == ActionView::Wait(400) && s.generation.attempt == 2
            &&& g.attempt == 2 ==> s.action == ActionView::Failed(failure_text(source, error))
            &&& input is TimedOut ==> s.mark_unhealthy
            &&& input is NoInstance ==> !s.mark_unhealthy
        }),
{
    vstd::arithmetic::power2::lemma2_to64();
}

/// The input tells how an attempt ended.
pub open spec fn ends_attempt(input: GenerateInput) -> bool {
    !(input is Begin) && !(input is Waited)
}

/// The error of an attempt that failed.
pub open spec fn attempt_error(source: Source, input: GenerateInput) -> Seq<char> {
    match input {
        GenerateInput::NoInstance(e) => e.message_text(),
        GenerateInput::RenderFailed(e) => e.message_text(),
        _ => timeout_text(source),
    }
}

/// What becomes of a document that was rendered.
pub open spec fn verdict(limit: usize, input: GenerateInput) -> ActionView {
    let data = input->Rendered_0@;
    if above_limit(limit, data.len()) {
        ActionView::Failed(size_exceeded_text(data.len(), (limit / BYTES_PER_MB) as nat))
    } else {
        ActionView::Done(data)
    }
}

impl GenerationView {
    /// The action that a generation ends with whose attempts end like this, one after the other;
    /// none where it asks for another attempt still.
    pub open spec fn run(self, source: Source, limit: usize, ends: Seq<GenerateInput>) -> Option<
        ActionView,
    >
        decreases ends.len(),
    {
        if ends.len() == 0 {
            None
        } else {
            let s = self.step(source, limit, ends[0]);
            match s.action {
                ActionView::Wait(_) => s.generation.step(
                    source,
                    limit,
                    GenerateInput::Waited,
                ).generation.run(source, limit, ends.skip(1)),
                action => Some(action),
            }
        }
    }
}

/// A whole generation ends with its third attempt at the latest: the first document that is
/// rendered decides, and where there is none the third error is reported.
pub proof fn law_generation_run(
    g: GenerationView,
    source: Source,
    limit: usize,
    ends: Seq<GenerateInput>,
)
    requires
        ends.len() == MAX_GENERATE_ATTEMPTS,
        forall|i: int| 0 <= i < ends.len() ==> ends_attempt(#[trigger] ends[i]),
    ensures
        ({
            let begun = g.step(source, limit, GenerateInput::Begin);
            &&& begun.action == ActionView::Attempt
            &&& begun.generation.run(source, limit, ends) == Some(
                if ends[0] is Rendered {
                    verdict(limit, ends[0])
                } else if ends[1] is Rendered {
                    verdict(limit, ends[1])
                } else if ends[2] is Rendered {
                    verdict(limit, ends[2])
                } else {
                    ActionView::Failed(failure_text(source, attempt_error(source, ends[2])))
                },
            )
        }),
{
    reveal_with_fuel(GenerationView::run, 3);
    let (second, third) = (ends.skip(1), ends.skip(1).skip(1));
    assert(second[0] == ends[1] && third[0] == ends[2]);
    assert(ends_attempt(ends[0]) && ends_attempt(ends[1]) && ends_attempt(ends[2]));
}

/// A shutdown tells the maintenance task to stop, and waits for it no longer than its limit. It
/// ends, however that wait ended, with a pool that holds no browser and without the task, and
/// changes nothing else.
pub proof fn law_shutdown(s: ServiceState, end: MaintenanceEnd)
    ensures
        s.shutdown_step(ShutdownInput::Begin).1 == ShutdownAction::SignalStop,
        ({
            let (told, action) = s.shutdown_step(ShutdownInput::Begin).0.shutdown_step(
                ShutdownInput::StopSignalled,
            );
            let emptied = if s.maintenance {
                told.shutdown_step(ShutdownInput::MaintenanceEnded(end))
            } else {
                (told, action)
            };
            let (after, last) = emptied.0.shutdown_step(ShutdownInput::CleanedUp);
            &&& s.maintenance ==> action == ShutdownAction::AwaitMaintenance {
                secs: MAINTENANCE_END_SECS,
            }
            &&& emptied.1 == ShutdownAction::AwaitCleanup {
                count: s.pool.instances.len() as usize,
                secs: CLEANUP_SECS,
            }
            &&& last == ShutdownAction::Done
            &&& after == s.shut_down(end)
        }),
        s.shut_down(end) == (ServiceState { pool: s.pool.cleared(), maintenance: false, ..s }),
        s.shut_down(end).pool.instances.len() == 0,
{
}

/// A second shutdown finds no browser and no maintenance task, and leaves the service as it is.
pub proof fn law_shutdown_twice(s: ServiceState, end: MaintenanceEnd, again: MaintenanceEnd)
    ensures
        ({
            let down = s.shut_down(end);
            &&& down.shut_down(again) == down
            &&& down.shutdown_step(ShutdownInput::StopSignalled) == (
                down,
                ShutdownAction::AwaitCleanup { count: 0, secs: CLEANUP_SECS },
            )
        }),
{
    let down = s.shut_down(end);
    assert(down.pool.cleared() =~= down.pool);
}

/// The failure of a stage that a document cannot do without ends the attempt, whatever the error
/// says: a page that does not open is the browser's fault, and is reported as it is; one that does
/// not load, is not filled or is not printed is not, and the report ends with the error in full.
/// Fonts, images and the time to settle can be done without.
pub proof fn law_render_failures(stage: RenderStage, error: Seq<char>)
    ensures
        stage_failure(stage, error) is Some <==> stage is OpenPage || stage is WaitForNavigation
            || stage is SetContent || stage is Print,
        stage_failure(stage, error) matches Some((page_failed, message)) ==> {
            &&& page_failed <==> stage is OpenPage
            &&& stage is OpenPage || stage is Print ==> message == error
            &&& stage is WaitForNavigation ==> message == "Navigation failed: "@ + error
            &&& stage is SetContent ==> message == "Failed to set HTML content: "@ + error
        },
{
}

/// The way of an attempt that nothing goes wrong in. A web page is opened, loads, settles for half
/// a second and is printed. Raw HTML goes into a page that is opened, has its fonts and its images
/// awaited, settles for a tenth of a second and is printed. The source makes no other difference.
pub proof fn law_render_way(stage: RenderStage, millis: u64)
    ensures
        next_stage(Source::Url, RenderStage::OpenPage) == Some(RenderStage::WaitForNavigation),
        next_stage(Source::Html, RenderStage::OpenPage) == Some(RenderStage::SetContent),
        !(stage is OpenPage) ==> next_stage(Source::Url, stage) == next_stage(Source::Html, stage),
        next_stage(Source::Url, RenderStage::WaitForNavigation) == Some(
            RenderStage::Settle { millis: 500 },
        ),
        next_stage(Source::Html, RenderStage::SetContent) == Some(RenderStage::AwaitFonts),
        next_stage(Source::Html, RenderStage::AwaitFonts) == Some(RenderStage::AwaitImages),
        next_stage(Source::Html, RenderStage::AwaitImages) == Some(
            RenderStage::Settle { millis: 100 },
        ),
        next_stage(Source::Url, RenderStage::Settle { millis }) == Some(RenderStage::Print),
        next_stage(Source::Url, stage) is None <==> stage is Print,
{
}

/// What an attempt that failed leaves behind: its error, in the words of the error itself or of the
/// timeout, and a browser that is given up exactly where the time ran out, the connection was lost
/// or no page could be opened. The generation goes on to the next of its three attempts after two,
/// then after four tenths of a second, and reports the last error with the third.
pub proof fn law_failed_attempt(
    g: GenerationView,
    source: Source,
    limit: usize,
    input: GenerateInput,
)
    requires
        0 <= g.attempt < 3,
        input is NoInstance || input is RenderFailed || input is TimedOut,
    ensures
        ({
            let s = g.step(source, limit, input);
            let error = match input {
                GenerateInput::NoInstance(e) => e.message_text(),
                GenerateInput::RenderFailed(e) => e.message_text(),
                _ => if source == Source::Url {
                    "PDF generation timed out"@
                } else {
                    "HTML PDF generation timed out"@
                },
            };
            let report = if source == Source::Url {
                "PDF generation failed after 3 attempts. Last error: "@ + error
            } else {
                "HTML PDF generation failed after 3 attempts. Last error: "@ + error
            };
            &&& s.generation.last_error == Some(error)
            &&& s.mark_unhealthy <==> {
                ||| input is TimedOut
                ||| input matches GenerateInput::RenderFailed(e) && (e is BrowserConnectionLost
                    || e is PageCreationFailed)
            }
            &&& g.attempt == 0 ==> s.action == ActionView::Wait(200) && s.generation.attempt == 1
            &&& g.attempt == 1 ==> s.action == ActionView::Wait(400) && s.generation.attempt == 2
            &&& g.attempt == 2 ==> s.action == ActionView::Failed(report) && s.generation.attempt
                == 2
        }),
{
    vstd::arithmetic::power2::lemma2_to64();
    reveal_strlit("PDF generation failed after 3 attempts. Last error: ");
    reveal_strlit("HTML PDF generation failed after 3 attempts. Last error: ");
    reveal_strlit("PDF generation failed after ");
    reveal_strlit("HTML PDF generation failed after ");
    reveal_strlit(" attempts. Last error: ");
    assert(decimal_text(3) =~= seq!['3']);
    assert("PDF generation failed after 3 attempts. Last error: "@
        =~= "PDF generation failed after "@ + decimal_text(3) + " attempts. Last error: "@);
    assert("HTML PDF generation failed after 3 attempts. Last error: "@
        =~= "HTML PDF generation failed after "@ + decimal_text(3) + " attempts. Last error: "@);
}

/// What the other inputs do: a generation begins its first attempt without an error, goes on after
/// a wait as it was, and keeps its browser when a document comes. A document above the limit is
/// refused with its size and the limit in megabytes of 1048576 bytes, and not tried again.
pub proof fn law_other_inputs(
    g: GenerationView,
    source: Source,
    limit: usize,
    input: GenerateInput,
)
    ensures
        ({
            let s = g.step(source, limit, input);
            &&& input is Begin ==> s.generation.attempt == 0 && s.generation.last_error is None
                && s.action == ActionView::Attempt && !s.mark_unhealthy
            &&& input is Waited ==> s.generation == g && s.action == ActionView::Attempt
                && !s.mark_unhealthy
            &&& input matches GenerateInput::Rendered(data) ==> {
                &&& s.generation == g && !s.mark_unhealthy
                &&& limit == 0 || data@.len() <= limit ==> s.action == ActionView::Done(data@)
                &&& 0 < limit < data@.len() ==> s.action == ActionView::Failed(
                    size_exceeded_text(data@.len(), limit as nat / 1_048_576),
                )
            }
        }),
{
}

/// A generation and an action seen from outside: the attempt and the last error of the one, the
/// very wait, document or message of the other.
pub proof fn law_generation_views(g: Generation, action: GenerateAction)
    ensures
        g@.attempt == g.attempt,
        g.last_error is None <==> g@.last_error is None,
        g.last_error matches Some(e) ==> g@.last_error == Some(e@),
        action is Attempt <==> action@ == ActionView::Attempt,
        action matches GenerateAction::Wait { millis } ==> action@ == ActionView::Wait(
            millis as nat,
        ),
        action matches GenerateAction::Done(data) ==> action@ == ActionView::Done(data@),
        action matches GenerateAction::Failed(message) ==> action@ == ActionView::Failed(message@),
{
}

/// A service seen from outside: its pool, limit and task.
pub proof fn law_service_state(service: PdfService)
    ensures
        service.state().pool == service.pool.state(),
        service.state().max_pdf_size_bytes == service.max_pdf_size_bytes,
        service.state().maintenance == service.maintenance,
{
}

/// The steps of a shutdown: nothing happens before the task was told to stop; a task that is still
/// there is let go and awaited for five seconds, while the browsers stay; however that ends, and at
/// once where there is no task, all browsers go and have three seconds to clean up; then it is
/// done.
pub proof fn law_shutdown_steps(s: ServiceState, end: MaintenanceEnd)
    requires
        s.pool.instances.len() <= usize::MAX,
    ensures
        s.shutdown_step(ShutdownInput::Begin) == (s, ShutdownAction::SignalStop),
        s.shutdown_step(ShutdownInput::CleanedUp) == (s, ShutdownAction::Done),
        ({
            let (t, action) = s.shutdown_step(ShutdownInput::StopSignalled);
            &&& t.max_pdf_size_bytes == s.max_pdf_size_bytes && !t.maintenance
            &&& s.maintenance ==> t.pool == s.pool && action == (
            ShutdownAction::AwaitMaintenance { secs: 5 })
            &&& !s.maintenance ==> (t, action) == s.shutdown_step(
                ShutdownInput::MaintenanceEnded(end),
            )
        }),
        ({
            let (t, action) = s.shutdown_step(ShutdownInput::MaintenanceEnded(end));
            &&& t.pool.instances.len() == 0
            &&& t.pool.max_instances == s.pool.max_instances && t.pool.min_instances
                == s.pool.min_instances && t.pool.breaker == s.pool.breaker
            &&& t.max_pdf_size_bytes == s.max_pdf_size_bytes && t.maintenance == s.maintenance
            &&& action matches ShutdownAction::AwaitCleanup { count, secs }
            &&& count == s.pool.instances.len() && secs == 3
        }),
{
}

/// An attempt is within its time for half a minute, and maintenance is due four times a minute.
pub proof fn law_service_times(secs: u64)
    ensures
        secs <= PDF_TIMEOUT_SECS <==> secs <= 30,
        secs < MAINTENANCE_INTERVAL_SECS <==> secs < 15,
{
}

} // verus!
