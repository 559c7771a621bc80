//! Processing files: what to do with one file's text, and the run over all files as a
//! state machine whose reads and writes the caller performs.
use vstd::prelude::*;

use crate::comments::{
    promote_leading_item_comments, restore_promoted_comment_style, spec_promote, spec_restore,
};
use crate::config::{MoveSelection, NormalizeConfig};
use crate::model::ItemSegment;
use crate::normalizer::{segments_of_text, spec_preamble, Normalizer};
use crate::ordering::spec_reorder_items;
use crate::render::{render_segments, spec_render};
use crate::spacing::{
    differs_only_by_whitespace, normalize_function_spacing, spec_crate_attribute_layout,
    spec_differs_only_by_whitespace, spec_function_spacing,
};
use crate::syntax::{opt_str_view, preamble_printable, syn_file_error};
use crate::text::{chars_of, push_all, spec_lines, string_of};
use vstd::string::StringExecFns;

verus! {

/// Counts of a run.
pub struct ProcessSummary {
    /// Files looked at.
    pub scanned: usize,
    /// Files that were (or, in check mode, would be) rewritten.
    pub changed: usize,
    /// The rewritten files, in the order they were processed.
    pub changed_files: Vec<String>,
}

impl View for ProcessSummary {
    type V = (nat, nat, Seq<Seq<char>>);

    open spec fn view(&self) -> (nat, nat, Seq<Seq<char>>) {
        (self.scanned as nat, self.changed as nat, self.changed_files.deep_view())
    }
}

impl Default for ProcessSummary {
    fn default() -> (r: Self)
        ensures
            r@ == (0nat, 0nat, Seq::<Seq<char>>::empty()),
    {
        let r = ProcessSummary { scanned: 0, changed: 0, changed_files: Vec::new() };
        assert(r.changed_files.deep_view() =~= Seq::<Seq<char>>::empty());
        r
    }
}

/// Normalizes files: in check mode it only reports which files would change.
pub struct Processor {
    check: bool,
    move_selection: MoveSelection,
    config: NormalizeConfig,
}

/// What becomes of one file's text.
pub open spec fn spec_decide(original: Seq<char>, rendered: Seq<char>) -> Option<Seq<char>> {
    if original == rendered || spec_differs_only_by_whitespace(original, rendered) {
        None
    } else {
        Some(rendered)
    }
}

/// `out` is the rendering of the file parsed from `text`: its segments reordered, written
/// after its printed crate attributes.
pub open spec fn renders_to(
    text: Seq<char>,
    config: NormalizeConfig,
    selection: MoveSelection,
    relative_path: Option<Seq<char>>,
    out: Seq<char>,
) -> bool {
    exists|segs: Seq<ItemSegment>|
        #![trigger segments_of_text(segs, text)]
        segments_of_text(segs, text) && out == spec_render(
            match spec_preamble(text) {
                Some(p) => Some(spec_crate_attribute_layout(p)),
                None => None,
            },
            spec_reorder_items(segs, config, selection),
            config,
            relative_path,
        )
}

/// The parse failure message for a file.
pub open spec fn parse_failure(path: Seq<char>, err: Seq<char>) -> Seq<char> {
    "Failed to parse "@ + path + ": "@ + err
}

pub open spec fn option_view(o: Option<String>) -> Option<Seq<char>> {
    match o {
        Some(s) => Some(s@),
        None => None,
    }
}

pub open spec fn option_str_view(o: Option<&str>) -> Option<Seq<char>> {
    match o {
        Some(s) => Some(s@),
        None => None,
    }
}

/// `outcome` is what processing `original` may give: a parse failure exactly when the
/// text with promoted comments does not parse; otherwise the decision on a rendering of it.
pub open spec fn source_outcome(
    config: NormalizeConfig,
    selection: MoveSelection,
    path: Seq<char>,
    relative_path: Option<Seq<char>>,
    original: Seq<char>,
    outcome: Result<Option<Seq<char>>, Seq<char>>,
) -> bool {
    let promoted = spec_promote(original);
    match syn_file_error(promoted) {
        Some(err) => outcome == Err::<Option<Seq<char>>, Seq<char>>(parse_failure(path, err)),
        None => if !preamble_printable(promoted) {
            outcome == Err::<Option<Seq<char>>, Seq<char>>(preamble_failure(path))
        } else {
            exists|rendered: Seq<char>|
                renders_to(promoted, config, selection, relative_path, rendered) && outcome
                    == Ok::<Option<Seq<char>>, Seq<char>>(
                    spec_decide(original, spec_function_spacing(spec_restore(rendered))),
                )
        },
    }
}

/// The failure message for a file whose crate attributes cannot be printed.
pub open spec fn preamble_failure(path: Seq<char>) -> Seq<char> {
    "Cannot print the crate attributes of "@ + path
}

fn preamble_failure_message(path: &str) -> (r: String)
    ensures
        r@ == preamble_failure(path@),
{
    let mut out = chars_of("Cannot print the crate attributes of ");
    let p = chars_of(path);
    push_all(&mut out, p.as_slice());
    string_of(out.as_slice())
}

/// Whether the file changes: not if the rendering equals the text or differs from it only
/// in whitespace and trailing commas.
pub fn decide_change(original: &str, rendered: String) -> (r: Option<String>)
    ensures
        option_view(r) == spec_decide(original@, rendered@),
{
    let a = chars_of(original);
    let b = chars_of(rendered.as_str());
    if crate::text::same_chars(a.as_slice(), b.as_slice()) {
        return None;
    }
    if differs_only_by_whitespace(original, rendered.as_str()) {
        return None;
    }
    Some(rendered)
}

/// "Failed to parse {path}: {err}".
fn parse_failure_message(path: &str, err: &str) -> (r: String)
    ensures
        r@ == parse_failure(path@, err@),
{
    let mut out = chars_of("Failed to parse ");
    let p = chars_of(path);
    push_all(&mut out, p.as_slice());
    let sep = chars_of(": ");
    push_all(&mut out, sep.as_slice());
    let e = chars_of(err);
    push_all(&mut out, e.as_slice());
    string_of(out.as_slice())
}

impl Processor {
    pub closed spec fn is_check(&self) -> bool {
        self.check
    }

    pub closed spec fn selection(&self) -> MoveSelection {
        self.move_selection
    }

    pub closed spec fn configuration(&self) -> NormalizeConfig {
        self.config
    }

    /// Whether the selection moves nothing.
    pub open spec fn moves_nothing(&self) -> bool {
        !self.selection().all && self.selection().features@.len() == 0
    }

    pub fn new(check: bool, move_selection: MoveSelection, config: NormalizeConfig) -> (r: Self)
        ensures
            r.is_check() == check,
            r.selection() == move_selection,
            r.configuration() == config,
    {
        Processor { check, move_selection, config }
    }

    /// What becomes of a file with this text: `Ok(None)` if it is already normalized (up
    /// to whitespace), `Ok(Some(text))` with its normalized text, or the parse failure.
    pub fn normalize_source(&self, path: &str, relative_path: Option<&str>, original: &str) -> (r:
        Result<Option<String>, String>)
        ensures
            source_outcome(
                self.configuration(),
                self.selection(),
                path@,
                option_str_view(relative_path),
                original@,
                match r {
                    Ok(o) => Ok(option_view(o)),
                    Err(e) => Err(e@),
                },
            ),
    {
        let promoted = promote_leading_item_comments(original);
        let parsed = match Normalizer::parse(promoted.as_str()) {
            Ok(n) => n,
            Err(err) => {
                return Err(parse_failure_message(path, err.as_str()));
            },
        };
        if !parsed.can_print_preamble() {
            return Err(preamble_failure_message(path));
        }
        let normalized = parsed.normalize(&self.config, &self.move_selection);
        let rendered_raw = render_segments(normalized, &self.config, relative_path);
        assert(renders_to(
            promoted@,
            self.config,
            self.move_selection,
            option_str_view(relative_path),
            rendered_raw@,
        ));
        let restored = restore_promoted_comment_style(rendered_raw.as_str());
        let rendered = normalize_function_spacing(restored.as_str());
        Ok(decide_change(original, rendered))
    }
}

/// Where a run stands: the counts so far, the files still to process, and the file whose
/// read or write is awaited.
pub struct RunState {
    summary: ProcessSummary,
    pending: Vec<String>,
    current: Option<String>,
}

/// What the caller reports back after performing an action.
pub enum RunEvent {
    /// The files to process were listed, or listing failed.
    Listed(Result<Vec<String>, String>),
    /// The file was read (with its path relative to the working directory), or reading failed.
    Loaded { contents: Result<String, String>, relative_path: String },
    /// The file was written, or writing failed.
    Stored(Result<(), String>),
}

/// What the caller is to do next.
pub enum RunAction {
    /// Read this file and report `Loaded`.
    Load(String),
    /// Write these contents to this file, print the notice once written, and report `Stored`.
    Store { path: String, contents: String, notice: String },
    /// The run is over, with its summary or its error.
    Finish(Result<ProcessSummary, String>),
}

pub enum EventView {
    Listed(Result<Seq<Seq<char>>, Seq<char>>),
    Loaded(Result<Seq<char>, Seq<char>>, Seq<char>),
    Stored(Result<(), Seq<char>>),
}

pub enum ActionView {
    Load(Seq<char>),
    Store(Seq<char>, Seq<char>, Seq<char>),
    Finish(Result<(nat, nat, Seq<Seq<char>>), Seq<char>>),
}

impl View for RunState {
    type V = ((nat, nat, Seq<Seq<char>>), Seq<Seq<char>>, Option<Seq<char>>);

    closed spec fn view(&self) -> ((nat, nat, Seq<Seq<char>>), Seq<Seq<char>>, Option<Seq<char>>) {
        (self.summary@, self.pending.deep_view(), option_view(self.current))
    }
}

impl View for RunEvent {
    type V = EventView;

    open spec fn view(&self) -> EventView {
        match self {
            RunEvent::Listed(Ok(files)) => EventView::Listed(Ok(files.deep_view())),
            RunEvent::Listed(Err(e)) => EventView::Listed(Err(e@)),
            RunEvent::Loaded { contents, relative_path } => EventView::Loaded(
                match contents {
                    Ok(t) => Ok(t@),
                    Err(e) => Err(e@),
                },
                relative_path@,
            ),
            RunEvent::Stored(Ok(())) => EventView::Stored(Ok(())),
            RunEvent::Stored(Err(e)) => EventView::Stored(Err(e@)),
        }
    }
}

impl View for RunAction {
    type V = ActionView;

    open spec fn view(&self) -> ActionView {
        match self {
            RunAction::Load(p) => ActionView::Load(p@),
            RunAction::Store { path, contents, notice } => ActionView::Store(
                path@,
                contents@,
                notice@,
            ),
            RunAction::Finish(Ok(s)) => ActionView::Finish(Ok(s@)),
            RunAction::Finish(Err(e)) => ActionView::Finish(Err(e@)),
        }
    }
}

impl RunState {
    /// The counts agree with the list of changed files, and nothing overflows.
    pub closed spec fn wf(&self) -> bool {
        &&& self.summary.changed <= self.summary.scanned
        &&& self.summary.changed_files@.len() == self.summary.changed
        &&& self.summary.scanned + self.pending@.len() <= usize::MAX
        &&& self.current is Some ==> self.summary.changed < self.summary.scanned
    }

    /// A read or write of the current file is awaited.
    pub closed spec fn awaiting(&self) -> bool {
        self.current is Some
    }

    /// The state before any file is listed.
    pub fn start() -> (r: RunState)
        ensures
            r.wf(),
            r@ == ((0nat, 0nat, Seq::<Seq<char>>::empty()), Seq::<Seq<char>>::empty(), None::<
                Seq<char>,
            >),
    {
        let r = RunState { summary: ProcessSummary::default(), pending: Vec::new(), current: None };
        assert(r.pending.deep_view() =~= Seq::<Seq<char>>::empty());
        r
    }

    /// Whether a read or write of the current file is awaited.
    pub fn is_awaiting(&self) -> (r: bool)
        ensures
            r == self.awaiting(),
    {
        self.current.is_some()
    }
}

pub open spec fn empty_state() -> ((nat, nat, Seq<Seq<char>>), Seq<Seq<char>>, Option<Seq<char>>) {
    ((0nat, 0nat, Seq::empty()), Seq::empty(), None)
}

/// The counts with one more changed file.
pub open spec fn record_change(summary: (nat, nat, Seq<Seq<char>>), path: Seq<char>) -> (
    nat,
    nat,
    Seq<Seq<char>>,
) {
    (summary.0, summary.1 + 1, summary.2.push(path))
}

/// Going on with the pending files: with nothing to move every file counts as scanned and
/// unchanged without being read; otherwise the next file is read, or the run finishes.
pub open spec fn after_files(
    moves_nothing: bool,
    summary: (nat, nat, Seq<Seq<char>>),
    pending: Seq<Seq<char>>,
) -> (((nat, nat, Seq<Seq<char>>), Seq<Seq<char>>, Option<Seq<char>>), ActionView) {
    if moves_nothing {
        let s2 = (summary.0 + pending.len(), summary.1, summary.2);
        (empty_state(), ActionView::Finish(Ok(s2)))
    } else if pending.len() == 0 {
        (empty_state(), ActionView::Finish(Ok(summary)))
    } else {
        let s2 = (summary.0 + 1, summary.1, summary.2);
        ((s2, pending.drop_first(), Some(pending[0])), ActionView::Load(pending[0]))
    }
}

/// The next state and action of a run, given the outcome of processing a loaded file.
pub open spec fn step_spec(
    check: bool,
    moves_nothing: bool,
    old: ((nat, nat, Seq<Seq<char>>), Seq<Seq<char>>, Option<Seq<char>>),
    event: EventView,
    outcome: Result<Option<Seq<char>>, Seq<char>>,
) -> (((nat, nat, Seq<Seq<char>>), Seq<Seq<char>>, Option<Seq<char>>), ActionView) {
    let current = old.2.unwrap();
    match event {
        EventView::Listed(Err(e)) => (empty_state(), ActionView::Finish(Err(e))),
        EventView::Listed(Ok(files)) => after_files(
            moves_nothing,
            (0nat, 0nat, Seq::empty()),
            files,
        ),
        EventView::Loaded(Err(e), _) => (empty_state(), ActionView::Finish(Err(e))),
        EventView::Loaded(Ok(_), _) => match outcome {
            Err(m) => (empty_state(), ActionView::Finish(Err(m))),
            Ok(None) => after_files(moves_nothing, old.0, old.1),
            Ok(Some(text)) => if check {
                after_files(moves_nothing, record_change(old.0, current), old.1)
            } else {
                (old, ActionView::Store(current, text, "normalized "@ + current))
            },
        },
        EventView::Stored(Err(e)) => (empty_state(), ActionView::Finish(Err(e))),
        EventView::Stored(Ok(())) => after_files(
            moves_nothing,
            record_change(old.0, current),
            old.1,
        ),
    }
}

impl Processor {
    fn continue_with(&self, summary: ProcessSummary, pending: Vec<String>) -> (r: (
        RunState,
        RunAction,
    ))
        requires
            summary.changed <= summary.scanned,
            summary.changed_files@.len() == summary.changed,
            summary.scanned + pending@.len() <= usize::MAX,
        ensures
            r.0.wf(),
            (r.0@, r.1@) == after_files(self.moves_nothing(), summary@, pending.deep_view()),
    {
        let mut summary = summary;
        let mut pending = pending;
        if !self.move_selection.all && self.move_selection.features.len() == 0 {
            summary.scanned = summary.scanned + pending.len();
            let done = RunState::start();
            return (done, RunAction::Finish(Ok(summary)));
        }
        if pending.len() == 0 {
            let done = RunState::start();
            return (done, RunAction::Finish(Ok(summary)));
        }
        let ghost before = pending.deep_view();
        let next = pending.remove(0);
        assert(pending.deep_view() =~= before.drop_first());
        let notice_path = String::from_str(next.as_str());
        summary.scanned = summary.scanned + 1;
        let state = RunState { summary, pending, current: Some(next) };
        (state, RunAction::Load(notice_path))
    }

    /// One step of a run: takes what the caller reports and says what to do next.
    pub fn run_step(&self, state: RunState, event: RunEvent) -> (r: (RunState, RunAction))
        requires
            state.wf(),
            (event is Loaded || event is Stored) ==> state.awaiting(),
        ensures
            r.0.wf(),
            exists|outcome: Result<Option<Seq<char>>, Seq<char>>|
                #![trigger step_spec(self.is_check(), self.moves_nothing(), state@, event@, outcome)]
                (match event@ {
                    EventView::Loaded(Ok(text), rel) => source_outcome(
                        self.configuration(),
                        self.selection(),
                        state@.2.unwrap(),
                        Some(rel),
                        text,
                        outcome,
                    ),
                    _ => true,
                }) && (r.0@, r.1@) == step_spec(
                    self.is_check(),
                    self.moves_nothing(),
                    state@,
                    event@,
                    outcome,
                ),
    {
        let ghost old_view = state@;
        let ghost ev = event@;
        let RunState { summary, pending, current } = state;
        match event {
            RunEvent::Listed(Err(e)) => {
                let r = (RunState::start(), RunAction::Finish(Err(e)));
                assert((r.0@, r.1@) == step_spec(
                    self.is_check(),
                    self.moves_nothing(),
                    old_view,
                    ev,
                    Err(Seq::empty()),
                ));
                r
            },
            RunEvent::Listed(Ok(files)) => {
                // A vector's length fits in a `usize`.
                assert(files@.len() == files.len());
                let fresh = ProcessSummary::default();
                assert(fresh.changed_files@.len() == fresh.changed_files.deep_view().len());
                let r = self.continue_with(fresh, files);
                assert((r.0@, r.1@) == step_spec(
                    self.is_check(),
                    self.moves_nothing(),
                    old_view,
                    ev,
                    Err(Seq::empty()),
                ));
                r
            },
            RunEvent::Loaded { contents: Err(e), relative_path: _ } => {
                let r = (RunState::start(), RunAction::Finish(Err(e)));
                assert((r.0@, r.1@) == step_spec(
                    self.is_check(),
                    self.moves_nothing(),
                    old_view,
                    ev,
                    Err(Seq::empty()),
                ));
                r
            },
            RunEvent::Loaded { contents: Ok(text), relative_path } => {
                let path = current.unwrap();
                let outcome = self.normalize_source(
                    path.as_str(),
                    Some(relative_path.as_str()),
                    text.as_str(),
                );
                let ghost o = match &outcome {
                    Ok(x) => Ok(option_view(*x)),
                    Err(e) => Err(e@),
                };
                match outcome {
                    Err(m) => {
                        let r = (RunState::start(), RunAction::Finish(Err(m)));
                        assert((r.0@, r.1@) == step_spec(
                            self.is_check(),
                            self.moves_nothing(),
                            old_view,
                            ev,
                            o,
                        ));
                        r
                    },
                    Ok(None) => {
                        let r = self.continue_with(summary, pending);
                        assert((r.0@, r.1@) == step_spec(
                            self.is_check(),
                            self.moves_nothing(),
                            old_view,
                            ev,
                            o,
                        ));
                        r
                    },
                    Ok(Some(rendered)) => {
                        if self.check {
                            let mut summary = summary;
                            let ghost before = summary.changed_files.deep_view();
                            summary.changed = summary.changed + 1;
                            summary.changed_files.push(path);
                            assert(summary.changed_files.deep_view() =~= before.push(
                                old_view.2.unwrap(),
                            ));
                            let r = self.continue_with(summary, pending);
                            assert((r.0@, r.1@) == step_spec(
                                self.is_check(),
                                self.moves_nothing(),
                                old_view,
                                ev,
                                o,
                            ));
                            r
                        } else {
                            let mut notice = chars_of("normalized ");
                            let p = chars_of(path.as_str());
                            push_all(&mut notice, p.as_slice());
                            let notice = string_of(notice.as_slice());
                            let target = String::from_str(path.as_str());
                            let state = RunState { summary, pending, current: Some(path) };
                            let r = (
                                state,
                                RunAction::Store { path: target, contents: rendered, notice },
                            );
                            assert((r.0@, r.1@) == step_spec(
                                self.is_check(),
                                self.moves_nothing(),
                                old_view,
                                ev,
                                o,
                            ));
                            r
                        }
                    },
                }
            },
            RunEvent::Stored(Err(e)) => {
                let r = (RunState::start(), RunAction::Finish(Err(e)));
                assert((r.0@, r.1@) == step_spec(
                    self.is_check(),
                    self.moves_nothing(),
                    old_view,
                    ev,
                    Err(Seq::empty()),
                ));
                r
            },
            RunEvent::Stored(Ok(())) => {
                let path = current.unwrap();
                let mut summary = summary;
                let ghost before = summary.changed_files.deep_view();
                summary.changed = summary.changed + 1;
                summary.changed_files.push(path);
                assert(summary.changed_files.deep_view() =~= before.push(old_view.2.unwrap()));
                let r = self.continue_with(summary, pending);
                assert((r.0@, r.1@) == step_spec(
                    self.is_check(),
                    self.moves_nothing(),
                    old_view,
                    ev,
                    Err(Seq::empty()),
                ));
                r
            },
        }
    }
}

/// In check mode a run never writes a file.
pub proof fn lemma_check_mode_never_writes(
    moves_nothing: bool,
    old: ((nat, nat, Seq<Seq<char>>), Seq<Seq<char>>, Option<Seq<char>>),
    event: EventView,
    outcome: Result<Option<Seq<char>>, Seq<char>>,
)
    ensures
        !(step_spec(true, moves_nothing, old, event, outcome).1 is Store),
{
}

/// When the selection moves nothing, a run reads no file and reports every file as
/// scanned and unchanged.
pub proof fn lemma_nothing_to_move_reads_nothing(
    check: bool,
    old: ((nat, nat, Seq<Seq<char>>), Seq<Seq<char>>, Option<Seq<char>>),
    files: Seq<Seq<char>>,
    outcome: Result<Option<Seq<char>>, Seq<char>>,
)
    ensures
        step_spec(check, true, old, EventView::Listed(Ok(files)), outcome).1 == ActionView::Finish(
            Ok((files.len(), 0nat, Seq::<Seq<char>>::empty())),
        ),
{
}

/// A file that is already normalized, or differs from its normalized form only in
/// whitespace, is left as it is.
pub proof fn lemma_unchanged_when_equal_up_to_whitespace(original: Seq<char>, rendered: Seq<char>)
    requires
        spec_differs_only_by_whitespace(original, rendered),
    ensures
        spec_decide(original, rendered) is None,
        spec_decide(original, original) is None,
{
}

/// Check mode and write mode decide alike: for a loaded file, a write run stores exactly
/// the files that a check run counts as changed, with the normalized text, and once the
/// write succeeds it goes on exactly as the check run does; for any other outcome the two
/// runs take the same step.
pub proof fn lemma_check_agrees_with_write(
    moves_nothing: bool,
    old: ((nat, nat, Seq<Seq<char>>), Seq<Seq<char>>, Option<Seq<char>>),
    text: Seq<char>,
    relative_path: Seq<char>,
    outcome: Result<Option<Seq<char>>, Seq<char>>,
    later: Result<Option<Seq<char>>, Seq<char>>,
)
    requires
        old.2 is Some,
    ensures
        ({
            let event = EventView::Loaded(Ok(text), relative_path);
            let written = step_spec(false, moves_nothing, old, event, outcome);
            let checked = step_spec(true, moves_nothing, old, event, outcome);
            match outcome {
                Ok(Some(normalized)) => {
                    &&& written.1 == ActionView::Store(
                        old.2.unwrap(),
                        normalized,
                        "normalized "@ + old.2.unwrap(),
                    )
                    &&& step_spec(
                        false,
                        moves_nothing,
                        written.0,
                        EventView::Stored(Ok(())),
                        later,
                    ) == checked
                },
                _ => written == checked && !(written.1 is Store),
            }
        }),
{
}

} // verus!
