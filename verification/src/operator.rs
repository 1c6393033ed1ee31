//! The life of one WebAssembly operator: the commands that it is given, the
//! events that it has still to see, and when it is in memory and when on disk.
//!
//! The runtime decides; running WebAssembly, reading and writing files and
//! reporting to the cluster is left to the caller, which reports back how it
//! went.

use crate::api::{WatchEvent, WatchId};
use crate::clock::{millis_of, now_millis, now_nanos, now_seconds, to_millis, LAST_NANO};
use crate::crd::{
    clone_env, EnvironmentVariable, WasmOperator, WasmOperatorState, WasmOperatorStatus,
    WasmSource,
};
use crate::outside::{blake3_hex, blake3_text, host_triple, LAST_SECOND};
use crate::stats::{plus, sum_of, RecorderView, WasmOperatorStatisticsRecorder};
use crate::text::{clone_texts, i64_text, int_text, opt_str, opt_text};
use std::collections::VecDeque;
use vstd::prelude::*;
use vstd::string::*;

verus! {

/// Identifies an operator in the cluster.
pub type OperatorUid = String;

/// A watch event, with the stream that it came from.
pub type Event = (WatchId, WatchEvent);

/// The part of a declared operator that matters once it runs.
#[derive(Debug)]
pub struct WasmOperatorReduced {
    pub name: String,
    pub generation: Option<i64>,
    pub uid: OperatorUid,
    pub wasm: WasmSource,
    /// The hash of the WebAssembly component, once it has been read.
    pub wasm_hash: Option<String>,
    pub env: Vec<EnvironmentVariable>,
    pub args: Vec<String>,
}

/// The part of a declared operator that matters once it runs.
#[verifier::ext_equal]
pub struct ReducedView {
    pub name: Seq<char>,
    pub generation: Option<i64>,
    pub uid: Seq<char>,
    pub wasm: WasmSource,
    pub wasm_hash: Option<Seq<char>>,
    pub env: Seq<EnvironmentVariable>,
    pub args: Seq<String>,
}

impl ReducedView {
    /// What matters of a declared operator, whose component has not been read yet.
    pub open spec fn of(cr: WasmOperator) -> ReducedView {
        ReducedView {
            name: cr.metadata.any_name(),
            generation: cr.metadata.generation,
            uid: cr.metadata.uid->0@,
            wasm: cr.spec.wasm,
            wasm_hash: None,
            env: cr.spec.env@,
            args: cr.spec.args@,
        }
    }

    /// The generation; 0 where there is none.
    pub open spec fn generation_number(self) -> int {
        match self.generation {
            Some(g) => g as int,
            None => 0,
        }
    }
}

impl View for WasmOperatorReduced {
    type V = ReducedView;

    open spec fn view(&self) -> ReducedView {
        ReducedView {
            name: self.name@,
            generation: self.generation,
            uid: self.uid@,
            wasm: self.wasm,
            wasm_hash: opt_text(self.wasm_hash),
            env: self.env@,
            args: self.args@,
        }
    }
}

impl WasmOperatorReduced {
    /// What matters of a declared operator, whose component has not been read
    /// yet.
    pub fn from_resource(cr: &WasmOperator) -> (r: WasmOperatorReduced)
        requires
            cr.metadata.uid is Some,
        ensures
            r@ == (ReducedView {
                name: cr.metadata.any_name(),
                generation: cr.metadata.generation,
                uid: cr.metadata.uid->0@,
                wasm: cr.spec.wasm,
                wasm_hash: None,
                env: cr.spec.env@,
                args: cr.spec.args@,
            }),
            r@ == ReducedView::of(*cr),
    {
        WasmOperatorReduced {
            name: cr.metadata.name_any(),
            generation: cr.metadata.generation,
            uid: cr.metadata.uid.as_ref().unwrap().clone(),
            wasm: cr.spec.wasm.clone(),
            wasm_hash: None,
            env: clone_env(&cr.spec.env),
            args: clone_texts(&cr.spec.args),
        }
    }
}

/// A command to an operator.
#[derive(Debug)]
pub enum WORCommand {
    StartOperator,
    /// Load at this time, in nanoseconds since the start of 1970.
    LoadAt(i128),
    Unload,
    Pause,
    Shutdown,
    ProcessWatchEvent(WatchId, WatchEvent),
    /// Tell whether the operator is idle, by these thresholds in milliseconds:
    /// how long it must not have been active, and for how long it must have run
    /// since.
    CheckIdle(u64, u64),
}

/// What a command leads to.
#[derive(Debug, PartialEq, Eq, Structural)]
pub enum CommandStep {
    /// Nothing more.
    Done,
    /// Load the operator.
    Load,
    /// Load the operator at this time.
    LoadAt(i128),
    /// Unload the operator.
    Unload,
    /// Stop the operator, and report that it is paused.
    Pause,
    /// Stop the operator, and remove its files.
    Shutdown,
    /// Answer whether the operator is idle.
    Reply(bool),
}

/// What an operator does when there is no command for it.
#[derive(Debug)]
pub enum Work {
    /// Nothing: it waits for a command.
    Wait,
    /// It is given an event.  Whether that counts as activity is told along
    /// with it.
    Deliver(Event, bool),
    /// It runs until it has nothing more to do.
    Run,
}

/// What an operator can fail at.
#[derive(Clone, Copy, Debug, PartialEq, Eq, Structural)]
pub enum Failure {
    Start,
    Unload,
    Pause,
    Event,
    Run,
}

/// What is to be done about an operator that failed: log the message, report
/// the error, and tell the controller to give the operator up.
#[derive(Debug)]
pub struct Fatal {
    pub message: String,
    pub uid: OperatorUid,
}

/// How a run of an operator ended.
#[derive(Debug)]
pub enum RunOutcome {
    /// The operator was not loaded.
    Unloaded,
    /// It has nothing more to do for now.
    Stalled,
    /// It crashed.
    Trapped(String),
    /// The thread that it ran on failed.
    Panicked(String),
}

/// A step in loading an operator.  Where one fails, the load fails.
#[derive(Clone, Copy, Debug, PartialEq, Eq, Structural)]
pub enum LoadPhase {
    /// Make an instance of the component.
    Instantiate,
    /// Give it back the memory that it had, and remove the file that it was in.
    Restore,
    /// Report that the operator is running.
    Report,
    /// Let it run until it first has nothing to do.
    Run,
    /// It is loaded.
    Complete,
}

impl LoadPhase {
    /// The step after this one.  Memory is given back where a file of it is
    /// there.
    pub open spec fn following(self, snapshot_exists: bool) -> LoadPhase {
        match self {
            LoadPhase::Instantiate => if snapshot_exists {
                LoadPhase::Restore
            } else {
                LoadPhase::Report
            },
            LoadPhase::Restore => LoadPhase::Report,
            LoadPhase::Report => LoadPhase::Run,
            LoadPhase::Run => LoadPhase::Complete,
            LoadPhase::Complete => LoadPhase::Complete,
        }
    }

    /// Goes on to the next step.
    pub fn next(self, snapshot_exists: bool) -> (r: LoadPhase)
        ensures
            r == self.following(snapshot_exists),
    {
        match self {
            LoadPhase::Instantiate => {
                if snapshot_exists {
                    LoadPhase::Restore
                } else {
                    LoadPhase::Report
                }
            },
            LoadPhase::Restore => LoadPhase::Report,
            LoadPhase::Report => LoadPhase::Run,
            LoadPhase::Run => LoadPhase::Complete,
            LoadPhase::Complete => LoadPhase::Complete,
        }
    }
}

/// A step in unloading an operator.  Where one fails, the unload fails, and the
/// operator stays loaded.
#[derive(Clone, Copy, Debug, PartialEq, Eq, Structural)]
pub enum UnloadPhase {
    /// Write its memory to a file.
    Snapshot,
    /// Note how large that file is.
    Measure,
    /// Report that the operator is idle.
    Report,
    /// It is unloaded.
    Complete,
}

impl UnloadPhase {
    /// The step after this one.
    pub open spec fn following(self) -> UnloadPhase {
        match self {
            UnloadPhase::Snapshot => UnloadPhase::Measure,
            UnloadPhase::Measure => UnloadPhase::Report,
            UnloadPhase::Report => UnloadPhase::Complete,
            UnloadPhase::Complete => UnloadPhase::Complete,
        }
    }

    /// Goes on to the next step.
    pub fn next(self) -> (r: UnloadPhase)
        ensures
            r == self.following(),
    {
        match self {
            UnloadPhase::Snapshot => UnloadPhase::Measure,
            UnloadPhase::Measure => UnloadPhase::Report,
            UnloadPhase::Report => UnloadPhase::Complete,
            UnloadPhase::Complete => UnloadPhase::Complete,
        }
    }
}

/// What happens in the course of a call of an operator.
#[derive(Debug)]
pub enum CallEvent {
    /// The operator is to be called.
    Begin,
    /// It was to be loaded first, which went like this.
    LoadEnded(Result<(), String>),
    /// It was called, which went like this and took so many milliseconds.
    Called(Result<(), String>, u64),
}

/// What is to be done in the course of a call of an operator.
#[derive(Debug)]
pub enum CallStep {
    /// Load the operator.
    LoadFirst,
    /// Call it.
    Call,
    /// There is nothing more to do: this is how the call went.
    Return(Result<(), String>),
}

impl CommandStep {
    /// What it means for the operator when the step fails.
    pub open spec fn failing(self) -> Option<Failure> {
        match self {
            CommandStep::Load => Some(Failure::Start),
            CommandStep::Unload => Some(Failure::Unload),
            CommandStep::Pause => Some(Failure::Pause),
            _ => None,
        }
    }

    /// What it means for the operator when the step fails.
    pub fn failure(&self) -> (r: Option<Failure>)
        ensures
            r == self.failing(),
    {
        match self {
            CommandStep::Load => Some(Failure::Start),
            CommandStep::Unload => Some(Failure::Unload),
            CommandStep::Pause => Some(Failure::Pause),
            _ => None,
        }
    }
}

impl Work {
    /// What it means for the operator when the work fails.
    pub open spec fn failing(self) -> Option<Failure> {
        match self {
            Work::Wait => None,
            Work::Deliver(_, _) => Some(Failure::Event),
            Work::Run => Some(Failure::Run),
        }
    }

    /// What it means for the operator when the work fails.
    pub fn failure(&self) -> (r: Option<Failure>)
        ensures
            r == self.failing(),
    {
        match self {
            Work::Wait => None,
            Work::Deliver(_, _) => Some(Failure::Event),
            Work::Run => Some(Failure::Run),
        }
    }
}

/// What was found in the cache of compiled components.
#[derive(Clone, Copy, Debug, PartialEq, Eq, Structural)]
pub enum CacheOutcome {
    Missing,
    Loaded,
    Corrupt,
}

/// A step in getting at the compiled component of an operator.  Where one fails,
/// there is none, but for a look into the cache.
#[derive(Clone, Copy, Debug, PartialEq, Eq, Structural)]
pub enum ComponentPhase {
    /// Read the source, and tell the operator about it.
    ReadSource,
    /// Look into the cache; what is there and cannot be used is removed.
    LookInCache,
    /// Read the source again, which was read at an earlier time.
    ReadSourceAgain,
    /// Compile the source.
    Compile,
    /// Make the directory for compiled components.
    CreateDir,
    /// Write the compiled component to a file that no other operator uses.
    WriteTemp,
    /// Give that file the name that it is looked for under.
    Rename,
    /// There it is.
    Complete,
}

impl ComponentPhase {
    /// The step after this one.  A component that was found is used as it is;
    /// any other is compiled and put into the cache.
    pub open spec fn following(self, cache: CacheOutcome, source_at_hand: bool) -> ComponentPhase {
        match self {
            ComponentPhase::ReadSource => ComponentPhase::LookInCache,
            ComponentPhase::LookInCache => if cache is Loaded {
                ComponentPhase::Complete
            } else if source_at_hand {
                ComponentPhase::Compile
            } else {
                ComponentPhase::ReadSourceAgain
            },
            ComponentPhase::ReadSourceAgain => ComponentPhase::Compile,
            ComponentPhase::Compile => ComponentPhase::CreateDir,
            ComponentPhase::CreateDir => ComponentPhase::WriteTemp,
            ComponentPhase::WriteTemp => ComponentPhase::Rename,
            ComponentPhase::Rename => ComponentPhase::Complete,
            ComponentPhase::Complete => ComponentPhase::Complete,
        }
    }

    /// Goes on to the next step.
    pub fn next(self, cache: CacheOutcome, source_at_hand: bool) -> (r: ComponentPhase)
        ensures
            r == self.following(cache, source_at_hand),
    {
        match self {
            ComponentPhase::ReadSource => ComponentPhase::LookInCache,
            ComponentPhase::LookInCache => match cache {
                CacheOutcome::Loaded => ComponentPhase::Complete,
                _ => {
                    if source_at_hand {
                        ComponentPhase::Compile
                    } else {
                        ComponentPhase::ReadSourceAgain
                    }
                },
            },
            ComponentPhase::ReadSourceAgain => ComponentPhase::Compile,
            ComponentPhase::Compile => ComponentPhase::CreateDir,
            ComponentPhase::CreateDir => ComponentPhase::WriteTemp,
            ComponentPhase::WriteTemp => ComponentPhase::Rename,
            ComponentPhase::Rename => ComponentPhase::Complete,
            ComponentPhase::Complete => ComponentPhase::Complete,
        }
    }

    /// What is said where a step fails.
    pub open spec fn fault(self, name: Seq<char>, words: Seq<char>) -> Seq<char> {
        match self {
            ComponentPhase::LookInCache => "Failed to deserialize cached component '"@ + name
                + "': "@ + words,
            ComponentPhase::Compile => "Failed to compile WASM for operator '"@ + name + "': "@
                + words,
            ComponentPhase::CreateDir => "Failed to create cache directory structure for "@ + name,
            ComponentPhase::WriteTemp =>
                "Failed to write compiled cwasm to temp file for component "@ + name,
            ComponentPhase::Rename => "Failed to rename temp file to cache path for component "@
                + name,
            _ => words,
        }
    }

    /// Says that a step has failed.  `name` is that of the operator; for a look
    /// into the cache, that of the file.  Where the source could not be read,
    /// `words` says all.
    pub fn fault_text(self, name: &str, words: &str) -> (s: String)
        ensures
            s@ == self.fault(name@, words@),
    {
        match self {
            ComponentPhase::LookInCache =>
                "Failed to deserialize cached component '".to_owned().concat(name).concat(
                "': ",
            ).concat(words),
            ComponentPhase::Compile => "Failed to compile WASM for operator '".to_owned().concat(
                name,
            ).concat("': ").concat(words),
            ComponentPhase::CreateDir =>
                "Failed to create cache directory structure for ".to_owned().concat(name),
            ComponentPhase::WriteTemp =>
                "Failed to write compiled cwasm to temp file for component ".to_owned().concat(
                name,
            ),
            ComponentPhase::Rename =>
                "Failed to rename temp file to cache path for component ".to_owned().concat(name),
            _ => words.to_owned(),
        }
    }
}

/// The path of a file in a directory.
pub open spec fn joined(dir: Seq<char>, file: Seq<char>) -> Seq<char> {
    if file.len() > 0 && file[0] == '/' {
        file
    } else if dir.len() == 0 || dir.last() == '/' {
        dir + file
    } else {
        dir + "/"@ + file
    }
}

/// The path that a component is read from.
pub fn source_path(wasm: &WasmSource) -> (s: String)
    ensures
        s@ == joined(wasm->path@, wasm->file@),
{
    match wasm {
        WasmSource::Pvc { path, file } => {
            let dir_chars = crate::text::chars_of(path.as_str());
            let file_chars = crate::text::chars_of(file.as_str());
            if file_chars.len() > 0 && file_chars[0] == '/' {
                file.clone()
            } else if dir_chars.len() == 0 || dir_chars[dir_chars.len() - 1] == '/' {
                path.clone().concat(file.as_str())
            } else {
                path.clone().concat("/").concat(file.as_str())
            }
        },
    }
}

/// What is said of a component that could not be read.
pub open spec fn read_fault(file: Seq<char>, path: Seq<char>) -> Seq<char> {
    "Failed to read WASM file '"@ + file + "' from PVC path '"@ + path + "'"@
}

/// Says that a component could not be read.  `path` is the path that it was read
/// from, quoted.
pub fn read_fault_text(wasm: &WasmSource, path: &str) -> (s: String)
    ensures
        s@ == read_fault(wasm->file@, path@),
{
    match wasm {
        WasmSource::Pvc { path: _, file } => "Failed to read WASM file '".to_owned().concat(
            file.as_str(),
        ).concat("' from PVC path '").concat(path).concat("'"),
    }
}

/// The file that the memory of an operator is kept in while it is unloaded.
pub open spec fn swap_path(dir: Seq<char>, cr: ReducedView) -> Seq<char> {
    dir + "/memory/"@ + cr.uid + "_"@ + int_text(cr.generation_number()) + ".mem"@
}

/// The file that a compiled component is kept in, without its ending: one for
/// each source and kind of machine.
pub open spec fn cache_stem(dir: Seq<char>, cr: ReducedView, triple: Seq<char>) -> Seq<char> {
    dir + "/binaries/"@ + (match cr.wasm_hash {
        Some(hash) => hash,
        None => Seq::empty(),
    }) + "_"@ + triple
}

/// The file that a compiled component is kept in.
pub open spec fn cache_path(dir: Seq<char>, cr: ReducedView, triple: Seq<char>) -> Seq<char> {
    cache_stem(dir, cr, triple) + ".cwasm"@
}

/// The file that a compiled component is first written to.
pub open spec fn temp_path(dir: Seq<char>, cr: ReducedView, triple: Seq<char>) -> Seq<char> {
    cache_stem(dir, cr, triple) + "."@ + cr.uid + ".tmp"@
}

/// What is said of a failure.
pub open spec fn failure_text(name: Seq<char>, what: Failure, words: Seq<char>) -> Seq<char> {
    match what {
        Failure::Start => "Failed to start operator: "@ + words,
        Failure::Unload => "Failed to unload: "@ + words,
        Failure::Pause => "Failed to pause: "@ + words,
        Failure::Event => "Operator '"@ + name + "' crashed during watch event processing: "@
            + words,
        Failure::Run => "Operator '"@ + name + "' crashed during run loop: "@ + words,
    }
}

/// A number of bytes, or the largest that is reported where it is larger.
pub open spec fn in_u32(bytes: u64) -> u32 {
    if bytes <= u32::MAX {
        bytes as u32
    } else {
        u32::MAX
    }
}

fn to_u32(bytes: u64) -> (r: u32)
    ensures
        r == in_u32(bytes),
{
    if bytes <= 0xffff_ffff {
        bytes as u32
    } else {
        u32::MAX
    }
}

/// What is known of an operator.
#[verifier::ext_equal]
pub struct RuntimeView {
    pub cr: ReducedView,
    pub cache_dir: Seq<char>,
    /// The kind of machine that components are compiled for.
    pub triple: Seq<char>,
    /// Where its memory is kept, while it is unloaded.
    pub unloaded: Option<Seq<char>>,
    /// It has been told to stop.
    pub stopped: bool,
    /// It takes no more commands.
    pub ended: bool,
    pub queue: Seq<Event>,
    pub bookmark: Option<Event>,
    /// When it was last active, in milliseconds since the start of 1970.
    pub last_active: i64,
    /// For how many milliseconds it has run since.
    pub executed_idle: u64,
    pub stats: RecorderView,
}

impl RuntimeView {
    /// An operator that has just been declared.
    pub open spec fn fresh(
        cr: ReducedView,
        cache_dir: Seq<char>,
        triple: Seq<char>,
        error_limit: nat,
    ) -> RuntimeView {
        RuntimeView {
            cr,
            cache_dir,
            triple,
            unloaded: Some(Seq::empty()),
            stopped: false,
            ended: false,
            queue: Seq::empty(),
            bookmark: None,
            last_active: 0,
            executed_idle: 0,
            stats: RecorderView::blank(error_limit),
        }
    }

    pub open spec fn loaded(self) -> bool {
        self.unloaded is None
    }

    /// The file that its compiled component is kept in.
    pub open spec fn cache_path(self) -> Seq<char> {
        cache_path(self.cache_dir, self.cr, self.triple)
    }

    /// The file that its compiled component is first written to.
    pub open spec fn temp_path(self) -> Seq<char> {
        temp_path(self.cache_dir, self.cr, self.triple)
    }

    /// It has just been active.
    pub open spec fn active(self, now_ms: i64) -> RuntimeView {
        RuntimeView { last_active: now_ms, executed_idle: 0, ..self }
    }

    /// Whether it is idle: loaded, with no event to see, not active for longer
    /// than the first threshold, and having run since for longer than the second.
    pub open spec fn idle(self, idle_ms: u64, execute_ms: u64, now_ms: i64) -> bool {
        &&& self.queue.len() == 0
        &&& self.loaded()
        &&& now_ms - self.last_active > idle_ms
        &&& self.executed_idle > execute_ms
    }

    /// An event has come.  Of bookmarks the last counts, and none that is older
    /// than another event.
    pub open spec fn received(self, event: Event, now_ms: i64) -> RuntimeView {
        if event.1 is Bookmark {
            RuntimeView { bookmark: Some(event), ..self }
        } else {
            RuntimeView {
                queue: self.queue.push(event),
                bookmark: None,
                stats: self.stats.reconciled(now_ms),
                ..self
            }
        }
    }

    /// What a command leads to.
    pub open spec fn step(self, command: WORCommand, now_ms: i64) -> CommandStep {
        match command {
            WORCommand::StartOperator => CommandStep::Load,
            WORCommand::LoadAt(at) => CommandStep::LoadAt(at),
            WORCommand::Unload => if self.queue.len() > 0 {
                CommandStep::Done
            } else {
                CommandStep::Unload
            },
            WORCommand::Pause => if self.queue.len() > 0 {
                CommandStep::Done
            } else {
                CommandStep::Pause
            },
            WORCommand::Shutdown => CommandStep::Shutdown,
            WORCommand::ProcessWatchEvent(_, _) => CommandStep::Done,
            WORCommand::CheckIdle(idle_ms, execute_ms) => CommandStep::Reply(
                self.idle(idle_ms, execute_ms, now_ms),
            ),
        }
    }

    /// After a command was taken.
    pub open spec fn commanded(self, command: WORCommand, now_ms: i64) -> RuntimeView {
        match command {
            WORCommand::Unload => if self.queue.len() > 0 {
                self.active(now_ms)
            } else {
                self
            },
            WORCommand::Pause => if self.queue.len() > 0 {
                self.active(now_ms)
            } else {
                self
            },
            WORCommand::ProcessWatchEvent(id, event) => self.received((id, event), now_ms),
            _ => self,
        }
    }

    /// What is done when there is no command: events come first, then the last
    /// bookmark.  No operator is loaded for a bookmark.
    pub open spec fn work(self) -> Work {
        if self.queue.len() > 0 {
            Work::Deliver(self.queue.first(), true)
        } else if !self.loaded() {
            Work::Wait
        } else {
            match self.bookmark {
                Some(event) => Work::Deliver(event, false),
                None => Work::Run,
            }
        }
    }

    /// After the work was taken up.
    pub open spec fn worked(self) -> RuntimeView {
        if self.queue.len() > 0 {
            RuntimeView { queue: self.queue.drop_first(), ..self }
        } else if self.loaded() {
            RuntimeView { bookmark: None, ..self }
        } else {
            self
        }
    }

    /// A load begins, where there is anything to load.
    pub open spec fn load_begun(self, now_ms: i64) -> RuntimeView {
        if self.loaded() {
            self
        } else {
            RuntimeView { stats: self.stats.loading(now_ms), ..self }
        }
    }

    /// The load has failed: it is as unloaded as before, and uses no memory.
    pub open spec fn load_failed(self) -> RuntimeView {
        RuntimeView {
            stats: (RecorderView { memory: 0, ..self.stats.load_failed() }),
            ..self
        }
    }

    /// It is loaded, from now on, and its instance uses some memory.
    pub open spec fn load_done(
        self,
        now_ms: i64,
        duration_ms: u32,
        instance_bytes: u64,
    ) -> RuntimeView {
        RuntimeView {
            unloaded: None,
            stats: (RecorderView {
                memory: in_u32(instance_bytes),
                ..self.stats.load_took(duration_ms).loaded_at(now_ms)
            }),
            ..self.active(now_ms)
        }
    }

    /// Its memory was measured.
    pub open spec fn measured(self, bytes: u64) -> RuntimeView {
        RuntimeView {
            stats: (RecorderView { memory: in_u32(bytes), ..self.stats }),
            ..self
        }
    }

    /// Its status was made; where its instance was looked at, so is its memory.
    pub open spec fn reported(self, instance_bytes: Option<u64>) -> RuntimeView {
        match instance_bytes {
            Some(bytes) => self.measured(bytes),
            None => self,
        }
    }

    /// It is unloaded, and uses no memory.
    pub open spec fn unload_done(self, now_ms: i64) -> RuntimeView {
        RuntimeView {
            unloaded: Some(swap_path(self.cache_dir, self.cr)),
            stats: (RecorderView { memory: 0, ..self.stats.unloading(now_ms) }),
            ..self
        }
    }

    /// It has run for some time.  Where there was nothing to run, that was no
    /// activity.
    pub open spec fn ran(self, elapsed_ms: u64, outcome: RunOutcome) -> RuntimeView {
        RuntimeView {
            executed_idle: sum_of(self.executed_idle, elapsed_ms),
            stats: if outcome is Unloaded {
                self.stats
            } else {
                self.stats.active(elapsed_ms)
            },
            ..self
        }
    }

    /// What is done next in a call: an unloaded operator is loaded first, and
    /// called only once it is loaded.
    pub open spec fn call_goes_on(self, event: CallEvent, step: CallStep) -> bool {
        match event {
            CallEvent::Begin => step == if self.loaded() {
                CallStep::Call
            } else {
                CallStep::LoadFirst
            },
            CallEvent::LoadEnded(Err(words)) => step == CallStep::Return(Err(words)),
            CallEvent::LoadEnded(Ok(_)) => if self.loaded() {
                step == CallStep::Call
            } else {
                step matches CallStep::Return(Err(words)) && words@
                    == "Operator is not in a loaded state"@
            },
            CallEvent::Called(result, _) => step == CallStep::Return(result),
        }
    }

    /// After something happened in a call.  The call itself took some time,
    /// whichever way it went, and may count as activity.
    pub open spec fn in_call(
        self,
        event: CallEvent,
        update_last_active: bool,
        now_ms: i64,
    ) -> RuntimeView {
        match event {
            CallEvent::Called(_, elapsed_ms) => {
                let called = RuntimeView { stats: self.stats.active(elapsed_ms), ..self };
                if update_last_active {
                    called.active(now_ms)
                } else {
                    called
                }
            },
            _ => self,
        }
    }

    /// It has failed.  Only a failure to run does not end it: it waits for the
    /// controller to give it up.
    pub open spec fn failed(self, what: Failure, words: Seq<char>, now_s: i64) -> RuntimeView {
        RuntimeView {
            ended: self.ended || what !is Run,
            stats: self.stats.failed(now_s, failure_text(self.cr.name, what, words)),
            ..self
        }
    }
}

/// One WebAssembly operator.
pub struct WasmOperatorRuntime {
    pub cr: WasmOperatorReduced,
    cache_dir: String,
    triple: String,
    unloaded: Option<String>,
    stopped: bool,
    ended: bool,
    watch_events: VecDeque<Event>,
    latest_bookmark: Option<Event>,
    last_active: i64,
    executed_idle: u64,
    stats: WasmOperatorStatisticsRecorder,
}

impl View for WasmOperatorRuntime {
    type V = RuntimeView;

    closed spec fn view(&self) -> RuntimeView {
        RuntimeView {
            cr: self.cr@,
            cache_dir: self.cache_dir@,
            triple: self.triple@,
            unloaded: opt_text(self.unloaded),
            stopped: self.stopped,
            ended: self.ended,
            queue: self.watch_events@,
            bookmark: self.latest_bookmark,
            last_active: self.last_active,
            executed_idle: self.executed_idle,
            stats: self.stats@,
        }
    }
}

impl WasmOperatorRuntime {
    /// Times are not before 1970, and so on for what has been recorded.
    pub closed spec fn wf(self) -> bool {
        &&& self.last_active >= 0
        &&& self.stats.wf()
    }

    /// Sets up an operator on this machine.  Files are kept in a directory, and of
    /// its errors so many are kept as a setting says.
    pub fn new(
        cr: WasmOperatorReduced,
        cache_dir: String,
        error_log_size: Option<&str>,
    ) -> (r: WasmOperatorRuntime)
        ensures
            r.wf(),
            exists|triple: Seq<char>|
                r@ == #[trigger] RuntimeView::fresh(
                    cr@,
                    cache_dir@,
                    triple,
                    crate::stats::error_log_size(opt_str(error_log_size)),
                ),
    {
        WasmOperatorRuntime::new_for(cr, cache_dir, host_triple(), error_log_size)
    }

    /// Sets up an operator on a kind of machine.
    pub fn new_for(
        cr: WasmOperatorReduced,
        cache_dir: String,
        triple: String,
        error_log_size: Option<&str>,
    ) -> (r: WasmOperatorRuntime)
        ensures
            r.wf(),
            r@ == RuntimeView::fresh(
                cr@,
                cache_dir@,
                triple@,
                crate::stats::error_log_size(opt_str(error_log_size)),
            ),
    {
        proof {
            reveal_strlit("");
        }
        let stats = WasmOperatorStatisticsRecorder::new(error_log_size);
        let r = WasmOperatorRuntime {
            cr,
            cache_dir,
            triple,
            unloaded: Some("".to_owned()),
            stopped: false,
            ended: false,
            watch_events: VecDeque::new(),
            latest_bookmark: None,
            last_active: 0,
            executed_idle: 0,
            stats,
        };
        assert(r@ =~= RuntimeView::fresh(
            cr@,
            cache_dir@,
            triple@,
            crate::stats::error_log_size(opt_str(error_log_size)),
        ));
        r
    }

    /// Takes a command, at the time that it is.
    pub fn handle_command(&mut self, command: WORCommand) -> (step: CommandStep)
        requires
            old(self).wf(),
        ensures
            final(self).wf(),
            exists|now_ms: i64|
                now_ms >= 0 && step == #[trigger] old(self)@.step(command, now_ms) && final(self)@
                    == old(self)@.commanded(command, now_ms),
    {
        let now: i64 = now_millis();
        self.handle_command_at(command, now)
    }

    /// Takes a command.
    pub fn handle_command_at(&mut self, command: WORCommand, now_ms: i64) -> (step: CommandStep)
        requires
            old(self).wf(),
            now_ms >= 0,
        ensures
            final(self).wf(),
            step == old(self)@.step(command, now_ms),
            final(self)@ == old(self)@.commanded(command, now_ms),
            command matches WORCommand::CheckIdle(idle_ms, execute_ms) ==> (step
                == CommandStep::Reply(true) <==> old(self)@.queue.len() == 0
                && old(self)@.unloaded is None && now_ms > old(self)@.last_active + idle_ms
                && old(self)@.executed_idle > execute_ms),
            command is CheckIdle ==> step is Reply && final(self)@ == old(self)@,
    {
        match command {
            WORCommand::StartOperator => CommandStep::Load,
            WORCommand::LoadAt(at) => CommandStep::LoadAt(at),
            WORCommand::Unload => {
                if self.watch_events.len() > 0 {
                    self.update_last_active_at(now_ms);
                    CommandStep::Done
                } else {
                    CommandStep::Unload
                }
            },
            WORCommand::Pause => {
                if self.watch_events.len() > 0 {
                    self.update_last_active_at(now_ms);
                    CommandStep::Done
                } else {
                    CommandStep::Pause
                }
            },
            WORCommand::Shutdown => CommandStep::Shutdown,
            WORCommand::ProcessWatchEvent(id, event) => {
                let bookmark = match &event {
                    WatchEvent::Bookmark(_) => true,
                    _ => false,
                };
                if bookmark {
                    self.latest_bookmark = Some((id, event));
                } else {
                    self.watch_events.push_back((id, event));
                    self.latest_bookmark = None;
                    self.stats.record_reconcile_at(now_ms);
                }
                CommandStep::Done
            },
            WORCommand::CheckIdle(idle_ms, execute_ms) => {
                let idle = self.watch_events.len() == 0 && self.is_loaded() && now_ms
                    > self.last_active && (now_ms - self.last_active) as u64 > idle_ms
                    && self.executed_idle > execute_ms;
                CommandStep::Reply(idle)
            },
        }
    }

    /// Whether there is anything to do when there is no command.
    pub fn has_work(&self) -> (r: bool)
        ensures
            r == !(self@.work() is Wait),
    {
        self.is_loaded() || self.watch_events.len() > 0
    }

    /// Takes up what there is to do when there is no command.
    pub fn next_work(&mut self) -> (work: Work)
        requires
            old(self).wf(),
        ensures
            final(self).wf(),
            work == old(self)@.work(),
            final(self)@ == old(self)@.worked(),
    {
        match self.watch_events.pop_front() {
            Some(event) => {
                assert(self@ =~= old(self)@.worked());
                Work::Deliver(event, true)
            },
            None => {
                if !self.is_loaded() {
                    return Work::Wait;
                }
                let bookmark = self.latest_bookmark.take();
                assert(self@ =~= old(self)@.worked());
                match bookmark {
                    Some(event) => Work::Deliver(event, false),
                    None => Work::Run,
                }
            },
        }
    }

    /// Whether the operator is in memory.
    pub fn is_loaded(&self) -> (r: bool)
        ensures
            r == self@.loaded(),
    {
        self.unloaded.is_none()
    }

    /// Whether the operator has been told to stop.
    pub fn is_stopped(&self) -> (r: bool)
        ensures
            r == self@.stopped,
    {
        self.stopped
    }

    /// Whether the operator takes no more commands.
    pub fn has_ended(&self) -> (r: bool)
        ensures
            r == (self@.stopped || self@.ended),
            r == self@.is_over(),
    {
        self.stopped || self.ended
    }

    /// Tells the operator to stop.
    pub fn stop_execution(&mut self)
        requires
            old(self).wf(),
        ensures
            final(self).wf(),
            final(self)@ == (RuntimeView { stopped: true, ..old(self)@ }),
            final(self)@ == old(self)@.told_to_stop(),
    {
        self.stopped = true;
    }

    /// Marks the operator as active now.
    pub fn update_last_active(&mut self)
        requires
            old(self).wf(),
        ensures
            final(self).wf(),
            exists|now_ms: i64| now_ms >= 0 && final(self)@ == #[trigger] old(self)@.active(now_ms),
    {
        let now: i64 = now_millis();
        self.update_last_active_at(now);
    }

    /// Marks the operator as active at a time.
    pub fn update_last_active_at(&mut self, now_ms: i64)
        requires
            old(self).wf(),
            now_ms >= 0,
        ensures
            final(self).wf(),
            final(self)@ == old(self)@.active(now_ms),
    {
        self.last_active = now_ms;
        self.executed_idle = 0;
    }

    /// Notes that the operator has failed, at the time that it is, and tells
    /// what to do about it.
    pub fn throw_fatal_error(&mut self, what: Failure, words: &str) -> (r: Fatal)
        requires
            old(self).wf(),
        ensures
            final(self).wf(),
            r.message@ == failure_text(old(self)@.cr.name, what, words@),
            r.uid@ == old(self)@.cr.uid,
            exists|now_s: i64|
                0 <= now_s <= LAST_SECOND && final(self)@ == #[trigger] old(self)@.failed(
                    what,
                    words@,
                    now_s,
                ),
    {
        let now: i64 = now_seconds();
        self.throw_fatal_error_at(what, words, now)
    }

    /// Notes that the operator has failed, and tells what to do about it.
    pub fn throw_fatal_error_at(&mut self, what: Failure, words: &str, now_s: i64) -> (r: Fatal)
        requires
            old(self).wf(),
            0 <= now_s <= LAST_SECOND,
        ensures
            final(self).wf(),
            r.message@ == failure_text(old(self)@.cr.name, what, words@),
            r.uid@ == old(self)@.cr.uid,
            final(self)@ == old(self)@.failed(what, words@, now_s),
    {
        let message = match what {
            Failure::Start => "Failed to start operator: ".to_owned().concat(words),
            Failure::Unload => "Failed to unload: ".to_owned().concat(words),
            Failure::Pause => "Failed to pause: ".to_owned().concat(words),
            Failure::Event => "Operator '".to_owned().concat(self.cr.name.as_str()).concat(
                "' crashed during watch event processing: ",
            ).concat(words),
            Failure::Run => "Operator '".to_owned().concat(self.cr.name.as_str()).concat(
                "' crashed during run loop: ",
            ).concat(words),
        };
        self.stats.record_error_at(now_s, message.as_str());
        match what {
            Failure::Run => {},
            _ => {
                self.ended = true;
            },
        }
        Fatal { message, uid: self.cr.uid.clone() }
    }

    /// Notes that the operator has run for some time, and tells whether it can
    /// go on.
    pub fn run_until_stalled(&mut self, elapsed_ms: u64, outcome: RunOutcome) -> (r: Result<
        (),
        String,
    >)
        requires
            old(self).wf(),
        ensures
            final(self).wf(),
            final(self)@ == old(self)@.ran(elapsed_ms, outcome),
            match outcome {
                RunOutcome::Unloaded | RunOutcome::Stalled => r is Ok,
                RunOutcome::Trapped(words) => r is Err && r->Err_0@ == failure_text(
                    old(self)@.cr.name,
                    Failure::Run,
                    words@,
                ),
                RunOutcome::Panicked(words) => r is Err && r->Err_0@ == "Blocking task for operator '"@
                    + old(self)@.cr.name + "' panicked or failed: "@ + words@,
            },
            match run_ended(old(self)@.cr.name, outcome) {
                Ok(_) => r is Ok,
                Err(words) => r is Err && (r->Err_0)@ == words,
            },
    {
        self.executed_idle = plus(self.executed_idle, elapsed_ms);
        match &outcome {
            RunOutcome::Unloaded => {},
            _ => {
                self.stats.record_active(elapsed_ms);
            },
        }
        match outcome {
            RunOutcome::Unloaded => Ok(()),
            RunOutcome::Stalled => Ok(()),
            RunOutcome::Trapped(words) => Err(
                "Operator '".to_owned().concat(self.cr.name.as_str()).concat(
                    "' crashed during run loop: ",
                ).concat(words.as_str()),
            ),
            RunOutcome::Panicked(words) => Err(
                "Blocking task for operator '".to_owned().concat(self.cr.name.as_str()).concat(
                    "' panicked or failed: ",
                ).concat(words.as_str()),
            ),
        }
    }

    /// Takes a call of the operator one step further, at the time that it is.
    pub fn execute_via_wit(&mut self, event: CallEvent, update_last_active: bool) -> (step: CallStep)
        requires
            old(self).wf(),
        ensures
            final(self).wf(),
            old(self)@.call_goes_on(event, step),
            exists|now_ms: i64|
                now_ms >= 0 && final(self)@ == #[trigger] old(self)@.in_call(
                    event,
                    update_last_active,
                    now_ms,
                ),
    {
        let now: i64 = now_millis();
        self.execute_via_wit_at(event, update_last_active, now)
    }

    /// Takes a call of the operator one step further.
    pub fn execute_via_wit_at(
        &mut self,
        event: CallEvent,
        update_last_active: bool,
        now_ms: i64,
    ) -> (step: CallStep)
        requires
            old(self).wf(),
            now_ms >= 0,
        ensures
            final(self).wf(),
            old(self)@.call_goes_on(event, step),
            final(self)@ == old(self)@.in_call(event, update_last_active, now_ms),
    {
        match event {
            CallEvent::Begin => {
                if self.is_loaded() {
                    CallStep::Call
                } else {
                    CallStep::LoadFirst
                }
            },
            CallEvent::LoadEnded(Err(words)) => CallStep::Return(Err(words)),
            CallEvent::LoadEnded(Ok(_)) => {
                if self.is_loaded() {
                    CallStep::Call
                } else {
                    CallStep::Return(Err("Operator is not in a loaded state".to_owned()))
                }
            },
            CallEvent::Called(result, elapsed_ms) => {
                self.stats.record_active(elapsed_ms);
                if update_last_active {
                    self.update_last_active_at(now_ms);
                }
                CallStep::Return(result)
            },
        }
    }

    /// Notes that a load begins, at the time that it is.
    pub fn begin_load(&mut self) -> (r: Option<String>)
        requires
            old(self).wf(),
        ensures
            final(self).wf(),
            opt_text(r) == old(self)@.unloaded,
            exists|now_ms: i64|
                now_ms >= 0 && final(self)@ == #[trigger] old(self)@.load_begun(now_ms),
    {
        let now: i64 = now_millis();
        self.begin_load_at(now)
    }

    /// Where the operator is not loaded, notes that a load begins and tells the
    /// file that its memory may be in.
    pub fn begin_load_at(&mut self, now_ms: i64) -> (r: Option<String>)
        requires
            old(self).wf(),
            now_ms >= 0,
        ensures
            final(self).wf(),
            opt_text(r) == old(self)@.unloaded,
            final(self)@ == old(self)@.load_begun(now_ms),
    {
        if !self.is_loaded() {
            self.stats.record_loading_operation_at(now_ms);
        }
        crate::text::opt_clone(&self.unloaded)
    }

    /// Notes that a load has failed.
    pub fn load_failed(&mut self)
        requires
            old(self).wf(),
        ensures
            final(self).wf(),
            final(self)@ == old(self)@.load_failed(),
    {
        self.stats.record_load_failed();
        self.stats.record_memory_usage(0);
    }

    /// Notes that the operator is now loaded, how long that took, and how much
    /// memory its instance uses.
    pub fn load_completed(&mut self, duration_ms: u64, instance_bytes: u64)
        requires
            old(self).wf(),
        ensures
            final(self).wf(),
            exists|now_ms: i64|
                now_ms >= 0 && final(self)@ == #[trigger] old(self)@.load_done(
                    now_ms,
                    (duration_ms % 0x1_0000_0000) as u32,
                    instance_bytes,
                ),
    {
        let now: i64 = now_millis();
        self.load_completed_at(duration_ms, instance_bytes, now);
    }

    /// Notes that the operator is now loaded, how long that took, and how much
    /// memory its instance uses.
    pub fn load_completed_at(&mut self, duration_ms: u64, instance_bytes: u64, now_ms: i64)
        requires
            old(self).wf(),
            now_ms >= 0,
        ensures
            final(self).wf(),
            final(self)@ == old(self)@.load_done(
                now_ms,
                (duration_ms % 0x1_0000_0000) as u32,
                instance_bytes,
            ),
    {
        self.unloaded = None;
        self.update_last_active_at(now_ms);
        let duration: u32 = (duration_ms % 0x1_0000_0000) as u32;
        self.stats.record_load_duration(duration);
        self.stats.record_loaded_at(now_ms);
        self.stats.record_memory_usage(to_u32(instance_bytes));
    }

    /// Whether there is anything to unload; if so, the file to write the memory
    /// to.
    pub fn begin_unload(&self) -> (r: Option<String>)
        ensures
            opt_text(r) == (if self@.loaded() {
                Some(swap_path(self@.cache_dir, self@.cr))
            } else {
                None
            }),
            opt_text(r) == self@.unloads_to(),
    {
        if self.is_loaded() {
            Some(self.get_swap_path())
        } else {
            None
        }
    }

    /// Notes how large the file is that the memory was written to.
    pub fn snapshot_written(&mut self, bytes: u64)
        requires
            old(self).wf(),
        ensures
            final(self).wf(),
            final(self)@ == old(self)@.measured(bytes),
    {
        self.stats.record_memory_usage(to_u32(bytes));
    }

    /// Notes that the operator is now unloaded.
    pub fn unload_completed(&mut self)
        requires
            old(self).wf(),
        ensures
            final(self).wf(),
            exists|now_ms: i64|
                now_ms >= 0 && final(self)@ == #[trigger] old(self)@.unload_done(now_ms),
    {
        let now: i64 = now_millis();
        self.unload_completed_at(now);
    }

    /// Notes that the operator is now unloaded.
    pub fn unload_completed_at(&mut self, now_ms: i64)
        requires
            old(self).wf(),
            now_ms >= 0,
        ensures
            final(self).wf(),
            final(self)@ == old(self)@.unload_done(now_ms),
    {
        self.unloaded = Some(self.get_swap_path());
        self.stats.record_unloading_operation_at(now_ms);
        self.stats.record_memory_usage(0);
    }

    /// The file that the memory of the operator is kept in while it is unloaded.
    pub fn get_swap_path(&self) -> (s: String)
        ensures
            s@ == swap_path(self@.cache_dir, self@.cr),
    {
        let generation: i64 = match self.cr.generation {
            Some(g) => g,
            None => 0,
        };
        self.cache_dir.clone().concat("/memory/").concat(self.cr.uid.as_str()).concat("_").concat(
            i64_text(generation).as_str(),
        ).concat(".mem")
    }

    /// The file that the compiled component is kept in.
    pub fn get_cache_path(&self) -> (s: String)
        ensures
            s@ == self@.cache_path(),
    {
        self.cache_stem().concat(".cwasm")
    }

    /// The file that the compiled component is kept in, and the one that it is
    /// first written to.
    pub fn get_cache_paths(&self) -> (paths: (String, String))
        ensures
            paths.0@ == self@.cache_path(),
            paths.1@ == self@.temp_path(),
    {
        (
            self.get_cache_path(),
            self.cache_stem().concat(".").concat(self.cr.uid.as_str()).concat(".tmp"),
        )
    }

    fn cache_stem(&self) -> (s: String)
        ensures
            s@ == cache_stem(self@.cache_dir, self@.cr, self@.triple),
    {
        proof {
            reveal_strlit("");
        }
        let hash = match &self.cr.wasm_hash {
            Some(hash) => hash.clone(),
            None => "".to_owned(),
        };
        assert(hash@ =~= (match self@.cr.wasm_hash {
            Some(hash) => hash,
            None => Seq::empty(),
        }));
        self.cache_dir.clone().concat("/binaries/").concat(hash.as_str()).concat("_").concat(
            self.triple.as_str(),
        )
    }

    /// How to begin to get at the compiled component: where the source is not
    /// known yet, it is read first.
    pub fn begin_component(&self) -> (r: ComponentPhase)
        ensures
            r == (if self@.cr.wasm_hash is None {
                ComponentPhase::ReadSource
            } else {
                ComponentPhase::LookInCache
            }),
            r == self@.first_phase(),
    {
        if self.cr.wasm_hash.is_none() {
            ComponentPhase::ReadSource
        } else {
            ComponentPhase::LookInCache
        }
    }

    /// Notes what the source of the component is.
    pub fn source_read(&mut self, bytes: &Vec<u8>)
        requires
            old(self).wf(),
        ensures
            final(self).wf(),
            final(self)@ == (RuntimeView {
                cr: (ReducedView { wasm_hash: Some(blake3_text(bytes@)), ..old(self)@.cr }),
                ..old(self)@
            }),
            final(self)@ == old(self)@.hashed(blake3_text(bytes@)),
    {
        self.set_wasm_hash(blake3_hex(bytes));
    }

    /// Notes the hash of the source of the component.
    pub fn set_wasm_hash(&mut self, hash: String)
        requires
            old(self).wf(),
        ensures
            final(self).wf(),
            final(self)@ == (RuntimeView {
                cr: (ReducedView { wasm_hash: Some(hash@), ..old(self)@.cr }),
                ..old(self)@
            }),
            final(self)@ == old(self)@.hashed(hash@),
    {
        self.cr.wasm_hash = Some(hash);
    }

    /// The arguments that the operator is given.
    pub fn guest_args(&self) -> (r: Vec<String>)
        ensures
            r@ == self@.cr.args,
    {
        clone_texts(&self.cr.args)
    }

    /// The environment variables that the operator is given, each a name and a
    /// value.
    pub fn guest_env(&self) -> (r: Vec<(String, String)>)
        ensures
            r@ == self@.cr.env.map_values(|e: EnvironmentVariable| (e.name, e.value)),
            r@.len() == self@.cr.env.len(),
            forall|i: int|
                0 <= i < r@.len() ==> (#[trigger] r@[i]).0 == self@.cr.env[i].name && r@[i].1
                    == self@.cr.env[i].value,
    {
        let mut r: Vec<(String, String)> = Vec::new();
        let mut i: usize = 0;
        while i < self.cr.env.len()
            invariant
                i <= self.cr.env@.len(),
                r@ == self.cr.env@.take(i as int).map_values(
                    |e: EnvironmentVariable| (e.name, e.value),
                ),
            decreases self.cr.env@.len() - i,
        {
            r.push((self.cr.env[i].name.clone(), self.cr.env[i].value.clone()));
            i = i + 1;
            assert(r@ =~= self.cr.env@.take(i as int).map_values(
                |e: EnvironmentVariable| (e.name, e.value),
            ));
        }
        assert(self.cr.env@.take(i as int) =~= self.cr.env@);
        r
    }

    /// Whether an operator counts as idle: it does where it was asked and has
    /// said so in time.
    pub fn is_idle(asked: bool, reply: Option<bool>) -> (r: bool)
        ensures
            r == (asked && reply == Some(true)),
            r == counts_as_idle(asked, reply),
    {
        asked && match reply {
            Some(idle) => idle,
            None => false,
        }
    }

    /// The times of the last reconciles, oldest first.
    pub fn get_reconcile_history(&self) -> (r: Vec<i64>)
        ensures
            r@ == self@.stats.history,
    {
        self.stats.get_recent_reconcile_history()
    }

    /// The status to report, as of now.  The memory that the instance uses is
    /// told where there is one and it was looked at; else what is known of it
    /// stands.
    pub fn status(
        &mut self,
        state: WasmOperatorState,
        owner: Option<String>,
        instance_bytes: Option<u64>,
    ) -> (r: WasmOperatorStatus)
        requires
            old(self).wf(),
        ensures
            final(self).wf(),
            final(self)@ == old(self)@.reported(instance_bytes),
            0 <= r.last_updated <= LAST_NANO,
            final(self)@.status_is(state, owner, r.last_updated, r),
            instance_bytes matches Some(bytes) ==> r.statistics->0.memory_usage_bytes == in_u32(
                bytes,
            ),
    {
        let now: i128 = now_nanos();
        self.status_at(state, owner, instance_bytes, now)
    }

    /// The status to report, as of a time in nanoseconds since the start of
    /// 1970.
    pub fn status_at(
        &mut self,
        state: WasmOperatorState,
        owner: Option<String>,
        instance_bytes: Option<u64>,
        now_ns: i128,
    ) -> (r: WasmOperatorStatus)
        requires
            old(self).wf(),
            0 <= now_ns <= LAST_NANO,
        ensures
            final(self).wf(),
            final(self)@ == old(self)@.reported(instance_bytes),
            final(self)@.status_is(state, owner, now_ns, r),
            instance_bytes matches Some(bytes) ==> r.statistics->0.memory_usage_bytes == in_u32(
                bytes,
            ),
    {
        match instance_bytes {
            Some(bytes) => {
                self.stats.record_memory_usage(to_u32(bytes));
            },
            None => {},
        }
        WasmOperatorStatus {
            state,
            last_updated: now_ns,
            observed_generation: self.cr.generation,
            owner,
            statistics: Some(self.stats.get_statistics_at(to_millis(now_ns))),
        }
    }
}

impl RuntimeView {
    /// The status of an operator at a time.
    pub open spec fn status_is(
        self,
        state: WasmOperatorState,
        owner: Option<String>,
        now_ns: i128,
        r: WasmOperatorStatus,
    ) -> bool {
        &&& r.state == state
        &&& r.last_updated == now_ns
        &&& r.observed_generation == self.cr.generation
        &&& r.owner == owner
        &&& r.statistics is Some
        &&& self.stats.reported_as(millis_of(now_ns), r.statistics->0)
    }
}

/// How many nanoseconds go by between two reports that are not forced.
pub const STATUS_PATCH_THROTTLE_NANOS: u128 = 5_000_000_000;

/// Whether a status is reported, so many nanoseconds after the last one.
pub open spec fn report_due(force: bool, elapsed_nanos: u128) -> bool {
    force || elapsed_nanos > STATUS_PATCH_THROTTLE_NANOS
}

/// Whether a status is reported, so many nanoseconds after the last one.
pub fn patch_due(force: bool, elapsed_nanos: u128) -> (r: bool)
    ensures
        r == (force || elapsed_nanos > STATUS_PATCH_THROTTLE_NANOS),
        r == report_due(force, elapsed_nanos),
{
    force || elapsed_nanos > STATUS_PATCH_THROTTLE_NANOS
}

/// How long to wait until a time; a time that has come or gone is not waited for.
pub open spec fn delay_of(at: int, now: int) -> Option<int> {
    if at > now {
        Some(at - now)
    } else {
        None
    }
}

/// Whether an operator counts as idle, by whether it was asked and by what it has
/// said in time.
pub open spec fn counts_as_idle(asked: bool, reply: Option<bool>) -> bool {
    asked && reply == Some(true)
}

/// How a run ends: one that has crashed, or whose thread failed, is an error.
pub open spec fn run_ended(name: Seq<char>, outcome: RunOutcome) -> Result<(), Seq<char>> {
    match outcome {
        RunOutcome::Unloaded | RunOutcome::Stalled => Ok(()),
        RunOutcome::Trapped(words) => Err(failure_text(name, Failure::Run, words@)),
        RunOutcome::Panicked(words) => Err(
            "Blocking task for operator '"@ + name + "' panicked or failed: "@ + words@,
        ),
    }
}

impl RuntimeView {
    /// It has been told to stop.
    pub open spec fn told_to_stop(self) -> RuntimeView {
        RuntimeView { stopped: true, ..self }
    }

    /// Whether it takes no more commands.
    pub open spec fn is_over(self) -> bool {
        self.stopped || self.ended
    }

    /// The file that its memory is written to when it is unloaded, where there is
    /// anything to unload.
    pub open spec fn unloads_to(self) -> Option<Seq<char>> {
        if self.loaded() {
            Some(swap_path(self.cache_dir, self.cr))
        } else {
            None
        }
    }

    /// How to begin to get at its compiled component.
    pub open spec fn first_phase(self) -> ComponentPhase {
        if self.cr.wasm_hash is None {
            ComponentPhase::ReadSource
        } else {
            ComponentPhase::LookInCache
        }
    }

    /// The hash of its source is known.
    pub open spec fn hashed(self, hash: Seq<char>) -> RuntimeView {
        RuntimeView { cr: (ReducedView { wasm_hash: Some(hash), ..self.cr }), ..self }
    }
}

/// How long to wait until a time to load at, in seconds and nanoseconds.  A time
/// that has come or gone is no reason to load.  Times are in nanoseconds since
/// the start of 1970.
pub fn load_delay(at: i128, now: i128) -> (r: Option<(u64, u32)>)
    requires
        at - now <= u64::MAX * 1_000_000_000,
    ensures
        r is Some <==> at > now,
        r matches Some((secs, nanos)) ==> nanos < 1_000_000_000 && secs * 1_000_000_000 + nanos
            == at - now,
        match (delay_of(at as int, now as int), r) {
            (Some(wait), Some((secs, nanos))) => nanos < 1_000_000_000 && wait == secs
                * 1_000_000_000 + nanos,
            (None, None) => true,
            _ => false,
        },
{
    if at > now {
        let wait: i128 = at - now;
        let secs: u64 = (wait / 1_000_000_000) as u64;
        let nanos: u32 = (wait % 1_000_000_000) as u32;
        Some((secs, nanos))
    } else {
        None
    }
}

/// What can happen to an operator between two failures.
pub enum Happening {
    Command(WORCommand, i64),
    Work,
    Active(i64),
    LoadBegun(i64),
    LoadFailed,
    Loaded(i64, u32, u64),
    SnapshotWritten(u64),
    Reported(Option<u64>),
    Unloaded(i64),
    Ran(u64, RunOutcome),
    InCall(CallEvent, bool, i64),
}

impl RuntimeView {
    /// After something has happened.
    pub open spec fn following(self, what: Happening) -> RuntimeView {
        match what {
            Happening::Command(command, now_ms) => self.commanded(command, now_ms),
            Happening::Work => self.worked(),
            Happening::Active(now_ms) => self.active(now_ms),
            Happening::LoadBegun(now_ms) => self.load_begun(now_ms),
            Happening::LoadFailed => self.load_failed(),
            Happening::Loaded(now_ms, duration_ms, bytes) => self.load_done(
                now_ms,
                duration_ms,
                bytes,
            ),
            Happening::SnapshotWritten(bytes) => self.measured(bytes),
            Happening::Reported(instance_bytes) => self.reported(instance_bytes),
            Happening::Unloaded(now_ms) => self.unload_done(now_ms),
            Happening::Ran(elapsed_ms, outcome) => self.ran(elapsed_ms, outcome),
            Happening::InCall(event, update_last_active, now_ms) => self.in_call(
                event,
                update_last_active,
                now_ms,
            ),
        }
    }

    /// After some things have happened, one after the other.
    pub open spec fn after(self, all: Seq<Happening>) -> RuntimeView
        decreases all.len(),
    {
        if all.len() == 0 {
            self
        } else {
            self.after(all.drop_last()).following(all.last())
        }
    }

    /// The events that have come with some happenings, but for bookmarks.
    pub open spec fn came(all: Seq<Happening>) -> Seq<Event>
        decreases all.len(),
    {
        if all.len() == 0 {
            Seq::empty()
        } else {
            let before = RuntimeView::came(all.drop_last());
            match all.last() {
                Happening::Command(WORCommand::ProcessWatchEvent(id, event), _) => if event is Bookmark {
                    before
                } else {
                    before.push((id, event))
                },
                _ => before,
            }
        }
    }

    /// The events that the operator was given with some happenings, but for
    /// bookmarks.
    pub open spec fn given(self, all: Seq<Happening>) -> Seq<Event>
        decreases all.len(),
    {
        if all.len() == 0 {
            Seq::empty()
        } else {
            let before = self.given(all.drop_last());
            match (all.last(), self.after(all.drop_last()).work()) {
                (Happening::Work, Work::Deliver(event, true)) => before.push(event),
                _ => before,
            }
        }
    }
}

/// Every event that comes is given to the operator once, in the order in which
/// they came: those that have come are those that were given and those that
/// wait.
pub proof fn no_event_is_lost(m: RuntimeView, all: Seq<Happening>)
    requires
        m.queue.len() == 0,
    ensures
        RuntimeView::came(all) == m.given(all) + m.after(all).queue,
    decreases all.len(),
{
    if all.len() > 0 {
        no_event_is_lost(m, all.drop_last());
        let before = m.after(all.drop_last());
        match all.last() {
            Happening::Command(WORCommand::ProcessWatchEvent(_, event), _) => {
                assert(RuntimeView::came(all) =~= m.given(all) + m.after(all).queue);
            },
            Happening::Work => {
                if before.queue.len() > 0 {
                    assert(before.queue =~= seq![before.queue.first()] + before.queue.drop_first());
                }
                assert(RuntimeView::came(all) =~= m.given(all) + m.after(all).queue);
            },
            _ => {
                assert(m.after(all).queue == before.queue);
            },
        }
    } else {
        assert(RuntimeView::came(all) =~= m.given(all) + m.after(all).queue);
    }
}

/// A bookmark is given to the operator only after all events that came before
/// it, never once another event has come after it, and no operator is loaded for
/// it.
pub proof fn bookmarks_come_last(m: RuntimeView, event: Event, now_ms: i64)
    ensures
        m.work() matches Work::Deliver(_, false) ==> m.queue.len() == 0 && m.loaded()
            && m.bookmark is Some,
        !(event.1 is Bookmark) ==> m.received(event, now_ms).bookmark is None,
        event.1 is Bookmark ==> m.received(event, now_ms).bookmark == Some(event)
            && m.received(event, now_ms).queue == m.queue,
{
}

impl RuntimeView {
    /// The last event that has come with some happenings, bookmarks included.
    pub open spec fn newest(all: Seq<Happening>) -> Option<Event>
        decreases all.len(),
    {
        if all.len() == 0 {
            None
        } else {
            match all.last() {
                Happening::Command(WORCommand::ProcessWatchEvent(id, event), _) => Some(
                    (id, event),
                ),
                _ => RuntimeView::newest(all.drop_last()),
            }
        }
    }
}

proof fn lemma_bookmark_is_newest(m: RuntimeView, all: Seq<Happening>)
    requires
        m.bookmark is None,
    ensures
        m.after(all).bookmark matches Some(event) ==> RuntimeView::newest(all) == Some(event)
            && event.1 is Bookmark,
    decreases all.len(),
{
    if all.len() > 0 {
        lemma_bookmark_is_newest(m, all.drop_last());
    }
}

/// Whatever has happened, a bookmark that is given to the operator is the newest
/// event that has come, and all other events have been given before it.
pub proof fn bookmarks_are_the_newest(m: RuntimeView, all: Seq<Happening>, bookmark: Event)
    requires
        m.queue.len() == 0,
        m.bookmark is None,
        m.after(all).work() == Work::Deliver(bookmark, false),
    ensures
        RuntimeView::newest(all) == Some(bookmark),
        bookmark.1 is Bookmark,
        m.given(all) == RuntimeView::came(all),
{
    lemma_bookmark_is_newest(m, all);
    no_event_is_lost(m, all);
    assert(m.given(all) + m.after(all).queue =~= m.given(all));
}

impl RuntimeView {
    /// Bookmarks and other events are kept apart.
    pub open spec fn events_apart(self) -> bool {
        &&& forall|i: int| 0 <= i < self.queue.len() ==> !((#[trigger] self.queue[i]).1 is Bookmark)
        &&& self.bookmark matches Some(event) ==> event.1 is Bookmark
    }
}

/// Whatever happens, bookmarks and other events are kept apart, and it is all
/// but bookmarks that count as activity.
pub proof fn bookmarks_are_no_activity(m: RuntimeView, what: Happening)
    requires
        m.events_apart(),
    ensures
        m.following(what).events_apart(),
        m.work() matches Work::Deliver(event, active) ==> active == !(event.1 is Bookmark),
{
}

/// An operator with events to see is neither unloaded nor paused, nor does it
/// count as idle; being told to unload or pause it counts as active.
pub proof fn operators_with_events_stay(m: RuntimeView, now_ms: i64, idle_ms: u64, execute_ms: u64)
    requires
        m.queue.len() > 0,
    ensures
        m.step(WORCommand::Unload, now_ms) is Done,
        m.step(WORCommand::Pause, now_ms) is Done,
        m.commanded(WORCommand::Unload, now_ms) == m.active(now_ms),
        m.commanded(WORCommand::Pause, now_ms) == m.active(now_ms),
        m.step(WORCommand::CheckIdle(idle_ms, execute_ms), now_ms) == CommandStep::Reply(false),
{
}

/// An operator that was active does not count as idle before the threshold has
/// gone by, nor before it has run for as long as the second one says.
pub proof fn active_operators_are_not_idle(
    m: RuntimeView,
    active_ms: i64,
    elapsed_ms: u64,
    outcome: RunOutcome,
    now_ms: i64,
    idle_ms: u64,
    execute_ms: u64,
)
    requires
        now_ms - active_ms <= idle_ms || elapsed_ms <= execute_ms,
    ensures
        !m.active(active_ms).ran(elapsed_ms, outcome).idle(idle_ms, execute_ms, now_ms),
{
}

/// An operator is called only while it is loaded: one that is not is loaded
/// first, and where that fails, that is what is returned and no call is made.
/// What the operator returns is returned as it is, and it is not called again.
pub proof fn calls_reach_loaded_operators(m: RuntimeView, event: CallEvent, step: CallStep)
    requires
        m.call_goes_on(event, step),
    ensures
        step is Call ==> m.loaded() && !(event is Called),
        step is LoadFirst ==> !m.loaded() && event is Begin,
        event is Begin ==> (step is Call || step is LoadFirst),
        event matches CallEvent::LoadEnded(Err(words)) ==> step == CallStep::Return(Err(words)),
        event matches CallEvent::LoadEnded(Ok(_)) ==> (step is Call <==> m.loaded()),
        event matches CallEvent::Called(result, _) ==> step == CallStep::Return(result),
{
}

/// A call that counts as activity does so whichever way it goes; one that does
/// not leaves alone when the operator was last active.
pub proof fn calls_count_as_activity(
    m: RuntimeView,
    result: Result<(), String>,
    elapsed_ms: u64,
    now_ms: i64,
)
    ensures
        ({
            let active = m.in_call(CallEvent::Called(result, elapsed_ms), true, now_ms);
            &&& active.last_active == now_ms
            &&& active.executed_idle == 0
            &&& active.loaded() == m.loaded()
        }),
        ({
            let quiet = m.in_call(CallEvent::Called(result, elapsed_ms), false, now_ms);
            &&& quiet.last_active == m.last_active
            &&& quiet.executed_idle == m.executed_idle
            &&& quiet.loaded() == m.loaded()
        }),
{
}

/// The memory that is reported is that of the instance: what it uses once it is
/// loaded, and none once it is unloaded or could not be loaded.
pub proof fn reported_memory_is_in_use(
    m: RuntimeView,
    now_ms: i64,
    duration_ms: u32,
    instance_bytes: u64,
)
    ensures
        m.load_done(now_ms, duration_ms, instance_bytes).stats.memory == in_u32(instance_bytes),
        m.reported(Some(instance_bytes)).stats.memory == in_u32(instance_bytes),
        m.unload_done(now_ms).stats.memory == 0,
        m.load_failed().stats.memory == 0,
{
}

/// Loading an operator that is loaded is no load: nothing is recorded of it.  Any
/// other load counts, also where it fails.
pub proof fn loaded_operators_are_not_loaded_again(m: RuntimeView, now_ms: i64)
    ensures
        m.loaded() ==> m.load_begun(now_ms) == m,
        !m.loaded() && m.stats.loads < u64::MAX ==> m.load_begun(now_ms).stats.loads
            == m.stats.loads + 1 && m.load_begun(now_ms).load_failed().stats.loads
            == m.stats.loads + 1,
{
}

/// The memory of an operator is looked for where it was last written, and
/// nothing that has happened in between has changed that.
pub proof fn memory_is_found_again(m: RuntimeView, unload_ms: i64, all: Seq<Happening>)
    requires
        m.loaded(),
        forall|i: int| 0 <= i < all.len() ==> !(#[trigger] all[i] is Loaded),
    ensures
        m.unload_done(unload_ms).after(all).unloaded == Some(swap_path(m.cache_dir, m.cr)),
        m.unload_done(unload_ms).after(all).cr == m.cr,
        m.unload_done(unload_ms).after(all).cache_dir == m.cache_dir,
    decreases all.len(),
{
    if all.len() > 0 {
        memory_is_found_again(m, unload_ms, all.drop_last());
        assert(!(all[all.len() - 1] is Loaded));
    }
}

proof fn lemma_last_mark(a: Seq<char>, x: Seq<char>, b: Seq<char>, y: Seq<char>, mark: char)
    requires
        a + seq![mark] + x == b + seq![mark] + y,
        !x.contains(mark),
        !y.contains(mark),
    ensures
        a == b,
        x == y,
{
    let p = a + seq![mark];
    let q = b + seq![mark];
    let s = p + x;
    let t = q + y;
    assert(s.len() == a.len() + 1 + x.len() && t.len() == b.len() + 1 + y.len());
    assert(s[a.len() as int] == p[a.len() as int]);
    assert(t[b.len() as int] == q[b.len() as int]);
    if a.len() < b.len() {
        let i = b.len() - p.len();
        assert(s[b.len() as int] == x[i]);
        assert(x.contains(mark));
    }
    if b.len() < a.len() {
        let i = a.len() - q.len();
        assert(t[a.len() as int] == y[i]);
        assert(y.contains(mark));
    }
    assert(s.take(a.len() as int) =~= a);
    assert(t.take(b.len() as int) =~= b);
    assert(s.skip(p.len() as int) =~= x);
    assert(t.skip(q.len() as int) =~= y);
}

/// No two operators, and no two generations of one, keep their memory in the
/// same file; no generation at all counts as 0.
pub proof fn memory_files_are_not_shared(dir: Seq<char>, a: ReducedView, b: ReducedView)
    requires
        a.uid != b.uid || a.generation_number() != b.generation_number(),
    ensures
        swap_path(dir, a) != swap_path(dir, b),
{
    if swap_path(dir, a) == swap_path(dir, b) {
        reveal_strlit("/memory/");
        reveal_strlit("_");
        reveal_strlit(".mem");
        let start = dir + "/memory/"@;
        let x = int_text(a.generation_number());
        let y = int_text(b.generation_number());
        let p = a.uid + seq!['_'] + x;
        let q = b.uid + seq!['_'] + y;
        assert("_"@ =~= seq!['_']);
        assert(swap_path(dir, a) =~= start + p + ".mem"@);
        assert(swap_path(dir, b) =~= start + q + ".mem"@);
        assert(p.len() == q.len());
        assert(swap_path(dir, a).subrange(start.len() as int, (start.len() + p.len()) as int)
            =~= p);
        assert(swap_path(dir, b).subrange(start.len() as int, (start.len() + q.len()) as int)
            =~= q);
        crate::text::lemma_int_text(a.generation_number());
        crate::text::lemma_int_text(b.generation_number());
        lemma_last_mark(a.uid, x, b.uid, y, '_');
        if a.generation_number() != b.generation_number() {
            crate::text::int_texts_differ(a.generation_number(), b.generation_number());
        }
    }
}

/// A compiled component is looked for where it was put, whatever has happened in
/// between, and by every operator of the same source, directory and kind of
/// machine.
pub proof fn components_are_found_again(m: RuntimeView, other: RuntimeView, all: Seq<Happening>)
    requires
        other.cache_dir == m.cache_dir,
        other.triple == m.triple,
        other.cr.wasm_hash == m.cr.wasm_hash,
    ensures
        m.after(all).cache_path() == m.cache_path(),
        m.after(all).temp_path() == m.temp_path(),
        other.after(all).cache_path() == m.cache_path(),
    decreases all.len(),
{
    if all.len() > 0 {
        components_are_found_again(m, other, all.drop_last());
    }
}

/// No two operators that have the same source write to the same file when they
/// compile it.
pub proof fn temp_files_are_not_shared(
    dir: Seq<char>,
    a: ReducedView,
    b: ReducedView,
    triple: Seq<char>,
)
    requires
        a.wasm_hash == b.wasm_hash,
        a.uid != b.uid,
    ensures
        cache_path(dir, a, triple) == cache_path(dir, b, triple),
        temp_path(dir, a, triple) != temp_path(dir, b, triple),
{
    if temp_path(dir, a, triple) == temp_path(dir, b, triple) {
        let start = cache_stem(dir, a, triple) + "."@;
        assert(temp_path(dir, a, triple).len() == start.len() + a.uid.len() + ".tmp"@.len());
        assert(temp_path(dir, b, triple).len() == start.len() + b.uid.len() + ".tmp"@.len());
        assert(temp_path(dir, a, triple).subrange(
            start.len() as int,
            (start.len() + a.uid.len()) as int,
        ) =~= a.uid);
        assert(temp_path(dir, b, triple).subrange(
            start.len() as int,
            (start.len() + b.uid.len()) as int,
        ) =~= b.uid);
    }
}

/// An operator that is not loaded and has nothing to see is left alone.
pub proof fn sleeping_operators_are_left_alone(m: RuntimeView)
    requires
        !m.loaded(),
        m.queue.len() == 0,
    ensures
        m.work() is Wait,
        m.worked() == m,
{
}

/// An operator says that it is idle exactly where it is loaded, has no event to
/// see, was last active longer ago than the first threshold and has run since for
/// longer than the second.  Being asked changes nothing.
pub proof fn idle_operators_say_so(m: RuntimeView, idle_ms: u64, execute_ms: u64, now_ms: i64)
    ensures
        m.step(WORCommand::CheckIdle(idle_ms, execute_ms), now_ms) == CommandStep::Reply(true)
            <==> m.unloaded is None && m.queue.len() == 0 && m.last_active + idle_ms < now_ms
            && execute_ms < m.executed_idle,
        m.step(WORCommand::CheckIdle(idle_ms, execute_ms), now_ms) is Reply,
        m.commanded(WORCommand::CheckIdle(idle_ms, execute_ms), now_ms) == m,
{
}

/// Nothing else counts towards being idle: not what was recorded of the operator,
/// nor a bookmark that waits, nor what the operator is.
pub proof fn nothing_else_makes_idle(
    a: RuntimeView,
    b: RuntimeView,
    idle_ms: u64,
    execute_ms: u64,
    now_ms: i64,
)
    requires
        a.unloaded is None <==> b.unloaded is None,
        a.queue.len() == 0 <==> b.queue.len() == 0,
        a.last_active == b.last_active,
        a.executed_idle == b.executed_idle,
    ensures
        a.step(WORCommand::CheckIdle(idle_ms, execute_ms), now_ms) == b.step(
            WORCommand::CheckIdle(idle_ms, execute_ms),
            now_ms,
        ),
{
}

/// An operator that is idle stays so as time goes by and for lower thresholds.
pub proof fn being_idle_lasts(
    m: RuntimeView,
    idle_ms: u64,
    execute_ms: u64,
    now_ms: i64,
    lower_idle_ms: u64,
    lower_execute_ms: u64,
    later_ms: i64,
)
    requires
        m.idle(idle_ms, execute_ms, now_ms),
        lower_idle_ms <= idle_ms,
        lower_execute_ms <= execute_ms,
        now_ms <= later_ms,
    ensures
        m.idle(lower_idle_ms, lower_execute_ms, later_ms),
{
}

/// Every command leads to what it asks for; of events that have still to be seen
/// it depends whether the operator is unloaded or paused, and of nothing else.
pub proof fn commands_are_followed(m: RuntimeView, now_ms: i64, at: i128, id: WatchId, event: WatchEvent)
    ensures
        m.step(WORCommand::StartOperator, now_ms) is Load,
        m.step(WORCommand::LoadAt(at), now_ms) == CommandStep::LoadAt(at),
        m.step(WORCommand::Shutdown, now_ms) is Shutdown,
        m.step(WORCommand::ProcessWatchEvent(id, event), now_ms) is Done,
        m.step(WORCommand::Unload, now_ms) is Unload <==> m.queue.len() == 0,
        m.step(WORCommand::Unload, now_ms) is Done <==> m.queue.len() > 0,
        m.step(WORCommand::Pause, now_ms) is Pause <==> m.queue.len() == 0,
        m.step(WORCommand::Pause, now_ms) is Done <==> m.queue.len() > 0,
        m.commanded(WORCommand::StartOperator, now_ms) == m,
        m.commanded(WORCommand::LoadAt(at), now_ms) == m,
        m.commanded(WORCommand::Shutdown, now_ms) == m,
        m.queue.len() == 0 ==> m.commanded(WORCommand::Unload, now_ms) == m && m.commanded(
            WORCommand::Pause,
            now_ms,
        ) == m,
{
}

/// A failure of a step is one of that step; steps that cannot fail, or whose
/// failure does not matter to the operator, are no failure.
pub proof fn failures_are_told_apart(step: CommandStep, work: Work)
    ensures
        step.failing() == Some(Failure::Start) <==> step is Load,
        step.failing() == Some(Failure::Unload) <==> step is Unload,
        step.failing() == Some(Failure::Pause) <==> step is Pause,
        step.failing() is None <==> step is Done || step is LoadAt || step is Shutdown || step
            is Reply,
        work.failing() == Some(Failure::Event) <==> work is Deliver,
        work.failing() == Some(Failure::Run) <==> work is Run,
        work.failing() is None <==> work is Wait,
{
}

/// An event that is no bookmark is seen last of those that wait, makes a bookmark
/// that waits useless, and counts as a reconcile.  A bookmark takes the place of
/// the one before and changes nothing else.
pub proof fn events_wait_their_turn(m: RuntimeView, event: Event, now_ms: i64, i: int)
    ensures
        ({
            let next = m.commanded(WORCommand::ProcessWatchEvent(event.0, event.1), now_ms);
            &&& !(event.1 is Bookmark) ==> {
                &&& next.queue.len() == m.queue.len() + 1
                &&& next.queue[m.queue.len() as int] == event
                &&& 0 <= i < m.queue.len() ==> next.queue[i] == m.queue[i]
                &&& next.bookmark is None
                &&& next.stats.history.len() > 0
                &&& next.stats.history.last() == now_ms
                &&& m.stats.reconcile_total < u64::MAX ==> next.stats.reconcile_total == m.stats.reconcile_total + 1
            }
            &&& event.1 is Bookmark ==> {
                &&& next.bookmark == Some(event)
                &&& next.queue == m.queue
                &&& next.stats == m.stats
            }
            &&& next.unloaded == m.unloaded
            &&& next.cr == m.cr
            &&& next.cache_dir == m.cache_dir
            &&& next.triple == m.triple
            &&& next.stopped == m.stopped
            &&& next.ended == m.ended
            &&& next.last_active == m.last_active
            &&& next.executed_idle == m.executed_idle
        }),
{
}

/// The event that came first is given first, whether the operator is loaded or
/// not; a bookmark is given to a loaded operator alone, and only where no event
/// waits; a loaded operator for which there is nothing runs.
pub proof fn work_is_taken_up_in_order(m: RuntimeView, event: Event)
    ensures
        m.work() == Work::Deliver(event, true) <==> m.queue.len() > 0 && m.queue[0] == event,
        m.work() == Work::Deliver(event, false) <==> m.queue.len() == 0 && m.unloaded is None
            && m.bookmark == Some(event),
        m.work() is Run <==> m.queue.len() == 0 && m.unloaded is None && m.bookmark is None,
        m.work() is Wait <==> m.queue.len() == 0 && m.unloaded is Some,
        m.queue.len() > 0 ==> m.worked().queue.len() == m.queue.len() - 1 && m.worked().bookmark
            == m.bookmark,
        forall|i: int|
            0 < i < m.queue.len() ==> m.worked().queue[i - 1] == #[trigger] m.queue[i],
        m.queue.len() == 0 ==> m.worked().queue.len() == 0,
        m.queue.len() == 0 && m.unloaded is None ==> m.worked().bookmark is None,
        m.queue.len() == 0 && m.unloaded is Some ==> m.worked() == m,
        m.worked().stats == m.stats,
        m.worked().unloaded == m.unloaded,
        m.worked().cr == m.cr,
        m.worked().cache_dir == m.cache_dir,
        m.worked().triple == m.triple,
        m.worked().stopped == m.stopped,
        m.worked().ended == m.ended,
        m.worked().last_active == m.last_active,
        m.worked().executed_idle == m.executed_idle,
{
}

impl RuntimeView {
    /// Two states differ at most in what was recorded, in whether the operator is
    /// loaded and in when it was active.
    pub open spec fn same_but_for_running(self, other: RuntimeView) -> bool {
        &&& self.cr == other.cr
        &&& self.cache_dir == other.cache_dir
        &&& self.triple == other.triple
        &&& self.stopped == other.stopped
        &&& self.queue == other.queue
        &&& self.bookmark == other.bookmark
    }
}

/// Being loaded, unloaded, measured, run or called never touches what the
/// operator is, where its files are, or what it has still to see.
pub proof fn events_outlive_loads(
    m: RuntimeView,
    now_ms: i64,
    duration_ms: u32,
    bytes: u64,
    seen: Option<u64>,
    outcome: RunOutcome,
    call: CallEvent,
    update: bool,
    what: Failure,
    words: Seq<char>,
)
    ensures
        m.active(now_ms).same_but_for_running(m),
        m.load_begun(now_ms).same_but_for_running(m),
        m.load_failed().same_but_for_running(m),
        m.load_done(now_ms, duration_ms, bytes).same_but_for_running(m),
        m.measured(bytes).same_but_for_running(m),
        m.reported(seen).same_but_for_running(m),
        m.unload_done(now_ms).same_but_for_running(m),
        m.ran(bytes, outcome).same_but_for_running(m),
        m.in_call(call, update, now_ms).same_but_for_running(m),
        m.failed(what, words, now_ms).same_but_for_running(m),
        m.active(now_ms).ended == m.ended,
        m.load_begun(now_ms).ended == m.ended,
        m.load_failed().ended == m.ended,
        m.load_done(now_ms, duration_ms, bytes).ended == m.ended,
        m.measured(bytes).ended == m.ended,
        m.reported(seen).ended == m.ended,
        m.unload_done(now_ms).ended == m.ended,
        m.ran(bytes, outcome).ended == m.ended,
        m.in_call(call, update, now_ms).ended == m.ended,
{
}

/// An operator is in memory from the end of a load to the end of an unload, and
/// nothing else loads or unloads it.
pub proof fn loads_and_unloads_alone_count(
    m: RuntimeView,
    now_ms: i64,
    duration_ms: u32,
    bytes: u64,
    seen: Option<u64>,
    outcome: RunOutcome,
    call: CallEvent,
    update: bool,
    what: Failure,
    words: Seq<char>,
)
    ensures
        m.load_done(now_ms, duration_ms, bytes).unloaded is None,
        m.unload_done(now_ms).unloaded is Some,
        m.active(now_ms).unloaded == m.unloaded,
        m.load_begun(now_ms).unloaded == m.unloaded,
        m.load_failed().unloaded == m.unloaded,
        m.measured(bytes).unloaded == m.unloaded,
        m.reported(seen).unloaded == m.unloaded,
        m.ran(bytes, outcome).unloaded == m.unloaded,
        m.in_call(call, update, now_ms).unloaded == m.unloaded,
        m.failed(what, words, now_ms).unloaded == m.unloaded,
{
}

/// An operator is active when it is said to be and at the end of a load; being
/// unloaded, measured or failing to load is no activity, and a run counts as the
/// time that it took.
pub proof fn activity_is_what_counts_as_such(
    m: RuntimeView,
    now_ms: i64,
    duration_ms: u32,
    bytes: u64,
    elapsed_ms: u64,
    outcome: RunOutcome,
)
    ensures
        m.active(now_ms).last_active == now_ms,
        m.active(now_ms).executed_idle == 0,
        m.active(now_ms).stats == m.stats,
        m.load_done(now_ms, duration_ms, bytes).last_active == now_ms,
        m.load_done(now_ms, duration_ms, bytes).executed_idle == 0,
        m.load_begun(now_ms).last_active == m.last_active,
        m.load_begun(now_ms).executed_idle == m.executed_idle,
        m.load_failed().last_active == m.last_active,
        m.load_failed().executed_idle == m.executed_idle,
        m.unload_done(now_ms).last_active == m.last_active,
        m.unload_done(now_ms).executed_idle == m.executed_idle,
        m.measured(bytes).last_active == m.last_active,
        m.measured(bytes).executed_idle == m.executed_idle,
        m.ran(elapsed_ms, outcome).last_active == m.last_active,
        m.executed_idle + elapsed_ms <= u64::MAX ==> m.ran(elapsed_ms, outcome).executed_idle
            == m.executed_idle + elapsed_ms,
        outcome is Unloaded ==> m.ran(elapsed_ms, outcome).stats == m.stats,
        !(outcome is Unloaded) && m.stats.active_total_ms + elapsed_ms <= u64::MAX ==> m.ran(
            elapsed_ms,
            outcome,
        ).stats.active_total_ms == m.stats.active_total_ms + elapsed_ms,
{
}

/// Until a call has been made nothing changes; once it was, the time that it took
/// counts as active.
pub proof fn calls_take_their_time(
    m: RuntimeView,
    result: Result<(), String>,
    loaded: Result<(), String>,
    elapsed_ms: u64,
    update: bool,
    now_ms: i64,
)
    ensures
        m.in_call(CallEvent::Begin, update, now_ms) == m,
        m.in_call(CallEvent::LoadEnded(loaded), update, now_ms) == m,
        m.stats.active_total_ms + elapsed_ms <= u64::MAX ==> m.in_call(
            CallEvent::Called(result, elapsed_ms),
            update,
            now_ms,
        ).stats.active_total_ms == m.stats.active_total_ms + elapsed_ms,
{
}

/// Measured memory is reported as it is, as far as the report can hold it, and
/// measuring it touches nothing else that was recorded.
pub proof fn memory_is_reported_as_measured(m: RuntimeView, bytes: u64, other: u64)
    ensures
        bytes <= u32::MAX ==> in_u32(bytes) == bytes,
        bytes >= u32::MAX ==> in_u32(bytes) == u32::MAX,
        bytes <= other ==> in_u32(bytes) <= in_u32(other),
        bytes <= u32::MAX ==> m.measured(bytes).stats.memory == bytes,
        bytes <= u32::MAX ==> m.reported(Some(bytes)).stats.memory == bytes,
        m.reported(None) == m,
        m.measured(bytes).stats == (RecorderView {
            memory: m.measured(bytes).stats.memory,
            ..m.stats
        }),
{
}

/// An operator that has failed takes no more commands, unless it failed to run;
/// what has ended stays so.  It is neither stopped nor unloaded by that.
pub proof fn failures_end_operators(m: RuntimeView, what: Failure, words: Seq<char>, now_s: i64)
    ensures
        m.failed(what, words, now_s).ended <==> m.ended || what is Start || what is Unload || what
            is Pause || what is Event,
        m.failed(what, words, now_s).last_active == m.last_active,
        m.failed(what, words, now_s).executed_idle == m.executed_idle,
        m.failed(what, words, now_s).stats.history == m.stats.history,
        m.failed(what, words, now_s).stats.memory == m.stats.memory,
{
}

/// What is said of a failure ends with what was said of its cause, and names the
/// operator where it crashed.  Failures of two kinds with one cause are told
/// apart by their first words.
pub proof fn failures_are_told_in_words(name: Seq<char>, words: Seq<char>)
    ensures
        forall|what: Failure|
            #![trigger failure_text(name, what, words)]
            words.is_suffix_of(failure_text(name, what, words)),
        "Failed to start operator: "@.is_prefix_of(failure_text(name, Failure::Start, words)),
        "Failed to unload: "@.is_prefix_of(failure_text(name, Failure::Unload, words)),
        "Failed to pause: "@.is_prefix_of(failure_text(name, Failure::Pause, words)),
        ("Operator '"@ + name + "' crashed during watch event processing: "@).is_prefix_of(
            failure_text(name, Failure::Event, words),
        ),
        ("Operator '"@ + name + "' crashed during run loop: "@).is_prefix_of(
            failure_text(name, Failure::Run, words),
        ),
        failure_text(name, Failure::Start, words).len() == words.len()
            + "Failed to start operator: "@.len(),
        failure_text(name, Failure::Unload, words).len() == words.len()
            + "Failed to unload: "@.len(),
        failure_text(name, Failure::Pause, words).len() == words.len() + "Failed to pause: "@.len(),
        failure_text(name, Failure::Event, words).len() == "Operator '"@.len() + name.len()
            + "' crashed during watch event processing: "@.len() + words.len(),
        failure_text(name, Failure::Run, words).len() == "Operator '"@.len() + name.len()
            + "' crashed during run loop: "@.len() + words.len(),
{
    assert forall|what: Failure|
        #![trigger failure_text(name, what, words)]
        words.is_suffix_of(failure_text(name, what, words)) by {
        let text = failure_text(name, what, words);
        assert(text.subrange(text.len() - words.len(), text.len() as int) =~= words);
    }
}

/// What is said where a step to a component fails begins with what was tried and
/// names what it was tried for; a cause is told last, where one is told.
pub proof fn faults_are_told_in_words(name: Seq<char>, words: Seq<char>)
    ensures
        ({
            let text = ComponentPhase::LookInCache.fault(name, words);
            &&& ("Failed to deserialize cached component '"@ + name).is_prefix_of(text)
            &&& ("': "@ + words).is_suffix_of(text)
        }),
        ({
            let text = ComponentPhase::Compile.fault(name, words);
            &&& ("Failed to compile WASM for operator '"@ + name).is_prefix_of(text)
            &&& ("': "@ + words).is_suffix_of(text)
        }),
        name.is_suffix_of(ComponentPhase::CreateDir.fault(name, words)),
        name.is_suffix_of(ComponentPhase::WriteTemp.fault(name, words)),
        name.is_suffix_of(ComponentPhase::Rename.fault(name, words)),
        "Failed to create cache directory structure for "@.is_prefix_of(
            ComponentPhase::CreateDir.fault(name, words),
        ),
        "Failed to write compiled cwasm to temp file for component "@.is_prefix_of(
            ComponentPhase::WriteTemp.fault(name, words),
        ),
        "Failed to rename temp file to cache path for component "@.is_prefix_of(
            ComponentPhase::Rename.fault(name, words),
        ),
        ComponentPhase::ReadSource.fault(name, words) == words,
        ComponentPhase::ReadSourceAgain.fault(name, words) == words,
{
    let look = ComponentPhase::LookInCache.fault(name, words);
    let compile = ComponentPhase::Compile.fault(name, words);
    let cause = "': "@ + words;
    assert(look.subrange(look.len() - cause.len(), look.len() as int) =~= cause);
    assert(compile.subrange(compile.len() - cause.len(), compile.len() as int) =~= cause);
}

/// What is said of a component that could not be read names its file, and after
/// it the path that it was read from.
pub proof fn unread_components_are_named(file: Seq<char>, path: Seq<char>)
    ensures
        ("Failed to read WASM file '"@ + file + "'"@).is_prefix_of(read_fault(file, path)),
        ("' from PVC path '"@ + path + "'"@).is_suffix_of(read_fault(file, path)),
{
    reveal_strlit("'");
    reveal_strlit("' from PVC path '");
    let text = read_fault(file, path);
    let head = "Failed to read WASM file '"@ + file + "'"@;
    let tail = "' from PVC path '"@ + path + "'"@;
    assert(text =~= ("Failed to read WASM file '"@ + file) + tail);
    assert(text.subrange(text.len() - tail.len(), text.len() as int) =~= tail);
    assert(text.subrange(0, head.len() as int) =~= head);
}

/// A file is looked for in its directory, with one mark between the two where the
/// directory does not end with one; one whose path says where it is, there.
pub proof fn files_are_in_their_directory(dir: Seq<char>, file: Seq<char>)
    ensures
        file.is_suffix_of(joined(dir, file)),
        file.len() > 0 && file[0] == '/' ==> joined(dir, file) == file,
        !(file.len() > 0 && file[0] == '/') ==> dir.is_prefix_of(joined(dir, file)),
        !(file.len() > 0 && file[0] == '/') && dir.len() > 0 ==> joined(dir, file)[joined(
            dir,
            file,
        ).len() - file.len() - 1] == '/',
        joined(dir, file).len() <= dir.len() + file.len() + 1,
        !(file.len() > 0 && file[0] == '/') && dir.len() > 0 && dir.last() != '/' ==> joined(
            dir,
            file,
        ).len() == dir.len() + file.len() + 1,
        dir.len() > 0 && dir.last() == '/' ==> joined(dir, file).len() <= dir.len() + file.len(),
        dir.len() == 0 ==> joined(dir, file) == file,
{
    reveal_strlit("/");
    let path = joined(dir, file);
    assert(path.subrange(path.len() - file.len(), path.len() as int) =~= file);
    if dir.len() == 0 {
        assert(dir + file =~= file);
    }
}

/// Memory, compiled components and those that are being written are kept in one
/// directory, in places and under endings of their own.
pub proof fn files_are_kept_apart(dir: Seq<char>, cr: ReducedView, triple: Seq<char>)
    ensures
        (dir + "/memory/"@ + cr.uid).is_prefix_of(swap_path(dir, cr)),
        ("_"@ + int_text(cr.generation_number()) + ".mem"@).is_suffix_of(swap_path(dir, cr)),
        (dir + "/binaries/"@).is_prefix_of(cache_path(dir, cr, triple)),
        (dir + "/binaries/"@).is_prefix_of(temp_path(dir, cr, triple)),
        ("_"@ + triple + ".cwasm"@).is_suffix_of(cache_path(dir, cr, triple)),
        ("."@ + cr.uid + ".tmp"@).is_suffix_of(temp_path(dir, cr, triple)),
        cr.wasm_hash matches Some(hash) ==> (dir + "/binaries/"@ + hash + "_"@).is_prefix_of(
            cache_path(dir, cr, triple),
        ),
        cr.wasm_hash matches Some(hash) ==> (dir + "/binaries/"@ + hash + "_"@ + triple).is_prefix_of(
            temp_path(dir, cr, triple),
        ),
        cr.generation matches Some(g) ==> cr.generation_number() == g,
        cr.generation is None ==> cr.generation_number() == 0,
{
    let swap = swap_path(dir, cr);
    let mem = "_"@ + int_text(cr.generation_number()) + ".mem"@;
    assert(swap.subrange(swap.len() - mem.len(), swap.len() as int) =~= mem);
    let cache = cache_path(dir, cr, triple);
    let cwasm = "_"@ + triple + ".cwasm"@;
    assert(cache.subrange(cache.len() - cwasm.len(), cache.len() as int) =~= cwasm);
    let temp = temp_path(dir, cr, triple);
    let tmp = "."@ + cr.uid + ".tmp"@;
    assert(temp.subrange(temp.len() - tmp.len(), temp.len() as int) =~= tmp);
    let head = dir + "/binaries/"@;
    assert(cache.subrange(0, head.len() as int) =~= head);
    assert(temp.subrange(0, head.len() as int) =~= head);
    if cr.wasm_hash is Some {
        let named = dir + "/binaries/"@ + cr.wasm_hash->0 + "_"@;
        assert(cache.subrange(0, named.len() as int) =~= named);
        let whole = named + triple;
        assert(temp.subrange(0, whole.len() as int) =~= whole);
    }
}

/// A load comes to its end whether there is memory to give back or not, which is
/// the first thing after the instance is made and is done exactly where there is
/// some; the operator runs last, once it was reported.
pub proof fn loads_come_to_an_end(snapshot_exists: bool, phase: LoadPhase)
    ensures
        phase.following(snapshot_exists) is Restore <==> phase is Instantiate && snapshot_exists,
        phase.following(snapshot_exists) is Report <==> phase is Restore || (phase is Instantiate
            && !snapshot_exists),
        phase.following(snapshot_exists) is Run <==> phase is Report,
        phase.following(snapshot_exists) is Complete <==> phase is Run || phase is Complete,
        !(phase.following(snapshot_exists) is Instantiate),
{
}

/// An unload writes the memory, measures it, reports and is done, in this order.
pub proof fn unloads_come_to_an_end(phase: UnloadPhase)
    ensures
        !(phase.following() is Snapshot),
        phase.following() is Measure <==> phase is Snapshot,
        phase.following() is Report <==> phase is Measure,
        phase.following() is Complete <==> phase is Report || phase is Complete,
{
}

/// A component from the cache is used as it is; any other is compiled, from a
/// source that was read, and is in the cache under its own name only once it has
/// been written.
pub proof fn components_come_to_an_end(
    phase: ComponentPhase,
    cache: CacheOutcome,
    source_at_hand: bool,
)
    ensures
        ({
            let next = phase.following(cache, source_at_hand);
            &&& !(next is ReadSource)
            &&& next is LookInCache <==> phase is ReadSource
            &&& next is ReadSourceAgain <==> phase is LookInCache && !(cache is Loaded)
                && !source_at_hand
            &&& next is Compile <==> phase is ReadSourceAgain || (phase is LookInCache && !(cache
                is Loaded) && source_at_hand)
            &&& next is CreateDir <==> phase is Compile
            &&& next is WriteTemp <==> phase is CreateDir
            &&& next is Rename <==> phase is WriteTemp
            &&& next is Complete <==> phase is Rename || phase is Complete || (phase is LookInCache
                && cache is Loaded)
        }),
{
}

/// An operator that was just declared is unloaded, has seen and done nothing, and
/// is active from the start of time on.
pub proof fn new_operators_have_done_nothing(
    cr: ReducedView,
    cache_dir: Seq<char>,
    triple: Seq<char>,
    limit: nat,
    now_ms: i64,
)
    ensures
        ({
            let m = RuntimeView::fresh(cr, cache_dir, triple, limit);
            &&& m.cr == cr
            &&& m.cache_dir == cache_dir
            &&& m.triple == triple
            &&& m.unloaded is Some
            &&& m.work() is Wait
            &&& !m.stopped
            &&& !m.ended
            &&& m.bookmark is None
            &&& m.last_active == 0
            &&& m.executed_idle == 0
            &&& m.stats.history.len() == 0
            &&& m.step(WORCommand::Unload, now_ms) is Unload
        }),
{
}

/// A status tells the state and the owner that it was made for, the time that it
/// was made at and the generation that runs.
pub proof fn statuses_say_what_is(
    m: RuntimeView,
    state: WasmOperatorState,
    owner: Option<String>,
    now_ns: i128,
    r: WasmOperatorStatus,
)
    requires
        m.status_is(state, owner, now_ns, r),
    ensures
        r.state == state,
        r.owner == owner,
        r.last_updated == now_ns,
        r.observed_generation == m.cr.generation,
        r.statistics is Some,
        r.statistics->0.memory_usage_bytes == m.stats.memory,
{
}

/// A status that is forced is reported at once; any other once five seconds have
/// gone by since the last, and from then on.
pub proof fn reports_are_throttled(force: bool, elapsed_nanos: u128, later_nanos: u128)
    ensures
        report_due(true, elapsed_nanos),
        report_due(false, elapsed_nanos) <==> elapsed_nanos > 5 * 1_000_000_000,
        elapsed_nanos <= later_nanos && report_due(force, elapsed_nanos) ==> report_due(
            force,
            later_nanos,
        ),
{
}

/// An operator that was loaded and yet is not is an error that says so.
pub proof fn operators_that_do_not_load_are_told(m: RuntimeView, step: CallStep)
    requires
        !m.loaded(),
        m.call_goes_on(CallEvent::LoadEnded(Ok(())), step),
    ensures
        step matches CallStep::Return(result) && result is Err && (result->Err_0)@
            == "Operator is not in a loaded state"@,
{
}

/// What runs is what was declared, in each part; its source is still to be read.
pub proof fn operators_are_what_was_declared(cr: WasmOperator)
    ensures
        ({
            let m = ReducedView::of(cr);
            &&& m.name == cr.metadata.any_name()
            &&& m.generation == cr.metadata.generation
            &&& m.uid == cr.metadata.uid->0@
            &&& m.wasm == cr.spec.wasm
            &&& m.wasm_hash is None
            &&& m.env == cr.spec.env@
            &&& m.args == cr.spec.args@
        }),
{
}

/// An operator is over once it was told to stop or has ended, and not before; being
/// told to stop leaves alone all else.
pub proof fn stopped_operators_are_over(m: RuntimeView)
    ensures
        m.told_to_stop().is_over(),
        m.told_to_stop().stopped,
        m.ended ==> m.is_over(),
        !m.stopped && !m.ended ==> !m.is_over(),
        m.told_to_stop().ended == m.ended,
        m.told_to_stop().cr == m.cr,
        m.told_to_stop().cache_dir == m.cache_dir,
        m.told_to_stop().triple == m.triple,
        m.told_to_stop().unloaded == m.unloaded,
        m.told_to_stop().queue == m.queue,
        m.told_to_stop().bookmark == m.bookmark,
        m.told_to_stop().last_active == m.last_active,
        m.told_to_stop().executed_idle == m.executed_idle,
        m.told_to_stop().stats == m.stats,
{
}

/// A run fails exactly where the operator or its thread did; what is said of that
/// names the operator and ends with the cause.
pub proof fn crashed_runs_fail(name: Seq<char>, outcome: RunOutcome, words: String)
    ensures
        run_ended(name, outcome) is Ok <==> outcome is Unloaded || outcome is Stalled,
        ({
            let trapped = run_ended(name, RunOutcome::Trapped(words));
            let panicked = run_ended(name, RunOutcome::Panicked(words));
            &&& ("Operator '"@ + name + "' crashed during run loop: "@).is_prefix_of(trapped->Err_0)
            &&& words@.is_suffix_of(trapped->Err_0)
            &&& ("Blocking task for operator '"@ + name
                + "' panicked or failed: "@).is_prefix_of(panicked->Err_0)
            &&& words@.is_suffix_of(panicked->Err_0)
        }),
{
    let trapped = run_ended(name, RunOutcome::Trapped(words))->Err_0;
    let panicked = run_ended(name, RunOutcome::Panicked(words))->Err_0;
    assert(trapped.subrange(trapped.len() - words@.len(), trapped.len() as int) =~= words@);
    assert(panicked.subrange(panicked.len() - words@.len(), panicked.len() as int) =~= words@);
}

/// There is something to unload exactly where the operator is loaded; its memory is
/// written to where it is looked for once it is unloaded.
pub proof fn memory_is_written_where_it_is_looked_for(m: RuntimeView, now_ms: i64)
    ensures
        m.unloads_to() is Some <==> m.unloaded is None,
        m.unloads_to() is Some ==> m.unloads_to() == m.unload_done(now_ms).unloaded,
        m.unload_done(now_ms).unloads_to() is None,
{
}

/// A source is read once: after that its hash is known, which changes nothing but
/// where the compiled component is kept.
pub proof fn sources_are_read_once(m: RuntimeView, hash: Seq<char>)
    ensures
        m.first_phase() is ReadSource <==> m.cr.wasm_hash is None,
        m.first_phase() is LookInCache <==> m.cr.wasm_hash is Some,
        m.hashed(hash).first_phase() is LookInCache,
        m.hashed(hash).cr.wasm_hash == Some(hash),
        m.hashed(hash).cr.name == m.cr.name,
        m.hashed(hash).cr.generation == m.cr.generation,
        m.hashed(hash).cr.uid == m.cr.uid,
        m.hashed(hash).cr.wasm == m.cr.wasm,
        m.hashed(hash).cr.env == m.cr.env,
        m.hashed(hash).cr.args == m.cr.args,
        m.hashed(hash).unloaded == m.unloaded,
        m.hashed(hash).queue == m.queue,
        m.hashed(hash).bookmark == m.bookmark,
        m.hashed(hash).stats == m.stats,
        m.hashed(hash).last_active == m.last_active,
        m.hashed(hash).executed_idle == m.executed_idle,
        m.hashed(hash).stopped == m.stopped,
        m.hashed(hash).ended == m.ended,
        m.hashed(hash).cache_dir == m.cache_dir,
        m.hashed(hash).triple == m.triple,
{
}

/// An operator that was not asked, has not answered or says no does not count as
/// idle; one that was asked and says yes does.
pub proof fn silence_is_no_idleness(reply: Option<bool>)
    ensures
        !counts_as_idle(false, reply),
        !counts_as_idle(true, None),
        !counts_as_idle(true, Some(false)),
        counts_as_idle(true, Some(true)),
{
}

/// Waiting for as long as is told ends at the time that was asked for, and there is
/// something to wait for exactly while that time is still to come.
pub proof fn waits_end_in_time(at: int, now: int)
    ensures
        delay_of(at, now) is Some <==> now < at,
        delay_of(at, now) matches Some(wait) ==> now + wait == at && wait > 0,
{
}

} // verus!
