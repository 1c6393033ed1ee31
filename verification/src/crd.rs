//! The `WasmOperator` custom resource: what it asks for, and the status that
//! is reported on it.

use vstd::prelude::*;
use vstd::string::*;

verus! {

/// An environment variable of an operator.
#[derive(Debug)]
pub struct EnvironmentVariable {
    pub name: String,
    pub value: String,
}

impl Clone for EnvironmentVariable {
    fn clone(&self) -> (r: Self)
        ensures
            r == *self,
    {
        EnvironmentVariable { name: self.name.clone(), value: self.value.clone() }
    }
}

/// What the API server keeps of every object, as far as it matters here.
#[derive(Debug)]
pub struct Metadata {
    pub name: Option<String>,
    pub generate_name: Option<String>,
    pub namespace: Option<String>,
    pub uid: Option<String>,
    pub generation: Option<i64>,
    /// Whether the object is being deleted.
    pub deleting: bool,
}

impl Metadata {
    /// The name of an object: its own, else the one that its name is made from,
    /// else none.
    pub open spec fn any_name(self) -> Seq<char> {
        match (self.name, self.generate_name) {
            (Some(name), _) => name@,
            (None, Some(name)) => name@,
            (None, None) => Seq::empty(),
        }
    }

    /// Returns the most useful name that there is.
    pub fn name_any(&self) -> (s: String)
        ensures
            s@ == self.any_name(),
    {
        match (&self.name, &self.generate_name) {
            (Some(name), _) => name.clone(),
            (None, Some(name)) => name.clone(),
            (None, None) => {
                proof {
                    reveal_strlit("");
                }
                "".to_owned()
            },
        }
    }
}

/// A WebAssembly operator, as it is declared in the cluster.
#[derive(Debug)]
pub struct WasmOperator {
    pub metadata: Metadata,
    pub spec: WasmOperatorSpec,
}

/// How an operator is to be run.
#[derive(Debug)]
pub struct WasmOperatorSpec {
    pub wasm: WasmSource,
    pub env: Vec<EnvironmentVariable>,
    pub args: Vec<String>,
}

/// Where the WebAssembly component of an operator is found.
#[derive(Debug)]
pub enum WasmSource {
    /// A file in a directory that the controller can read.
    Pvc { path: String, file: String },
}

impl Clone for WasmSource {
    fn clone(&self) -> (r: Self)
        ensures
            r == *self,
    {
        match self {
            WasmSource::Pvc { path, file } => WasmSource::Pvc {
                path: path.clone(),
                file: file.clone(),
            },
        }
    }
}

/// Copies a list of environment variables.
pub fn clone_env(env: &Vec<EnvironmentVariable>) -> (r: Vec<EnvironmentVariable>)
    ensures
        r@ == env@,
{
    let mut r: Vec<EnvironmentVariable> = Vec::new();
    let mut i: usize = 0;
    while i < env.len()
        invariant
            i <= env@.len(),
            r@ == env@.take(i as int),
        decreases env@.len() - i,
    {
        r.push(env[i].clone());
        i = i + 1;
        assert(r@ =~= env@.take(i as int));
    }
    assert(env@.take(i as int) =~= env@);
    r
}

/// The status that is reported on an operator.  The time is in nanoseconds since
/// the start of 1970.
#[derive(Debug)]
pub struct WasmOperatorStatus {
    pub state: WasmOperatorState,
    pub last_updated: i128,
    pub observed_generation: Option<i64>,
    pub owner: Option<String>,
    pub statistics: Option<WasmOperatorStatistics>,
}

/// The state of an operator's life.
#[derive(Clone, Copy, Debug, PartialEq, Eq, Structural)]
pub enum WasmOperatorState {
    Unclaimed,
    Running,
    Idle,
    Paused,
    Error,
}

impl WasmOperatorState {
    /// How the state is written.
    pub open spec fn words(self) -> Seq<char> {
        match self {
            WasmOperatorState::Unclaimed => "Unclaimed"@,
            WasmOperatorState::Running => "Running"@,
            WasmOperatorState::Idle => "Idle"@,
            WasmOperatorState::Paused => "Paused"@,
            WasmOperatorState::Error => "Error"@,
        }
    }

    /// Writes the state.
    pub fn text(self) -> (s: String)
        ensures
            s@ == self.words(),
    {
        match self {
            WasmOperatorState::Unclaimed => "Unclaimed".to_owned(),
            WasmOperatorState::Running => "Running".to_owned(),
            WasmOperatorState::Idle => "Idle".to_owned(),
            WasmOperatorState::Paused => "Paused".to_owned(),
            WasmOperatorState::Error => "Error".to_owned(),
        }
    }
}

/// What has been measured of an operator.
#[derive(Debug)]
pub struct WasmOperatorStatistics {
    pub reconcile_total_24h: u32,
    /// Loads for each hundred reconciles.  More than 100 means that the operator
    /// was loaded more often, ahead of need, than it reconciled.
    pub reconcile_cold_start_ratio: u8,
    pub wasm_load_duration_msec_avg: u32,
    pub wasm_load_duration_msec_max: u32,
    /// What the instance in memory uses; 0 where there is none.
    pub memory_usage_bytes: u32,
    /// Of each hundred parts of the time loaded, those spent running.
    pub activity_ratio: u8,
    /// How long the operator was in memory without running, each time from a
    /// load to an unload.
    pub idle_duration_sec_avg: u64,
    pub idle_duration_sec_max: u64,
    /// How long the operator was running, each time that it was loaded.
    pub active_duration_sec_avg: u64,
    pub active_duration_sec_max: u64,
    pub recent_errors: Vec<String>,
}

/// An object goes by its own name wherever it has one, else by the one that its
/// name is made from.
pub proof fn own_names_come_first(m: Metadata)
    ensures
        m.name matches Some(name) ==> m.any_name() == name@,
        m.name is None ==> (m.generate_name matches Some(name) ==> m.any_name() == name@),
        m.name is None && m.generate_name is None ==> m.any_name().len() == 0,
{
}

/// States are told apart by how they are written.
pub proof fn states_are_written_apart(a: WasmOperatorState, b: WasmOperatorState)
    ensures
        a.words() == b.words() <==> a == b,
{
    reveal_strlit("Unclaimed");
    reveal_strlit("Running");
    reveal_strlit("Idle");
    reveal_strlit("Paused");
    reveal_strlit("Error");
    assert(a.words()[0] == (match a {
        WasmOperatorState::Unclaimed => 'U',
        WasmOperatorState::Running => 'R',
        WasmOperatorState::Idle => 'I',
        WasmOperatorState::Paused => 'P',
        WasmOperatorState::Error => 'E',
    }));
    assert(b.words()[0] == (match b {
        WasmOperatorState::Unclaimed => 'U',
        WasmOperatorState::Running => 'R',
        WasmOperatorState::Idle => 'I',
        WasmOperatorState::Paused => 'P',
        WasmOperatorState::Error => 'E',
    }));
}

} // verus!
