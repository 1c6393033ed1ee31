//! An operator that multiplies the factor of a `TestResource` by how many of
//! them it has reconciled.

use crate::clock::{now_nanos, LAST_NANO};
use crate::crd::Metadata;
use vstd::prelude::*;

verus! {

/// What a `TestResource` is to be.
#[derive(Clone, Copy, Debug, PartialEq, Eq, Structural)]
pub struct TestResourceSpec {
    pub factor: i64,
}

/// What has become of a `TestResource`.  The time is in nanoseconds since the
/// start of 1970.
#[derive(Clone, Copy, Debug, PartialEq, Eq, Structural)]
pub struct TestResourceStatus {
    pub outcome: i64,
    pub observed_generation: Option<i64>,
    pub last_updated: Option<i128>,
}

/// A `TestResource`.
#[derive(Debug)]
pub struct TestResource {
    pub metadata: Metadata,
    pub spec: TestResourceSpec,
    pub status: Option<TestResourceStatus>,
}

/// Why a reconcile failed.
#[derive(Debug)]
pub enum Error {
    KubeError(String),
    SerializationError(String),
    NamespaceRequired,
}

impl Error {
    /// Says why a reconcile failed.
    pub fn text(&self) -> (s: String)
        ensures
            s@ == (match self {
                Error::KubeError(words) => "Kubernetes API error: "@ + words@,
                Error::SerializationError(words) => "Serialization error: "@ + words@,
                Error::NamespaceRequired => "Resource is missing a namespace"@,
            }),
    {
        match self {
            Error::KubeError(words) => "Kubernetes API error: ".to_owned().concat(words.as_str()),
            Error::SerializationError(words) => "Serialization error: ".to_owned().concat(
                words.as_str(),
            ),
            Error::NamespaceRequired => "Resource is missing a namespace".to_owned(),
        }
    }
}

/// When a resource is looked at next.
#[derive(Clone, Copy, Debug, PartialEq, Eq, Structural)]
pub enum Action {
    /// When it changes.
    AwaitChange,
    /// After so many seconds.
    Requeue(u64),
}

/// What a reconcile does next.
#[derive(Debug)]
pub enum ReconcileStep {
    /// It is done.
    Done(Action),
    /// Write this status to the resource of this name and namespace, then wait
    /// for a change.
    PatchStatus(String, String, TestResourceStatus),
}

/// The operator, with how many resources it has reconciled.
pub struct Data {
    counter: i64,
}

/// Whether a resource has still to be reconciled: it is not being deleted, and
/// what has become of it is not up to date.
pub open spec fn is_due(resource: TestResource) -> bool {
    &&& !resource.metadata.deleting
    &&& resource.status matches Some(status) ==> status.observed_generation
        != resource.metadata.generation
}

fn same_generation(a: Option<i64>, b: Option<i64>) -> (r: bool)
    ensures
        r == (a == b),
{
    match (a, b) {
        (Some(x), Some(y)) => x == y,
        (None, None) => true,
        _ => false,
    }
}

impl Data {
    /// How many resources have been reconciled.
    pub closed spec fn count(self) -> i64 {
        self.counter
    }

    /// An operator that has not reconciled any.
    pub fn new() -> (r: Data)
        ensures
            r.count() == 0,
    {
        Data { counter: 0 }
    }

    /// Reconciles a resource, now.
    pub fn reconcile(&mut self, resource: &TestResource) -> (r: Result<ReconcileStep, Error>)
        ensures
            exists|now_ns: i128|
                0 <= now_ns <= LAST_NANO && #[trigger] reconciled(
                    *resource,
                    now_ns,
                    old(self).count(),
                    final(self).count(),
                    r,
                ),
    {
        let now: i128 = now_nanos();
        self.reconcile_at(resource, now)
    }

    /// Reconciles a resource.
    pub fn reconcile_at(&mut self, resource: &TestResource, now_ns: i128) -> (r: Result<
        ReconcileStep,
        Error,
    >)
        ensures
            reconciled(*resource, now_ns, old(self).count(), final(self).count(), r),
    {
        let namespace = match &resource.metadata.namespace {
            Some(namespace) => namespace.clone(),
            None => {
                return Err(Error::NamespaceRequired);
            },
        };
        let name = resource.metadata.name_any();
        if resource.metadata.deleting {
            return Ok(ReconcileStep::Done(Action::AwaitChange));
        }
        match &resource.status {
            Some(status) => {
                if same_generation(status.observed_generation, resource.metadata.generation) {
                    return Ok(ReconcileStep::Done(Action::AwaitChange));
                }
            },
            None => {},
        }
        self.counter = self.counter.wrapping_add(1);
        let status = TestResourceStatus {
            outcome: resource.spec.factor.wrapping_mul(self.counter),
            observed_generation: resource.metadata.generation,
            last_updated: Some(now_ns),
        };
        Ok(ReconcileStep::PatchStatus(name, namespace, status))
    }
}

/// What a reconcile leads to, by how many there were before and after.  The
/// namespace must be known; a resource that is not due is left alone.
pub open spec fn reconciled(
    resource: TestResource,
    now_ns: i128,
    before: i64,
    after: i64,
    r: Result<ReconcileStep, Error>,
) -> bool {
    match resource.metadata.namespace {
        None => r == Err::<ReconcileStep, Error>(Error::NamespaceRequired) && after == before,
        Some(namespace) => if is_due(resource) {
            &&& after == vstd::wrapping::i64_specs::wrapping_add(before, 1)
            &&& r matches Ok(ReconcileStep::PatchStatus(name, ns, status)) && name@
                == resource.metadata.any_name() && ns@ == namespace@ && status == (
            TestResourceStatus {
                outcome: vstd::wrapping::i64_specs::wrapping_mul(resource.spec.factor, after),
                observed_generation: resource.metadata.generation,
                last_updated: Some(now_ns),
            })
        } else {
            r == Ok::<ReconcileStep, Error>(ReconcileStep::Done(Action::AwaitChange)) && after
                == before
        },
    }
}

/// How a reconcile ends whose status was to be written: well where it was, else
/// with the error.
pub fn status_patched(outcome: Result<(), String>) -> (r: Result<Action, Error>)
    ensures
        r == (match outcome {
            Ok(_) => Ok::<Action, Error>(Action::AwaitChange),
            Err(words) => Err::<Action, Error>(Error::KubeError(words)),
        }),
{
    match outcome {
        Ok(_) => Ok(Action::AwaitChange),
        Err(words) => Err(Error::KubeError(words)),
    }
}

/// When a resource is looked at again whose reconcile failed.
pub fn error_policy() -> (r: Action)
    ensures
        r == Action::Requeue(5),
{
    Action::Requeue(5)
}

/// Once its status was written, a resource is left alone until it changes.
pub proof fn reconciled_resources_are_left_alone(
    resource: TestResource,
    status: TestResourceStatus,
)
    requires
        status.observed_generation == resource.metadata.generation,
    ensures
        !is_due(TestResource { status: Some(status), ..resource }),
{
}

/// A resource is due exactly where it is not being deleted and has no status, or one
/// of another generation than its own.
pub proof fn resources_are_due_once_changed(resource: TestResource, status: TestResourceStatus)
    ensures
        resource.metadata.deleting ==> !is_due(resource),
        !resource.metadata.deleting && resource.status is None ==> is_due(resource),
        !resource.metadata.deleting && resource.status == Some(status) ==> (is_due(resource)
            <==> status.observed_generation != resource.metadata.generation),
{
}

/// A resource that is due is counted, and its status says its factor as often as
/// there were resources, its generation and the time.  It is written under its own
/// name and namespace.  One that is not due, or has no namespace, is not counted.
pub proof fn resources_are_multiplied(
    resource: TestResource,
    now_ns: i128,
    before: i64,
    after: i64,
    r: Result<ReconcileStep, Error>,
)
    requires
        reconciled(resource, now_ns, before, after, r),
    ensures
        r is Err <==> resource.metadata.namespace is None,
        r matches Err(error) ==> error is NamespaceRequired,
        resource.metadata.namespace is None || !is_due(resource) ==> after == before,
        r matches Ok(ReconcileStep::Done(action)) ==> action is AwaitChange && !is_due(resource),
        r matches Ok(ReconcileStep::PatchStatus(name, namespace, status)) ==> {
            &&& is_due(resource)
            &&& name@ == resource.metadata.any_name()
            &&& namespace@ == (resource.metadata.namespace->0)@
            &&& status.observed_generation == resource.metadata.generation
            &&& status.last_updated == Some(now_ns)
            &&& before < i64::MAX ==> after == before + 1
            &&& before < i64::MAX && i64::MIN <= resource.spec.factor * (before + 1) <= i64::MAX
                ==> status.outcome == resource.spec.factor * (before + 1)
        },
        resource.metadata.namespace is Some && is_due(resource) ==> (r matches Ok(
            ReconcileStep::PatchStatus(_, _, _),
        )),
{
}

} // verus!
