//! The interface between a WebAssembly operator and its host: the values that
//! cross it, and the Kubernetes request parameters that they turn into.

use crate::outside::{json_error, json_patch_error, parse_timestamp};
use vstd::prelude::*;
use vstd::std_specs::convert::{FromSpec, FromSpecImpl};
use vstd::string::*;

verus! {

/// Identifies a watch stream to an operator.
pub type WatchId = u64;

/// The answer of a web server that refused a request.
#[derive(Debug)]
pub struct HttpError {
    pub code: u16,
    pub reason: String,
    pub message: String,
}

/// An error as an operator gets to see it.
#[derive(Debug)]
pub enum Error {
    NotFound,
    Http(HttpError),
    Other(String),
}

/// An error by what it says.
pub enum ErrorView {
    NotFound,
    Http { code: u16, reason: Seq<char>, message: Seq<char> },
    Other(Seq<char>),
}

impl View for Error {
    type V = ErrorView;

    open spec fn view(&self) -> ErrorView {
        match self {
            Error::NotFound => ErrorView::NotFound,
            Error::Http(e) => ErrorView::Http {
                code: e.code,
                reason: e.reason@,
                message: e.message@,
            },
            Error::Other(words) => ErrorView::Other(words@),
        }
    }
}

/// An error of the Kubernetes client: the status that the API server sent, or
/// any other failure in words.
#[derive(Debug)]
pub enum KubeError {
    Api(HttpError),
    Other(String),
}

/// An error of unknown origin: one of the Kubernetes client, or any other in
/// words.
#[derive(Debug)]
pub enum AnyError {
    Kube(KubeError),
    Other(String),
}

impl From<KubeError> for Error {
    fn from(err: KubeError) -> (r: Self) {
        match err {
            KubeError::Api(status) => {
                if status.code == 404 {
                    Error::NotFound
                } else {
                    Error::Http(status)
                }
            },
            KubeError::Other(words) => Error::Other(words),
        }
    }
}

impl FromSpecImpl<KubeError> for Error {
    open spec fn obeys_from_spec() -> bool {
        true
    }

    open spec fn from_spec(err: KubeError) -> Self {
        match err {
            KubeError::Api(status) => if status.code == 404 {
                Error::NotFound
            } else {
                Error::Http(status)
            },
            KubeError::Other(words) => Error::Other(words),
        }
    }
}

impl From<AnyError> for Error {
    fn from(err: AnyError) -> (r: Self) {
        match err {
            AnyError::Kube(kube_err) => Error::from(kube_err),
            AnyError::Other(words) => Error::Other(words),
        }
    }
}

impl FromSpecImpl<AnyError> for Error {
    open spec fn obeys_from_spec() -> bool {
        true
    }

    open spec fn from_spec(err: AnyError) -> Self {
        match err {
            AnyError::Kube(kube_err) => <Error as FromSpec<KubeError>>::from_spec(kube_err),
            AnyError::Other(words) => Error::Other(words),
        }
    }
}

impl Clone for Error {
    fn clone(&self) -> (r: Self)
        ensures
            r == *self,
    {
        match self {
            Error::NotFound => Error::NotFound,
            Error::Http(e) => Error::Http(
                HttpError {
                    code: e.code,
                    reason: e.reason.clone(),
                    message: e.message.clone(),
                },
            ),
            Error::Other(words) => Error::Other(words.clone()),
        }
    }
}

/// What a watch stream brings to an operator.  Objects and bookmarks are JSON
/// text.
#[derive(Debug)]
pub enum WatchEvent {
    Added(String),
    Modified(String),
    Deleted(String),
    Bookmark(String),
    /// The last bookmark of a temporary stream, with the stream that takes its
    /// place.
    UpgradeBookmark((WatchId, String)),
    Error(Error),
}

/// A watch event by what it says.
pub enum EventView {
    Added(Seq<char>),
    Modified(Seq<char>),
    Deleted(Seq<char>),
    Bookmark(Seq<char>),
    UpgradeBookmark(WatchId, Seq<char>),
    Error(ErrorView),
}

impl View for WatchEvent {
    type V = EventView;

    open spec fn view(&self) -> EventView {
        match self {
            WatchEvent::Added(json) => EventView::Added(json@),
            WatchEvent::Modified(json) => EventView::Modified(json@),
            WatchEvent::Deleted(json) => EventView::Deleted(json@),
            WatchEvent::Bookmark(json) => EventView::Bookmark(json@),
            WatchEvent::UpgradeBookmark(next) => EventView::UpgradeBookmark(next.0, next.1@),
            WatchEvent::Error(e) => EventView::Error(e@),
        }
    }
}

impl Clone for WatchEvent {
    fn clone(&self) -> (r: Self)
        ensures
            r == *self,
    {
        match self {
            WatchEvent::Added(json) => WatchEvent::Added(json.clone()),
            WatchEvent::Modified(json) => WatchEvent::Modified(json.clone()),
            WatchEvent::Deleted(json) => WatchEvent::Deleted(json.clone()),
            WatchEvent::Bookmark(json) => WatchEvent::Bookmark(json.clone()),
            WatchEvent::UpgradeBookmark(next) => WatchEvent::UpgradeBookmark(
                (next.0, next.1.clone()),
            ),
            WatchEvent::Error(e) => WatchEvent::Error(e.clone()),
        }
    }
}

/// A kind of Kubernetes resource, as an operator names it.
#[derive(Debug)]
pub struct ApiResource {
    pub group: String,
    pub version: String,
    pub kind: String,
    pub plural: String,
    pub namespace: Option<String>,
}

/// What an operator asks of a watch.
#[derive(Debug)]
pub struct WatchParams {
    pub label_selector: Option<String>,
    pub field_selector: Option<String>,
    pub timeout: Option<u32>,
    pub bookmarks: bool,
    pub send_initial_events: bool,
}

/// A kind of Kubernetes resource, as the API server names it.
#[derive(Debug)]
pub struct KubeApiResource {
    pub group: String,
    pub version: String,
    pub api_version: String,
    pub kind: String,
    pub plural: String,
}

/// The group and version of a resource as one text: the version alone for the
/// core group, which has no name.
pub open spec fn api_version_text(group: Seq<char>, version: Seq<char>) -> Seq<char> {
    if group.len() == 0 {
        version
    } else {
        group + "/"@ + version
    }
}

/// Writes the group and version of a resource as one text.
pub fn api_version(group: &String, version: &String) -> (s: String)
    ensures
        s@ == api_version_text(group@, version@),
{
    if group.as_str().is_empty() {
        version.clone()
    } else {
        group.clone().concat("/").concat(version.as_str())
    }
}

impl KubeApiResource {
    /// The resource of a group, version, kind and plural.
    pub open spec fn names(
        self,
        group: Seq<char>,
        version: Seq<char>,
        kind: Seq<char>,
        plural: Seq<char>,
    ) -> bool {
        &&& self.group@ == group
        &&& self.version@ == version
        &&& self.api_version@ == api_version_text(group, version)
        &&& self.kind@ == kind
        &&& self.plural@ == plural
    }

    /// The resource that an operator names.
    pub fn from_api(api: &ApiResource) -> (r: KubeApiResource)
        ensures
            r.names(api.group@, api.version@, api.kind@, api.plural@),
    {
        KubeApiResource {
            group: api.group.clone(),
            version: api.version.clone(),
            api_version: api_version(&api.group, &api.version),
            kind: api.kind.clone(),
            plural: api.plural.clone(),
        }
    }
}

/// Which objects a request to the API server is about.
#[derive(Debug)]
pub enum ApiScope {
    Namespaced(String),
    All,
}

/// The objects of one namespace where one is named, else those of all.
pub fn get_dynamic_api(namespace: Option<String>) -> (scope: ApiScope)
    ensures
        scope == (match namespace {
            Some(ns) => ApiScope::Namespaced(ns),
            None => ApiScope::All,
        }),
{
    match namespace {
        Some(ns) => ApiScope::Namespaced(ns),
        None => ApiScope::All,
    }
}

/// The metadata of the objects of the namespace that an operator names, else
/// of all.
pub fn get_meta_api(api: &ApiResource) -> (scope: ApiScope)
    ensures
        scope == (match api.namespace {
            Some(ns) => ApiScope::Namespaced(ns),
            None => ApiScope::All,
        }),
{
    match &api.namespace {
        Some(ns) => ApiScope::Namespaced(ns.clone()),
        None => ApiScope::All,
    }
}

#[derive(Clone, Copy, Debug, PartialEq, Eq, Structural)]
pub enum PropagationPolicy {
    Orphan,
    Background,
    Foreground,
}

/// How the API server deletes what an object owns.
#[derive(Clone, Copy, Debug, PartialEq, Eq, Structural)]
pub enum KubePropagationPolicy {
    Orphan,
    Background,
    Foreground,
}

impl From<PropagationPolicy> for KubePropagationPolicy {
    fn from(policy: PropagationPolicy) -> (r: Self) {
        match policy {
            PropagationPolicy::Orphan => KubePropagationPolicy::Orphan,
            PropagationPolicy::Background => KubePropagationPolicy::Background,
            PropagationPolicy::Foreground => KubePropagationPolicy::Foreground,
        }
    }
}

impl FromSpecImpl<PropagationPolicy> for KubePropagationPolicy {
    open spec fn obeys_from_spec() -> bool {
        true
    }

    open spec fn from_spec(policy: PropagationPolicy) -> Self {
        match policy {
            PropagationPolicy::Orphan => KubePropagationPolicy::Orphan,
            PropagationPolicy::Background => KubePropagationPolicy::Background,
            PropagationPolicy::Foreground => KubePropagationPolicy::Foreground,
        }
    }
}

#[derive(Debug)]
pub struct Preconditions {
    pub uid: Option<String>,
    pub resource_version: Option<String>,
}

/// What must hold of an object for the API server to delete it.
#[derive(Debug)]
pub struct KubePreconditions {
    pub resource_version: Option<String>,
    pub uid: Option<String>,
}

impl From<Preconditions> for KubePreconditions {
    fn from(p: Preconditions) -> (r: Self) {
        KubePreconditions { uid: p.uid, resource_version: p.resource_version }
    }
}

impl FromSpecImpl<Preconditions> for KubePreconditions {
    open spec fn obeys_from_spec() -> bool {
        true
    }

    open spec fn from_spec(p: Preconditions) -> Self {
        KubePreconditions { uid: p.uid, resource_version: p.resource_version }
    }
}

#[derive(Debug)]
pub struct DeleteParams {
    pub dry_run: bool,
    pub grace_period_seconds: Option<u32>,
    pub propagation_policy: Option<PropagationPolicy>,
    pub preconditions: Option<Preconditions>,
}

/// The parameters of a delete request.
#[derive(Debug)]
pub struct KubeDeleteParams {
    pub dry_run: bool,
    pub grace_period_seconds: Option<u32>,
    pub propagation_policy: Option<KubePropagationPolicy>,
    pub preconditions: Option<KubePreconditions>,
}

impl From<DeleteParams> for KubeDeleteParams {
    fn from(dp: DeleteParams) -> (r: Self) {
        KubeDeleteParams {
            dry_run: dp.dry_run,
            grace_period_seconds: dp.grace_period_seconds,
            propagation_policy: match dp.propagation_policy {
                Some(policy) => Some(KubePropagationPolicy::from(policy)),
                None => None,
            },
            preconditions: match dp.preconditions {
                Some(p) => Some(KubePreconditions::from(p)),
                None => None,
            },
        }
    }
}

impl FromSpecImpl<DeleteParams> for KubeDeleteParams {
    open spec fn obeys_from_spec() -> bool {
        true
    }

    open spec fn from_spec(dp: DeleteParams) -> Self {
        KubeDeleteParams {
            dry_run: dp.dry_run,
            grace_period_seconds: dp.grace_period_seconds,
            propagation_policy: match dp.propagation_policy {
                Some(policy) => Some(
                    <KubePropagationPolicy as FromSpec<PropagationPolicy>>::from_spec(policy),
                ),
                None => None,
            },
            preconditions: match dp.preconditions {
                Some(p) => Some(<KubePreconditions as FromSpec<Preconditions>>::from_spec(p)),
                None => None,
            },
        }
    }
}

#[derive(Clone, Copy, Debug, PartialEq, Eq, Structural)]
pub enum VersionMatch {
    Exact,
    NotLater,
}

/// How a resource version limits what a list request finds.
#[derive(Clone, Copy, Debug, PartialEq, Eq, Structural)]
pub enum KubeVersionMatch {
    NotOlderThan,
    Exact,
}

impl From<VersionMatch> for KubeVersionMatch {
    fn from(vm: VersionMatch) -> (r: Self) {
        match vm {
            VersionMatch::Exact => KubeVersionMatch::Exact,
            VersionMatch::NotLater => KubeVersionMatch::NotOlderThan,
        }
    }
}

impl FromSpecImpl<VersionMatch> for KubeVersionMatch {
    open spec fn obeys_from_spec() -> bool {
        true
    }

    open spec fn from_spec(vm: VersionMatch) -> Self {
        match vm {
            VersionMatch::Exact => KubeVersionMatch::Exact,
            VersionMatch::NotLater => KubeVersionMatch::NotOlderThan,
        }
    }
}

#[derive(Debug)]
pub struct ListParams {
    pub label_selector: Option<String>,
    pub field_selector: Option<String>,
    pub timeout: Option<u32>,
    pub limit: Option<u32>,
    pub continue_token: Option<String>,
    pub version_match: Option<VersionMatch>,
    pub resource_version: Option<String>,
}

/// The parameters of a list request.
#[derive(Debug)]
pub struct KubeListParams {
    pub label_selector: Option<String>,
    pub field_selector: Option<String>,
    pub timeout: Option<u32>,
    pub limit: Option<u32>,
    pub continue_token: Option<String>,
    pub version_match: Option<KubeVersionMatch>,
    pub resource_version: Option<String>,
}

impl From<ListParams> for KubeListParams {
    fn from(lp: ListParams) -> (r: Self) {
        KubeListParams {
            label_selector: lp.label_selector,
            field_selector: lp.field_selector,
            timeout: lp.timeout,
            limit: lp.limit,
            continue_token: lp.continue_token,
            version_match: match lp.version_match {
                Some(vm) => Some(KubeVersionMatch::from(vm)),
                None => None,
            },
            resource_version: lp.resource_version,
        }
    }
}

impl FromSpecImpl<ListParams> for KubeListParams {
    open spec fn obeys_from_spec() -> bool {
        true
    }

    open spec fn from_spec(lp: ListParams) -> Self {
        KubeListParams {
            label_selector: lp.label_selector,
            field_selector: lp.field_selector,
            timeout: lp.timeout,
            limit: lp.limit,
            continue_token: lp.continue_token,
            version_match: match lp.version_match {
                Some(vm) => Some(<KubeVersionMatch as FromSpec<VersionMatch>>::from_spec(vm)),
                None => None,
            },
            resource_version: lp.resource_version,
        }
    }
}

#[derive(Debug)]
pub struct CreateParams {
    pub dry_run: bool,
    pub field_manager: Option<String>,
}

/// The parameters of a create request.
#[derive(Debug)]
pub struct KubePostParams {
    pub dry_run: bool,
    pub field_manager: Option<String>,
}

impl From<CreateParams> for KubePostParams {
    fn from(pp: CreateParams) -> (r: Self) {
        KubePostParams { dry_run: pp.dry_run, field_manager: pp.field_manager }
    }
}

impl FromSpecImpl<CreateParams> for KubePostParams {
    open spec fn obeys_from_spec() -> bool {
        true
    }

    open spec fn from_spec(pp: CreateParams) -> Self {
        KubePostParams { dry_run: pp.dry_run, field_manager: pp.field_manager }
    }
}

#[derive(Clone, Copy, Debug, PartialEq, Eq, Structural)]
pub enum ValidationDirective {
    Strict,
    Warn,
    Ignore,
}

/// How the API server treats fields that it does not know.
#[derive(Clone, Copy, Debug, PartialEq, Eq, Structural)]
pub enum KubeValidationDirective {
    Strict,
    Warn,
    Ignore,
}

impl From<ValidationDirective> for KubeValidationDirective {
    fn from(vd: ValidationDirective) -> (r: Self) {
        match vd {
            ValidationDirective::Strict => KubeValidationDirective::Strict,
            ValidationDirective::Warn => KubeValidationDirective::Warn,
            ValidationDirective::Ignore => KubeValidationDirective::Ignore,
        }
    }
}

impl FromSpecImpl<ValidationDirective> for KubeValidationDirective {
    open spec fn obeys_from_spec() -> bool {
        true
    }

    open spec fn from_spec(vd: ValidationDirective) -> Self {
        match vd {
            ValidationDirective::Strict => KubeValidationDirective::Strict,
            ValidationDirective::Warn => KubeValidationDirective::Warn,
            ValidationDirective::Ignore => KubeValidationDirective::Ignore,
        }
    }
}

#[derive(Debug)]
pub struct PatchParams {
    pub dry_run: bool,
    pub force: bool,
    pub field_manager: Option<String>,
    pub field_validation: Option<ValidationDirective>,
}

/// The parameters of a patch request.
#[derive(Debug)]
pub struct KubePatchParams {
    pub dry_run: bool,
    pub force: bool,
    pub field_manager: Option<String>,
    pub field_validation: Option<KubeValidationDirective>,
}

impl From<PatchParams> for KubePatchParams {
    fn from(pp: PatchParams) -> (r: Self) {
        KubePatchParams {
            dry_run: pp.dry_run,
            force: pp.force,
            field_manager: pp.field_manager,
            field_validation: match pp.field_validation {
                Some(vd) => Some(KubeValidationDirective::from(vd)),
                None => None,
            },
        }
    }
}

impl FromSpecImpl<PatchParams> for KubePatchParams {
    open spec fn obeys_from_spec() -> bool {
        true
    }

    open spec fn from_spec(pp: PatchParams) -> Self {
        KubePatchParams {
            dry_run: pp.dry_run,
            force: pp.force,
            field_manager: pp.field_manager,
            field_validation: match pp.field_validation {
                Some(vd) => Some(
                    <KubeValidationDirective as FromSpec<ValidationDirective>>::from_spec(vd),
                ),
                None => None,
            },
        }
    }
}

#[derive(Debug)]
pub struct EvictParams {
    pub delete_options: Option<DeleteParams>,
    pub post_options: CreateParams,
}

/// The parameters of a request to evict a pod.
#[derive(Debug)]
pub struct KubeEvictParams {
    pub delete_options: Option<KubeDeleteParams>,
    pub post_options: KubePostParams,
}

impl From<EvictParams> for KubeEvictParams {
    fn from(ep: EvictParams) -> (r: Self) {
        KubeEvictParams {
            delete_options: match ep.delete_options {
                Some(dp) => Some(KubeDeleteParams::from(dp)),
                None => None,
            },
            post_options: KubePostParams::from(ep.post_options),
        }
    }
}

impl FromSpecImpl<EvictParams> for KubeEvictParams {
    open spec fn obeys_from_spec() -> bool {
        true
    }

    open spec fn from_spec(ep: EvictParams) -> Self {
        KubeEvictParams {
            delete_options: match ep.delete_options {
                Some(dp) => Some(<KubeDeleteParams as FromSpec<DeleteParams>>::from_spec(dp)),
                None => None,
            },
            post_options: <KubePostParams as FromSpec<CreateParams>>::from_spec(
                ep.post_options,
            ),
        }
    }
}

#[derive(Debug)]
pub struct LogParams {
    pub container: Option<String>,
    pub follow: bool,
    pub limit_bytes: Option<u64>,
    pub pretty: bool,
    pub previous: bool,
    pub since_seconds: Option<u64>,
    pub since_time: Option<String>,
    pub tail_lines: Option<u64>,
    pub timestamps: bool,
}

/// The parameters of a request for the log of a pod.  The time is in
/// nanoseconds since the start of 1970.
#[derive(Debug)]
pub struct KubeLogParams {
    pub container: Option<String>,
    pub follow: bool,
    pub limit_bytes: Option<i64>,
    pub pretty: bool,
    pub previous: bool,
    pub since_seconds: Option<i64>,
    pub since_time: Option<i128>,
    pub tail_lines: Option<i64>,
    pub timestamps: bool,
}

/// The signed number that has the bits of an unsigned one.
pub open spec fn signed64(x: u64) -> int {
    if x < 0x8000_0000_0000_0000 {
        x as int
    } else {
        x - 0x1_0000_0000_0000_0000
    }
}

/// Reads the bits of an unsigned number as a signed one.
pub fn as_signed64(x: u64) -> (r: i64)
    ensures
        r == signed64(x),
{
    let r: i64 = x as i64;
    assert(x < 0x8000_0000_0000_0000 ==> (x as i64) == x) by (bit_vector);
    assert(x >= 0x8000_0000_0000_0000 ==> (x as i64) == x - 0x1_0000_0000_0000_0000)
        by (bit_vector);
    r
}

/// A number, where there is one, read as a signed one.
pub open spec fn opt_signed64(x: Option<u64>) -> Option<i64> {
    match x {
        Some(n) => Some(signed64(n) as i64),
        None => None,
    }
}

fn to_signed64(x: Option<u64>) -> (r: Option<i64>)
    ensures
        r == opt_signed64(x),
{
    match x {
        Some(n) => Some(as_signed64(n)),
        None => None,
    }
}

impl From<LogParams> for KubeLogParams {
    fn from(lp: LogParams) -> (r: Self) {
        KubeLogParams {
            container: lp.container,
            follow: lp.follow,
            limit_bytes: to_signed64(lp.limit_bytes),
            pretty: lp.pretty,
            previous: lp.previous,
            since_seconds: to_signed64(lp.since_seconds),
            since_time: match lp.since_time {
                Some(words) => parse_timestamp(words.as_str()),
                None => None,
            },
            tail_lines: to_signed64(lp.tail_lines),
            timestamps: lp.timestamps,
        }
    }
}

impl FromSpecImpl<LogParams> for KubeLogParams {
    open spec fn obeys_from_spec() -> bool {
        true
    }

    /// A time that cannot be read is left out.
    open spec fn from_spec(lp: LogParams) -> Self {
        KubeLogParams {
            container: lp.container,
            follow: lp.follow,
            limit_bytes: opt_signed64(lp.limit_bytes),
            pretty: lp.pretty,
            previous: lp.previous,
            since_seconds: opt_signed64(lp.since_seconds),
            since_time: match lp.since_time {
                Some(words) => crate::outside::timestamp_nanos(words@),
                None => None,
            },
            tail_lines: opt_signed64(lp.tail_lines),
            timestamps: lp.timestamps,
        }
    }
}

#[derive(Clone, Copy, Debug, PartialEq, Eq, Structural)]
pub enum PatchType {
    Apply,
    Merge,
    Strategic,
    Json,
}

/// A patch that the API server can be asked to make: its kind and its body, as
/// JSON text.
#[derive(Debug)]
pub struct KubePatch {
    pub patch_type: PatchType,
    pub body: String,
}

/// Why a body is no patch of the given kind, if it is none, where `parse` says
/// what is wrong with it as JSON and `patch` what is wrong with it as a JSON
/// patch.
pub open spec fn patch_fault(
    patch_type: PatchType,
    parse: Option<Seq<char>>,
    patch: Option<Seq<char>>,
) -> Option<Seq<char>> {
    if parse is Some {
        parse
    } else if patch_type == PatchType::Json {
        patch
    } else {
        None
    }
}

/// Makes the patch, or reports the fault that its body was found to have.
pub fn patch_of(patch_type: PatchType, body: String, fault: Option<String>) -> (r: Result<
    KubePatch,
    Error,
>)
    ensures
        r == (match fault {
            Some(words) => Err::<KubePatch, Error>(Error::Other(words)),
            None => Ok::<KubePatch, Error>(KubePatch { patch_type, body }),
        }),
{
    match fault {
        Some(words) => Err(Error::Other(words)),
        None => Ok(KubePatch { patch_type, body }),
    }
}

/// The patch that an operator asks for.  Its body must be JSON, and a JSON
/// patch where it is sent as one.
pub fn to_kube_patch(patch_type: PatchType, body: String) -> (r: Result<KubePatch, Error>)
    ensures
        ({
            let fault = patch_fault(
                patch_type,
                crate::outside::json_fault(body@),
                crate::outside::json_patch_fault(body@),
            );
            match r {
                Ok(patch) => fault is None && patch == (KubePatch { patch_type, body }),
                Err(Error::Other(words)) => fault == Some(words@),
                Err(_) => false,
            }
        }),
{
    let fault = match json_error(body.as_str()) {
        Some(words) => Some(words),
        None => if patch_type == PatchType::Json {
            json_patch_error(body.as_str())
        } else {
            None
        },
    };
    patch_of(patch_type, body, fault)
}

/// Every field of a list request reaches the API server as it was given.
pub proof fn list_requests_are_passed_on(lp: ListParams)
    ensures
        ({
            let r = <KubeListParams as FromSpec<ListParams>>::from_spec(lp);
            &&& r.label_selector == lp.label_selector
            &&& r.field_selector == lp.field_selector
            &&& r.timeout == lp.timeout
            &&& r.limit == lp.limit
            &&& r.continue_token == lp.continue_token
            &&& r.resource_version == lp.resource_version
            &&& r.version_match is Some <==> lp.version_match is Some
            &&& r.version_match == Some(KubeVersionMatch::Exact) <==> lp.version_match == Some(
                VersionMatch::Exact,
            )
            &&& r.version_match == Some(KubeVersionMatch::NotOlderThan) <==> lp.version_match
                == Some(VersionMatch::NotLater)
        }),
{
}

/// Every field of a delete request reaches the API server as it was given.
pub proof fn delete_requests_are_passed_on(dp: DeleteParams)
    ensures
        ({
            let r = <KubeDeleteParams as FromSpec<DeleteParams>>::from_spec(dp);
            &&& r.dry_run == dp.dry_run
            &&& r.grace_period_seconds == dp.grace_period_seconds
            &&& r.propagation_policy is Some <==> dp.propagation_policy is Some
            &&& r.propagation_policy == Some(KubePropagationPolicy::Orphan)
                <==> dp.propagation_policy == Some(PropagationPolicy::Orphan)
            &&& r.propagation_policy == Some(KubePropagationPolicy::Background)
                <==> dp.propagation_policy == Some(PropagationPolicy::Background)
            &&& r.propagation_policy == Some(KubePropagationPolicy::Foreground)
                <==> dp.propagation_policy == Some(PropagationPolicy::Foreground)
            &&& r.preconditions is Some <==> dp.preconditions is Some
            &&& dp.preconditions is Some ==> r.preconditions->0.uid == dp.preconditions->0.uid
                && r.preconditions->0.resource_version == dp.preconditions->0.resource_version
        }),
{
}

/// What must hold of an object for it to be deleted reaches the API server as it
/// was given.
pub proof fn preconditions_are_passed_on(p: Preconditions)
    ensures
        <KubePreconditions as FromSpec<Preconditions>>::from_spec(p).uid == p.uid,
        <KubePreconditions as FromSpec<Preconditions>>::from_spec(p).resource_version
            == p.resource_version,
{
}

/// Every policy, match and directive of an operator stands for the one of the API
/// server that has its name; a version that is not later than another is one that
/// the other is not older than.
pub proof fn choices_keep_their_meaning(
    policy: PropagationPolicy,
    vm: VersionMatch,
    vd: ValidationDirective,
)
    ensures
        <KubePropagationPolicy as FromSpec<PropagationPolicy>>::from_spec(policy) is Orphan
            <==> policy is Orphan,
        <KubePropagationPolicy as FromSpec<PropagationPolicy>>::from_spec(policy) is Background
            <==> policy is Background,
        <KubePropagationPolicy as FromSpec<PropagationPolicy>>::from_spec(policy) is Foreground
            <==> policy is Foreground,
        <KubeVersionMatch as FromSpec<VersionMatch>>::from_spec(vm) is Exact <==> vm is Exact,
        <KubeVersionMatch as FromSpec<VersionMatch>>::from_spec(vm) is NotOlderThan <==> vm
            is NotLater,
        <KubeValidationDirective as FromSpec<ValidationDirective>>::from_spec(vd) is Strict
            <==> vd is Strict,
        <KubeValidationDirective as FromSpec<ValidationDirective>>::from_spec(vd) is Warn <==> vd
            is Warn,
        <KubeValidationDirective as FromSpec<ValidationDirective>>::from_spec(vd) is Ignore
            <==> vd is Ignore,
{
}

/// Every field of a create request reaches the API server as it was given.
pub proof fn create_requests_are_passed_on(pp: CreateParams)
    ensures
        <KubePostParams as FromSpec<CreateParams>>::from_spec(pp).dry_run == pp.dry_run,
        <KubePostParams as FromSpec<CreateParams>>::from_spec(pp).field_manager
            == pp.field_manager,
{
}

/// Every field of a patch request reaches the API server as it was given.
pub proof fn patch_requests_are_passed_on(pp: PatchParams)
    ensures
        ({
            let r = <KubePatchParams as FromSpec<PatchParams>>::from_spec(pp);
            &&& r.dry_run == pp.dry_run
            &&& r.force == pp.force
            &&& r.field_manager == pp.field_manager
            &&& r.field_validation is Some <==> pp.field_validation is Some
            &&& r.field_validation == Some(KubeValidationDirective::Strict)
                <==> pp.field_validation == Some(ValidationDirective::Strict)
            &&& r.field_validation == Some(KubeValidationDirective::Warn)
                <==> pp.field_validation == Some(ValidationDirective::Warn)
            &&& r.field_validation == Some(KubeValidationDirective::Ignore)
                <==> pp.field_validation == Some(ValidationDirective::Ignore)
        }),
{
}

/// Every field of a request to evict a pod reaches the API server as it was
/// given.
pub proof fn evict_requests_are_passed_on(ep: EvictParams)
    ensures
        ({
            let r = <KubeEvictParams as FromSpec<EvictParams>>::from_spec(ep);
            &&& r.post_options.dry_run == ep.post_options.dry_run
            &&& r.post_options.field_manager == ep.post_options.field_manager
            &&& r.delete_options is Some <==> ep.delete_options is Some
            &&& ep.delete_options matches Some(dp) ==> {
                &&& r.delete_options->0.dry_run == dp.dry_run
                &&& r.delete_options->0.grace_period_seconds == dp.grace_period_seconds
                &&& r.delete_options->0.propagation_policy is Some <==> dp.propagation_policy
                    is Some
                &&& dp.propagation_policy matches Some(policy) ==> {
                    &&& r.delete_options->0.propagation_policy->0 is Orphan <==> policy is Orphan
                    &&& r.delete_options->0.propagation_policy->0 is Background <==> policy
                        is Background
                }
                &&& r.delete_options->0.preconditions is Some <==> dp.preconditions is Some
                &&& dp.preconditions matches Some(p) ==> {
                    &&& r.delete_options->0.preconditions->0.uid == p.uid
                    &&& r.delete_options->0.preconditions->0.resource_version
                        == p.resource_version
                }
            }
        }),
{
}

/// Every field of a request for a log reaches the API server as it was given.
/// Numbers that a signed one can hold stay what they are, and a time is left out
/// only where it cannot be read.
pub proof fn log_requests_are_passed_on(lp: LogParams)
    ensures
        ({
            let r = <KubeLogParams as FromSpec<LogParams>>::from_spec(lp);
            &&& r.container == lp.container
            &&& r.follow == lp.follow
            &&& r.pretty == lp.pretty
            &&& r.previous == lp.previous
            &&& r.timestamps == lp.timestamps
            &&& r.limit_bytes is Some <==> lp.limit_bytes is Some
            &&& r.since_seconds is Some <==> lp.since_seconds is Some
            &&& r.tail_lines is Some <==> lp.tail_lines is Some
            &&& lp.limit_bytes matches Some(n) ==> (n <= i64::MAX ==> r.limit_bytes->0 == n)
            &&& lp.since_seconds matches Some(n) ==> (n <= i64::MAX ==> r.since_seconds->0 == n)
            &&& lp.tail_lines matches Some(n) ==> (n <= i64::MAX ==> r.tail_lines->0 == n)
            &&& lp.limit_bytes matches Some(n) ==> (n > i64::MAX ==> r.limit_bytes->0 < 0)
            &&& lp.since_seconds matches Some(n) ==> (n > i64::MAX ==> r.since_seconds->0 < 0)
            &&& lp.tail_lines matches Some(n) ==> (n > i64::MAX ==> r.tail_lines->0 < 0)
            &&& lp.since_time is None ==> r.since_time is None
            &&& lp.since_time matches Some(words) ==> r.since_time
                == crate::outside::timestamp_nanos(words@)
        }),
{
}

/// A number that is read as a signed one is the same but for whole turns of 64
/// bits, and different numbers stay different.
pub proof fn signed_numbers_keep_their_bits(x: u64, y: u64)
    ensures
        i64::MIN <= signed64(x) <= i64::MAX,
        signed64(x) == x || signed64(x) + 0x1_0000_0000_0000_0000 == x,
        x != y ==> signed64(x) != signed64(y),
{
}

/// An operator is told that something was not found exactly where the API server
/// said so with code 404; any other refusal is told with its code, reason and
/// message, and any other failure in its words.
pub proof fn errors_are_told_as_they_were(err: KubeError)
    ensures
        ({
            let r = <Error as FromSpec<KubeError>>::from_spec(err);
            let any = <Error as FromSpec<AnyError>>::from_spec(AnyError::Kube(err));
            &&& any == r
            &&& r is NotFound <==> err is Api && err->Api_0.code == 404
            &&& r is Http <==> err is Api && err->Api_0.code != 404
            &&& r is Http ==> r->Http_0 == err->Api_0
            &&& r is Other <==> err is Other
            &&& r is Other ==> r->Other_0 == err->Other_0
        }),
{
}

/// An error of unknown origin that is none of the Kubernetes client is told in
/// its words.
pub proof fn other_errors_are_told_in_words(words: String)
    ensures
        <Error as FromSpec<AnyError>>::from_spec(AnyError::Other(words)) == Error::Other(words),
{
}

/// What an event or an error says is what it holds.
pub proof fn events_say_what_they_hold(
    json: String,
    next: WatchId,
    code: u16,
    reason: String,
    message: String,
)
    ensures
        WatchEvent::Added(json)@ == EventView::Added(json@),
        WatchEvent::Modified(json)@ == EventView::Modified(json@),
        WatchEvent::Deleted(json)@ == EventView::Deleted(json@),
        WatchEvent::Bookmark(json)@ == EventView::Bookmark(json@),
        WatchEvent::UpgradeBookmark((next, json))@ == EventView::UpgradeBookmark(next, json@),
        WatchEvent::Error(Error::NotFound)@ == EventView::Error(ErrorView::NotFound),
        WatchEvent::Error(Error::Other(json))@ == EventView::Error(ErrorView::Other(json@)),
        WatchEvent::Error(Error::Http(HttpError { code, reason, message }))@ == EventView::Error(
            ErrorView::Http { code, reason: reason@, message: message@ },
        ),
{
}

/// The group and version of a resource can be told from how they are written: the
/// version comes last, and before it, where the group has a name, that name and a
/// stroke.
pub proof fn api_versions_name_group_and_version(group: Seq<char>, version: Seq<char>)
    ensures
        ({
            let s = api_version_text(group, version);
            &&& s.skip(s.len() - version.len()) == version
            &&& group.len() == 0 ==> s.len() == version.len()
            &&& group.len() > 0 ==> {
                &&& s.len() == group.len() + 1 + version.len()
                &&& s.take(group.len() as int) == group
                &&& s[group.len() as int] == '/'
            }
        }),
{
    reveal_strlit("/");
    let s = api_version_text(group, version);
    assert(s.skip(s.len() - version.len()) =~= version);
    if group.len() > 0 {
        assert(s.take(group.len() as int) =~= group);
    }
}

/// A resource is named as it was asked for, in each of its names.
pub proof fn resources_are_named_in_full(
    r: KubeApiResource,
    group: Seq<char>,
    version: Seq<char>,
    kind: Seq<char>,
    plural: Seq<char>,
)
    requires
        r.names(group, version, kind, plural),
    ensures
        r.group@ == group,
        r.version@ == version,
        r.kind@ == kind,
        r.plural@ == plural,
        group.len() == 0 ==> r.api_version@ == version,
        group.len() > 0 ==> r.api_version@ == group + seq!['/'] + version,
{
    reveal_strlit("/");
    assert("/"@ =~= seq!['/']);
}

/// A body is taken as a patch exactly where it is JSON and, if it is sent as a
/// JSON patch, one; what is wrong with it as JSON is told first.
pub proof fn patches_are_taken_or_refused(
    patch_type: PatchType,
    parse: Option<Seq<char>>,
    patch: Option<Seq<char>>,
)
    ensures
        patch_fault(patch_type, parse, patch) is None <==> parse is None && (patch_type is Json
            ==> patch is None),
        parse is Some ==> patch_fault(patch_type, parse, patch) == parse,
        parse is None && patch_type is Json ==> patch_fault(patch_type, parse, patch) == patch,
{
}

} // verus!
