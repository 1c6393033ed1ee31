//! What the controller knows of the API of the cluster.

use crate::api::KubeApiResource;
use crate::outside::{json_error, json_fault};
use crate::text::{eq_ignore_ascii_case, same_ignoring_case};
use vstd::prelude::*;
use vstd::string::*;

verus! {

/// The kinds of resources that the cluster has, as they were last discovered.
pub struct KubernetesService {
    resources: Vec<KubeApiResource>,
}

/// A status to be merged into an object.
#[derive(Debug)]
pub struct StatusPatch {
    pub resource: KubeApiResource,
    pub name: String,
    pub namespace: String,
    /// JSON text.
    pub body: String,
}

/// The first resource of a kind, in capitals or not.
pub open spec fn first_of_kind(resources: Seq<KubeApiResource>, kind: Seq<char>) -> Option<
    KubeApiResource,
>
    decreases resources.len(),
{
    if resources.len() == 0 {
        None
    } else if same_ignoring_case(resources[0].kind@, kind) {
        Some(resources[0])
    } else {
        first_of_kind(resources.drop_first(), kind)
    }
}

/// What is said of a kind that the cluster does not have.
pub open spec fn kind_fault(kind: Seq<char>) -> Seq<char> {
    "Kind '"@ + kind + "' not found in discovered API resources"@
}

impl View for KubernetesService {
    type V = Seq<KubeApiResource>;

    closed spec fn view(&self) -> Seq<KubeApiResource> {
        self.resources@
    }
}

impl KubernetesService {
    /// Starts from the resources that were discovered.
    pub fn new(resources: Vec<KubeApiResource>) -> (r: KubernetesService)
        ensures
            r@ == resources@,
    {
        KubernetesService { resources }
    }

    /// Goes on with the resources that were discovered anew.
    pub fn refresh_discovery(&mut self, resources: Vec<KubeApiResource>)
        ensures
            final(self)@ == resources@,
    {
        self.resources = resources;
    }

    /// Finds an API resource by its kind.
    pub fn find_api_resource(&self, kind: &str) -> (r: Result<KubeApiResource, String>)
        ensures
            match r {
                Ok(resource) => first_of_kind(self@, kind@) == Some(resource),
                Err(words) => first_of_kind(self@, kind@) is None && words@ == kind_fault(kind@),
            },
    {
        let mut i: usize = 0;
        assert(self@.skip(0) =~= self@);
        while i < self.resources.len()
            invariant
                i <= self.resources@.len(),
                self@ == self.resources@,
                first_of_kind(self@, kind@) == first_of_kind(self@.skip(i as int), kind@),
            decreases self.resources@.len() - i,
        {
            assert(self@.skip(i as int).drop_first() =~= self@.skip(i + 1));
            let resource = &self.resources[i];
            if eq_ignore_ascii_case(resource.kind.as_str(), kind) {
                return Ok(
                    KubeApiResource {
                        group: resource.group.clone(),
                        version: resource.version.clone(),
                        api_version: resource.api_version.clone(),
                        kind: resource.kind.clone(),
                        plural: resource.plural.clone(),
                    },
                );
            }
            i = i + 1;
        }
        Err(
            "Kind '".to_owned().concat(kind).concat("' not found in discovered API resources"),
        )
    }

    /// Prepares to merge a status, in JSON, into an object.
    pub fn patch_status(
        &self,
        kind: &str,
        name: &str,
        namespace: &str,
        status_json: &str,
    ) -> (r: Result<StatusPatch, String>)
        ensures
            self.prepared(
                kind@,
                name@,
                namespace@,
                status_json@,
                json_fault(status_json@) is Some,
                r,
            ),
    {
        let faulty = json_error(status_json).is_some();
        self.prepare_patch(kind, name, namespace, status_json, faulty)
    }

    /// Prepares to merge a status into an object, which was found to be JSON or
    /// not.
    pub fn prepare_patch(
        &self,
        kind: &str,
        name: &str,
        namespace: &str,
        status_json: &str,
        faulty: bool,
    ) -> (r: Result<StatusPatch, String>)
        ensures
            self.prepared(kind@, name@, namespace@, status_json@, faulty, r),
    {
        let resource = match self.find_api_resource(kind) {
            Ok(resource) => resource,
            Err(words) => {
                return Err(words);
            },
        };
        if faulty {
            return Err("Failed to deserialize status from JSON for patching".to_owned());
        }
        Ok(
            StatusPatch {
                resource,
                name: name.to_owned(),
                namespace: namespace.to_owned(),
                body: status_json.to_owned(),
            },
        )
    }

    /// The patch of a status: the kind must be known, and the status be JSON.
    pub open spec fn prepared(
        self,
        kind: Seq<char>,
        name: Seq<char>,
        namespace: Seq<char>,
        status_json: Seq<char>,
        faulty: bool,
        r: Result<StatusPatch, String>,
    ) -> bool {
        match (first_of_kind(self@, kind), r) {
            (None, Err(words)) => words@ == kind_fault(kind),
            (Some(_), Err(words)) => faulty && words@
                == "Failed to deserialize status from JSON for patching"@,
            (Some(resource), Ok(patch)) => {
                &&& !faulty
                &&& patch.resource == resource
                &&& patch.name@ == name
                &&& patch.namespace@ == namespace
                &&& patch.body@ == status_json
            },
            (None, Ok(_)) => false,
        }
    }
}

/// How merging a status ended, by what the API server refused it with.
pub fn status_patched(refusal: Option<String>) -> (r: Result<(), String>)
    ensures
        match (refusal, r) {
            (None, Ok(_)) => true,
            (Some(why), Err(words)) => words@ == "Failed to patch status: "@ + why@,
            _ => false,
        },
        r is Ok <==> refusal is None,
        r matches Err(words) ==> (refusal->0)@.is_suffix_of(words@),
{
    match refusal {
        None => Ok(()),
        Some(why) => Err("Failed to patch status: ".to_owned().concat(why.as_str())),
    }
}

/// The resource of a kind is the first that has this kind, in capitals or not, and
/// there is none exactly where no resource has it.
pub proof fn the_first_of_a_kind_is_found(resources: Seq<KubeApiResource>, kind: Seq<char>) -> (at:
    int)
    ensures
        first_of_kind(resources, kind) is None <==> forall|i: int|
            0 <= i < resources.len() ==> !same_ignoring_case((#[trigger] resources[i]).kind@, kind),
        first_of_kind(resources, kind) matches Some(resource) ==> 0 <= at < resources.len()
            && resources[at] == resource && same_ignoring_case(resource.kind@, kind) && forall|i: int|
            0 <= i < at ==> !same_ignoring_case((#[trigger] resources[i]).kind@, kind),
    decreases resources.len(),
{
    if resources.len() == 0 || same_ignoring_case(resources[0].kind@, kind) {
        0
    } else {
        let rest = resources.drop_first();
        let at = the_first_of_a_kind_is_found(rest, kind);
        assert forall|i: int|
            first_of_kind(resources, kind) is None && 0 <= i < resources.len()
            implies !same_ignoring_case((#[trigger] resources[i]).kind@, kind) by {
            if i > 0 {
                assert(!same_ignoring_case(rest[i - 1].kind@, kind));
            }
        }
        if first_of_kind(resources, kind) is Some {
            assert(rest[at] == resources[at + 1]);
            assert forall|i: int| 0 <= i < at + 1 implies !same_ignoring_case(
                (#[trigger] resources[i]).kind@,
                kind,
            ) by {
                if i > 0 {
                    assert(!same_ignoring_case(rest[i - 1].kind@, kind));
                }
            }
        }
        at + 1
    }
}

/// A kind that is not there is named in what is said of it.
pub proof fn missing_kinds_are_named(kind: Seq<char>)
    ensures
        ("Kind '"@ + kind).is_prefix_of(kind_fault(kind)),
        "' not found in discovered API resources"@.is_suffix_of(kind_fault(kind)),
        kind_fault(kind).len() == "Kind '"@.len() + kind.len()
            + "' not found in discovered API resources"@.len(),
{
    let words = kind_fault(kind);
    let tail = "' not found in discovered API resources"@;
    assert(words.subrange(words.len() - tail.len(), words.len() as int) =~= tail);
}

/// A status is merged exactly where its kind is known and it is JSON; it is, into
/// the object that was named and as it was given.  A kind that is not known is
/// told before a status that is no JSON.
pub proof fn statuses_are_merged_as_given(
    service: KubernetesService,
    kind: Seq<char>,
    name: Seq<char>,
    namespace: Seq<char>,
    status_json: Seq<char>,
    faulty: bool,
    r: Result<StatusPatch, String>,
)
    requires
        service.prepared(kind, name, namespace, status_json, faulty, r),
    ensures
        r is Ok <==> !faulty && exists|i: int|
            0 <= i < service@.len() && same_ignoring_case((#[trigger] service@[i]).kind@, kind),
        r matches Ok(patch) ==> {
            &&& service@.contains(patch.resource)
            &&& same_ignoring_case(patch.resource.kind@, kind)
            &&& patch.name@ == name
            &&& patch.namespace@ == namespace
            &&& patch.body@ == status_json
        },
        r matches Err(words) ==> (words@ == kind_fault(kind) || words@
            == "Failed to deserialize status from JSON for patching"@),
        r is Err && !faulty ==> (r->Err_0)@ == kind_fault(kind),
{
    let at = the_first_of_a_kind_is_found(service@, kind);
    if r is Ok {
        assert(same_ignoring_case(service@[at].kind@, kind));
    }
}

} // verus!
