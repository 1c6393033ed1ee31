//! Watch streams: which streams to the API server are open, which operators
//! listen to each, and what each of them is told.

use crate::api::{ApiResource, KubeApiResource, WatchId, WatchParams};
use crate::outside::hasher_write_u64;
use crate::text::{opt_clone, opt_str_eq, opt_text, str_eq};
use std::collections::hash_map::DefaultHasher;
use std::hash::{Hash, Hasher};
use vstd::bytes::{spec_u64_to_le_bytes, u64_to_le_bytes};
use vstd::prelude::*;
use vstd::std_specs::convert::FromSpecImpl;
use vstd::std_specs::hash::DefaultHasherAdditionalSpecFns;
use vstd::string::*;
use vstd::utf8::encode_utf8;

verus! {

/// Signature identifying a unique watch stream configuration.
#[derive(Debug)]
pub struct WatchStreamSignature {
    group: String,
    api_version: String,
    kind: String,
    plural: String,
    namespace: Option<String>,
    label_selector: Option<String>,
    field_selector: Option<String>,
    send_initial_events: bool,
    temporary: u64,
    hash: u64,
}

/// A watch stream configuration.  `temporary` is 0 for a stream that operators
/// share, else the number of a stream that serves one operator for a while.
pub struct SignatureView {
    pub group: Seq<char>,
    pub api_version: Seq<char>,
    pub kind: Seq<char>,
    pub plural: Seq<char>,
    pub namespace: Option<Seq<char>>,
    pub label_selector: Option<Seq<char>>,
    pub field_selector: Option<Seq<char>>,
    pub send_initial_events: bool,
    pub temporary: u64,
}

/// What a hasher is fed for a text.
pub open spec fn text_chunks(s: Seq<char>) -> Seq<Seq<u8>> {
    seq![encode_utf8(s), seq![0xffu8]]
}

/// What a hasher is fed for a number.
pub open spec fn number_chunks(n: u64) -> Seq<Seq<u8>> {
    seq![spec_u64_to_le_bytes(n)]
}

/// What a hasher is fed for an optional text.
pub open spec fn opt_text_chunks(s: Option<Seq<char>>) -> Seq<Seq<u8>> {
    match s {
        Some(text) => number_chunks(1) + text_chunks(text),
        None => number_chunks(0),
    }
}

/// What a hasher is fed for a truth value.
pub open spec fn bool_chunks(b: bool) -> Seq<Seq<u8>> {
    seq![
        seq![
            if b {
                1u8
            } else {
                0u8
            },
        ],
    ]
}

impl SignatureView {
    /// What a hasher is fed for the configuration.
    pub open spec fn chunks(self) -> Seq<Seq<u8>> {
        text_chunks(self.group) + text_chunks(self.api_version) + text_chunks(self.kind)
            + text_chunks(self.plural) + opt_text_chunks(self.namespace) + opt_text_chunks(
            self.label_selector,
        ) + opt_text_chunks(self.field_selector) + bool_chunks(self.send_initial_events)
            + number_chunks(self.temporary)
    }

    /// The hash of the configuration, by which operators know the stream.
    pub open spec fn id(self) -> WatchId {
        DefaultHasher::spec_finish(self.chunks())
    }

    /// The same configuration under another temporary number.
    pub open spec fn with_temporary(self, temporary: u64) -> SignatureView {
        SignatureView { temporary, ..self }
    }

    /// The shared stream that goes on where a temporary one has sent the
    /// objects that there were.
    pub open spec fn settled(self) -> SignatureView {
        SignatureView { temporary: 0, send_initial_events: false, ..self }
    }

    /// The configuration that an operator asks for.
    pub open spec fn requested(api: ApiResource, params: WatchParams) -> SignatureView {
        SignatureView {
            group: api.group@,
            api_version: api.version@,
            kind: api.kind@,
            plural: api.plural@,
            namespace: opt_text(api.namespace),
            label_selector: opt_text(params.label_selector),
            field_selector: opt_text(params.field_selector),
            send_initial_events: params.send_initial_events,
            temporary: 0,
        }
    }
}

impl View for WatchStreamSignature {
    type V = SignatureView;

    closed spec fn view(&self) -> SignatureView {
        SignatureView {
            group: self.group@,
            api_version: self.api_version@,
            kind: self.kind@,
            plural: self.plural@,
            namespace: opt_text(self.namespace),
            label_selector: opt_text(self.label_selector),
            field_selector: opt_text(self.field_selector),
            send_initial_events: self.send_initial_events,
            temporary: self.temporary,
        }
    }
}

fn feed(hasher: &mut DefaultHasher, bytes: &[u8])
    ensures
        final(hasher)@ == old(hasher)@.push(bytes@),
{
    hasher.write(bytes)
}

fn feed_text(hasher: &mut DefaultHasher, s: &String)
    ensures
        final(hasher)@ == old(hasher)@ + text_chunks(s@),
{
    feed(hasher, s.as_str().as_bytes());
    let end: [u8; 1] = [0xff];
    feed(hasher, &end);
    assert(end@ =~= seq![0xffu8]);
    assert(hasher@ =~= old(hasher)@ + text_chunks(s@));
}

fn feed_number(hasher: &mut DefaultHasher, n: u64)
    ensures
        final(hasher)@ == old(hasher)@ + number_chunks(n),
{
    let bytes = u64_to_le_bytes(n);
    feed(hasher, bytes.as_slice());
    assert(hasher@ =~= old(hasher)@ + number_chunks(n));
}

fn feed_opt_text(hasher: &mut DefaultHasher, s: &Option<String>)
    ensures
        final(hasher)@ == old(hasher)@ + opt_text_chunks(opt_text(*s)),
{
    match s {
        Some(text) => {
            feed_number(hasher, 1);
            feed_text(hasher, text);
            assert(hasher@ =~= old(hasher)@ + opt_text_chunks(opt_text(*s)));
        },
        None => feed_number(hasher, 0),
    }
}

fn feed_bool(hasher: &mut DefaultHasher, b: bool)
    ensures
        final(hasher)@ == old(hasher)@ + bool_chunks(b),
{
    let byte: u8 = if b {
        1
    } else {
        0
    };
    let bytes: [u8; 1] = [byte];
    feed(hasher, &bytes);
    assert(bytes@ =~= seq![byte]);
    assert(hasher@ =~= old(hasher)@ + bool_chunks(b));
}

impl WatchStreamSignature {
    /// The cached hash.
    pub closed spec fn id(self) -> WatchId {
        self.hash
    }

    /// The cached hash is that of the fields.
    pub open spec fn wf(self) -> bool {
        self.id() == self@.id()
    }

    /// The signature with the hash that its fields call for.
    pub closed spec fn rehashed(self) -> WatchStreamSignature {
        WatchStreamSignature { hash: self@.id(), ..self }
    }

    /// Returns the precomputed hash in O(1) time.
    pub fn get_hash(&self) -> (r: u64)
        ensures
            r == self.id(),
    {
        self.hash
    }

    /// Calculates and caches the hash for the watch stream signature.
    pub fn calculate_hash(&mut self)
        ensures
            *final(self) == old(self).rehashed(),
            final(self)@ == old(self)@,
            final(self).wf(),
    {
        let mut hasher = DefaultHasher::new();
        feed_text(&mut hasher, &self.group);
        feed_text(&mut hasher, &self.api_version);
        feed_text(&mut hasher, &self.kind);
        feed_text(&mut hasher, &self.plural);
        feed_opt_text(&mut hasher, &self.namespace);
        feed_opt_text(&mut hasher, &self.label_selector);
        feed_opt_text(&mut hasher, &self.field_selector);
        feed_bool(&mut hasher, self.send_initial_events);
        feed_number(&mut hasher, self.temporary);
        assert(hasher@ =~= self@.chunks());
        let hash: u64 = hasher.finish();
        self.hash = hash;
    }

    /// Makes the signature that of the temporary stream of this number, or of
    /// the shared stream for 0.
    pub fn set_temporary(&mut self, temporary: u64)
        ensures
            final(self)@ == old(self)@.with_temporary(temporary),
            final(self).wf(),
    {
        self.temporary = temporary;
        self.calculate_hash();
    }

    /// The number of the temporary stream, or 0.
    pub fn temporary(&self) -> (r: u64)
        ensures
            r == self@.temporary,
    {
        self.temporary
    }

    /// Whether the stream starts with the objects that there are.
    pub fn send_initial_events(&self) -> (r: bool)
        ensures
            r == self@.send_initial_events,
    {
        self.send_initial_events
    }

    /// The namespace that the stream is limited to.
    pub fn namespace(&self) -> (r: Option<String>)
        ensures
            opt_text(r) == self@.namespace,
    {
        opt_clone(&self.namespace)
    }

    /// The shared stream that takes over from this one.
    pub fn settled(&self) -> (r: WatchStreamSignature)
        ensures
            r@ == self@.settled(),
            r.wf(),
    {
        let mut next = self.clone();
        next.set_temporary(0);
        next.send_initial_events = false;
        next.calculate_hash();
        next
    }

    /// The signature of what an operator asks for.
    pub closed spec fn of(api: ApiResource, params: WatchParams) -> WatchStreamSignature {
        WatchStreamSignature {
            group: api.group,
            api_version: api.version,
            kind: api.kind,
            plural: api.plural,
            namespace: api.namespace,
            label_selector: params.label_selector,
            field_selector: params.field_selector,
            send_initial_events: params.send_initial_events,
            temporary: 0,
            hash: SignatureView::requested(api, params).id(),
        }
    }
}

impl Clone for WatchStreamSignature {
    fn clone(&self) -> (r: Self)
        ensures
            r == *self,
    {
        WatchStreamSignature {
            group: self.group.clone(),
            api_version: self.api_version.clone(),
            kind: self.kind.clone(),
            plural: self.plural.clone(),
            namespace: opt_clone(&self.namespace),
            label_selector: opt_clone(&self.label_selector),
            field_selector: opt_clone(&self.field_selector),
            send_initial_events: self.send_initial_events,
            temporary: self.temporary,
            hash: self.hash,
        }
    }
}

impl Hash for WatchStreamSignature {
    /// Feeds the cached hash alone.
    fn hash<H: Hasher>(&self, state: &mut H) {
        hasher_write_u64(state, self.hash);
    }
}

impl PartialEq for WatchStreamSignature {
    fn eq(&self, other: &Self) -> (r: bool) {
        // The hashes are compared first: they differ for most signatures that do.
        self.hash == other.hash && self.temporary == other.temporary && str_eq(
            self.group.as_str(),
            other.group.as_str(),
        ) && str_eq(self.api_version.as_str(), other.api_version.as_str()) && str_eq(
            self.kind.as_str(),
            other.kind.as_str(),
        ) && str_eq(self.plural.as_str(), other.plural.as_str()) && opt_str_eq(
            &self.namespace,
            &other.namespace,
        ) && opt_str_eq(&self.label_selector, &other.label_selector) && opt_str_eq(
            &self.field_selector,
            &other.field_selector,
        ) && self.send_initial_events == other.send_initial_events
    }
}

impl vstd::std_specs::cmp::PartialEqSpecImpl for WatchStreamSignature {
    open spec fn obeys_eq_spec() -> bool {
        true
    }

    open spec fn eq_spec(&self, other: &Self) -> bool {
        self.id() == other.id() && self@ == other@
    }
}

impl Eq for WatchStreamSignature {

}

impl From<(ApiResource, WatchParams)> for WatchStreamSignature {
    fn from(request: (ApiResource, WatchParams)) -> (r: Self) {
        let (api, params) = request;
        let mut signature = WatchStreamSignature {
            group: api.group,
            api_version: api.version,
            kind: api.kind,
            plural: api.plural,
            namespace: api.namespace,
            label_selector: params.label_selector,
            field_selector: params.field_selector,
            send_initial_events: params.send_initial_events,
            temporary: 0,
            hash: 0,
        };
        signature.calculate_hash();
        signature
    }
}

impl FromSpecImpl<(ApiResource, WatchParams)> for WatchStreamSignature {
    open spec fn obeys_from_spec() -> bool {
        true
    }

    open spec fn from_spec(request: (ApiResource, WatchParams)) -> Self {
        WatchStreamSignature::of(request.0, request.1)
    }
}

/// The signature of a request is that of what was requested.
pub proof fn requested_signature(api: ApiResource, params: WatchParams)
    ensures
        WatchStreamSignature::of(api, params)@ == SignatureView::requested(api, params),
        WatchStreamSignature::of(api, params).wf(),
{
}

/// Two signatures are equal exactly where their configurations are the same:
/// the hash, which is compared first, never tells equal configurations apart.
pub proof fn signatures_equal_iff_same_configuration(
    a: WatchStreamSignature,
    b: WatchStreamSignature,
)
    requires
        a.wf(),
        b.wf(),
    ensures
        vstd::std_specs::cmp::PartialEqSpec::eq_spec(&a, &b) <==> a@ == b@,
{
}

/// The stream that takes over from a temporary one is the stream that an
/// operator gets that asks for the same objects without those that there are.
pub proof fn settled_stream_is_the_shared_one(
    api: ApiResource,
    params: WatchParams,
    temporary: u64,
)
    ensures
        SignatureView::requested(api, params).with_temporary(temporary).settled()
            == SignatureView::requested(api, WatchParams { send_initial_events: false, ..params }),
{
}

/// The parameters of a watch request to the API server.
#[derive(Debug)]
pub struct KubeWatchParams {
    pub label_selector: Option<String>,
    pub field_selector: Option<String>,
    pub timeout: Option<u32>,
    pub bookmarks: bool,
    pub send_initial_events: bool,
}

impl KubeApiResource {
    /// The resource that a watch stream is about.
    pub fn from_signature(sig: &WatchStreamSignature) -> (r: KubeApiResource)
        ensures
            r.names(sig@.group, sig@.api_version, sig@.kind, sig@.plural),
    {
        KubeApiResource {
            group: sig.group.clone(),
            version: sig.api_version.clone(),
            api_version: crate::api::api_version(&sig.group, &sig.api_version),
            kind: sig.kind.clone(),
            plural: sig.plural.clone(),
        }
    }
}

impl KubeWatchParams {
    /// The parameters of a watch stream.  Bookmarks are always asked for, since
    /// they tell the resource version to go on from; how long the stream lasts
    /// is left to the server.
    pub fn from_signature(sig: &WatchStreamSignature) -> (r: KubeWatchParams)
        ensures
            opt_text(r.label_selector) == sig@.label_selector,
            opt_text(r.field_selector) == sig@.field_selector,
            r.timeout is None,
            r.bookmarks,
            r.send_initial_events == sig@.send_initial_events,
    {
        KubeWatchParams {
            label_selector: opt_clone(&sig.label_selector),
            field_selector: opt_clone(&sig.field_selector),
            timeout: None,
            bookmarks: true,
            send_initial_events: sig.send_initial_events,
        }
    }
}

/// A stream is asked for with what the operator asks for, each part for what it
/// is, and is one that operators share.
pub proof fn streams_are_what_was_asked_for(api: ApiResource, params: WatchParams)
    ensures
        ({
            let sig = SignatureView::requested(api, params);
            &&& sig.group == api.group@
            &&& sig.api_version == api.version@
            &&& sig.kind == api.kind@
            &&& sig.plural == api.plural@
            &&& sig.namespace == opt_text(api.namespace)
            &&& sig.label_selector == opt_text(params.label_selector)
            &&& sig.field_selector == opt_text(params.field_selector)
            &&& sig.send_initial_events == params.send_initial_events
            &&& sig.temporary == 0
        }),
{
}

/// A stream under another number, or without the objects that there were, is
/// about the same objects.
pub proof fn streams_keep_their_objects(sig: SignatureView, temporary: u64)
    ensures
        ({
            let other = sig.with_temporary(temporary);
            let shared = sig.settled();
            &&& other.temporary == temporary
            &&& other.send_initial_events == sig.send_initial_events
            &&& shared.temporary == 0
            &&& !shared.send_initial_events
            &&& sig.same_objects(other)
            &&& sig.same_objects(shared)
            &&& other.settled() == shared
            &&& other.with_temporary(sig.temporary) == sig
        }),
{
}

impl SignatureView {
    /// Whether two streams are about the same objects.
    pub open spec fn same_objects(self, other: SignatureView) -> bool {
        &&& self.group == other.group
        &&& self.api_version == other.api_version
        &&& self.kind == other.kind
        &&& self.plural == other.plural
        &&& self.namespace == other.namespace
        &&& self.label_selector == other.label_selector
        &&& self.field_selector == other.field_selector
    }
}

proof fn lemma_texts_apart(a: Seq<char>, b: Seq<char>)
    requires
        encode_utf8(a) == encode_utf8(b),
    ensures
        a == b,
{
    vstd::utf8::encode_utf8_decode_utf8(a);
    vstd::utf8::encode_utf8_decode_utf8(b);
}

proof fn lemma_numbers_apart(a: u64, b: u64)
    requires
        spec_u64_to_le_bytes(a) == spec_u64_to_le_bytes(b),
    ensures
        a == b,
{
    vstd::bytes::lemma_auto_spec_u64_to_from_le_bytes();
    assert(vstd::bytes::spec_u64_from_le_bytes(spec_u64_to_le_bytes(a)) == a);
    assert(vstd::bytes::spec_u64_from_le_bytes(spec_u64_to_le_bytes(b)) == b);
}

proof fn lemma_optional_texts_apart(
    a: Option<Seq<char>>,
    rest: Seq<Seq<u8>>,
    b: Option<Seq<char>>,
    other: Seq<Seq<u8>>,
)
    requires
        opt_text_chunks(a) + rest == opt_text_chunks(b) + other,
    ensures
        a == b,
        rest == other,
{
    let left = opt_text_chunks(a) + rest;
    let right = opt_text_chunks(b) + other;
    assert(left[0] == right[0]);
    assert(left[0] == spec_u64_to_le_bytes(
        if a is Some {
            1
        } else {
            0
        },
    ));
    assert(right[0] == spec_u64_to_le_bytes(
        if b is Some {
            1
        } else {
            0
        },
    ));
    lemma_numbers_apart(
        if a is Some {
            1
        } else {
            0
        },
        if b is Some {
            1
        } else {
            0
        },
    );
    if a is Some {
        assert(left[1] == encode_utf8(a->0));
        assert(right[1] == encode_utf8(b->0));
        lemma_texts_apart(a->0, b->0);
    }
    assert(left.skip(opt_text_chunks(a).len() as int) =~= rest);
    assert(right.skip(opt_text_chunks(b).len() as int) =~= other);
}

proof fn lemma_leading_texts_apart(
    a: Seq<char>,
    rest: Seq<Seq<u8>>,
    b: Seq<char>,
    other: Seq<Seq<u8>>,
)
    requires
        text_chunks(a) + rest == text_chunks(b) + other,
    ensures
        a == b,
        rest == other,
{
    let left = text_chunks(a) + rest;
    let right = text_chunks(b) + other;
    assert(left[0] == encode_utf8(a));
    assert(right[0] == encode_utf8(b));
    lemma_texts_apart(a, b);
    assert(left.skip(2) =~= rest);
    assert(right.skip(2) =~= other);
}

proof fn lemma_together(a: Seq<Seq<u8>>, b: Seq<Seq<u8>>, c: Seq<Seq<u8>>)
    ensures
        (a + b) + c == a + (b + c),
{
    assert((a + b) + c =~= a + (b + c));
}

proof fn lemma_chunks(sig: SignatureView)
    ensures
        sig.chunks() == text_chunks(sig.group) + (text_chunks(sig.api_version) + (text_chunks(
            sig.kind,
        ) + (text_chunks(sig.plural) + (opt_text_chunks(sig.namespace) + (opt_text_chunks(
            sig.label_selector,
        ) + (opt_text_chunks(sig.field_selector) + (bool_chunks(sig.send_initial_events)
            + number_chunks(sig.temporary)))))))),
{
    let c9 = number_chunks(sig.temporary);
    let c8 = bool_chunks(sig.send_initial_events);
    let c7 = opt_text_chunks(sig.field_selector);
    let c6 = opt_text_chunks(sig.label_selector);
    let c5 = opt_text_chunks(sig.namespace);
    let c4 = text_chunks(sig.plural);
    let c3 = text_chunks(sig.kind);
    let c2 = text_chunks(sig.api_version);
    let c1 = text_chunks(sig.group);
    let p2 = c1 + c2;
    let p3 = p2 + c3;
    let p4 = p3 + c4;
    let p5 = p4 + c5;
    let p6 = p5 + c6;
    let p7 = p6 + c7;
    lemma_together(p7, c8, c9);
    lemma_together(p6, c7, c8 + c9);
    lemma_together(p5, c6, c7 + (c8 + c9));
    lemma_together(p4, c5, c6 + (c7 + (c8 + c9)));
    lemma_together(p3, c4, c5 + (c6 + (c7 + (c8 + c9))));
    lemma_together(p2, c3, c4 + (c5 + (c6 + (c7 + (c8 + c9)))));
    lemma_together(c1, c2, c3 + (c4 + (c5 + (c6 + (c7 + (c8 + c9))))));
}

/// A hasher is fed all of a configuration: for two that differ in any part, it is
/// fed something else.
pub proof fn configurations_are_hashed_whole(a: SignatureView, b: SignatureView)
    ensures
        a.chunks() == b.chunks() <==> a == b,
{
    if a.chunks() == b.chunks() {
        let a9 = number_chunks(a.temporary);
        let b9 = number_chunks(b.temporary);
        let a8 = bool_chunks(a.send_initial_events) + a9;
        let b8 = bool_chunks(b.send_initial_events) + b9;
        let a7 = opt_text_chunks(a.field_selector) + a8;
        let b7 = opt_text_chunks(b.field_selector) + b8;
        let a6 = opt_text_chunks(a.label_selector) + a7;
        let b6 = opt_text_chunks(b.label_selector) + b7;
        let a5 = opt_text_chunks(a.namespace) + a6;
        let b5 = opt_text_chunks(b.namespace) + b6;
        let a4 = text_chunks(a.plural) + a5;
        let b4 = text_chunks(b.plural) + b5;
        let a3 = text_chunks(a.kind) + a4;
        let b3 = text_chunks(b.kind) + b4;
        let a2 = text_chunks(a.api_version) + a3;
        let b2 = text_chunks(b.api_version) + b3;
        lemma_chunks(a);
        lemma_chunks(b);
        lemma_leading_texts_apart(a.group, a2, b.group, b2);
        lemma_leading_texts_apart(a.api_version, a3, b.api_version, b3);
        lemma_leading_texts_apart(a.kind, a4, b.kind, b4);
        lemma_leading_texts_apart(a.plural, a5, b.plural, b5);
        lemma_optional_texts_apart(a.namespace, a6, b.namespace, b6);
        lemma_optional_texts_apart(a.label_selector, a7, b.label_selector, b7);
        lemma_optional_texts_apart(a.field_selector, a8, b.field_selector, b8);
        assert(a8[0][0] == b8[0][0]);
        assert(a8[1] == b8[1]);
        assert(a8[1] == spec_u64_to_le_bytes(a.temporary));
        assert(b8[1] == spec_u64_to_le_bytes(b.temporary));
        lemma_numbers_apart(a.temporary, b.temporary);
    }
}

} // verus!
