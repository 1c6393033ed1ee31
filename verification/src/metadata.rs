//! What is known of a WebAssembly component before it runs, read from a
//! configuration file or from an object of the cluster.

use crate::crd::{Metadata, WasmSource};
use crate::text::{
    contains, contains_text, is_blank, joined_by, pieces, pieces_make_up_the_text, split_on, str_eq,
    texts, white_space,
};
use vstd::prelude::*;
use vstd::string::*;

verus! {

/// Identifies an operator in the cluster.
pub type OperatorUid = String;

/// An environment variable of a component.
#[derive(Debug)]
pub struct EnvironmentVariable {
    pub name: String,
    pub value: String,
}

/// What is known of a component.
#[derive(Debug)]
pub struct WasmComponentMetadata {
    pub name: String,
    pub wasm: WasmSource,
    pub generation: Option<i64>,
    pub uid: OperatorUid,
    pub env: Vec<EnvironmentVariable>,
    pub args: Vec<String>,
}

/// A JSON value.
#[derive(Debug)]
pub enum Json {
    Null,
    Bool(bool),
    Number(String),
    Text(String),
    List(Vec<Json>),
    Object(Vec<(String, Json)>),
}

/// The first value under a key.
pub open spec fn value_under(pairs: Seq<(String, Json)>, key: Seq<char>) -> Option<Json>
    decreases pairs.len(),
{
    if pairs.len() == 0 {
        None
    } else if pairs[0].0@ == key {
        Some(pairs[0].1)
    } else {
        value_under(pairs.drop_first(), key)
    }
}

impl Json {
    /// The value under a key; only an object has any.
    pub open spec fn member(self, key: Seq<char>) -> Option<Json> {
        match self {
            Json::Object(pairs) => value_under(pairs@, key),
            _ => None,
        }
    }

    /// The value under a key of the `spec` of an object.
    pub open spec fn spec_member(self, key: Seq<char>) -> Option<Json> {
        match self.member("spec"@) {
            Some(spec) => spec.member(key),
            None => None,
        }
    }

    /// The text under a key.
    pub open spec fn text_under(self, key: Seq<char>) -> Option<String> {
        match self.member(key) {
            Some(Json::Text(text)) => Some(text),
            _ => None,
        }
    }

    /// Looks a key up.
    pub fn get(&self, key: &str) -> (r: Option<&Json>)
        ensures
            match r {
                Some(value) => self.member(key@) == Some(*value),
                None => self.member(key@) is None,
            },
    {
        let pairs = match self {
            Json::Object(pairs) => pairs,
            _ => {
                return None;
            },
        };
        let mut i: usize = 0;
        assert(pairs@.skip(0) =~= pairs@);
        while i < pairs.len()
            invariant
                i <= pairs@.len(),
                value_under(pairs@, key@) == value_under(pairs@.skip(i as int), key@),
                self.member(key@) == value_under(pairs@, key@),
            decreases pairs@.len() - i,
        {
            assert(pairs@.skip(i as int).drop_first() =~= pairs@.skip(i + 1));
            if str_eq(pairs[i].0.as_str(), key) {
                return Some(&pairs[i].1);
            }
            i = i + 1;
        }
        None
    }

    /// Looks a key up in the `spec` of an object.
    pub fn get_spec(&self, key: &str) -> (r: Option<&Json>)
        ensures
            match r {
                Some(value) => self.spec_member(key@) == Some(*value),
                None => self.spec_member(key@) is None,
            },
    {
        match self.get("spec") {
            Some(spec) => spec.get(key),
            None => None,
        }
    }

    /// Looks a key up that has a text under it.
    pub fn get_text(&self, key: &str) -> (r: Option<String>)
        ensures
            r == self.text_under(key@),
    {
        match self.get(key) {
            Some(Json::Text(text)) => Some(text.clone()),
            _ => None,
        }
    }
}

/// The environment variables that the entries of a list say; others are left
/// out.
pub open spec fn env_of(list: Seq<Json>) -> Seq<EnvironmentVariable>
    decreases list.len(),
{
    if list.len() == 0 {
        Seq::empty()
    } else {
        let before = env_of(list.drop_last());
        match (list.last().text_under("name"@), list.last().text_under("value"@)) {
            (Some(name), Some(value)) => before.push(EnvironmentVariable { name, value }),
            _ => before,
        }
    }
}

/// The texts in a list; others are left out.
pub open spec fn args_of(list: Seq<Json>) -> Seq<String>
    decreases list.len(),
{
    if list.len() == 0 {
        Seq::empty()
    } else {
        let before = args_of(list.drop_last());
        match list.last() {
            Json::Text(text) => before.push(text),
            _ => before,
        }
    }
}

fn read_env(list: &Vec<Json>) -> (r: Vec<EnvironmentVariable>)
    ensures
        r@ == env_of(list@),
{
    let mut r: Vec<EnvironmentVariable> = Vec::new();
    let mut i: usize = 0;
    while i < list.len()
        invariant
            i <= list@.len(),
            r@ == env_of(list@.take(i as int)),
        decreases list@.len() - i,
    {
        assert(list@.take(i + 1).drop_last() =~= list@.take(i as int));
        let entry = &list[i];
        match (entry.get_text("name"), entry.get_text("value")) {
            (Some(name), Some(value)) => {
                r.push(EnvironmentVariable { name, value });
            },
            _ => {},
        }
        i = i + 1;
    }
    assert(list@.take(i as int) =~= list@);
    r
}

fn read_args(list: &Vec<Json>) -> (r: Vec<String>)
    ensures
        r@ == args_of(list@),
{
    let mut r: Vec<String> = Vec::new();
    let mut i: usize = 0;
    while i < list.len()
        invariant
            i <= list@.len(),
            r@ == args_of(list@.take(i as int)),
        decreases list@.len() - i,
    {
        assert(list@.take(i + 1).drop_last() =~= list@.take(i as int));
        match &list[i] {
            Json::Text(text) => {
                r.push(text.clone());
            },
            _ => {},
        }
        i = i + 1;
    }
    assert(list@.take(i as int) =~= list@);
    r
}

/// An object of the cluster.
#[derive(Debug)]
pub struct DynamicObject {
    pub metadata: Metadata,
    pub data: Json,
}

/// What an object of the cluster lacks.
#[derive(Clone, Copy, Debug, PartialEq, Eq, Structural)]
pub enum Lack {
    Wasm,
    ValidWasm,
    Uid,
    Env,
    Args,
}

impl Lack {
    /// What is said of an object that lacks something.
    pub open spec fn words(self, name: Seq<char>) -> Seq<char> {
        (match self {
            Lack::Wasm => "Missing 'wasm' field in Kubernetes object '"@,
            Lack::ValidWasm => "Missing or invalid 'wasm' field in Kubernetes object '"@,
            Lack::Uid => "Missing UID in Kubernetes object '"@,
            Lack::Env => "Missing or invalid 'env' field in Kubernetes object '"@,
            Lack::Args => "Missing or invalid 'args' field in Kubernetes object '"@,
        }) + name + "'"@
    }

    /// Says what an object lacks.
    pub fn text(self, name: &str) -> (s: String)
        ensures
            s@ == self.words(name@),
    {
        let start = match self {
            Lack::Wasm => "Missing 'wasm' field in Kubernetes object '".to_owned(),
            Lack::ValidWasm =>
                "Missing or invalid 'wasm' field in Kubernetes object '".to_owned(),
            Lack::Uid => "Missing UID in Kubernetes object '".to_owned(),
            Lack::Env => "Missing or invalid 'env' field in Kubernetes object '".to_owned(),
            Lack::Args => "Missing or invalid 'args' field in Kubernetes object '".to_owned(),
        };
        start.concat(name).concat("'")
    }
}

/// Whether a field that may be left out is left out, or holds a list.
pub open spec fn list_or_absent(member: Option<Json>) -> bool {
    match member {
        Some(value) => value is List,
        None => true,
    }
}

impl DynamicObject {
    /// The first thing that an object lacks to be a component, `wasm` being the
    /// source that its `wasm` field says.  The fields `env` and `args` may be
    /// left out.
    pub open spec fn lack(self, wasm: Option<WasmSource>) -> Option<Lack> {
        if self.data.spec_member("wasm"@) is None {
            Some(Lack::Wasm)
        } else if wasm is None {
            Some(Lack::ValidWasm)
        } else if self.metadata.uid is None {
            Some(Lack::Uid)
        } else if !list_or_absent(self.data.spec_member("env"@)) {
            Some(Lack::Env)
        } else if !list_or_absent(self.data.spec_member("args"@)) {
            Some(Lack::Args)
        } else {
            None
        }
    }
}

/// The documents of a configuration file; none where it is blank.
pub open spec fn documents_of(contents: Seq<char>) -> Seq<Seq<char>> {
    if forall|i: int| 0 <= i < contents.len() ==> white_space(#[trigger] contents[i]) {
        Seq::empty()
    } else {
        pieces(contents, "\n---"@, 0)
    }
}

impl DynamicObject {
    /// Whether an object says that a component is like this.
    pub open spec fn says(self, wasm: Option<WasmSource>, m: WasmComponentMetadata) -> bool {
        &&& wasm == Some(m.wasm)
        &&& self.metadata.any_name() == m.name@
        &&& self.metadata.uid == Some(m.uid)
        &&& self.metadata.generation == m.generation
        &&& m.env@ == (match self.data.spec_member("env"@) {
            Some(Json::List(list)) => env_of(list@),
            _ => Seq::empty(),
        })
        &&& m.args@ == (match self.data.spec_member("args"@) {
            Some(Json::List(list)) => args_of(list@),
            _ => Seq::empty(),
        })
    }
}

/// Whether a document could not be read because there is nothing in it.
pub open spec fn is_empty_document(r: Result<WasmComponentMetadata, String>) -> bool {
    r matches Err(words) && contains_text(words@, "EOF while parsing a value"@)
}

/// What the documents of a file say: all that are not empty, or what is wrong
/// with the first that cannot be read.
pub open spec fn collected(docs: Seq<Result<WasmComponentMetadata, String>>) -> Result<
    Seq<WasmComponentMetadata>,
    Seq<char>,
>
    decreases docs.len(),
{
    if docs.len() == 0 {
        Ok(Seq::empty())
    } else {
        match collected(docs.drop_last()) {
            Err(words) => Err(words),
            Ok(list) => match docs.last() {
                Ok(component) => Ok(list.push(component)),
                Err(words) => if is_empty_document(docs.last()) {
                    Ok(list)
                } else {
                    Err("Failed to parse module: "@ + words@)
                },
            },
        }
    }
}

proof fn lemma_first_fault(docs: Seq<Result<WasmComponentMetadata, String>>, n: int)
    requires
        0 <= n <= docs.len(),
        collected(docs.take(n)) is Err,
    ensures
        collected(docs) == collected(docs.take(n)),
    decreases docs.len(),
{
    if n == docs.len() {
        assert(docs.take(n) =~= docs);
    } else {
        assert(docs.drop_last().take(n) =~= docs.take(n));
        lemma_first_fault(docs.drop_last(), n);
    }
}

impl WasmComponentMetadata {
    /// The documents of a configuration file, to be read one by one.
    pub fn yaml_documents(contents: &str) -> (docs: Vec<String>)
        ensures
            texts(docs@) == (if forall|i: int|
                0 <= i < contents@.len() ==> white_space(#[trigger] contents@[i]) {
                Seq::<Seq<char>>::empty()
            } else {
                pieces(contents@, "\n---"@, 0)
            }),
            texts(docs@) == documents_of(contents@),
    {
        if is_blank(contents) {
            let docs: Vec<String> = Vec::new();
            assert(texts(docs@) =~= Seq::<Seq<char>>::empty());
            docs
        } else {
            proof {
                reveal_strlit("\n---");
            }
            split_on(contents, "\n---")
        }
    }

    /// Puts together what the documents of a configuration file say, each of
    /// which was read or not.
    pub fn load_from_yaml(docs: Vec<Result<WasmComponentMetadata, String>>) -> (r: Result<
        Vec<WasmComponentMetadata>,
        String,
    >)
        ensures
            match r {
                Ok(list) => collected(docs@) == Ok::<_, Seq<char>>(list@),
                Err(words) => collected(docs@) == Err::<Seq<WasmComponentMetadata>, _>(words@),
            },
    {
        let ghost all = docs@;
        let mut rest = docs;
        let mut list: Vec<WasmComponentMetadata> = Vec::new();
        let n: usize = rest.len();
        let mut i: usize = 0;
        while i < n
            invariant
                i <= n,
                n == all.len(),
                rest@ == all.skip(i as int),
                all == docs@,
                collected(all.take(i as int)) == Ok::<_, Seq<char>>(list@),
            decreases n - i,
        {
            let ghost before = list@;
            proof {
                assert(all.take(i + 1).drop_last() =~= all.take(i as int));
                assert(all.take(i + 1).last() == all[i as int]);
                assert(rest@[0] == all[i as int]);
            }
            let doc = rest.remove(0);
            assert(rest@ =~= all.skip(i + 1));
            match doc {
                Ok(component) => {
                    list.push(component);
                },
                Err(words) => {
                    if !contains(words.as_str(), "EOF while parsing a value") {
                        proof {
                            lemma_first_fault(all, i + 1);
                        }
                        return Err(
                            "Failed to parse module: ".to_owned().concat(words.as_str()),
                        );
                    }
                },
            }
            i = i + 1;
        }
        assert(all.take(i as int) =~= all);
        Ok(list)
    }

    /// Reads the metadata of an object of the cluster, `wasm` being the source
    /// that its `wasm` field says, if it says one.
    pub fn load_from_k8s_object(object: &DynamicObject, wasm: Option<WasmSource>) -> (r: Result<
        WasmComponentMetadata,
        String,
    >)
        ensures
            match r {
                Err(words) => object.lack(wasm) is Some && words@ == (object.lack(
                    wasm,
                )->0).words(object.metadata.any_name()),
                Ok(m) => {
                    &&& object.lack(wasm) is None
                    &&& m.name@ == object.metadata.any_name()
                    &&& Some(m.wasm) == wasm
                    &&& m.generation == object.metadata.generation
                    &&& Some(m.uid) == object.metadata.uid
                    &&& object.data.spec_member("env"@) matches Some(Json::List(list)) ==> m.env@
                        == env_of(list@)
                    &&& object.data.spec_member("env"@) is None ==> m.env@.len() == 0
                    &&& object.data.spec_member("args"@) matches Some(Json::List(list)) ==> m.args@
                        == args_of(list@)
                    &&& object.data.spec_member("args"@) is None ==> m.args@.len() == 0
                },
            },
            r matches Ok(m) ==> object.says(wasm, m),
    {
        let name = object.metadata.name_any();
        if object.data.get_spec("wasm").is_none() {
            return Err(Lack::Wasm.text(name.as_str()));
        }
        let wasm = match wasm {
            Some(source) => source,
            None => {
                return Err(Lack::ValidWasm.text(name.as_str()));
            },
        };
        let uid = match &object.metadata.uid {
            Some(uid) => uid.clone(),
            None => {
                return Err(Lack::Uid.text(name.as_str()));
            },
        };
        let env = match object.data.get_spec("env") {
            Some(Json::List(list)) => read_env(list),
            None => Vec::new(),
            _ => {
                return Err(Lack::Env.text(name.as_str()));
            },
        };
        let args = match object.data.get_spec("args") {
            Some(Json::List(list)) => read_args(list),
            None => Vec::new(),
            _ => {
                return Err(Lack::Args.text(name.as_str()));
            },
        };
        assert(object.data.spec_member("env"@) is None ==> env@ =~= Seq::empty());
        assert(object.data.spec_member("args"@) is None ==> args@ =~= Seq::empty());
        Ok(
            WasmComponentMetadata {
                name,
                wasm,
                generation: object.metadata.generation,
                uid,
                env,
                args,
            },
        )
    }
}

/// The value under a key is the first that is there under it, and there is none
/// exactly where no key is that one.
pub proof fn the_first_value_counts(pairs: Seq<(String, Json)>, key: Seq<char>) -> (at: int)
    ensures
        value_under(pairs, key) is None <==> forall|i: int|
            0 <= i < pairs.len() ==> (#[trigger] pairs[i]).0@ != key,
        value_under(pairs, key) matches Some(value) ==> 0 <= at < pairs.len() && pairs[at].0@ == key
            && pairs[at].1 == value && forall|i: int| 0 <= i < at ==> (#[trigger] pairs[i]).0@ != key,
    decreases pairs.len(),
{
    if pairs.len() == 0 || pairs[0].0@ == key {
        0
    } else {
        let rest = pairs.drop_first();
        let at = the_first_value_counts(rest, key);
        assert forall|i: int|
            value_under(pairs, key) is None && 0 <= i < pairs.len() implies (#[trigger] pairs[i]).0@
            != key by {
            if i > 0 {
                assert(rest[i - 1].0@ != key);
            }
        }
        if value_under(pairs, key) is Some {
            assert(rest[at] == pairs[at + 1]);
            assert forall|i: int| 0 <= i < at + 1 implies (#[trigger] pairs[i]).0@ != key by {
                if i > 0 {
                    assert(rest[i - 1].0@ != key);
                }
            }
        }
        at + 1
    }
}

/// Only objects have values under keys, and it is what stands there that counts;
/// what is under a key of the `spec` is looked for there and nowhere else.
pub proof fn values_are_under_their_keys(
    json: Json,
    spec: Json,
    key: Seq<char>,
    pairs: Vec<(String, Json)>,
    text: String,
)
    ensures
        !(json is Object) ==> json.member(key) is None,
        json == Json::Object(pairs) ==> json.member(key) == value_under(pairs@, key),
        json.member("spec"@) == Some(spec) ==> json.spec_member(key) == spec.member(key),
        json.member("spec"@) is None ==> json.spec_member(key) is None,
        json.text_under(key) == Some(text) <==> json.member(key) == Some(Json::Text(text)),
        json.text_under(key) is None <==> !(json.member(key) matches Some(Json::Text(_))),
{
}

/// Entries of a list are read one by one, in order and each for itself: what two
/// lists say one after the other is what both say together.
pub proof fn entries_are_read_in_order(a: Seq<Json>, b: Seq<Json>)
    ensures
        env_of(a + b) == env_of(a) + env_of(b),
        args_of(a + b) == args_of(a) + args_of(b),
    decreases b.len(),
{
    if b.len() == 0 {
        assert(a + b =~= a);
        assert(env_of(a) + env_of(b) =~= env_of(a));
        assert(args_of(a) + args_of(b) =~= args_of(a));
    } else {
        entries_are_read_in_order(a, b.drop_last());
        assert((a + b).drop_last() =~= a + b.drop_last());
        assert(env_of(a + b) =~= env_of(a) + env_of(b));
        assert(args_of(a + b) =~= args_of(a) + args_of(b));
    }
}

/// An entry says a variable exactly where it has texts for its name and value,
/// which are those of the variable; an argument is a text that stands in the list
/// itself.
pub proof fn entries_say_what_they_hold(entry: Json, name: String, value: String)
    ensures
        entry.member("name"@) == Some(Json::Text(name)) && entry.member("value"@) == Some(
            Json::Text(value),
        ) ==> env_of(seq![entry]) == seq![EnvironmentVariable { name, value }],
        env_of(seq![entry]).len() == 0 <==> !(entry.member("name"@) matches Some(Json::Text(_)))
            || !(entry.member("value"@) matches Some(Json::Text(_))),
        env_of(seq![entry]).len() <= 1,
        entry == Json::Text(value) ==> args_of(seq![entry]) == seq![value],
        args_of(seq![entry]).len() == 0 <==> !(entry is Text),
        env_of(Seq::empty()).len() == 0,
        args_of(Seq::empty()).len() == 0,
{
    let none = Seq::<Json>::empty();
    assert(seq![entry].drop_last() =~= none);
    assert(env_of(none) =~= Seq::empty());
    assert(args_of(none) =~= Seq::empty());
    if entry.member("name"@) == Some(Json::Text(name)) && entry.member("value"@) == Some(
        Json::Text(value),
    ) {
        assert(env_of(seq![entry]) =~= seq![EnvironmentVariable { name, value }]);
    }
    if entry == Json::Text(value) {
        assert(args_of(seq![entry]) =~= seq![value]);
    }
}

/// An object is a component exactly where it has a source that can be read and an
/// identity, and the fields that it may leave out are lists where they are there.
/// Else it is the first of these that it lacks.
pub proof fn objects_lack_one_thing_first(object: DynamicObject, wasm: Option<WasmSource>)
    ensures
        ({
            let env = object.data.spec_member("env"@);
            let args = object.data.spec_member("args"@);
            let source = object.data.spec_member("wasm"@);
            &&& object.lack(wasm) is None <==> source is Some && wasm is Some
                && object.metadata.uid is Some && (env is None || env->0 is List) && (args is None
                || args->0 is List)
            &&& object.lack(wasm) == Some(Lack::Wasm) <==> source is None
            &&& object.lack(wasm) == Some(Lack::ValidWasm) <==> source is Some && wasm is None
            &&& object.lack(wasm) == Some(Lack::Uid) <==> source is Some && wasm is Some
                && object.metadata.uid is None
            &&& object.lack(wasm) == Some(Lack::Env) <==> source is Some && wasm is Some
                && object.metadata.uid is Some && env is Some && !(env->0 is List)
            &&& object.lack(wasm) == Some(Lack::Args) <==> source is Some && wasm is Some
                && object.metadata.uid is Some && (env is None || env->0 is List) && args is Some
                && !(args->0 is List)
        }),
{
}

/// What is said of an object that lacks something names the object, between
/// quotes and last.
pub proof fn objects_that_lack_are_named(lack: Lack, name: Seq<char>)
    ensures
        (seq!['\''] + name + seq!['\'']).is_suffix_of(lack.words(name)),
        "Missing"@.is_prefix_of(lack.words(name)),
{
    reveal_strlit("'");
    reveal_strlit("Missing");
    reveal_strlit("Missing 'wasm' field in Kubernetes object '");
    reveal_strlit("Missing or invalid 'wasm' field in Kubernetes object '");
    reveal_strlit("Missing UID in Kubernetes object '");
    reveal_strlit("Missing or invalid 'env' field in Kubernetes object '");
    reveal_strlit("Missing or invalid 'args' field in Kubernetes object '");
    let words = lack.words(name);
    let tail = seq!['\''] + name + seq!['\''];
    assert(words.subrange(words.len() - tail.len(), words.len() as int) =~= tail);
}

/// A component is what its object says: its name, identity and generation, the
/// source that was read, and what the lists say; a list that is left out is empty.
pub proof fn components_are_what_objects_say(
    object: DynamicObject,
    wasm: Option<WasmSource>,
    m: WasmComponentMetadata,
    list: Vec<Json>,
)
    requires
        object.says(wasm, m),
    ensures
        m.name@ == object.metadata.any_name(),
        Some(m.wasm) == wasm,
        m.generation == object.metadata.generation,
        Some(m.uid) == object.metadata.uid,
        object.data.spec_member("env"@) == Some(Json::List(list)) ==> m.env@ == env_of(list@),
        object.data.spec_member("args"@) == Some(Json::List(list)) ==> m.args@ == args_of(list@),
        object.data.spec_member("env"@) is None ==> m.env@.len() == 0,
        object.data.spec_member("args"@) is None ==> m.args@.len() == 0,
{
}

/// A blank file has no documents; those of any other, with the marks between them,
/// make it up.
pub proof fn documents_make_up_the_file(contents: Seq<char>)
    ensures
        documents_of(contents).len() == 0 <==> forall|i: int|
            0 <= i < contents.len() ==> white_space(#[trigger] contents[i]),
        documents_of(contents).len() > 0 ==> joined_by(documents_of(contents), "\n---"@) == contents,
{
    reveal_strlit("\n---");
    if exists|i: int| 0 <= i < contents.len() && !white_space(#[trigger] contents[i]) {
        pieces_make_up_the_text(contents, "\n---"@, 0);
        assert(contents.skip(0) =~= contents);
    }
}

/// Documents are put together in order: one that was read is the last of what was
/// read so far, an empty one adds nothing, and one that could not be read is the
/// fault, whatever comes after it.
pub proof fn documents_are_put_together_in_order(
    docs: Seq<Result<WasmComponentMetadata, String>>,
    component: WasmComponentMetadata,
    words: String,
    more: Seq<Result<WasmComponentMetadata, String>>,
)
    ensures
        collected(Seq::empty()) is Ok,
        collected(Seq::empty())->Ok_0.len() == 0,
        collected(docs) matches Ok(list) ==> collected(docs.push(Ok(component))) == Ok::<
            Seq<WasmComponentMetadata>,
            Seq<char>,
        >(list.push(component)),
        collected(docs) is Ok && contains_text(words@, "EOF while parsing a value"@) ==> collected(
            docs.push(Err(words)),
        ) == collected(docs),
        collected(docs) is Ok && !contains_text(words@, "EOF while parsing a value"@) ==> {
            let all = collected(docs.push(Err(words)) + more);
            &&& all is Err
            &&& "Failed to parse module: "@.is_prefix_of(all->Err_0)
            &&& words@.is_suffix_of(all->Err_0)
            &&& all->Err_0.len() == "Failed to parse module: "@.len() + words@.len()
        },
{
    assert(docs.push(Ok(component)).drop_last() =~= docs);
    assert(docs.push(Err(words)).drop_last() =~= docs);
    if collected(docs) is Ok && !contains_text(words@, "EOF while parsing a value"@) {
        let bad = docs.push(Err(words));
        let all = bad + more;
        assert(all.take(bad.len() as int) =~= bad);
        lemma_first_fault(all, bad.len() as int);
        let text = "Failed to parse module: "@ + words@;
        assert(text.subrange(text.len() - words@.len(), text.len() as int) =~= words@);
    }
}

} // verus!
