//! Calls into outside crates.  Verus does not read their code: each item below
//! states what is believed of one of them.

use dashmap::DashMap;
use vstd::prelude::*;

verus! {

/// `std::string::String::push`: appends the given `char` to the end of the
/// string.
pub assume_specification[ String::push ](s: &mut String, ch: char)
    ensures
        final(s)@ == old(s)@.push(ch),
;

/// `dashmap::DashMap`, a hash map.
#[verifier::external_type_specification]
#[verifier::external_body]
#[verifier::reject_recursive_types(K)]
#[verifier::reject_recursive_types(V)]
#[verifier::reject_recursive_types(S)]
pub struct ExDashMap<K, V, S>(DashMap<K, V, S>);

/// What a map from operator uid to resource generation holds.
pub uninterp spec fn generations(map: DashMap<String, Option<i64>>) -> Map<Seq<char>, Option<i64>>;

/// `DashMap::new`: the new map is empty.
#[verifier::external_body]
pub(crate) fn generations_new() -> (fresh: DashMap<String, Option<i64>>)
    ensures
        generations(fresh).dom() == Set::<Seq<char>>::empty(),
{
    DashMap::new()
}

/// `DashMap::get`: the value under the key, if the key is in the map.
#[verifier::external_body]
pub(crate) fn generations_get(map: &DashMap<String, Option<i64>>, uid: &str) -> (r: Option<
    Option<i64>,
>)
    ensures
        r == (if generations(*map).dom().contains(uid@) {
            Some(generations(*map)[uid@])
        } else {
            None
        }),
{
    map.get(uid).map(|entry| *entry.value())
}

/// `DashMap::insert`: the key now has the value, whatever it had before.
#[verifier::external_body]
pub(crate) fn generations_insert(
    map: &mut DashMap<String, Option<i64>>,
    uid: String,
    generation: Option<i64>,
)
    ensures
        generations(*final(map)) == generations(*old(map)).insert(uid@, generation),
{
    map.insert(uid, generation);
}

/// `DashMap::remove`: the key is gone; the result is the value that it had.
#[verifier::external_body]
pub(crate) fn generations_remove(map: &mut DashMap<String, Option<i64>>, uid: &str) -> (r: Option<
    Option<i64>,
>)
    ensures
        generations(*final(map)) == generations(*old(map)).remove(uid@),
        r == (if generations(*old(map)).dom().contains(uid@) {
            Some(generations(*old(map))[uid@])
        } else {
            None
        }),
{
    map.remove(uid).map(|entry| entry.1)
}

/// `DashMap::iter`: each key of the map once, in an order that is left open.
#[verifier::external_body]
pub(crate) fn generations_keys(map: &DashMap<String, Option<i64>>) -> (keys: Vec<String>)
    ensures
        crate::text::texts(keys@).no_duplicates(),
        forall|uid: Seq<char>|
            crate::text::texts(keys@).contains(uid) <==> generations(
                *map,
            ).dom().contains(uid),
{
    map.iter().map(|entry| entry.key().clone()).collect()
}

/// What a map from watch stream to resource version holds.
pub uninterp spec fn versions(map: DashMap<u64, String>) -> Map<u64, Seq<char>>;

/// `DashMap::new`: the new map is empty.
#[verifier::external_body]
pub(crate) fn versions_new() -> (fresh: DashMap<u64, String>)
    ensures
        versions(fresh).dom() == Set::<u64>::empty(),
{
    DashMap::new()
}

/// `DashMap::get`: the value under the key, if the key is in the map.
#[verifier::external_body]
pub(crate) fn versions_get(map: &DashMap<u64, String>, id: u64) -> (r: Option<String>)
    ensures
        crate::text::opt_text(r) == (if versions(*map).dom().contains(id) {
            Some(versions(*map)[id])
        } else {
            None
        }),
{
    map.get(&id).map(|entry| entry.value().clone())
}

/// `DashMap::insert`: the key now has the value, whatever it had before.
#[verifier::external_body]
pub(crate) fn versions_insert(map: &mut DashMap<u64, String>, id: u64, version: String)
    ensures
        versions(*final(map)) == versions(*old(map)).insert(id, version@),
{
    map.insert(id, version);
}

/// `DashMap::remove`: the key is gone.
#[verifier::external_body]
pub(crate) fn versions_remove(map: &mut DashMap<u64, String>, id: u64)
    ensures
        versions(*final(map)) == versions(*old(map)).remove(id),
{
    map.remove(&id);
}

/// What a map from watch stream to listeners holds.  A listener is an operator
/// and whether it takes bookmarks.
pub uninterp spec fn listeners(map: DashMap<u64, Vec<(u64, bool)>>) -> Map<u64, Seq<(u64, bool)>>;

/// `DashMap::new`: the new map is empty.
#[verifier::external_body]
pub(crate) fn listeners_new() -> (fresh: DashMap<u64, Vec<(u64, bool)>>)
    ensures
        listeners(fresh).dom() == Set::<u64>::empty(),
{
    DashMap::new()
}

/// `DashMap::get`: the value under the key, if the key is in the map.
#[verifier::external_body]
pub(crate) fn listeners_get(map: &DashMap<u64, Vec<(u64, bool)>>, id: u64) -> (r: Option<
    Vec<(u64, bool)>,
>)
    ensures
        match r {
            Some(list) => listeners(*map).dom().contains(id) && list@ == listeners(*map)[id],
            None => !listeners(*map).dom().contains(id),
        },
{
    map.get(&id).map(|entry| entry.value().clone())
}

/// `DashMap::insert`: the key now has the value, whatever it had before.
#[verifier::external_body]
pub(crate) fn listeners_insert(
    map: &mut DashMap<u64, Vec<(u64, bool)>>,
    id: u64,
    list: Vec<(u64, bool)>,
)
    ensures
        listeners(*final(map)) == listeners(*old(map)).insert(id, list@),
{
    map.insert(id, list);
}

/// `DashMap::remove`: the key is gone; the result is the value that it had.
#[verifier::external_body]
pub(crate) fn listeners_remove(map: &mut DashMap<u64, Vec<(u64, bool)>>, id: u64) -> (r: Option<
    Vec<(u64, bool)>,
>)
    ensures
        listeners(*final(map)) == listeners(*old(map)).remove(id),
        match r {
            Some(list) => listeners(*old(map)).dom().contains(id) && list@ == listeners(
                *old(map),
            )[id],
            None => !listeners(*old(map)).dom().contains(id),
        },
{
    map.remove(&id).map(|entry| entry.1)
}

/// What is wrong with a text as JSON: the words of the error with which
/// `serde_json::from_str` refuses it as a JSON value, if it does.
pub uninterp spec fn json_fault(text: Seq<char>) -> Option<Seq<char>>;

/// `serde_json::from_str` to a JSON value: whether it refuses the text, and
/// with which words, depends on the text alone.
#[verifier::external_body]
pub(crate) fn json_error(text: &str) -> (fault: Option<String>)
    ensures
        crate::text::opt_text(fault) == json_fault(text@),
{
    serde_json::from_str::<serde_json::Value>(text).err().map(|e| e.to_string())
}

/// What is wrong with a text as a JSON patch: the words of the error with which
/// `serde_json::from_value` refuses the value that the text holds, if it does.
pub uninterp spec fn json_patch_fault(text: Seq<char>) -> Option<Seq<char>>;

/// `serde_json::from_value` to the JSON patch of `kube::api::Patch::Json`:
/// whether it refuses the value that the text holds, and with which words,
/// depends on the text alone.  The text must be JSON.
#[verifier::external_body]
pub(crate) fn json_patch_error(text: &str) -> (fault: Option<String>)
    requires
        json_fault(text@) is None,
    ensures
        crate::text::opt_text(fault) == json_patch_fault(text@),
{
    serde_json::from_str::<serde_json::Value>(text)
        .and_then(serde_json::from_value)
        .map(kube::api::Patch::<serde_json::Value>::Json)
        .err()
        .map(|e| e.to_string())
}

/// Whether the parser of `tracing_subscriber` takes a directive without fail.  It
/// looks for places in the directive without the white space around it and cuts
/// the directive itself there, which may be in the middle of a character where
/// white space comes first and not all is ASCII.
pub open spec fn directive_safe(text: Seq<char>) -> bool {
    crate::text::ascii(text) || !crate::text::white_space(text[0])
}

/// Whether the parser of `tracing_subscriber` takes a filter without fail: all of
/// the directives in it, which commas part.
pub open spec fn filter_safe(text: Seq<char>) -> bool {
    let directives = crate::text::pieces(text, ","@, 0);
    forall|i: int| 0 <= i < directives.len() ==> directive_safe(#[trigger] directives[i])
}

/// Whether a text is a filter of what is logged.
pub uninterp spec fn filter_accepted(text: Seq<char>) -> bool;

/// `tracing_subscriber::EnvFilter::try_new`: whether it accepts a text depends on
/// the text alone.
#[verifier::external_body]
pub(crate) fn accepts_filter(text: &str) -> (r: bool)
    requires
        filter_safe(text@),
    ensures
        r == filter_accepted(text@),
{
    tracing_subscriber::EnvFilter::try_new(text).is_ok()
}

/// Whether a text is one directive of a filter.
pub uninterp spec fn directive_accepted(text: Seq<char>) -> bool;

/// `<tracing_subscriber::filter::Directive as FromStr>::from_str`: whether it
/// accepts a text depends on the text alone.
#[verifier::external_body]
pub(crate) fn accepts_directive(text: &str) -> (r: bool)
    requires
        directive_safe(text@),
    ensures
        r == directive_accepted(text@),
{
    text.parse::<tracing_subscriber::filter::Directive>().is_ok()
}

/// The time that a text gives, in nanoseconds since the start of 1970, if it
/// gives one.
pub uninterp spec fn timestamp_nanos(text: Seq<char>) -> Option<i128>;

/// `<jiff::Timestamp as FromStr>::from_str`: what it makes of a text depends on
/// the text alone.
#[verifier::external_body]
pub(crate) fn parse_timestamp(text: &str) -> (nanos: Option<i128>)
    ensures
        nanos == timestamp_nanos(text@),
{
    text.parse::<k8s_openapi::jiff::Timestamp>().ok().map(|t| t.as_nanosecond())
}

/// The last second that `chrono::DateTime` can tell, counted from the start of
/// 1970.
pub const LAST_SECOND: i64 = 8_210_266_876_799;

/// `chrono::Utc::now`: the time in seconds since the start of 1970, and the
/// nanoseconds of the second that goes on.  The call reads the clock of the
/// machine and fails on one that is set before 1970, so the time is not negative;
/// nothing more is known of it.
#[verifier::external_body]
pub(crate) fn utc_now() -> (now: (i64, u32))
    ensures
        0 <= now.0 <= LAST_SECOND,
        now.1 < 1_000_000_000,
{
    let now = chrono::Utc::now();
    (now.timestamp(), now.timestamp_subsec_nanos())
}

/// A time in seconds since the start of 1970, written as RFC 3339 has it, in
/// whole seconds and with a `Z`.
pub uninterp spec fn rfc3339_text(secs: i64) -> Seq<char>;

/// `chrono::DateTime::to_rfc3339_opts` in whole seconds and with a `Z`: what it
/// writes depends on the time alone.
#[verifier::external_body]
pub(crate) fn rfc3339_seconds(secs: i64) -> (s: String)
    requires
        0 <= secs <= LAST_SECOND,
    ensures
        s@ == rfc3339_text(secs),
{
    chrono::DateTime::from_timestamp(secs, 0)
        .expect("a time in range")
        .to_rfc3339_opts(chrono::SecondsFormat::Secs, true)
}

/// A time in seconds since the start of 1970 and nanoseconds, written as RFC 3339
/// has it, with as many decimals as it takes and the offset of UTC.
pub uninterp spec fn rfc3339_full_text(secs: i64, nanos: u32) -> Seq<char>;

/// `chrono::DateTime::to_rfc3339`: what it writes depends on the time alone.
#[verifier::external_body]
pub(crate) fn rfc3339_full(secs: i64, nanos: u32) -> (s: String)
    requires
        0 <= secs <= LAST_SECOND,
        nanos < 1_000_000_000,
    ensures
        s@ == rfc3339_full_text(secs, nanos),
{
    chrono::DateTime::from_timestamp(secs, nanos).expect("a time in range").to_rfc3339()
}

/// Whether a character is a digit of a number written in lowercase hexadecimal.
pub open spec fn is_hex_digit(c: char) -> bool {
    '0' <= c <= '9' || 'a' <= c <= 'f'
}

/// The BLAKE3 hash of some bytes, in lowercase hexadecimal.
pub uninterp spec fn blake3_text(bytes: Seq<u8>) -> Seq<char>;

/// `blake3::hash` and `blake3::Hash::to_hex`: the hash depends on the bytes
/// alone, and is written as 64 digits in lowercase hexadecimal.
#[verifier::external_body]
pub(crate) fn blake3_hex(bytes: &Vec<u8>) -> (s: String)
    ensures
        s@ == blake3_text(bytes@),
        s@.len() == 64,
        forall|i: int| 0 <= i < s@.len() ==> is_hex_digit(#[trigger] s@[i]),
{
    blake3::hash(bytes).to_hex().to_string()
}

/// `target_lexicon::Triple::host`: the machine that the program was built for,
/// in words.  It differs from machine to machine, so nothing is said of it.
#[verifier::external_body]
pub(crate) fn host_triple() -> (s: String)
{
    target_lexicon::Triple::host().to_string()
}

/// `uuid::Uuid::new_v4`: 36 characters, among them four hyphens.  The rest is
/// left to chance.
#[verifier::external_body]
pub(crate) fn new_uuid() -> (s: String)
    ensures
        s@.len() == 36,
        s@[8] == '-' && s@[13] == '-' && s@[18] == '-' && s@[23] == '-',
{
    uuid::Uuid::new_v4().to_string()
}

/// The bytes of some numbers, one after the other, each with its lowest byte
/// first.
pub open spec fn number_bytes(numbers: Seq<u32>) -> Seq<u8>
    decreases numbers.len(),
{
    if numbers.len() == 0 {
        Seq::empty()
    } else {
        number_bytes(numbers.drop_last()) + vstd::bytes::spec_u32_to_le_bytes(numbers.last())
    }
}

/// How a list of numbers is written down: how many there are, in eight bytes
/// with the lowest first, then the numbers.
pub open spec fn list_bytes(numbers: Seq<u32>) -> Seq<u8> {
    vstd::bytes::spec_u64_to_le_bytes(numbers.len() as u64) + number_bytes(numbers)
}

/// How many numbers some bytes say that there are.
pub open spec fn listed_len(bytes: Seq<u8>) -> u64 {
    vstd::bytes::spec_u64_from_le_bytes(bytes.take(8))
}

/// The number at a place in some bytes.
pub open spec fn listed_number(bytes: Seq<u8>, i: int) -> u32 {
    vstd::bytes::spec_u32_from_le_bytes(bytes.subrange(8 + 4 * i, 12 + 4 * i))
}

/// Whether some bytes hold as many numbers as they say; more bytes may follow.
pub open spec fn is_list(bytes: Seq<u8>) -> bool {
    bytes.len() >= 8 && 8 + 4 * listed_len(bytes) <= bytes.len()
}

/// `bincode::serialize` on a list of numbers of 32 bits: the length in eight
/// bytes and each number in four, the lowest byte first.  It does not fail: there
/// is no limit on the size, and the length is known.
#[verifier::external_body]
pub(crate) fn write_list(numbers: &Vec<u32>) -> (bytes: Vec<u8>)
    ensures
        bytes@ == list_bytes(numbers@),
{
    bincode::serialize(numbers).expect("a list of numbers is written without fail")
}

/// `bincode::deserialize` to a list of numbers of 32 bits: it reads the length
/// and as many numbers, and fails where the bytes do not suffice.  Bytes that
/// follow are passed over.
#[verifier::external_body]
pub(crate) fn read_list(bytes: &Vec<u8>) -> (r: Option<Vec<u32>>)
    ensures
        match r {
            Some(numbers) => is_list(bytes@) && numbers@ == Seq::new(
                listed_len(bytes@) as nat,
                |i: int| listed_number(bytes@, i),
            ),
            None => !is_list(bytes@),
        },
{
    bincode::deserialize::<Vec<u32>>(bytes).ok()
}

/// `std::hash::Hasher::write_u64`: feeds a number to a hasher.  What a hasher
/// makes of it is its own affair, so nothing is said of it.
#[verifier::external_body]
pub(crate) fn hasher_write_u64<H: std::hash::Hasher>(state: &mut H, n: u64) {
    state.write_u64(n)
}

} // verus!
