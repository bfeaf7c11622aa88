//! The flat tensor archive: an 8-byte little-endian header length, a JSON
//! object header of that length, then the raw payload (not read here).
//!
//! The header's reserved key `__metadata__` holds the metadata object; every
//! other key describes a tensor and is kept as it was parsed.
use vstd::prelude::*;

verus! {

#[verifier::external_type_specification]
#[verifier::external_body]
pub struct ExJsonValue(serde_json::Value);

#[verifier::external_type_specification]
#[verifier::external_body]
#[verifier::reject_recursive_types(K)]
#[verifier::reject_recursive_types(V)]
pub struct ExJsonMap<K, V>(serde_json::Map<K, V>);

#[verifier::external_type_specification]
#[verifier::external_body]
pub struct ExJsonError(serde_json::Error);

/// A JSON object.
pub type JsonObject = serde_json::Map<String, serde_json::Value>;

/// The keys of a JSON object.
pub uninterp spec fn json_keys(m: JsonObject) -> Set<Seq<char>>;

/// The entries of a JSON object whose values are JSON strings.
pub uninterp spec fn json_strings(m: JsonObject) -> Map<Seq<char>, Seq<char>>;

/// The entries of a JSON object whose values are themselves objects, each
/// with that inner object's string entries.
pub uninterp spec fn json_objects(m: JsonObject) -> Map<Seq<char>, Map<Seq<char>, Seq<char>>>;

/// What `serde_json::from_slice` reads from `b` as a map: its keys, and the
/// string entries of each inner object (see `json_objects`); `None` where it
/// refuses `b` (not UTF-8, not a single JSON object, nested too deeply).
pub uninterp spec fn parsed_object(b: Seq<u8>) -> Option<
    (Set<Seq<char>>, Map<Seq<char>, Map<Seq<char>, Seq<char>>>),
>;

/// Relies on `serde_json::Map::new`: an empty object.
#[verifier::external_body]
fn json_new() -> (r: JsonObject)
    ensures
        json_keys(r).is_empty(),
        json_strings(r).dom().is_empty(),
        json_objects(r).dom().is_empty(),
{
    serde_json::Map::new()
}

/// Relies on `serde_json::from_slice` into a map: whether it succeeds, and
/// what the map holds, depend on the bytes alone.
#[verifier::external_body]
fn json_parse_object(b: &[u8]) -> (r: Result<JsonObject, serde_json::Error>)
    ensures
        r is Ok <==> parsed_object(b@) is Some,
        r matches Ok(m) ==> parsed_object(b@) == Some((json_keys(m), json_objects(m))),
{
    serde_json::from_slice(b)
}

/// Relies on `serde_json::Map::remove`, then `serde_json::from_value` into
/// a map: takes the entry of `key` out, and hands it back when its value is
/// an object (`from_value` refuses any other value and keeps the entries of
/// an object as they are).
#[verifier::external_body]
fn json_take_object(m: &mut JsonObject, key: &str) -> (r: Option<JsonObject>)
    ensures
        r is Some <==> json_objects(*old(m)).contains_key(key@),
        r matches Some(o) ==> json_strings(o) == json_objects(*old(m))[key@],
        json_keys(*final(m)) == json_keys(*old(m)).remove(key@),
        json_strings(*final(m)) == json_strings(*old(m)).remove(key@),
        json_objects(*final(m)) == json_objects(*old(m)).remove(key@),
{
    m.remove(key).and_then(|v| serde_json::from_value(v).ok())
}

/// Relies on `serde_json::Map::get` and `Value::as_str`: the string stored
/// under `key`, if the key is present and its value is a string.
#[verifier::external_body]
fn json_get_str(m: &JsonObject, key: &str) -> (r: Option<String>)
    ensures
        r is Some <==> json_strings(*m).contains_key(key@),
        r matches Some(s) ==> s@ == json_strings(*m)[key@],
{
    m.get(key).and_then(|v| v.as_str()).map(|s| s.to_string())
}

/// Relies on `serde_json::Map::keys`: each key once.
#[verifier::external_body]
fn json_key_list(m: &JsonObject) -> (r: Vec<String>)
    ensures
        forall|i: int| 0 <= i < r@.len() ==> json_keys(*m).contains(#[trigger] r@[i]@),
        forall|k: Seq<char>| #[trigger] json_keys(*m).contains(k) ==> exists|i: int| 0 <= i < r@.len() && r@[i]@ == k,
        forall|i: int, j: int| 0 <= i < j < r@.len() ==> r@[i]@ != r@[j]@,
{
    m.keys().cloned().collect()
}

/// The unsigned number that `b` encodes, least significant byte first.
pub open spec fn le_value(b: Seq<u8>) -> nat
    decreases b.len(),
{
    if b.len() == 0 {
        0
    } else {
        b[0] as nat + 256 * le_value(b.skip(1))
    }
}

pub open spec fn pow256(n: nat) -> nat
    decreases n,
{
    if n == 0 {
        1
    } else {
        256 * pow256((n - 1) as nat)
    }
}

proof fn lemma_le_value_bound(b: Seq<u8>)
    ensures
        le_value(b) < pow256(b.len()),
    decreases b.len(),
{
    if b.len() > 0 {
        lemma_le_value_bound(b.skip(1));
        let x = b[0] as nat;
        let r = le_value(b.skip(1));
        let p = pow256(b.skip(1).len());
        assert(x + 256 * r < 256 * p) by (nonlinear_arith)
            requires
                x < 256,
                r < p,
        ;
    }
}

/// The header length stored in the first eight bytes.
pub open spec fn header_len(data: Seq<u8>) -> nat {
    le_value(data.take(8))
}

/// Reads the little-endian header length from the first eight bytes.
fn read_header_len(data: &[u8]) -> (r: u64)
    requires
        data@.len() >= 8,
    ensures
        r == header_len(data@),
{
    let ghost b = data@.take(8);
    let mut acc: u64 = 0;
    let mut i: usize = 8;
    while i > 0
        invariant
            i <= 8,
            b == data@.take(8),
            data@.len() >= 8,
            acc == le_value(b.skip(i as int)),
        decreases i,
    {
        i = i - 1;
        proof {
            lemma_le_value_bound(b.skip(i as int + 1));
            assert(b.skip(i as int).skip(1) =~= b.skip(i as int + 1));
            assert(pow256((7 - i) as nat) <= pow256(7)) by {
                lemma_pow256_mono((7 - i) as nat, 7);
            }
            assert(pow256(7) == 0x100000000000000) by {
                reveal_with_fuel(pow256, 8);
            }
        }
        acc = acc * 256 + data[i] as u64;
    }
    assert(b.skip(0) =~= b);
    acc
}

proof fn lemma_pow256_mono(a: nat, b: nat)
    requires
        a <= b,
    ensures
        pow256(a) <= pow256(b),
    decreases b,
{
    if a < b {
        lemma_pow256_mono(a, (b - 1) as nat);
    }
}

/// Why an archive header cannot be read.
#[derive(Clone, Copy, Debug, PartialEq, Eq)]
pub enum ArchiveError {
    /// Fewer than eight bytes: no header length.
    Truncated,
    /// The header length runs past the end of the buffer.
    HeaderTooLarge,
    /// The header is not the text of a JSON object.
    InvalidHeader,
}

pub struct Safetensors {
    metadata: JsonObject,
    tensors: JsonObject,
}

/// The metadata key of the header.
pub open spec fn metadata_key() -> Seq<char> {
    "__metadata__"@
}

/// The header text of an archive whose header length fits the buffer.
pub open spec fn header_bytes(data: Seq<u8>) -> Seq<u8> {
    data.subrange(8, 8 + header_len(data) as int)
}

/// The metadata key the architecture is read from.
pub open spec fn architecture_key() -> Seq<char> {
    "modelspec.architecture"@
}

/// The metadata key the implementation is read from.
pub open spec fn implementation_key() -> Seq<char> {
    "modelspec.implementation"@
}

/// What the archive format's summary shows.
pub struct SafeTensorsSummary<'a> {
    pub filename: Option<String>,
    pub architecture: Option<String>,
    pub implementation: Option<String>,
    pub metadata: &'a JsonObject,
    pub tensors: &'a JsonObject,
}

/// The string that the metadata holds under `key`, if any.
pub open spec fn metadata_string(m: JsonObject, key: Seq<char>) -> Option<Seq<char>> {
    if json_strings(m).contains_key(key) {
        Some(json_strings(m)[key])
    } else {
        None
    }
}

pub open spec fn opt_view(s: Option<String>) -> Option<Seq<char>> {
    match s {
        Some(x) => Some(x@),
        None => None,
    }
}

fn copy_range(data: &[u8], start: usize, end: usize) -> (r: Vec<u8>)
    requires
        start <= end <= data@.len(),
    ensures
        r@ == data@.subrange(start as int, end as int),
{
    let mut r: Vec<u8> = Vec::new();
    let mut i: usize = start;
    while i < end
        invariant
            start <= i <= end,
            end <= data@.len(),
            r@ == data@.subrange(start as int, i as int),
        decreases end - i,
    {
        r.push(data[i]);
        assert(r@ =~= data@.subrange(start as int, i as int + 1));
        i = i + 1;
    }
    r
}

fn lookup_string(m: &JsonObject, key: &str) -> (r: Option<String>)
    ensures
        opt_view(r) == metadata_string(*m, key@),
{
    json_get_str(m, key)
}

impl Safetensors {
    /// The metadata object; empty when the header has none, or when its
    /// metadata entry is not an object.
    pub closed spec fn metadata_object(&self) -> JsonObject {
        self.metadata
    }

    /// The tensor descriptors: every header entry but the metadata.
    pub closed spec fn tensor_object(&self) -> JsonObject {
        self.tensors
    }

    /// Reads an archive's header.
    pub fn from_bytes(data: &[u8]) -> (r: Result<Safetensors, ArchiveError>)
        ensures
            r == Err::<Safetensors, ArchiveError>(ArchiveError::Truncated) <==> data@.len() < 8,
            r == Err::<Safetensors, ArchiveError>(ArchiveError::HeaderTooLarge) <==> data@.len() >= 8
                && header_len(data@) > data@.len() - 8,
            r == Err::<Safetensors, ArchiveError>(ArchiveError::InvalidHeader) <==> data@.len() >= 8
                && header_len(data@) <= data@.len() - 8 && parsed_object(header_bytes(data@)) is None,
            r matches Ok(st) ==> parsed_object(header_bytes(data@)) matches Some((keys, objects)) && {
                &&& json_keys(st.tensor_object()) == keys.remove(metadata_key())
                &&& json_objects(st.tensor_object()) == objects.remove(metadata_key())
                &&& objects.contains_key(metadata_key()) ==> json_strings(st.metadata_object())
                    == objects[metadata_key()]
                &&& !objects.contains_key(metadata_key()) ==> json_keys(st.metadata_object()).is_empty()
                    && json_strings(st.metadata_object()).dom().is_empty()
            },
    {
        if data.len() < 8 {
            return Err(ArchiveError::Truncated);
        }
        let len = read_header_len(data);
        let avail = (data.len() - 8) as u64;
        if len > avail {
            return Err(ArchiveError::HeaderTooLarge);
        }
        let end = 8 + len as usize;
        let header = copy_range(data, 8, end);
        let mut tensors = match json_parse_object(header.as_slice()) {
            Ok(m) => m,
            Err(_) => {
                return Err(ArchiveError::InvalidHeader);
            },
        };
        let metadata = match json_take_object(&mut tensors, "__metadata__") {
            Some(m) => m,
            None => json_new(),
        };
        Ok(Safetensors { metadata, tensors })
    }

    pub fn metadata(&self) -> (r: &JsonObject)
        ensures
            *r == self.metadata_object(),
    {
        &self.metadata
    }

    pub fn tensors(&self) -> (r: &JsonObject)
        ensures
            *r == self.tensor_object(),
    {
        &self.tensors
    }

    /// The names of the tensor descriptors, each once, in no set order.
    pub fn tensor_names(&self) -> (r: Vec<String>)
        ensures
            forall|i: int| 0 <= i < r@.len() ==> json_keys(self.tensor_object()).contains(#[trigger] r@[i]@),
            forall|k: Seq<char>| #[trigger] json_keys(self.tensor_object()).contains(k)
                ==> exists|i: int| 0 <= i < r@.len() && r@[i]@ == k,
            forall|i: int, j: int| 0 <= i < j < r@.len() ==> r@[i]@ != r@[j]@,
    {
        json_key_list(&self.tensors)
    }

    /// The archive's summary: the file name given, and architecture and
    /// implementation as the metadata states them.
    pub fn summary<'a>(&'a self, filename: Option<&str>) -> (r: SafeTensorsSummary<'a>)
        ensures
            opt_view(r.filename) == match filename {
                Some(f) => Some(f@),
                None => None::<Seq<char>>,
            },
            opt_view(r.architecture) == metadata_string(self.metadata_object(), architecture_key()),
            opt_view(r.implementation) == metadata_string(self.metadata_object(), implementation_key()),
            *r.metadata == self.metadata_object(),
            *r.tensors == self.tensor_object(),
    {
        let filename = match filename {
            Some(f) => Some(f.to_string()),
            None => None,
        };
        SafeTensorsSummary {
            filename,
            architecture: lookup_string(&self.metadata, "modelspec.architecture"),
            implementation: lookup_string(&self.metadata, "modelspec.implementation"),
            metadata: &self.metadata,
            tensors: &self.tensors,
        }
    }
}

} // verus!
