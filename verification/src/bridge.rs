use vstd::prelude::*;
use crate::frontend::{FrontendOutput, FrontendOutputInner, MultiPlatformEntry, OutputRef};
use crate::map::{TextMap, pairs_have_key, pairs_keys_distinct};
use crate::json::{json_array, json_quote, json_string, json_strings, push_item, push_string_array, comma_joined};
use crate::pb;
use crate::pb::PlatformView;
use vstd::utf8::encode_utf8;

verus! {

/// Reference to a result held by the daemon.
#[derive(Debug, Clone, PartialEq, Eq)]
pub struct Ref {
    pub id: String,
}

/// Results keyed by platform identifier.
#[derive(Debug, PartialEq, Eq)]
pub struct RefMap {
    pub refs: TextMap<Ref>,
}

/// The result of a solve or of a frontend.
#[derive(Debug, PartialEq, Eq)]
pub enum RefResult {
    RefDeprecated(String),
    RefsDeprecated(TextMap<String>),
    Ref(Ref),
    Refs(RefMap),
}

/// A result together with its metadata blobs.
#[derive(Debug)]
pub struct Output {
    pub result: Option<RefResult>,
    pub metadata: TextMap<Vec<u8>>,
}

/// An error status: a gRPC code and a message.
#[derive(Debug, Clone, PartialEq, Eq)]
pub struct Status {
    pub code: i32,
    pub message: String,
}

/// What a frontend sends back to the daemon when it is done: a result or an error.
#[derive(Debug)]
pub struct ReturnRequest {
    pub result: Option<Output>,
    pub error: Option<Status>,
}

/// The daemon's answer to a solve request.
#[derive(Debug)]
pub struct SolveResponse {
    pub result: Option<Output>,
}

/// A byte range of a file.
#[derive(Debug, Clone, Copy, PartialEq, Eq, Structural)]
pub struct FileRange {
    pub offset: i64,
    pub length: i64,
}

/// Asks the daemon for (a range of) a file of a solved result.
#[derive(Debug, Clone, PartialEq, Eq)]
pub struct ReadFileRequest {
    pub reference: String,
    pub file_path: String,
    pub range: Option<FileRange>,
}

/// gRPC status codes.
#[derive(Debug, Clone, Copy, PartialEq, Eq, Structural)]
pub enum ErrorCode {
    Success,
    Cancelled,
    Unknown,
    InvalidArgument,
    DeadlineExceeded,
    NotFound,
    AlreadyExists,
    PermissionDenied,
    ResourceExhausted,
    FailedPrecondition,
    Aborted,
    OutOfRange,
    Unimplemented,
    Internal,
    Unavailable,
    DataLoss,
    Unauthenticated,
}

/// The number of a gRPC status code.
pub open spec fn error_code_number(c: ErrorCode) -> i32 {
    match c {
        ErrorCode::Success => 0,
        ErrorCode::Cancelled => 1,
        ErrorCode::Unknown => 2,
        ErrorCode::InvalidArgument => 3,
        ErrorCode::DeadlineExceeded => 4,
        ErrorCode::NotFound => 5,
        ErrorCode::AlreadyExists => 6,
        ErrorCode::PermissionDenied => 7,
        ErrorCode::ResourceExhausted => 8,
        ErrorCode::FailedPrecondition => 9,
        ErrorCode::Aborted => 10,
        ErrorCode::OutOfRange => 11,
        ErrorCode::Unimplemented => 12,
        ErrorCode::Internal => 13,
        ErrorCode::Unavailable => 14,
        ErrorCode::DataLoss => 15,
        ErrorCode::Unauthenticated => 16,
    }
}

impl ErrorCode {
    /// The number of the code.
    pub fn number(self) -> (r: i32)
        ensures
            r == error_code_number(self),
            self == ErrorCode::Success ==> r == 0,
            self == ErrorCode::Cancelled ==> r == 1,
            self == ErrorCode::Unknown ==> r == 2,
            self == ErrorCode::InvalidArgument ==> r == 3,
            self == ErrorCode::DeadlineExceeded ==> r == 4,
            self == ErrorCode::NotFound ==> r == 5,
            self == ErrorCode::AlreadyExists ==> r == 6,
            self == ErrorCode::PermissionDenied ==> r == 7,
            self == ErrorCode::ResourceExhausted ==> r == 8,
            self == ErrorCode::FailedPrecondition ==> r == 9,
            self == ErrorCode::Aborted ==> r == 10,
            self == ErrorCode::OutOfRange ==> r == 11,
            self == ErrorCode::Unimplemented ==> r == 12,
            self == ErrorCode::Internal ==> r == 13,
            self == ErrorCode::Unavailable ==> r == 14,
            self == ErrorCode::DataLoss ==> r == 15,
            self == ErrorCode::Unauthenticated ==> r == 16,
    {
        match self {
            ErrorCode::Success => 0,
            ErrorCode::Cancelled => 1,
            ErrorCode::Unknown => 2,
            ErrorCode::InvalidArgument => 3,
            ErrorCode::DeadlineExceeded => 4,
            ErrorCode::NotFound => 5,
            ErrorCode::AlreadyExists => 6,
            ErrorCode::PermissionDenied => 7,
            ErrorCode::ResourceExhausted => 8,
            ErrorCode::FailedPrecondition => 9,
            ErrorCode::Aborted => 10,
            ErrorCode::OutOfRange => 11,
            ErrorCode::Unimplemented => 12,
            ErrorCode::Internal => 13,
            ErrorCode::Unavailable => 14,
            ErrorCode::DataLoss => 15,
            ErrorCode::Unauthenticated => 16,
        }
    }
}

/// The numbers of the status codes are those of gRPC's table
/// (`google.golang.org/grpc/codes`): `OK` 0, `CANCELLED` 1, `UNKNOWN` 2,
/// `INVALID_ARGUMENT` 3, `DEADLINE_EXCEEDED` 4, `NOT_FOUND` 5,
/// `ALREADY_EXISTS` 6, `PERMISSION_DENIED` 7, `RESOURCE_EXHAUSTED` 8,
/// `FAILED_PRECONDITION` 9, `ABORTED` 10, `OUT_OF_RANGE` 11,
/// `UNIMPLEMENTED` 12, `INTERNAL` 13, `UNAVAILABLE` 14, `DATA_LOSS` 15,
/// `UNAUTHENTICATED` 16. Distinct codes have distinct numbers.
pub proof fn lemma_grpc_code_numbers(code: ErrorCode)
    ensures
        error_code_number(ErrorCode::Success) == 0,
        error_code_number(ErrorCode::Cancelled) == 1,
        error_code_number(ErrorCode::Unknown) == 2,
        error_code_number(ErrorCode::InvalidArgument) == 3,
        error_code_number(ErrorCode::DeadlineExceeded) == 4,
        error_code_number(ErrorCode::NotFound) == 5,
        error_code_number(ErrorCode::AlreadyExists) == 6,
        error_code_number(ErrorCode::PermissionDenied) == 7,
        error_code_number(ErrorCode::ResourceExhausted) == 8,
        error_code_number(ErrorCode::FailedPrecondition) == 9,
        error_code_number(ErrorCode::Aborted) == 10,
        error_code_number(ErrorCode::OutOfRange) == 11,
        error_code_number(ErrorCode::Unimplemented) == 12,
        error_code_number(ErrorCode::Internal) == 13,
        error_code_number(ErrorCode::Unavailable) == 14,
        error_code_number(ErrorCode::DataLoss) == 15,
        error_code_number(ErrorCode::Unauthenticated) == 16,
        0 <= error_code_number(code) <= 16,
        forall|a: ErrorCode, b: ErrorCode| error_code_number(a) == error_code_number(b) ==> a == b,
{
}

/// Why a result could not be built or read.
#[derive(Debug, PartialEq, Eq)]
pub enum BridgeError {
    /// A multi-platform output has no entry.
    EmptyMultiPlatform,
    /// Two entries of a multi-platform output share this id.
    DuplicatePlatformId(String),
    /// The solve answered with another kind of result than expected: this one.
    UnexpectedSolveResponse(RefResult),
    /// The solve answered without a result.
    MissingSolveResult,
}

/// `format!("{:?}", ..)` on a solve result: the text that the derived
/// `Debug` of [`RefResult`] writes. Verus does not read derived impls, so
/// nothing is stated of the text.
#[verifier::external_body]
fn debug_text(result: &RefResult) -> (r: String) {
    format!("{:?}", result)
}

impl BridgeError {
    /// The message of the error. For an unexpected solve answer it is
    /// `Unexpected solve response: ` followed by the answer's `Debug` form.
    pub fn message(&self) -> (r: String)
        ensures
            match self {
                BridgeError::EmptyMultiPlatform => r@ == "multi-platform output must contain at least one entry"@,
                BridgeError::DuplicatePlatformId(id) => r@ == "duplicate platform id in multi-platform output: "@ + id@,
                BridgeError::UnexpectedSolveResponse(_) => exists|t: Seq<char>|
                    r@ == "Unexpected solve response: "@ + t,
                BridgeError::MissingSolveResult => r@ == "Unable to extract solve result"@,
            },
    {
        match self {
            BridgeError::EmptyMultiPlatform => "multi-platform output must contain at least one entry".to_owned(),
            BridgeError::DuplicatePlatformId(id) => {
                let mut m = "duplicate platform id in multi-platform output: ".to_owned();
                m.append(id.as_str());
                m
            },
            BridgeError::UnexpectedSolveResponse(result) => {
                let mut m = "Unexpected solve response: ".to_owned();
                let text = debug_text(result);
                m.append(text.as_str());
                assert(m@ == "Unexpected solve response: "@ + text@);
                m
            },
            BridgeError::MissingSolveResult => "Unable to extract solve result".to_owned(),
        }
    }
}

/// Metadata key of the image config of a single-platform result.
pub open spec fn config_key() -> Seq<char> {
    "containerimage.config"@
}

/// Metadata key of the image config of platform `id`: `containerimage.config/<id>`.
pub open spec fn platform_config_key(id: Seq<char>) -> Seq<char> {
    config_key() + seq!['/'] + id
}

/// Metadata key of the list of platforms of a multi-platform result.
pub open spec fn platforms_key() -> Seq<char> {
    "refs.platforms"@
}

/// The metadata pairs with each value given by its bytes.
pub open spec fn bytes_pairs(p: Seq<(Seq<char>, Vec<u8>)>) -> Seq<(Seq<char>, Seq<u8>)> {
    p.map_values(|e: (Seq<char>, Vec<u8>)| (e.0, e.1@))
}

/// The pairs of a ref map with each ref given by its id.
pub open spec fn ref_pairs(p: Seq<(Seq<char>, Ref)>) -> Seq<(Seq<char>, Seq<char>)> {
    p.map_values(|e: (Seq<char>, Ref)| (e.0, e.1.id@))
}

/// The pairs of an output map with each output given by its id.
pub open spec fn output_pairs(p: Seq<(Seq<char>, OutputRef)>) -> Seq<(Seq<char>, Seq<char>)> {
    p.map_values(|e: (Seq<char>, OutputRef)| (e.0, e.1.0@))
}

/// The ids of the entries.
pub open spec fn entry_ids(es: Seq<MultiPlatformEntry>) -> Seq<Seq<char>> {
    es.map_values(|e: MultiPlatformEntry| e.id@)
}

/// The (id, output ref) of each entry.
pub open spec fn entry_refs(es: Seq<MultiPlatformEntry>) -> Seq<(Seq<char>, Seq<char>)> {
    es.map_values(|e: MultiPlatformEntry| (e.id@, e.output.0@))
}

/// Whether `ids[j]` already occurs before position `j`.
pub open spec fn repeats_earlier(ids: Seq<Seq<char>>, j: int) -> bool {
    exists|i: int| 0 <= i < j && #[trigger] ids[i] == ids[j]
}

/// Whether no id among the first `n` repeats an earlier one.
pub open spec fn no_repeat_before(ids: Seq<Seq<char>>, n: int) -> bool {
    forall|j: int| 0 <= j < n ==> !#[trigger] repeats_earlier(ids, j)
}

/// The per-platform config metadata of the entries: for each entry with an
/// encoded image config, in order, its `containerimage.config/<id>` key and the encoding.
pub open spec fn config_entries(ids: Seq<Seq<char>>, payloads: Seq<Option<Seq<u8>>>) -> Seq<(Seq<char>, Seq<u8>)>
    decreases ids.len(),
{
    if ids.len() == 0 || payloads.len() == 0 {
        Seq::empty()
    } else {
        config_entries(ids.drop_last(), payloads.drop_last()) + match payloads.last() {
            Some(p) => seq![(platform_config_key(ids.last()), p)],
            None => Seq::empty(),
        }
    }
}

/// The encodings given for the image configs, each by its bytes.
pub open spec fn payload_views(p: Seq<Option<Vec<u8>>>) -> Seq<Option<Seq<u8>>> {
    p.map_values(|o: Option<Vec<u8>>| match o {
        Some(v) => Some(v@),
        None => None,
    })
}

/// Whether an encoding is given exactly for the entries that have an image config.
pub open spec fn payloads_match(es: Seq<MultiPlatformEntry>, payloads: Seq<Option<Vec<u8>>>) -> bool {
    &&& payloads.len() == es.len()
    &&& forall|i: int| 0 <= i < es.len() ==> (#[trigger] payloads[i] is Some) == (es[i].image_spec is Some)
}

/// Every key of the config metadata is the config key of one of the ids.
proof fn lemma_config_entries_keys(ids: Seq<Seq<char>>, payloads: Seq<Option<Seq<u8>>>)
    ensures
        forall|m: int| 0 <= m < config_entries(ids, payloads).len() ==> exists|k: int|
            0 <= k < ids.len() && #[trigger] config_entries(ids, payloads)[m].0 == platform_config_key(ids[k]),
    decreases ids.len(),
{
    if ids.len() > 0 && payloads.len() > 0 {
        let prev = config_entries(ids.drop_last(), payloads.drop_last());
        lemma_config_entries_keys(ids.drop_last(), payloads.drop_last());
        let c = config_entries(ids, payloads);
        assert forall|m: int| 0 <= m < c.len() implies exists|k: int| 0 <= k < ids.len() && #[trigger] c[m].0 == platform_config_key(ids[k]) by {
            if m < prev.len() {
                assert(c[m] == prev[m]);
                let k = choose|k: int| 0 <= k < ids.drop_last().len() && prev[m].0 == platform_config_key(ids.drop_last()[k]);
                assert(ids.drop_last()[k] == ids[k]);
            } else {
                assert(c[m].0 == platform_config_key(ids.last()));
                assert(ids.last() == ids[ids.len() - 1]);
            }
        }
    }
}

/// Config keys of distinct ids differ, and none is the platforms key.
proof fn lemma_config_key_distinct(a: Seq<char>, b: Seq<char>)
    ensures
        platform_config_key(a) == platform_config_key(b) ==> a == b,
        platform_config_key(a) != platforms_key(),
{
    reveal_strlit("containerimage.config");
    reveal_strlit("refs.platforms");
    let n = config_key().len() + 1int;
    if platform_config_key(a) == platform_config_key(b) {
        assert(platform_config_key(a).subrange(n, platform_config_key(a).len() as int) =~= a);
        assert(platform_config_key(b).subrange(n, platform_config_key(b).len() as int) =~= b);
    }
    assert(platform_config_key(a)[0] == 'c');
    assert(platforms_key()[0] == 'r');
}

/// The `containerimage.config/<id>` key.
fn platform_config_key_string(id: &String) -> (r: String)
    ensures
        r@ == platform_config_key(id@),
{
    proof {
        reveal_strlit("containerimage.config/");
        reveal_strlit("containerimage.config");
        assert("containerimage.config/"@ =~= config_key() + seq!['/']);
    }
    let mut key = "containerimage.config/".to_owned();
    key.append(id.as_str());
    key
}

/// A copy of a byte vector.
fn duplicate_bytes(v: &Vec<u8>) -> (r: Vec<u8>)
    ensures
        r@ == v@,
{
    let mut r: Vec<u8> = Vec::new();
    let mut i: usize = 0;
    while i < v.len()
        invariant
            i <= v@.len(),
            r@ == v@.subrange(0, i as int),
        decreases v@.len() - i,
    {
        r.push(v[i]);
        assert(r@ =~= v@.subrange(0, i + 1));
        i = i + 1;
    }
    assert(v@.subrange(0, v@.len() as int) =~= v@);
    r
}

/// The JSON form of a platform in the `refs.platforms` list, as serde_json
/// writes BuildKit's platform record: architecture and OS, then the variant,
/// the OS version and the OS features, each only when not empty.
pub open spec fn platform_json(p: PlatformView) -> Seq<char> {
    "{\"architecture\":"@ + json_string(p.architecture) + ",\"os\":"@ + json_string(p.os) + (if p.variant.len()
        == 0 {
        Seq::<char>::empty()
    } else {
        ",\"variant\":"@ + json_string(p.variant)
    }) + (if p.os_version.len() == 0 {
        Seq::<char>::empty()
    } else {
        ",\"os.version\":"@ + json_string(p.os_version)
    }) + (if p.os_features.len() == 0 {
        Seq::<char>::empty()
    } else {
        ",\"os.features\":"@ + json_array(json_strings(p.os_features))
    }) + "}"@
}

/// The JSON form of one entry of the `refs.platforms` list: its id and its platform.
pub open spec fn platform_entry_json(id: Seq<char>, p: PlatformView) -> Seq<char> {
    "{\"ID\":"@ + json_string(id) + ",\"platform\":"@ + platform_json(p) + "}"@
}

/// The JSON forms of the entries' ids and platforms, in order.
pub open spec fn platform_entries_json(es: Seq<MultiPlatformEntry>) -> Seq<Seq<char>> {
    es.map_values(|e: MultiPlatformEntry| platform_entry_json(e.id@, e.platform@))
}

/// The `refs.platforms` metadata of a multi-platform result: the JSON
/// object whose `platforms` list holds each entry's id and platform.
pub open spec fn platforms_json(es: Seq<MultiPlatformEntry>) -> Seq<char> {
    "{\"platforms\":"@ + json_array(platform_entries_json(es)) + "}"@
}

/// Appends the JSON form of a platform.
#[verifier::spinoff_prover]
#[verifier::rlimit(30)]
fn push_platform_json(out: &mut String, p: &pb::Platform)
    ensures
        final(out)@ == old(out)@ + platform_json(p@),
{
    let ghost start = out@;
    let ghost v = p@;
    out.append("{\"architecture\":");
    out.append(json_quote(p.architecture.as_str()).as_str());
    out.append(",\"os\":");
    out.append(json_quote(p.os.as_str()).as_str());
    let ghost base = out@;
    assert(base =~= start + "{\"architecture\":"@ + json_string(v.architecture) + ",\"os\":"@ + json_string(v.os));
    if !p.variant.as_str().is_empty() {
        out.append(",\"variant\":");
        out.append(json_quote(p.variant.as_str()).as_str());
    }
    let ghost with_variant = out@;
    assert(with_variant =~= base + (if v.variant.len() == 0 {
        Seq::<char>::empty()
    } else {
        ",\"variant\":"@ + json_string(v.variant)
    }));
    if !p.os_version.as_str().is_empty() {
        out.append(",\"os.version\":");
        out.append(json_quote(p.os_version.as_str()).as_str());
    }
    let ghost with_version = out@;
    assert(with_version =~= with_variant + (if v.os_version.len() == 0 {
        Seq::<char>::empty()
    } else {
        ",\"os.version\":"@ + json_string(v.os_version)
    }));
    if p.os_features.len() > 0 {
        out.append(",\"os.features\":");
        push_string_array(out, &p.os_features);
    }
    let ghost with_features = out@;
    assert(with_features =~= with_version + (if v.os_features.len() == 0 {
        Seq::<char>::empty()
    } else {
        ",\"os.features\":"@ + json_array(json_strings(v.os_features))
    }));
    out.append("}");
    assert(out@ =~= start + platform_json(v));
}

/// The `refs.platforms` metadata of the entries, as UTF-8 bytes (see [`platforms_json`]).
pub fn platforms_payload(entries: &Vec<MultiPlatformEntry>) -> (r: Vec<u8>)
    ensures
        r@ == encode_utf8(platforms_json(entries@)),
{
    let ghost items = platform_entries_json(entries@);
    let mut out = "{\"platforms\":".to_owned();
    let ghost head = out@;
    proof {
        reveal_strlit("[");
        assert("["@ =~= seq!['[']);
    }
    out.append("[");
    let mut i: usize = 0;
    assert(items.subrange(0, 0) =~= Seq::<Seq<char>>::empty());
    while i < entries.len()
        invariant
            i <= entries@.len(),
            items == platform_entries_json(entries@),
            out@ == head + seq!['['] + comma_joined(items.subrange(0, i as int)),
        decreases entries@.len() - i,
    {
        let entry = &entries[i];
        let mut item = "{\"ID\":".to_owned();
        item.append(json_quote(entry.id.as_str()).as_str());
        item.append(",\"platform\":");
        push_platform_json(&mut item, &entry.platform);
        item.append("}");
        assert(item@ =~= items[i as int]);
        push_item(&mut out, item.as_str(), i == 0, Ghost(items.subrange(0, i as int)), Ghost(head + seq!['[']));
        assert(items.subrange(0, i as int).push(item@) =~= items.subrange(0, i + 1));
        i = i + 1;
    }
    proof {
        reveal_strlit("]");
        assert("]"@ =~= seq![']']);
    }
    out.append("]");
    out.append("}");
    proof {
        assert(items.subrange(0, entries@.len() as int) =~= items);
        assert(out@ =~= platforms_json(entries@));
    }
    out.as_str().as_bytes_vec()
}

/// The return request of a multi-platform result. `spec_payloads[i]` is the
/// JSON encoding of entry `i`'s image config (present exactly when the entry
/// has one).
///
/// With no entry, the result is `EmptyMultiPlatform`. If an id repeats an
/// earlier one, the result is `DuplicatePlatformId` with the first such id.
/// Otherwise the request carries one ref per entry, keyed by id, in order,
/// and the metadata holds `containerimage.config/<id>` for each entry with a
/// config, in order, then `refs.platforms` with the list of the entries'
/// ids and platforms (see [`platforms_json`]).
pub fn build_multi_platform_return(
    entries: &Vec<MultiPlatformEntry>,
    spec_payloads: &Vec<Option<Vec<u8>>>,
) -> (r: Result<ReturnRequest, BridgeError>)
    requires
        payloads_match(entries@, spec_payloads@),
    ensures
        entries@.len() == 0 ==> r == Err::<ReturnRequest, BridgeError>(BridgeError::EmptyMultiPlatform),
        r is Ok <==> entries@.len() > 0 && no_repeat_before(entry_ids(entries@), entries@.len() as int),
        r matches Err(BridgeError::DuplicatePlatformId(id)) ==> exists|j: int|
            0 <= j < entries@.len() && no_repeat_before(entry_ids(entries@), j) && repeats_earlier(
                entry_ids(entries@),
                j,
            ) && id@ == entries@[j].id@,
        r matches Err(e) ==> e is EmptyMultiPlatform || e is DuplicatePlatformId,
        r matches Err(e) ==> (e is EmptyMultiPlatform <==> entries@.len() == 0),
        r matches Ok(req) ==> {
            &&& req.error is None
            &&& req.result matches Some(out) && {
                &&& out.result matches Some(RefResult::Refs(m)) && ref_pairs(m.refs.pairs())
                    == entry_refs(entries@)
                &&& bytes_pairs(out.metadata.pairs()) == config_entries(
                    entry_ids(entries@),
                    payload_views(spec_payloads@),
                ) + seq![(platforms_key(), encode_utf8(platforms_json(entries@)))]
            }
        },
{
    if entries.len() == 0 {
        return Err(BridgeError::EmptyMultiPlatform);
    }
    let ghost ids = entry_ids(entries@);
    let ghost ps = payload_views(spec_payloads@);
    let mut refs: TextMap<Ref> = TextMap::new();
    let mut metadata: TextMap<Vec<u8>> = TextMap::new();
    let mut i: usize = 0;
    assert(entry_refs(entries@).subrange(0, 0) =~= Seq::<(Seq<char>, Seq<char>)>::empty());
    assert(bytes_pairs(metadata.pairs()) =~= Seq::<(Seq<char>, Seq<u8>)>::empty());
    assert(ref_pairs(refs.pairs()) =~= Seq::<(Seq<char>, Seq<char>)>::empty());
    while i < entries.len()
        invariant
            i <= entries@.len(),
            payloads_match(entries@, spec_payloads@),
            ids == entry_ids(entries@),
            ps == payload_views(spec_payloads@),
            no_repeat_before(ids, i as int),
            ref_pairs(refs.pairs()) == entry_refs(entries@).subrange(0, i as int),
            bytes_pairs(metadata.pairs()) == config_entries(ids.subrange(0, i as int), ps.subrange(0, i as int)),
        decreases entries@.len() - i,
    {
        let entry = &entries[i];
        assert(ids[i as int] == entry.id@);
        let present = refs.contains_key(entry.id.as_str());
        proof {
            assert(ref_pairs(refs.pairs()).len() == i);
            assert forall|k: int| 0 <= k < i implies #[trigger] refs.pairs()[k].0 == ids[k] by {
                assert(ref_pairs(refs.pairs())[k] == entry_refs(entries@).subrange(0, i as int)[k]);
                assert(ref_pairs(refs.pairs())[k] == (refs.pairs()[k].0, refs.pairs()[k].1.id@));
                assert(entry_refs(entries@)[k] == (entries@[k].id@, entries@[k].output.0@));
                assert(ids[k] == entries@[k].id@);
            }
        }
        if present {
            proof {
                let k = choose|k: int| 0 <= k < refs.pairs().len() && #[trigger] refs.pairs()[k].0 == entry.id@;
                assert(ref_pairs(refs.pairs()).len() == i);
                assert(ids[k] == ids[i as int]);
                assert(repeats_earlier(ids, i as int));
            }
            return Err(BridgeError::DuplicatePlatformId(entry.id.clone()));
        }
        proof {
            assert forall|k: int| 0 <= k < i implies #[trigger] ids[k] != ids[i as int] by {
                assert(ref_pairs(refs.pairs()).len() == i);
                if ids[k] == ids[i as int] {
                    assert(refs.pairs()[k].0 == entry.id@);
                    assert(pairs_have_key(refs.pairs(), entry.id@));
                }
            }
            assert(!repeats_earlier(ids, i as int));
            assert(!pairs_have_key(refs.pairs(), entry.id@));
        }
        let ghost old_refs = refs.pairs();
        let new_ref = Ref { id: entry.output.0.clone() };
        refs.insert(entry.id.clone(), new_ref);
        assert(refs.pairs() == old_refs.push((entry.id@, new_ref)));
        assert(ref_pairs(refs.pairs()) =~= entry_refs(entries@).subrange(0, i + 1));
        let ghost before = metadata.pairs();
        proof {
            assert(ids.subrange(0, i + 1).drop_last() =~= ids.subrange(0, i as int));
            assert(ps.subrange(0, i + 1).drop_last() =~= ps.subrange(0, i as int));
            assert(ps[i as int] is Some == spec_payloads@[i as int] is Some);
        }
        match &spec_payloads[i] {
            Some(payload) => {
                let key = platform_config_key_string(&entry.id);
                proof {
                    lemma_config_entries_keys(ids.subrange(0, i as int), ps.subrange(0, i as int));
                    let c = config_entries(ids.subrange(0, i as int), ps.subrange(0, i as int));
                    assert forall|m: int| 0 <= m < before.len() implies #[trigger] before[m].0 != key@ by {
                        assert(bytes_pairs(before)[m].0 == before[m].0);
                        assert(c[m].0 == before[m].0);
                        let k = choose|k: int| 0 <= k < i && c[m].0 == platform_config_key(ids.subrange(0, i as int)[k]);
                        lemma_config_key_distinct(ids[k], ids[i as int]);
                        assert(ids[k] != ids[i as int]);
                    }
                }
                metadata.insert(key, duplicate_bytes(payload));
                assert(bytes_pairs(metadata.pairs()) =~= config_entries(ids.subrange(0, i + 1), ps.subrange(0, i + 1)));
            },
            None => {
                assert(bytes_pairs(metadata.pairs()) =~= config_entries(ids.subrange(0, i + 1), ps.subrange(0, i + 1)));
            },
        }
        i = i + 1;
    }
    assert(ids.subrange(0, entries@.len() as int) =~= ids);
    assert(ps.subrange(0, entries@.len() as int) =~= ps);
    assert(entry_refs(entries@).subrange(0, entries@.len() as int) =~= entry_refs(entries@));
    let ghost before = metadata.pairs();
    proof {
        reveal_strlit("refs.platforms");
        lemma_config_entries_keys(ids, ps);
        let c = config_entries(ids, ps);
        assert forall|m: int| 0 <= m < before.len() implies #[trigger] before[m].0 != platforms_key() by {
            assert(bytes_pairs(before)[m].0 == before[m].0);
            let k = choose|k: int| 0 <= k < ids.len() && c[m].0 == platform_config_key(ids[k]);
            lemma_config_key_distinct(ids[k], ids[k]);
        }
    }
    let platforms = platforms_payload(entries);
    let ghost platforms_bytes = platforms@;
    metadata.insert("refs.platforms".to_owned(), platforms);
    assert(bytes_pairs(metadata.pairs()) =~= config_entries(ids, ps) + seq![(platforms_key(), platforms_bytes)]);
    Ok(ReturnRequest {
        error: None,
        result: Some(Output { result: Some(RefResult::Refs(RefMap { refs })), metadata }),
    })
}

/// The return request of a single result: its ref, and under
/// `containerimage.config` the JSON encoding of its image config, if it has one.
pub fn single_return_request(output: OutputRef, spec_payload: Option<Vec<u8>>) -> (r: ReturnRequest)
    ensures
        r.error is None,
        r.result matches Some(out) && {
            &&& out.result == Some(RefResult::Ref(Ref { id: output.0 }))
            &&& bytes_pairs(out.metadata.pairs()) == match spec_payload {
                Some(p) => seq![(config_key(), p@)],
                None => Seq::<(Seq<char>, Seq<u8>)>::empty(),
            }
        },
{
    let mut metadata: TextMap<Vec<u8>> = TextMap::new();
    match spec_payload {
        Some(config) => {
            proof {
                reveal_strlit("containerimage.config");
            }
            let ghost c = config@;
            metadata.insert("containerimage.config".to_owned(), config);
            assert(bytes_pairs(metadata.pairs()) =~= seq![(config_key(), c)]);
        },
        None => {
            assert(bytes_pairs(metadata.pairs()) =~= Seq::<(Seq<char>, Seq<u8>)>::empty());
        },
    }
    ReturnRequest {
        error: None,
        result: Some(Output { result: Some(RefResult::Ref(Ref { id: output.0 })), metadata }),
    }
}

/// Whether the encodings of the image configs fit the output: one for a
/// single result, one per entry for a multi-platform result, each present
/// exactly when there is a config.
pub open spec fn output_payloads_match(output: FrontendOutput, payloads: Seq<Option<Vec<u8>>>) -> bool {
    match output.inner {
        FrontendOutputInner::Single { image_spec, .. } => payloads.len() == 1 && (payloads[0] is Some)
            == (image_spec is Some),
        FrontendOutputInner::MultiPlatform(entries) => payloads_match(entries@, payloads),
    }
}

/// The request that reports a successful frontend run to the daemon (see
/// [`single_return_request`] and [`build_multi_platform_return`]).
/// `spec_payloads` are the JSON encodings of the image configs.
pub fn success_return_request(
    output: FrontendOutput,
    spec_payloads: Vec<Option<Vec<u8>>>,
) -> (r: Result<ReturnRequest, BridgeError>)
    requires
        output_payloads_match(output, spec_payloads@),
    ensures
        match output.inner {
            FrontendOutputInner::Single { output: o, .. } => r matches Ok(req) && {
                &&& req.error is None
                &&& req.result matches Some(out) && {
                    &&& out.result == Some(RefResult::Ref(Ref { id: o.0 }))
                    &&& bytes_pairs(out.metadata.pairs()) == match spec_payloads@[0] {
                        Some(p) => seq![(config_key(), p@)],
                        None => Seq::<(Seq<char>, Seq<u8>)>::empty(),
                    }
                }
            },
            FrontendOutputInner::MultiPlatform(entries) => {
                &&& (r is Ok <==> entries@.len() > 0 && no_repeat_before(entry_ids(entries@), entries@.len() as int))
                &&& (entries@.len() == 0 ==> r == Err::<ReturnRequest, BridgeError>(BridgeError::EmptyMultiPlatform))
                &&& (r matches Err(BridgeError::DuplicatePlatformId(id)) ==> exists|j: int|
                    0 <= j < entries@.len() && no_repeat_before(entry_ids(entries@), j) && repeats_earlier(
                        entry_ids(entries@),
                        j,
                    ) && id@ == entries@[j].id@)
                &&& (r matches Err(e) ==> e is EmptyMultiPlatform || e is DuplicatePlatformId)
                &&& (r matches Err(e) ==> (e is EmptyMultiPlatform <==> entries@.len() == 0))
                &&& (r matches Ok(req) ==> {
                    &&& req.error is None
                    &&& req.result matches Some(out) && {
                        &&& out.result matches Some(RefResult::Refs(m)) && ref_pairs(m.refs.pairs())
                            == entry_refs(entries@)
                        &&& bytes_pairs(out.metadata.pairs()) == config_entries(
                            entry_ids(entries@),
                            payload_views(spec_payloads@),
                        ) + seq![(platforms_key(), encode_utf8(platforms_json(entries@)))]
                    }
                })
            },
        },
{
    match output.inner {
        FrontendOutputInner::Single { output, .. } => {
            let mut payloads = spec_payloads;
            let payload = payloads.remove(0);
            Ok(single_return_request(output, payload))
        },
        FrontendOutputInner::MultiPlatform(entries) => {
            build_multi_platform_return(&entries, &spec_payloads)
        },
    }
}

/// The request that reports a failed frontend run: no result, and an error
/// status with the code's number and the message.
pub fn error_return_request(code: ErrorCode, message: String) -> (r: ReturnRequest)
    ensures
        r.result is None,
        r.error == Some(Status { code: error_code_number(code), message }),
{
    ReturnRequest { result: None, error: Some(Status { code: code.number(), message }) }
}

/// The result of a solve answer: an answer without an output, or an output
/// without a result, is `MissingSolveResult`.
pub fn extract_solve_result(response: SolveResponse) -> (r: Result<RefResult, BridgeError>)
    ensures
        match response.result {
            Some(out) => match out.result {
                Some(res) => r == Ok::<RefResult, BridgeError>(res),
                None => r == Err::<RefResult, BridgeError>(BridgeError::MissingSolveResult),
            },
            None => r == Err::<RefResult, BridgeError>(BridgeError::MissingSolveResult),
        },
{
    match response.result {
        Some(out) => match out.result {
            Some(res) => Ok(res),
            None => Err(BridgeError::MissingSolveResult),
        },
        None => Err(BridgeError::MissingSolveResult),
    }
}

/// The output ref of a single-result solve; any other kind of result is
/// `UnexpectedSolveResponse`, carrying that result.
pub fn solve_result_ref(result: RefResult) -> (r: Result<OutputRef, BridgeError>)
    ensures
        match result {
            RefResult::Ref(rf) => r == Ok::<OutputRef, BridgeError>(OutputRef(rf.id)),
            _ => r == Err::<OutputRef, BridgeError>(BridgeError::UnexpectedSolveResponse(result)),
        },
{
    match result {
        RefResult::Ref(rf) => Ok(OutputRef(rf.id)),
        other => Err(BridgeError::UnexpectedSolveResponse(other)),
    }
}

/// The output refs of a multi-platform solve, keyed by platform id. A
/// single ref is keyed by the empty id; any other kind of result is
/// `UnexpectedSolveResponse`, carrying that result.
pub fn solve_result_refs(result: RefResult) -> (r: Result<TextMap<OutputRef>, BridgeError>)
    ensures
        match result {
            RefResult::Refs(m) => r matches Ok(out) && output_pairs(out.pairs()) == ref_pairs(m.refs.pairs()),
            RefResult::Ref(rf) => r matches Ok(out) && output_pairs(out.pairs()) == seq![(Seq::<char>::empty(), rf.id@)],
            _ => r matches Err(e) && e == BridgeError::UnexpectedSolveResponse(result),
        },
{
    match result {
        RefResult::Refs(m) => {
            let refs = m.refs;
            let n = refs.len();
            let mut out: TextMap<OutputRef> = TextMap::new();
            let mut i: usize = 0;
            assert(output_pairs(out.pairs()) =~= ref_pairs(refs.pairs()).subrange(0, 0));
            while i < n
                invariant
                    n == refs.pairs().len(),
                    i <= n,
                    pairs_keys_distinct(refs.pairs()),
                    output_pairs(out.pairs()) == ref_pairs(refs.pairs()).subrange(0, i as int),
                    out.pairs().len() == i,
                    forall|k: int| 0 <= k < i ==> #[trigger] out.pairs()[k].0 == refs.pairs()[k].0,
                decreases n - i,
            {
                let (id, rf) = refs.entry(i);
                proof {
                    assert forall|k: int| 0 <= k < out.pairs().len() implies #[trigger] out.pairs()[k].0 != id@ by {
                        assert(refs.pairs()[k].0 != refs.pairs()[i as int].0);
                    }
                }
                let ghost before = out.pairs();
                let value = OutputRef(rf.id.clone());
                out.insert(id.clone(), value);
                assert(out.pairs() == before.push((id@, value)));
                assert(output_pairs(out.pairs()) =~= ref_pairs(refs.pairs()).subrange(0, i + 1));
                i = i + 1;
            }
            assert(ref_pairs(refs.pairs()).subrange(0, n as int) =~= ref_pairs(refs.pairs()));
            Ok(out)
        },
        RefResult::Ref(rf) => {
            let mut out: TextMap<OutputRef> = TextMap::new();
            let key = String::new();
            let value = OutputRef(rf.id);
            out.insert(key, value);
            assert(output_pairs(out.pairs()) =~= seq![(Seq::<char>::empty(), rf.id@)]);
            Ok(out)
        },
        other => Err(BridgeError::UnexpectedSolveResponse(other)),
    }
}

/// The request for a file of a solved result: the result's id, the path
/// and the optional byte range.
pub fn read_file_request(layer: &OutputRef, path: String, range: Option<FileRange>) -> (r: ReadFileRequest)
    ensures
        r.reference@ == layer.0@,
        r.file_path@ == path@,
        r.range == range,
{
    ReadFileRequest { reference: layer.0.clone(), file_path: path, range }
}

} // verus!
