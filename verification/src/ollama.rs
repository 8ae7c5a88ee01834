//! The Ollama backend: one conforming implementation of the backend/model
//! contract. Holds the service's base URL, the model catalog, the optional
//! model-storage override and whether this component owns the service
//! process; parses the service's discovery, detail and running-models
//! responses; and keeps the per-model runtime-info cache.

use vstd::prelude::*;

use vstd::string::StrSliceExecFns;
use vstd::string::StringExecFns;

use crate::chat::{str_eq, ChatMessage};
use crate::errors::{internal, Error};
use crate::json::{json_as_i64, json_as_str, json_as_u64, json_from_str, json_get, json_model,
    json_parse, Json};
use crate::llm::{capability_of_str, Capability, ModelInfo, ModelInfoModel, RuntimeInfo,
    RuntimeInfoModel};
use crate::wire::{assemble_messages, chat_body_spec, chat_request_body};

verus! {

/// The stable unique name of the Ollama backend, used as its registry key.
pub fn ollama_name() -> (r: &'static str)
    ensures
        r@ == "Ollama"@,
{
    "Ollama"
}

/// The error reported when an Ollama-specific operation is asked of a
/// backend that is not Ollama.
pub fn not_ollama() -> (e: Error)
    ensures
        e matches Error::Internal(m) && m@ == "Backend is not Ollama"@,
{
    internal("Backend is not Ollama")
}

/// What parsing a text as an RFC 3339 date-time yields, as nanoseconds
/// since the Unix epoch: `None` on malformed input. Parsing is a function
/// of the text alone.
pub uninterp spec fn rfc3339_nanos(s: Seq<char>) -> Option<i128>;

/// Relies on `time::UtcDateTime::parse` with the RFC 3339 well-known
/// format, and `time::UtcDateTime::unix_timestamp_nanos`: deterministic
/// parse of a wire date-time, `Err` on malformed input.
#[verifier::external_body]
pub(crate) fn parse_rfc3339_nanos(s: &str) -> (r: Option<i128>)
    ensures
        r == rfc3339_nanos(s@),
{
    time::UtcDateTime::parse(s, &time::format_description::well_known::Rfc3339).ok().map(
        |t| t.unix_timestamp_nanos(),
    )
}

/// What parsing and re-serializing a URL yields: `None` where the text is
/// not a valid URL. Normalization is a function of the text alone.
pub uninterp spec fn url_normal(s: Seq<char>) -> Option<Seq<char>>;

/// Relies on `url::Url::parse` and `url::Url::to_string`: deterministic
/// validation and normalization of a URL, `Err` on invalid input.
#[verifier::external_body]
pub(crate) fn normalize_url(s: &str) -> (r: Option<String>)
    ensures
        r matches Some(u) ==> url_normal(s@) == Some(u@),
        r is None ==> url_normal(s@) is None,
{
    url::Url::parse(s).ok().map(|u| u.to_string())
}

/// A base URL ready for joining relative endpoint paths: ends in a slash.
pub open spec fn spec_prepared_url(s: Seq<char>) -> Seq<char> {
    if s.len() > 0 && s.last() == '/' {
        s
    } else {
        s + seq!['/']
    }
}

/// Appends the trailing slash a base URL needs for joining relative
/// endpoint paths, if it is not already there.
pub fn prepare_api_url(url: String) -> (r: String)
    ensures
        r@ == spec_prepared_url(url@),
{
    let ghost u = url@;
    let n = url.as_str().unicode_len();
    if n > 0 && url.as_str().get_char(n - 1) == '/' {
        url
    } else {
        let mut r = url;
        r.append("/");
        proof {
            reveal_strlit("/");
            assert("/"@ =~= seq!['/']);
            assert(r@ =~= spec_prepared_url(u));
        }
        r
    }
}

/// The descriptor of one catalog entry, as a mathematical value.
pub struct TagModel {
    pub name: Seq<char>,
    pub id: Seq<char>,
    pub size: u64,
}

/// One entry of the service's model catalog: the model's name, its unique
/// id (the wire field `model`), and its disk size in bytes.
#[derive(Clone, Debug)]
pub struct TagEntry {
    pub name: String,
    pub id: String,
    pub size: u64,
}

impl View for TagEntry {
    type V = TagModel;

    open spec fn view(&self) -> TagModel {
        TagModel { name: self.name@, id: self.id@, size: self.size }
    }
}

impl DeepView for TagEntry {
    type V = TagModel;

    open spec fn deep_view(&self) -> TagModel {
        self.view()
    }
}

/// The catalog entry a JSON document denotes: an object with string `name`
/// and `model` and an unsigned integer `size`.
pub open spec fn tag_of_json(j: Json) -> Option<TagModel> {
    match (j.obj_get("name"@), j.obj_get("model"@), j.obj_get("size"@)) {
        (Some(Json::Str(n)), Some(Json::Str(m)), Some(sz)) => match sz.spec_u64() {
            Some(s) => Some(TagModel { name: n, id: m, size: s }),
            None => None,
        },
        _ => None,
    }
}

/// Whether every element of a JSON array is a catalog entry.
pub open spec fn all_tags(a: Seq<Json>) -> bool {
    forall|i: int| 0 <= i < a.len() ==> tag_of_json(#[trigger] a[i]) is Some
}

/// The model catalog a JSON document denotes: an object whose `models`
/// field is an array of catalog entries.
pub open spec fn tags_of_json(j: Json) -> Option<Seq<TagModel>> {
    match j.obj_get("models"@) {
        Some(Json::Arr(a)) => if all_tags(a) {
            Some(a.map_values(|x: Json| tag_of_json(x).unwrap()))
        } else {
            None
        },
        _ => None,
    }
}

/// The model catalog a text denotes.
pub open spec fn tags_parse(s: Seq<char>) -> Option<Seq<TagModel>> {
    match json_parse(s) {
        Some(j) => tags_of_json(j),
        None => None,
    }
}

/// Extracts one catalog entry from a parsed JSON document.
fn tag_from_value(v: &serde_json::Value) -> (r: Option<TagEntry>)
    ensures
        r matches Some(t) ==> tag_of_json(json_model(*v)) == Some(t@),
        r is None ==> tag_of_json(json_model(*v)) is None,
{
    let name = match json_get(v, "name") {
        Some(f) => match json_as_str(f) {
            Some(s) => s.to_owned(),
            None => {
                return None;
            },
        },
        None => {
            return None;
        },
    };
    let id = match json_get(v, "model") {
        Some(f) => match json_as_str(f) {
            Some(s) => s.to_owned(),
            None => {
                return None;
            },
        },
        None => {
            return None;
        },
    };
    let size = match json_get(v, "size") {
        Some(f) => match json_as_u64(f) {
            Some(s) => s,
            None => {
                return None;
            },
        },
        None => {
            return None;
        },
    };
    Some(TagEntry { name, id, size })
}

/// Parses the service's catalog response. Fails — reporting a
/// serialization failure — exactly on malformed input.
#[verifier::loop_isolation(false)]
pub fn parse_tags(body: &str) -> (r: Result<Vec<TagEntry>, Error>)
    ensures
        r matches Ok(ts) ==> tags_parse(body@) == Some(ts.deep_view()),
        r is Err ==> tags_parse(body@) is None,
        r matches Err(e) ==> e matches Error::SerdeJson(m) && m@
            == "Malformed model catalog response"@,
{
    let err_msg = "Malformed model catalog response";
    let v = match json_from_str(body) {
        Some(v) => v,
        None => {
            return Err(Error::SerdeJson(err_msg.to_owned()));
        },
    };
    let arr_v = match json_get(&v, "models") {
        Some(f) => f,
        None => {
            return Err(Error::SerdeJson(err_msg.to_owned()));
        },
    };
    let a = match crate::json::json_as_array(arr_v) {
        Some(a) => a,
        None => {
            return Err(Error::SerdeJson(err_msg.to_owned()));
        },
    };
    let ghost elts = json_model(*arr_v)->Arr_0;
    let mut out: Vec<TagEntry> = Vec::new();
    let mut i: usize = 0;
    while i < a.len()
        invariant
            a@.len() == elts.len(),
            forall|k: int| 0 <= k < elts.len() ==> json_model(#[trigger] a@[k]) == elts[k],
            0 <= i <= a.len(),
            out.len() == i,
            forall|k: int| 0 <= k < i ==> tag_of_json(#[trigger] elts[k]) is Some,
            forall|k: int|
                0 <= k < i ==> (#[trigger] out@[k])@ == tag_of_json(elts[k]).unwrap(),
        decreases a.len() - i,
    {
        match tag_from_value(&a[i]) {
            Some(t) => {
                out.push(t);
            },
            None => {
                proof {
                    assert(!all_tags(elts)) by {
                        let ki: int = i as int;
                        assert(0 <= ki && ki < elts.len());
                        assert(!(tag_of_json(elts[ki]) is Some));
                    }
                }
                return Err(Error::SerdeJson(err_msg.to_owned()));
            },
        }
        i += 1;
    }
    proof {
        assert(out.deep_view() =~= elts.map_values(|x: Json| tag_of_json(x).unwrap()));
    }
    Ok(out)
}

/// Whether every element of a JSON array names a known capability.
pub open spec fn all_capabilities(a: Seq<Json>) -> bool {
    forall|i: int|
        0 <= i < a.len() ==> (#[trigger] a[i]) is Str && capability_of_str(
            a[i].spec_str().unwrap(),
        ) is Some
}

/// The capability list a JSON document denotes: an object whose
/// `capabilities` field is an array of known capability names.
pub open spec fn capabilities_of_json(j: Json) -> Option<Seq<Capability>> {
    match j.obj_get("capabilities"@) {
        Some(Json::Arr(a)) => if all_capabilities(a) {
            Some(a.map_values(|x: Json| capability_of_str(x.spec_str().unwrap()).unwrap()))
        } else {
            None
        },
        _ => None,
    }
}

/// The capability list a text denotes.
pub open spec fn capabilities_parse(s: Seq<char>) -> Option<Seq<Capability>> {
    match json_parse(s) {
        Some(j) => capabilities_of_json(j),
        None => None,
    }
}

/// Parses the service's per-model detail response. Fails — reporting a
/// serialization failure — exactly on malformed input; an unknown
/// capability name is malformed.
#[verifier::loop_isolation(false)]
pub fn parse_capabilities(body: &str) -> (r: Result<Vec<Capability>, Error>)
    ensures
        r matches Ok(cs) ==> capabilities_parse(body@) == Some(cs@),
        r is Err ==> capabilities_parse(body@) is None,
        r matches Err(e) ==> e matches Error::SerdeJson(m) && m@
            == "Malformed model detail response"@,
{
    let err_msg = "Malformed model detail response";
    let v = match json_from_str(body) {
        Some(v) => v,
        None => {
            return Err(Error::SerdeJson(err_msg.to_owned()));
        },
    };
    let arr_v = match json_get(&v, "capabilities") {
        Some(f) => f,
        None => {
            return Err(Error::SerdeJson(err_msg.to_owned()));
        },
    };
    let a = match crate::json::json_as_array(arr_v) {
        Some(a) => a,
        None => {
            return Err(Error::SerdeJson(err_msg.to_owned()));
        },
    };
    let ghost elts = json_model(*arr_v)->Arr_0;
    let mut out: Vec<Capability> = Vec::new();
    let mut i: usize = 0;
    while i < a.len()
        invariant
            a@.len() == elts.len(),
            forall|k: int| 0 <= k < elts.len() ==> json_model(#[trigger] a@[k]) == elts[k],
            0 <= i <= a.len(),
            out.len() == i,
            forall|k: int|
                0 <= k < i ==> (#[trigger] elts[k]) is Str && capability_of_str(
                    elts[k].spec_str().unwrap(),
                ) is Some,
            forall|k: int|
                0 <= k < i ==> (#[trigger] out@[k]) == capability_of_str(
                    elts[k].spec_str().unwrap(),
                ).unwrap(),
        decreases a.len() - i,
    {
        let parsed = match json_as_str(&a[i]) {
            Some(s) => Capability::parse(s),
            None => None,
        };
        match parsed {
            Some(c) => {
                out.push(c);
            },
            None => {
                proof {
                    assert(!all_capabilities(elts)) by {
                        let ki: int = i as int;
                        assert(0 <= ki && ki < elts.len());
                        assert(!(elts[ki] is Str && capability_of_str(
                            elts[ki].spec_str().unwrap(),
                        ) is Some));
                    }
                }
                return Err(Error::SerdeJson(err_msg.to_owned()));
            },
        }
        i += 1;
    }
    proof {
        assert(out@ =~= elts.map_values(
            |x: Json| capability_of_str(x.spec_str().unwrap()).unwrap(),
        ));
    }
    Ok(out)
}

/// The runtime snapshot a JSON document denotes: an object with a string
/// `name`, an integer `size_vram` and an RFC 3339 `expires_at`.
pub open spec fn runtime_of_json(j: Json) -> Option<RuntimeInfoModel> {
    match (j.obj_get("name"@), j.obj_get("size_vram"@), j.obj_get("expires_at"@)) {
        (Some(Json::Str(n)), Some(sv), Some(Json::Str(e))) => match sv.spec_i64() {
            Some(vram) => match rfc3339_nanos(e) {
                Some(t) => Some(RuntimeInfoModel { size_vram: vram, expires_at: t, name: n }),
                None => None,
            },
            None => None,
        },
        _ => None,
    }
}

/// Whether every element of a JSON array is a runtime snapshot.
pub open spec fn all_runtimes(a: Seq<Json>) -> bool {
    forall|i: int| 0 <= i < a.len() ==> runtime_of_json(#[trigger] a[i]) is Some
}

/// The running-models report a JSON document denotes: an object whose
/// `models` field is an array of runtime snapshots.
pub open spec fn runtimes_of_json(j: Json) -> Option<Seq<RuntimeInfoModel>> {
    match j.obj_get("models"@) {
        Some(Json::Arr(a)) => if all_runtimes(a) {
            Some(a.map_values(|x: Json| runtime_of_json(x).unwrap()))
        } else {
            None
        },
        _ => None,
    }
}

/// The running-models report a text denotes.
pub open spec fn runtimes_parse(s: Seq<char>) -> Option<Seq<RuntimeInfoModel>> {
    match json_parse(s) {
        Some(j) => runtimes_of_json(j),
        None => None,
    }
}

/// Extracts one runtime snapshot from a parsed JSON document.
fn runtime_from_value(v: &serde_json::Value) -> (r: Option<RuntimeInfo>)
    ensures
        r matches Some(t) ==> runtime_of_json(json_model(*v)) == Some(t@),
        r is None ==> runtime_of_json(json_model(*v)) is None,
{
    let name = match json_get(v, "name") {
        Some(f) => match json_as_str(f) {
            Some(s) => s.to_owned(),
            None => {
                return None;
            },
        },
        None => {
            return None;
        },
    };
    let size_vram = match json_get(v, "size_vram") {
        Some(f) => match json_as_i64(f) {
            Some(s) => s,
            None => {
                return None;
            },
        },
        None => {
            return None;
        },
    };
    let expires_at = match json_get(v, "expires_at") {
        Some(f) => match json_as_str(f) {
            Some(s) => match parse_rfc3339_nanos(s) {
                Some(t) => t,
                None => {
                    return None;
                },
            },
            None => {
                return None;
            },
        },
        None => {
            return None;
        },
    };
    Some(RuntimeInfo { size_vram, expires_at, name })
}

/// Parses the service's running-models response. Fails — reporting a
/// serialization failure — exactly on malformed input.
#[verifier::loop_isolation(false)]
pub fn parse_running_models(body: &str) -> (r: Result<Vec<RuntimeInfo>, Error>)
    ensures
        r matches Ok(rs) ==> runtimes_parse(body@) == Some(rs.deep_view()),
        r is Err ==> runtimes_parse(body@) is None,
        r matches Err(e) ==> e matches Error::SerdeJson(m) && m@
            == "Malformed running-models response"@,
{
    let err_msg = "Malformed running-models response";
    let v = match json_from_str(body) {
        Some(v) => v,
        None => {
            return Err(Error::SerdeJson(err_msg.to_owned()));
        },
    };
    let arr_v = match json_get(&v, "models") {
        Some(f) => f,
        None => {
            return Err(Error::SerdeJson(err_msg.to_owned()));
        },
    };
    let a = match crate::json::json_as_array(arr_v) {
        Some(a) => a,
        None => {
            return Err(Error::SerdeJson(err_msg.to_owned()));
        },
    };
    let ghost elts = json_model(*arr_v)->Arr_0;
    let mut out: Vec<RuntimeInfo> = Vec::new();
    let mut i: usize = 0;
    while i < a.len()
        invariant
            a@.len() == elts.len(),
            forall|k: int| 0 <= k < elts.len() ==> json_model(#[trigger] a@[k]) == elts[k],
            0 <= i <= a.len(),
            out.len() == i,
            forall|k: int| 0 <= k < i ==> runtime_of_json(#[trigger] elts[k]) is Some,
            forall|k: int|
                0 <= k < i ==> (#[trigger] out@[k])@ == runtime_of_json(elts[k]).unwrap(),
        decreases a.len() - i,
    {
        match runtime_from_value(&a[i]) {
            Some(t) => {
                out.push(t);
            },
            None => {
                proof {
                    assert(!all_runtimes(elts)) by {
                        let ki: int = i as int;
                        assert(0 <= ki && ki < elts.len());
                        assert(!(runtime_of_json(elts[ki]) is Some));
                    }
                }
                return Err(Error::SerdeJson(err_msg.to_owned()));
            },
        }
        i += 1;
    }
    proof {
        assert(out.deep_view() =~= elts.map_values(|x: Json| runtime_of_json(x).unwrap()));
    }
    Ok(out)
}

/// Whether the liveness probe's outcome counts as running: only an HTTP
/// success status does; any failure to obtain one (an error, a timeout)
/// reports not-running, never an error.
pub fn health_from_status(status: Option<u16>) -> (r: bool)
    ensures
        r == (status matches Some(c) && 200 <= c < 300),
{
    match status {
        Some(c) => 200 <= c && c < 300,
        None => false,
    }
}

impl RuntimeInfo {
    /// A copy of this snapshot, equal as a value.
    pub fn duplicate(&self) -> (r: RuntimeInfo)
        ensures
            r == *self,
    {
        RuntimeInfo {
            size_vram: self.size_vram,
            expires_at: self.expires_at,
            name: self.name.clone(),
        }
    }
}

/// A copy of a capability list, with the same value.
pub fn clone_capabilities(v: &Vec<Capability>) -> (r: Vec<Capability>)
    ensures
        r@ == v@,
{
    let mut out: Vec<Capability> = Vec::new();
    let mut i: usize = 0;
    while i < v.len()
        invariant
            0 <= i <= v.len(),
            out@ == v@.subrange(0, i as int),
        decreases v.len() - i,
    {
        out.push(v[i]);
        proof {
            assert(out@ =~= v@.subrange(0, i as int + 1));
        }
        i += 1;
    }
    proof {
        assert(v@.subrange(0, v.len() as int) =~= v@);
    }
    out
}

impl ModelInfo {
    /// A copy of this descriptor, with the same value.
    pub fn duplicate(&self) -> (r: ModelInfo)
        ensures
            r@ == self@,
    {
        ModelInfo {
            name: self.name.clone(),
            id: self.id.clone(),
            size: self.size,
            capabilities: clone_capabilities(&self.capabilities),
        }
    }
}

/// The mathematical state of an [`OllamaModel`].
pub struct OllamaModelModel {
    pub info: ModelInfoModel,
    pub runtime_info: Option<RuntimeInfoModel>,
}

/// What a cache lookup at a given time yields: the cached snapshot while
/// it has not expired, and nothing otherwise.
pub open spec fn cache_lookup(cache: Option<RuntimeInfoModel>, now: i128) -> Option<
    RuntimeInfoModel,
> {
    match cache {
        Some(rt) => if rt.expires_at > now {
            Some(rt)
        } else {
            None
        },
        None => None,
    }
}

/// The first snapshot in a report that belongs to the named model.
pub open spec fn find_runtime(list: Seq<RuntimeInfoModel>, name: Seq<char>) -> Option<
    RuntimeInfoModel,
>
    decreases list.len(),
{
    if list.len() == 0 {
        None
    } else if list.first().name == name {
        Some(list.first())
    } else {
        find_runtime(list.drop_first(), name)
    }
}

/// What a cache decision asks the caller to do.
pub enum RuntimeLookup {
    /// The cached snapshot is still valid; use it as is.
    Fresh(RuntimeInfo),
    /// The cache is empty or expired: fetch the running models once and
    /// install the report.
    NeedFetch,
}

/// One model of the Ollama backend: its immutable descriptor and the
/// cached runtime snapshot with time-based invalidation.
#[derive(Debug)]
pub struct OllamaModel {
    info: ModelInfo,
    runtime_info: Option<RuntimeInfo>,
}

impl View for OllamaModel {
    type V = OllamaModelModel;

    closed spec fn view(&self) -> OllamaModelModel {
        OllamaModelModel {
            info: self.info@,
            runtime_info: match self.runtime_info {
                Some(rt) => Some(rt@),
                None => None,
            },
        }
    }
}

impl DeepView for OllamaModel {
    type V = OllamaModelModel;

    open spec fn deep_view(&self) -> OllamaModelModel {
        self.view()
    }
}

impl OllamaModel {
    /// A model with the given descriptor and an empty cache.
    pub fn new(info: ModelInfo) -> (m: OllamaModel)
        ensures
            m@.info == info@,
            m@.runtime_info is None,
    {
        OllamaModel { info, runtime_info: None }
    }

    /// The model's static descriptor.
    pub fn info(&self) -> (r: &ModelInfo)
        ensures
            r@ == self@.info,
    {
        &self.info
    }

    /// Whether the model is loaded, as the cached snapshot reports it.
    pub fn loaded(&self) -> (r: bool)
        ensures
            r == (self@.runtime_info is Some),
    {
        self.runtime_info.is_some()
    }

    /// The loaded size in bytes the cached snapshot reports, and `-1`
    /// while the model is not loaded.
    pub fn get_loaded_size(&self) -> (r: i64)
        ensures
            self@.runtime_info matches Some(rt) ==> r == rt.size_vram,
            self@.runtime_info is None ==> r == -1,
    {
        match &self.runtime_info {
            Some(rt) => rt.size_vram,
            None => -1,
        }
    }

    /// Decides between the cached snapshot and a fetch: the cached value is
    /// reused until it expires; on expiry or absence exactly one fetch of
    /// all running models is asked for.
    pub fn runtime_info_decision(&self, now: i128) -> (r: RuntimeLookup)
        ensures
            cache_lookup(self@.runtime_info, now) matches Some(rt) ==> r matches
                RuntimeLookup::Fresh(v) && v@ == rt,
            cache_lookup(self@.runtime_info, now) is None ==> r is NeedFetch,
    {
        match &self.runtime_info {
            Some(rt) => {
                if rt.expires_at > now {
                    RuntimeLookup::Fresh(rt.duplicate())
                } else {
                    RuntimeLookup::NeedFetch
                }
            },
            None => RuntimeLookup::NeedFetch,
        }
    }

    /// Installs a fetched running-models report: the cache becomes the
    /// first snapshot matching this model's name — whole, never torn — or
    /// empty when the report does not mention the model. Returns what was
    /// installed.
    #[verifier::loop_isolation(false)]
    pub fn install_runtime_info(&mut self, fetched: &Vec<RuntimeInfo>) -> (r: Option<RuntimeInfo>)
        ensures
            final(self)@.info == old(self)@.info,
            final(self)@.runtime_info == find_runtime(fetched.deep_view(), old(self)@.info.name),
            (match r {
                Some(rt) => Some(rt@),
                None => None,
            }) == find_runtime(fetched.deep_view(), old(self)@.info.name),
    {
        let ghost dv = fetched.deep_view();
        proof {
            assert(dv.subrange(0, dv.len() as int) =~= dv);
        }
        let mut i: usize = 0;
        while i < fetched.len()
            invariant
                0 <= i <= fetched.len(),
                self@ == old(self)@,
                find_runtime(dv, self@.info.name) == find_runtime(
                    dv.subrange(i as int, dv.len() as int),
                    self@.info.name,
                ),
            decreases fetched.len() - i,
        {
            proof {
                assert(dv[i as int] == fetched@[i as int]@);
            }
            if str_eq(fetched[i].name.as_str(), self.info.name.as_str()) {
                let rt = fetched[i].duplicate();
                self.runtime_info = Some(rt.duplicate());
                proof {
                    let tail = dv.subrange(i as int, dv.len() as int);
                    assert(tail.first() == dv[i as int]);
                    assert(find_runtime(tail, self@.info.name) == Some(dv[i as int]));
                }
                return Some(rt);
            }
            proof {
                let tail = dv.subrange(i as int, dv.len() as int);
                assert(tail.first() == dv[i as int]);
                assert(tail.drop_first() =~= dv.subrange(i as int + 1, dv.len() as int));
            }
            i += 1;
        }
        proof {
            assert(dv.subrange(fetched.len() as int, dv.len() as int) =~= Seq::<
                RuntimeInfoModel,
            >::empty());
        }
        self.runtime_info = None;
        None
    }

    /// The body of this model's load or unload request.
    pub fn load_body(&self, unload: bool) -> (r: String)
        ensures
            r@ == crate::wire::generate_body_spec(self@.info.name, unload),
    {
        crate::wire::generate_request_body(self.info.name.as_str(), unload)
    }

    /// The body of this model's chat-completion request, over the full
    /// message sequence (history followed by the new message). A missing
    /// `think` asks for no thinking.
    pub fn prompt_body(&self, content: ChatMessage, history: &Vec<ChatMessage>, think: Option<
        bool,
    >) -> (r: String)
        ensures
            r@ == chat_body_spec(
                self@.info.id,
                (think matches Some(true)),
                history.deep_view().push(content@),
            ),
    {
        let messages = assemble_messages(content, history);
        let think_flag = match think {
            Some(b) => b,
            None => false,
        };
        chat_request_body(self.info.id.as_str(), think_flag, &messages)
    }
}

/// A cached snapshot that has not expired is returned unchanged, however
/// often it is read within its validity window — no fetch happens; once
/// past its expiry the lookup yields nothing, which asks for exactly one
/// fetch.
pub proof fn lemma_cache_window(cache: Option<RuntimeInfoModel>, t1: i128, t2: i128)
    ensures
        (cache matches Some(rt) && rt.expires_at > t1 && rt.expires_at > t2) ==> cache_lookup(
            cache,
            t1,
        ) == Some(cache.unwrap()) && cache_lookup(cache, t1) == cache_lookup(cache, t2),
        (cache matches Some(rt) && rt.expires_at <= t1) ==> cache_lookup(cache, t1) is None,
        cache is None ==> cache_lookup(cache, t1) is None,
{
}

/// Whether a capability list holds the given capability.
pub fn has_capability(caps: &Vec<Capability>, c: Capability) -> (r: bool)
    ensures
        r == caps@.contains(c),
{
    let mut i: usize = 0;
    while i < caps.len()
        invariant
            0 <= i <= caps.len(),
            forall|k: int| 0 <= k < i ==> caps@[k] != c,
        decreases caps.len() - i,
    {
        if caps[i] == c {
            proof {
                assert(caps@.contains(c)) by {
                    assert(caps@[i as int] == c);
                }
            }
            return true;
        }
        i += 1;
    }
    false
}

/// The mathematical state of an [`OllamaBackend`].
pub struct OllamaBackendModel {
    pub api_url: Seq<char>,
    pub models: Seq<OllamaModelModel>,
    pub models_path: Option<Seq<char>>,
    pub owns_process: bool,
}

/// The model a catalog entry with its capabilities becomes: descriptor
/// filled in, cache empty.
pub open spec fn model_of_entry(e: (TagModel, Seq<Capability>)) -> OllamaModelModel {
    OllamaModelModel {
        info: ModelInfoModel { name: e.0.name, id: e.0.id, size: e.0.size, capabilities: e.1 },
        runtime_info: None,
    }
}

/// The model collection a fetched catalog becomes: one model per entry, in
/// catalog order, silently excluding models that advertise embedding.
pub open spec fn build_models(entries: Seq<(TagModel, Seq<Capability>)>) -> Seq<OllamaModelModel>
    decreases entries.len(),
{
    if entries.len() == 0 {
        Seq::empty()
    } else {
        let prev = build_models(entries.drop_last());
        if entries.last().1.contains(Capability::Embedding) {
            prev
        } else {
            prev + seq![model_of_entry(entries.last())]
        }
    }
}

/// The Ollama backend's own state: the service's base URL (always ending
/// in a slash, ready for joining endpoint paths), the model catalog, the
/// optional model-storage override, and whether this component spawned the
/// service process. The process handle itself and the HTTP client live
/// with the runtime that drives this state.
#[derive(Debug)]
pub struct OllamaBackend {
    api_url: String,
    /// The current model catalog; stale until the next refresh.
    pub models: Vec<OllamaModel>,
    models_path: Option<String>,
    owns_process: bool,
}

impl View for OllamaBackend {
    type V = OllamaBackendModel;

    closed spec fn view(&self) -> OllamaBackendModel {
        OllamaBackendModel {
            api_url: self.api_url@,
            models: self.models.deep_view(),
            models_path: match self.models_path {
                Some(p) => Some(p@),
                None => None,
            },
            owns_process: self.owns_process,
        }
    }
}

impl DeepView for OllamaBackend {
    type V = OllamaBackendModel;

    open spec fn deep_view(&self) -> OllamaBackendModel {
        self.view()
    }
}

impl OllamaBackend {
    /// A backend at the given base URL (a trailing slash is appended if
    /// missing) with an empty catalog and no owned process.
    pub fn new(api_url: String, models_path: Option<String>) -> (b: OllamaBackend)
        ensures
            b@.api_url == spec_prepared_url(api_url@),
            b@.models == Seq::<OllamaModelModel>::empty(),
            b@.models_path == (match models_path {
                Some(p) => Some(p@),
                None => None::<Seq<char>>,
            }),
            !b@.owns_process,
    {
        let models: Vec<OllamaModel> = Vec::new();
        proof {
            assert(models.deep_view() =~= Seq::<OllamaModelModel>::empty());
        }
        OllamaBackend { api_url: prepare_api_url(api_url), models, models_path, owns_process: false }
    }

    /// The backend's stable unique name.
    pub fn name(&self) -> (r: &'static str)
        ensures
            r@ == "Ollama"@,
    {
        ollama_name()
    }

    /// The current model catalog; stale until a refresh replaces it.
    pub fn models(&self) -> (r: &Vec<OllamaModel>)
        ensures
            r.deep_view() == self@.models,
    {
        &self.models
    }

    /// The base URL the backend talks to.
    pub fn get_api_url(&self) -> (r: &String)
        ensures
            r@ == self@.api_url,
    {
        &self.api_url
    }

    /// Replaces the base URL after validating it; a trailing slash is
    /// appended if missing. Fails — leaving the URL untouched — exactly on
    /// text that is not a valid URL.
    pub fn set_api_url(&mut self, url: &str) -> (r: Result<(), Error>)
        ensures
            url_normal(url@) matches Some(u) ==> r is Ok && final(self)@ == (OllamaBackendModel {
                api_url: spec_prepared_url(u),
                ..old(self)@
            }),
            url_normal(url@) is None ==> final(self)@ == old(self)@ && (r matches Err(e) && e
                matches Error::Http { status_code, status_msg } && status_code is None
                && status_msg@ == "Invalid URL"@),
    {
        match normalize_url(url) {
            Some(u) => {
                self.api_url = prepare_api_url(u);
                Ok(())
            },
            None => Err(
                Error::Http { status_code: None, status_msg: "Invalid URL".to_owned() },
            ),
        }
    }

    /// The configured model-storage override, if any.
    pub fn get_models_path(&self) -> (r: Option<&String>)
        ensures
            r matches Some(p) ==> self@.models_path == Some(p@),
            r is None ==> self@.models_path is None,
    {
        match &self.models_path {
            Some(p) => Some(p),
            None => None,
        }
    }

    /// Sets the model-storage override. The service reads it only at
    /// start, so the caller must then restart the backend for it to take
    /// effect.
    pub fn set_models_path(&mut self, path: String)
        ensures
            final(self)@ == (OllamaBackendModel { models_path: Some(path@), ..old(self)@ }),
    {
        self.models_path = Some(path);
    }

    /// Whether a model-storage override is configured.
    pub fn has_models_path(&self) -> (r: bool)
        ensures
            r == (self@.models_path is Some),
    {
        self.models_path.is_some()
    }

    /// Records that this component spawned the service process and now
    /// owns it.
    pub fn mark_process_spawned(&mut self)
        ensures
            final(self)@ == (OllamaBackendModel { owns_process: true, ..old(self)@ }),
    {
        self.owns_process = true;
    }

    /// Whether this component owns the service process.
    pub fn owns_process(&self) -> (r: bool)
        ensures
            r == self@.owns_process,
    {
        self.owns_process
    }

    /// The idempotent stop: clears the in-memory model list and gives up
    /// process ownership. Returns whether the caller must terminate the
    /// service process — exactly when this component owned one; killing a
    /// process that already exited is not an error.
    pub fn shutdown_apply(&mut self) -> (kill: bool)
        ensures
            final(self)@ == (OllamaBackendModel {
                models: Seq::empty(),
                owns_process: false,
                ..old(self)@
            }),
            kill == old(self)@.owns_process,
    {
        self.models.clear();
        let kill = self.owns_process;
        self.owns_process = false;
        proof {
            assert(self.models.deep_view() =~= Seq::<OllamaModelModel>::empty());
        }
        kill
    }

    /// The absolute URL of a relative endpoint path.
    pub fn endpoint(&self, path: &str) -> (r: String)
        ensures
            r@ == self@.api_url + path@,
    {
        self.api_url.clone().concat(path)
    }

    /// Atomically replaces the model catalog with the fetched one —
    /// excluding models that advertise embedding — or, where the fetch
    /// failed, reports that failure and leaves the previous catalog
    /// untouched.
    #[verifier::loop_isolation(false)]
    pub fn apply_refresh(&mut self, fetched: Result<Vec<(TagEntry, Vec<Capability>)>, Error>) -> (r:
        Result<(), Error>)
        ensures
            fetched matches Err(e) ==> final(self)@ == old(self)@ && (r matches Err(e2) && e2
                == e),
            fetched matches Ok(entries) ==> r is Ok && final(self)@ == (OllamaBackendModel {
                models: build_models(entries.deep_view()),
                ..old(self)@
            }),
    {
        let entries = match fetched {
            Ok(entries) => entries,
            Err(e) => {
                return Err(e);
            },
        };
        let ghost dv = entries.deep_view();
        let mut models: Vec<OllamaModel> = Vec::new();
        let mut i: usize = 0;
        while i < entries.len()
            invariant
                0 <= i <= entries.len(),
                dv.len() == entries@.len(),
                models.len() == build_models(dv.subrange(0, i as int)).len(),
                forall|k: int|
                    0 <= k < models.len() ==> (#[trigger] models@[k])@ == build_models(
                        dv.subrange(0, i as int),
                    )[k],
            decreases entries.len() - i,
        {
            let ghost pre = dv.subrange(0, i as int);
            let ghost post = dv.subrange(0, i as int + 1);
            proof {
                assert(post.drop_last() =~= pre);
                assert(post.last() == dv[i as int]);
                assert(dv[i as int] == entries@[i as int].deep_view());
                assert(entries@[i as int].deep_view() == (
                    entries@[i as int].0.deep_view(),
                    entries@[i as int].1.deep_view(),
                ));
            }
            let entry = &entries[i];
            if !has_capability(&entry.1, Capability::Embedding) {
                proof {
                    assert(entry.1@ =~= entries@[i as int].1.deep_view());
                }
                let info = ModelInfo {
                    name: entry.0.name.clone(),
                    id: entry.0.id.clone(),
                    size: entry.0.size,
                    capabilities: clone_capabilities(&entry.1),
                };
                let m = OllamaModel::new(info);
                models.push(m);
                proof {
                    assert(build_models(post) == build_models(pre) + seq![
                        model_of_entry(dv[i as int]),
                    ]);
                    assert(models@[models.len() - 1]@ == model_of_entry(dv[i as int]));
                }
            } else {
                proof {
                    assert(entry.1@ =~= entries@[i as int].1.deep_view());
                    assert(build_models(post) == build_models(pre));
                }
            }
            i += 1;
        }
        proof {
            assert(dv.subrange(0, entries@.len() as int) =~= dv);
            assert forall|k: int| 0 <= k < models@.len() implies #[trigger] models.deep_view()[k]
                == build_models(dv)[k] by {
                assert(models.deep_view()[k] == models@[k].deep_view());
            }
            assert(models.deep_view() =~= build_models(dv));
        }
        self.models = models;
        Ok(())
    }
}

/// What a running-models report installs is consistent: a found snapshot
/// is one of the report's records, whole, and carries the model's name; a
/// miss means the report holds no record of that name. Two installs of
/// the same report for the same name yield the same snapshot.
pub proof fn lemma_install_consistent(list: Seq<RuntimeInfoModel>, name: Seq<char>)
    ensures
        find_runtime(list, name) matches Some(rt) ==> list.contains(rt) && rt.name == name,
        find_runtime(list, name) is None ==> forall|i: int|
            0 <= i < list.len() ==> (#[trigger] list[i]).name != name,
    decreases list.len(),
{
    if list.len() > 0 {
        lemma_install_consistent(list.drop_first(), name);
        if list.first().name == name {
            assert(list[0] == list.first());
        } else {
            match find_runtime(list.drop_first(), name) {
                Some(rt) => {
                    let i = choose|i: int|
                        0 <= i < list.drop_first().len() && list.drop_first()[i] == rt;
                    assert(list[i + 1] == rt);
                },
                None => {
                    assert(forall|i: int|
                        1 <= i < list.len() ==> (#[trigger] list[i]) == list.drop_first()[i - 1]);
                },
            }
        }
    }
}

} // verus!
