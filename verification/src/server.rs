//! What a GET and a PUT lead to.
//!
//! The program reads the request, looks at the cache folder and hands the
//! facts in.  It gets back a plan: answer at once, serve a file, fetch from
//! the upstream, queue replications.

use vstd::prelude::*;
use vstd::string::*;
use crate::background_uploader::{request_views, UploadRequest, UploadRequestView};
use crate::cache::{after_insert, distinct_keys, lemma_insert_holds, size_of, Item};
use crate::config::AppConfig;
use crate::process_action_cache::{
    is_ac_key, is_action_cache_entry, is_admitted, is_cas_key,
};
use crate::request::{cache_key, upstream_uri, uri_accepts, ProxyRequest, RequestParts};
use crate::server_error::ServerError;
use crate::text::{str_eq, views};

verus! {

pub const OK: u16 = 200;

pub const CREATED: u16 = 201;

pub const NOT_FOUND: u16 = 404;

pub const INTERNAL_SERVER_ERROR: u16 = 500;

/// What a request method asks for.
#[derive(Clone, Copy, Debug, PartialEq, Eq, Structural)]
pub enum Route {
    Get,
    Put,
    /// Any other method: answered with `status`, which is 500.
    Unsupported { status: u16 },
}

/// What `method` asks for.
pub fn route(method: &str) -> (r: Route)
    ensures
        r == if method@ == "GET"@ {
            Route::Get
        } else if method@ == "PUT"@ {
            Route::Put
        } else {
            Route::Unsupported { status: INTERNAL_SERVER_ERROR }
        },
{
    if str_eq(method, "GET") {
        Route::Get
    } else if str_eq(method, "PUT") {
        Route::Put
    } else {
        Route::Unsupported { status: INTERNAL_SERVER_ERROR }
    }
}

/// Where the server listens.
#[derive(Debug)]
pub enum Bind {
    /// On the unix domain socket with this path.
    Unix { socket: String },
    /// On this port of the local host.
    Http { port: u16 },
}

/// Where a server with the bind target of scheme `scheme`, authority
/// `authority` and port `port` listens: a `unix` target names a socket by
/// its authority, an `http` target a port.  Any other target, and one that
/// lacks the part it is to name, cannot be bound.
pub fn start_server(scheme: Option<&str>, authority: Option<&str>, port: Option<u16>) -> (r: Option<
    Bind,
>)
    ensures
        match r {
            Some(Bind::Unix { socket }) => scheme.is_some() && scheme.unwrap()@ == "unix"@
                && authority.is_some() && socket@ == authority.unwrap()@,
            Some(Bind::Http { port: p }) => scheme.is_some() && scheme.unwrap()@ == "http"@
                && port == Some(p),
            None => !(scheme.is_some() && scheme.unwrap()@ == "unix"@ && authority.is_some())
                && !(scheme.is_some() && scheme.unwrap()@ == "http"@ && port.is_some()),
        },
{
    proof {
        reveal_strlit("unix");
        reveal_strlit("http");
        assert("unix"@[0] == 'u');
        assert("http"@[0] == 'h');
    }
    match scheme {
        Some(name) => {
            if str_eq(name, "unix") {
                match authority {
                    Some(a) => Some(Bind::Unix { socket: String::from_str(a) }),
                    None => None,
                }
            } else if str_eq(name, "http") {
                match port {
                    Some(p) => Some(Bind::Http { port: p }),
                    None => None,
                }
            } else {
                None
            }
        },
        None => None,
    }
}

/// How a GET is answered.
#[derive(Debug)]
pub enum GetPlan {
    /// Status 404 at once, with no request to the upstream.
    NotFound,
    /// Serve the entry's file of `len` bytes, with no request to the upstream.
    ServeLocal { len: u64 },
    /// Fetch the entry from `uri` and register it as `file_name`.
    Fetch { uri: String, file_name: String },
}

/// The status of the answer that a plan settles: 404 for a refusal and 200
/// for an entry served from its file.  A fetch settles none before it ends.
pub fn plan_status(plan: &GetPlan) -> (status: Option<u16>)
    ensures
        status == match plan {
            GetPlan::NotFound => Some(NOT_FOUND),
            GetPlan::ServeLocal { .. } => Some(OK),
            GetPlan::Fetch { .. } => None,
        },
{
    match plan {
        GetPlan::NotFound => Some(NOT_FOUND),
        GetPlan::ServeLocal { .. } => Some(OK),
        GetPlan::Fetch { .. } => None,
    }
}

/// Whether a GET for the entry `key` is answered with 404 at once: the entry
/// is content-addressed, and neither its file nor its marker is there.
pub open spec fn refused(key: Seq<char>, already_present: Option<u64>, gate_file: Option<u64>) -> bool {
    is_cas_key(key) && already_present.is_none() && gate_file.is_none()
}

/// Whether a GET asks the upstream: it is not refused and the entry's file is
/// not there.
pub open spec fn asks_upstream(
    key: Seq<char>,
    already_present: Option<u64>,
    gate_file: Option<u64>,
) -> bool {
    !refused(key, already_present, gate_file) && already_present.is_none()
}

/// The plan for a GET of `request`, where `already_present` is the size of
/// the entry's file in the cache folder and `gate_file` that of its marker,
/// each `None` for a missing file.
///
/// A content-addressed entry with neither file nor marker is refused before
/// anything else.  Else the address at `upstream` must be a valid URI; an
/// entry whose file is there is served from it, and any other is fetched.
pub fn get_request(
    request: &ProxyRequest,
    upstream: &str,
    already_present: Option<u64>,
    gate_file: Option<u64>,
) -> (r: Result<GetPlan, ServerError>)
    ensures
        match r {
            Ok(GetPlan::NotFound) => refused(cache_key(request@), already_present, gate_file),
            Ok(GetPlan::ServeLocal { len }) => {
                &&& !refused(cache_key(request@), already_present, gate_file)
                &&& uri_accepts(upstream_uri(upstream@, request@))
                &&& already_present == Some(len)
            },
            Ok(GetPlan::Fetch { uri, file_name }) => {
                &&& asks_upstream(cache_key(request@), already_present, gate_file)
                &&& uri_accepts(upstream_uri(upstream@, request@))
                &&& uri@ == upstream_uri(upstream@, request@)
                &&& file_name@ == cache_key(request@)
            },
            Err(e) => {
                &&& !refused(cache_key(request@), already_present, gate_file)
                &&& !uri_accepts(upstream_uri(upstream@, request@))
                &&& e is InvalidUri
            },
        },
{
    let file_name = request.file_name();
    if !is_admitted(file_name.as_str(), already_present, gate_file) {
        return Ok(GetPlan::NotFound);
    }
    match request.build_query_uri(upstream) {
        Err(e) => Err(e),
        Ok(uri) => match already_present {
            Some(len) => Ok(GetPlan::ServeLocal { len }),
            None => Ok(GetPlan::Fetch { uri, file_name }),
        },
    }
}

/// How a GET that asked the upstream is answered.
#[derive(Debug)]
pub enum Fetched {
    /// Status 200 with the entry's file of `len` bytes.  `process_action_cache`
    /// says whether the entry is an action-cache entry, whose content is to
    /// be processed for markers before the answer.
    Serve { len: u64, process_action_cache: bool },
    /// Status 404: the upstream has no such entry, or it was not downloaded.
    NotFound,
    /// Status 500 with the failure in words.
    Failed { error: ServerError },
}

/// The answer to a GET for `file_name` after the fetch ended with `fetched`.
pub fn fetched_response(file_name: &str, fetched: Result<Option<u64>, String>) -> (r: Fetched)
    ensures
        match fetched {
            Ok(Some(len)) => r == (Fetched::Serve {
                len,
                process_action_cache: is_ac_key(file_name@),
            }),
            Ok(None) => r is NotFound,
            Err(text) => r == (Fetched::Failed { error: ServerError::StringError(text) }),
        },
{
    match fetched {
        Ok(Some(len)) => Fetched::Serve {
            len,
            process_action_cache: is_action_cache_entry(file_name),
        },
        Ok(None) => Fetched::NotFound,
        Err(text) => Fetched::Failed { error: ServerError::from_string(text) },
    }
}

/// The status of the answer that `r` stands for.
pub fn fetched_status(r: &Fetched) -> (status: u16)
    ensures
        status == match r {
            Fetched::Serve { .. } => OK,
            Fetched::NotFound => NOT_FOUND,
            Fetched::Failed { .. } => INTERNAL_SERVER_ERROR,
        },
{
    match r {
        Fetched::Serve { .. } => OK,
        Fetched::NotFound => NOT_FOUND,
        Fetched::Failed { .. } => INTERNAL_SERVER_ERROR,
    }
}

/// What follows a PUT, which is answered with status 201 either way.
#[derive(Debug)]
pub struct PutPlan {
    /// The status of the answer: 201.
    pub status: u16,
    /// Whether the stored entry is an action-cache entry, whose content is to
    /// be processed for markers.
    pub process_action_cache: bool,
    /// The replications to queue, the primary upstream first.
    pub uploads: Vec<UploadRequest>,
}

/// The upstreams of `config`, the primary first.
pub open spec fn upstreams(config: AppConfig) -> Seq<Seq<char>> {
    seq![config.upstream@] + views(config.secondary_upstreams@)
}

/// The file of the entry `key` in the folder `cache_folder`.
pub open spec fn entry_path(cache_folder: Seq<char>, key: Seq<char>) -> Seq<char> {
    cache_folder + "/"@ + key
}

/// The replication of the entry `parts` to `upstream`.
pub open spec fn upload_to(upstream: Seq<char>, cache_folder: Seq<char>, parts: RequestParts) -> UploadRequestView {
    UploadRequestView {
        uri: upstream_uri(upstream, parts),
        path: entry_path(cache_folder, cache_key(parts)),
        file_name: cache_key(parts),
    }
}

/// The replications of the entry `parts` to each of `targets`.
pub open spec fn uploads_to(targets: Seq<Seq<char>>, cache_folder: Seq<char>, parts: RequestParts) -> Seq<UploadRequestView> {
    Seq::new(targets.len(), |i: int| upload_to(targets[i], cache_folder, parts))
}

/// Whether the entry `parts` has a valid address at each of `targets`.
pub open spec fn all_addressable(targets: Seq<Seq<char>>, parts: RequestParts) -> bool {
    forall|i: int| 0 <= i < targets.len() ==> uri_accepts(#[trigger] upstream_uri(targets[i], parts))
}

/// The file of the entry `file_name` in the folder `cache_folder`.
pub fn data_path(cache_folder: &str, file_name: &str) -> (r: String)
    ensures
        r@ == entry_path(cache_folder@, file_name@),
{
    let mut out = String::from_str(cache_folder);
    out.append("/");
    out.append(file_name);
    out
}

fn upstream_upload(
    uploads: &mut Vec<UploadRequest>,
    upstream: &str,
    request: &ProxyRequest,
    cache_folder: &str,
) -> (r: Result<(), ServerError>)
    ensures
        match r {
            Ok(_) => uri_accepts(upstream_uri(upstream@, request@)) && request_views(
                final(uploads)@,
            ) == request_views(old(uploads)@).push(upload_to(upstream@, cache_folder@, request@)),
            Err(e) => !uri_accepts(upstream_uri(upstream@, request@)) && e is InvalidUri,
        },
{
    match request.build_query_uri(upstream) {
        Ok(uri) => {
            let file_name = request.file_name();
            let path = data_path(cache_folder, file_name.as_str());
            uploads.push(UploadRequest { uri, path, file_name });
            assert(request_views(uploads@) =~= request_views(old(uploads)@).push(
                upload_to(upstream@, cache_folder@, request@),
            ));
            Ok(())
        },
        Err(e) => Err(e),
    }
}

/// What follows a PUT of `request` whose body was stored as `stored`, `None`
/// where the entry was held already.
///
/// An entry that was held already leads to nothing more.  A new one is
/// replicated to every upstream of `config`, and processed for markers where
/// it is an action-cache entry.  The plan fails where the entry has no valid
/// address at one of the upstreams.
pub fn put_request(request: &ProxyRequest, config: &AppConfig, stored: &Option<String>) -> (r:
    Result<PutPlan, ServerError>)
    ensures
        match r {
            Ok(plan) => plan.status == CREATED && match stored {
                Some(name) => {
                    &&& all_addressable(upstreams(*config), request@)
                    &&& plan.process_action_cache == is_ac_key(name@)
                    &&& request_views(plan.uploads@) == uploads_to(
                        upstreams(*config),
                        config.cache_folder@,
                        request@,
                    )
                },
                None => !plan.process_action_cache && plan.uploads@.len() == 0,
            },
            Err(e) => stored.is_some() && !all_addressable(upstreams(*config), request@)
                && e is InvalidUri,
        },
{
    let mut uploads: Vec<UploadRequest> = Vec::new();
    let name = match stored {
        Some(name) => name,
        None => {
            return Ok(PutPlan { status: CREATED, process_action_cache: false, uploads });
        },
    };
    let ghost targets = upstreams(*config);
    let ghost folder = config.cache_folder@;
    match upstream_upload(
        &mut uploads,
        config.upstream.as_str(),
        request,
        config.cache_folder.as_str(),
    ) {
        Err(e) => {
            proof {
                assert(targets[0] == config.upstream@);
                assert(!uri_accepts(upstream_uri(targets[0], request@)));
            }
            return Err(e);
        },
        Ok(_) => {},
    }
    let n: usize = config.secondary_upstreams.len();
    let mut i: usize = 0;
    proof {
        assert(targets[0] == config.upstream@);
        assert(request_views(uploads@) =~= uploads_to(targets.subrange(0, 1), folder, request@));
    }
    while i < n
        invariant
            i <= n,
            n == config.secondary_upstreams@.len(),
            stored.is_some(),
            targets == upstreams(*config),
            targets.len() == n + 1,
            folder == config.cache_folder@,
            request_views(uploads@) == uploads_to(
                targets.subrange(0, i as int + 1),
                folder,
                request@,
            ),
            forall|j: int|
                0 <= j < i + 1 ==> uri_accepts(#[trigger] upstream_uri(targets[j], request@)),
        decreases n - i,
    {
        proof {
            assert(targets[i as int + 1] == config.secondary_upstreams@[i as int]@);
        }
        match upstream_upload(
            &mut uploads,
            config.secondary_upstreams[i].as_str(),
            request,
            config.cache_folder.as_str(),
        ) {
            Err(e) => {
                proof {
                    assert(!uri_accepts(upstream_uri(targets[i as int + 1], request@)));
                }
                return Err(e);
            },
            Ok(_) => {},
        }
        proof {
            assert(request_views(uploads@) =~= uploads_to(
                targets.subrange(0, i as int + 2),
                folder,
                request@,
            ));
        }
        i = i + 1;
    }
    proof {
        assert(targets.subrange(0, n as int + 1) =~= targets);
    }
    Ok(
        PutPlan {
            status: CREATED,
            process_action_cache: is_action_cache_entry(name.as_str()),
            uploads,
        },
    )
}

/// A PUT followed by a GET of the same entry is served from the cache folder:
/// once the entry is registered the GET neither is refused nor asks the
/// upstream, whatever the cache held before and however large the entry is.
pub proof fn lemma_stored_entry_is_served_locally(
    held: Seq<Item>,
    key: Seq<char>,
    size: u64,
    capacity: u64,
    gate_file: Option<u64>,
)
    requires
        distinct_keys(held),
    ensures
        size_of(after_insert(held, key, size, capacity), key) == Some(size),
        !refused(key, size_of(after_insert(held, key, size, capacity), key), gate_file),
        !asks_upstream(key, size_of(after_insert(held, key, size, capacity), key), gate_file),
{
    lemma_insert_holds(held, key, size, capacity);
}

} // verus!
