//! What a tile worker decides for a queued request: whether to read the tile
//! from the disk cache or download it, how to download it, what the reply
//! makes of it, and whether to save it.
use vstd::prelude::*;
use crate::foreign::{decoded_rgba, url_accepts, url_scheme_of, url_text_of};
use crate::tiles::fetch::{
    coded_result, decoded_result, expire_time_for, status_result_code, TileRequestResult,
    TileRequestResultCode,
};
use crate::tiles::request::{TileFetchMode, TileRequest};
use crate::tiles::source::{
    clone_opt_string, opt_str_view, parsed_outcome, template_url, url_error_prefix,
};
use crate::tiles::tile::{default_expiry, SECONDS_PER_DAY};

verus! {

/// What a worker learns about a request as it goes.
pub enum WorkerEvent {
    /// The request was taken from the queue; whether its tile file exists.
    Pulled { exists_on_disk: bool },
    /// The tile file was read; whether that gave a result.
    DiskRead { ok: bool },
    /// The tile was downloaded with the result code.
    Fetched { code: TileRequestResultCode },
}

/// What a worker does next.
#[derive(Debug, PartialEq, Eq, Structural)]
pub enum WorkerAction {
    /// Read the tile from the disk cache.
    ReadDisk,
    /// Download the tile.
    Download,
    /// Save the downloaded tile to the disk cache.
    Save,
    /// Nothing more for this request.
    Done,
}

/// The next step for a request with fetch mode `mode` after `ev`: the disk
/// cache is read when the file exists and the remote is not forced; a
/// download follows unless only the cache may be used or the disk read gave a
/// result; a successful download is saved.
pub open spec fn worker_step(mode: TileFetchMode, ev: WorkerEvent) -> WorkerAction {
    match ev {
        WorkerEvent::Pulled { exists_on_disk } => if exists_on_disk && mode != TileFetchMode::Remote {
            WorkerAction::ReadDisk
        } else if mode != TileFetchMode::Cache {
            WorkerAction::Download
        } else {
            WorkerAction::Done
        },
        WorkerEvent::DiskRead { ok } => if !ok && mode != TileFetchMode::Cache {
            WorkerAction::Download
        } else {
            WorkerAction::Done
        },
        WorkerEvent::Fetched { code } => if code == TileRequestResultCode::Success {
            WorkerAction::Save
        } else {
            WorkerAction::Done
        },
    }
}

/// Computes `worker_step`.
pub fn worker_next(mode: TileFetchMode, ev: WorkerEvent) -> (a: WorkerAction)
    ensures
        a == worker_step(mode, ev),
{
    match ev {
        WorkerEvent::Pulled { exists_on_disk } => {
            if exists_on_disk && mode != TileFetchMode::Remote {
                WorkerAction::ReadDisk
            } else if mode != TileFetchMode::Cache {
                WorkerAction::Download
            } else {
                WorkerAction::Done
            }
        },
        WorkerEvent::DiskRead { ok } => {
            if !ok && mode != TileFetchMode::Cache {
                WorkerAction::Download
            } else {
                WorkerAction::Done
            }
        },
        WorkerEvent::Fetched { code } => {
            if code == TileRequestResultCode::Success {
                WorkerAction::Save
            } else {
                WorkerAction::Done
            }
        },
    }
}

/// How to download a tile.
pub enum FetchPlan {
    /// The source has no url templates.
    NoSource,
    /// The url names a local file, which is not fetched.
    LocalFile,
    /// An HTTP GET of the url, given by its serialization, with these header
    /// values; `https` picks the client for the `https` scheme.
    Get { url: String, scheme: String, https: bool, user_agent: String, referer: Option<String> },
}

/// What a plan made of the url text `text` is: a local file for the `file`
/// scheme, else a GET with the url's scheme, on the HTTPS client for the
/// `https` scheme; an error message starting with `url_error_prefix` when the
/// text does not parse.
pub open spec fn plan_outcome(text: Seq<char>, r: Result<FetchPlan, String>) -> bool {
    match r {
        Ok(FetchPlan::NoSource) => false,
        Ok(FetchPlan::LocalFile) => url_accepts(text) && url_scheme_of(text) == seq!['f', 'i', 'l', 'e'],
        Ok(FetchPlan::Get { url, scheme, https, .. }) => {
            &&& url_accepts(text)
            &&& url@ == url_text_of(text)
            &&& scheme@ == url_scheme_of(text)
            &&& scheme@ != seq!['f', 'i', 'l', 'e']
            &&& https == (scheme@ == seq!['h', 't', 't', 'p', 's'])
        },
        Err(m) => !url_accepts(text) && url_error_prefix().is_prefix_of(m@),
    }
}

/// How to download the tile of `treq` from its source; `default_user_agent`
/// is sent when the source names no user agent. One of the source's templates
/// is picked at random and made a url; the plan follows from that url, and
/// fails with the message of `make_url` when the url does not parse.
pub fn fetch_plan(treq: &TileRequest, default_user_agent: &String) -> (r: Result<FetchPlan, String>)
    requires
        treq@.valid(),
    ensures
        treq@.source.url_templates.len() == 0 <==> r matches Ok(FetchPlan::NoSource),
        treq@.source.url_templates.len() > 0 ==> exists|i: int|
            0 <= i < treq@.source.url_templates.len() && plan_outcome(
                #[trigger] template_url(treq@.source, treq@, i),
                r,
            ),
        (forall|i: int|
            0 <= i < treq@.source.url_templates.len() ==> url_accepts(
                #[trigger] template_url(treq@.source, treq@, i),
            )) ==> r is Ok,
        r matches Ok(FetchPlan::Get { user_agent, referer, .. }) ==> {
            &&& user_agent@ == match treq@.source.user_agent {
                Some(u) => u,
                None => default_user_agent@,
            }
            &&& opt_str_view(referer) == treq@.source.referer
        },
{
    proof {
        reveal_strlit("file");
        reveal_strlit("https");
        assert("file"@ =~= seq!['f', 'i', 'l', 'e']);
        assert("https"@ =~= seq!['h', 't', 't', 'p', 's']);
    }
    if treq.source.url_templates.len() == 0 {
        return Ok(FetchPlan::NoSource);
    }
    let picked = treq.source.make_url(treq);
    let ghost i = choose|i: int|
        0 <= i < treq@.source.url_templates.len() && parsed_outcome(
            #[trigger] template_url(treq@.source, treq@, i),
            picked,
        );
    match picked {
        Ok(p) => {
            let scheme = p.scheme;
            if scheme == String::from_str("file") {
                let r = Ok(FetchPlan::LocalFile);
                assert(plan_outcome(template_url(treq@.source, treq@, i), r));
                r
            } else {
                let https = scheme == String::from_str("https");
                let user_agent = match &treq.source.user_agent {
                    Some(u) => u.clone(),
                    None => default_user_agent.clone(),
                };
                let referer = clone_opt_string(&treq.source.referer);
                let r = Ok(FetchPlan::Get { url: p.text, scheme, https, user_agent, referer });
                assert(plan_outcome(template_url(treq@.source, treq@, i), r));
                r
            }
        },
        Err(e) => {
            let r = Err(e);
            assert(plan_outcome(template_url(treq@.source, treq@, i), r));
            r
        },
    }
}

/// The result of a plan that downloads nothing: the no-source error without
/// url templates, the unknown error for a local file (which is not read);
/// `None` for a GET, whose result `fetch_result` makes of the reply.
pub fn plan_result(treq: &TileRequest, plan: &FetchPlan) -> (r: Option<TileRequestResult>)
    ensures
        match plan {
            FetchPlan::NoSource => r matches Some(x) && x@ == coded_result(treq@, TileRequestResultCode::NoSourceError),
            FetchPlan::LocalFile => r matches Some(x) && x@ == coded_result(treq@, TileRequestResultCode::UnknownError),
            FetchPlan::Get { .. } => r is None,
        },
{
    match plan {
        FetchPlan::NoSource => Some(TileRequestResult::with_code(treq, TileRequestResultCode::NoSourceError)),
        FetchPlan::LocalFile => Some(TileRequestResult::with_code(treq, TileRequestResultCode::UnknownError)),
        FetchPlan::Get { .. } => None,
    }
}

/// What came back from an HTTP GET of a tile.
pub enum FetchReply {
    /// The request could not be sent or was not answered.
    NotSent,
    /// The server answered with the status; for success, the body read
    /// (`None` when reading it failed) and the time of its expiry header.
    Answered { status: u16, body: Option<Vec<u8>>, expires_header: Option<i64> },
}

/// Result code of an answer with a status other than success.
pub open spec fn status_code(status: u16) -> TileRequestResultCode {
    if status == 404 {
        TileRequestResultCode::NotFoundError
    } else if status == 401 {
        TileRequestResultCode::UnauthorizedError
    } else {
        TileRequestResultCode::UnknownError
    }
}

/// Expiry time of a tile fetched at `now`: the source's override in days, else
/// the server's expiry header, else the default number of days.
pub open spec fn fetched_expiry(now: int, expires_header: Option<i64>, expire_override: Option<u16>) -> int {
    match expire_override {
        Some(days) => now + days * SECONDS_PER_DAY,
        None => match expires_header {
            Some(h) => h as int,
            None => now + default_expiry(),
        },
    }
}

/// The outcome of a download of the tile of `treq` answered by `reply` at
/// `now`: a transmission error when nothing came back or the body could not
/// be read or decoded, the status's error code for a status other than
/// success, else the decoded tile with its expiry time.
pub fn fetch_result(treq: &TileRequest, reply: FetchReply, now: i64) -> (r: TileRequestResult)
    requires
        -0x800_0000_0000 < now < 0x800_0000_0000,
    ensures
        match reply {
            FetchReply::NotSent => r@ == coded_result(treq@, TileRequestResultCode::TransmissionError),
            FetchReply::Answered { status, body, expires_header } => if status != 200 {
                r@ == coded_result(treq@, status_code(status))
            } else {
                match body {
                    None => r@ == coded_result(treq@, TileRequestResultCode::TransmissionError),
                    Some(b) => match decoded_rgba(b@) {
                        Some(d) => r@ == decoded_result(
                            treq@,
                            b@,
                            d,
                            Some(fetched_expiry(now as int, expires_header, treq@.source.expire_override) as i64),
                        ),
                        None => r@ == coded_result(treq@, TileRequestResultCode::TransmissionError),
                    },
                }
            },
        },
{
    match reply {
        FetchReply::NotSent => TileRequestResult::with_code(treq, TileRequestResultCode::TransmissionError),
        FetchReply::Answered { status, body, expires_header } => {
            match status_result_code(status) {
                Some(code) => TileRequestResult::with_code(treq, code),
                None => match body {
                    None => TileRequestResult::with_code(treq, TileRequestResultCode::TransmissionError),
                    Some(data) => {
                        let expires = expire_time_for(now, expires_header, treq.source.expire_override);
                        TileRequestResult::new(treq, &data, Some(expires))
                    },
                },
            }
        },
    }
}

} // verus!
