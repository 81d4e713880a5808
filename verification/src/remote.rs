//! The remote tree crawler: a state machine over the hosted API's
//! directory-listing and content endpoints.
//!
//! The machine keeps an explicit work list of pending directory listings and
//! file fetches. A transport outside this crate issues one request at a time
//! ([`RemoteCrawler::next_request`]) and hands the observed outcome back
//! ([`RemoteCrawler::on_listing`], [`RemoteCrawler::on_raw`],
//! [`RemoteCrawler::on_meta`]); every decision about what the outcome means
//! is made and verified here. A rate-limited listing leaves the state
//! untouched, so the identical request is re-issued after the wait.

use vstd::prelude::*;
use base64::Engine;
use crate::config::CrawlConfig;
use crate::result::{CrawlResult, CrawlStats, PathMap};
use crate::strutil::{chars_of, spec_remove_char, spec_trim_left, starts_with, str_eq,
    string_of, remove_char, trim_left_char};

verus! {

/// Whether base64's standard-alphabet engine decodes this text.
pub uninterp spec fn b64_ok(text: Seq<char>) -> bool;

/// The bytes that base64's standard-alphabet engine decodes this text to.
pub uninterp spec fn b64_bytes(text: Seq<char>) -> Seq<u8>;

/// Relies on base64's `Engine::decode` with the standard alphabet: success
/// and the decoded bytes are functions of the input text alone.
#[verifier::external_body]
fn base64_decode(text: &str) -> (r: Option<Vec<u8>>)
    ensures
        r is Some <==> b64_ok(text@),
        r matches Some(bs) ==> bs@ == b64_bytes(text@),
{
    base64::engine::general_purpose::STANDARD.decode(text).ok()
}

/// Relies on `String::from_utf8`: it succeeds exactly on valid UTF-8 and
/// decodes those bytes to their characters.
#[verifier::external_body]
fn utf8_string(bytes: Vec<u8>) -> (r: Option<String>)
    ensures
        r is Some <==> vstd::utf8::valid_utf8(bytes@),
        r matches Some(s) ==> s@ == vstd::utf8::decode_utf8(bytes@),
{
    String::from_utf8(bytes).ok()
}

/// One entry of a directory-listing response.
pub struct ContentItem {
    /// The entry's name, without directories.
    pub name: String,
    /// The entry's path, relative to the repository root.
    pub path: String,
    /// `"file"`, `"dir"`, or another kind the walk ignores.
    pub item_type: String,
    /// The reported size in bytes; absent in some listings.
    pub size: Option<u64>,
    /// A direct-download URL, when the API offers one.
    pub download_url: Option<String>,
    /// The canonical metadata URL, used when no direct download is offered.
    pub url: String,
}

/// The body of a metadata response carrying inline content.
pub struct ContentData {
    /// The payload encoding; inline content uses `"base64"`.
    pub encoding: Option<String>,
    /// The encoded payload.
    pub content: Option<String>,
}

/// One pending piece of work of the remote walk.
pub enum WorkItem {
    /// List a directory.
    ListDir { path: String },
    /// Download a file's content from its direct-download URL.
    RawFile { api_path: String, display_path: String, url: String },
    /// Fetch a file's metadata URL and decode its inline content.
    MetaFile { api_path: String, display_path: String, url: String },
}

/// The view of one pending piece of work.
pub enum WorkItemView {
    /// List a directory.
    ListDir { path: Seq<char> },
    /// Download a file's content from its direct-download URL.
    RawFile { api_path: Seq<char>, display_path: Seq<char>, url: Seq<char> },
    /// Fetch a file's metadata URL and decode its inline content.
    MetaFile { api_path: Seq<char>, display_path: Seq<char>, url: Seq<char> },
}

impl View for WorkItem {
    type V = WorkItemView;

    open spec fn view(&self) -> WorkItemView {
        match self {
            WorkItem::ListDir { path } => WorkItemView::ListDir { path: path@ },
            WorkItem::RawFile { api_path, display_path, url } => WorkItemView::RawFile {
                api_path: api_path@,
                display_path: display_path@,
                url: url@,
            },
            WorkItem::MetaFile { api_path, display_path, url } => WorkItemView::MetaFile {
                api_path: api_path@,
                display_path: display_path@,
                url: url@,
            },
        }
    }
}

/// The repository path a work item is about.
pub open spec fn wi_api_path(w: WorkItemView) -> Seq<char> {
    match w {
        WorkItemView::ListDir { path } => path,
        WorkItemView::RawFile { api_path, .. } => api_path,
        WorkItemView::MetaFile { api_path, .. } => api_path,
    }
}

/// The path a work item's content is filed under.
pub open spec fn wi_display_path(w: WorkItemView) -> Seq<char> {
    match w {
        WorkItemView::ListDir { path } => path,
        WorkItemView::RawFile { display_path, .. } => display_path,
        WorkItemView::MetaFile { display_path, .. } => display_path,
    }
}

/// The views of a sequence of work items.
pub open spec fn views_of(s: Seq<WorkItem>) -> Seq<WorkItemView> {
    s.map_values(|w: WorkItem| w@)
}

/// The request the transport should issue next.
#[derive(Debug, Clone, PartialEq, Eq)]
pub enum Request {
    /// GET the directory-listing endpoint for this path, with the resolved
    /// ref as a query parameter when one is set.
    Listing { path: String, ref_name: Option<String> },
    /// GET this direct-download URL; report the `content-length` header,
    /// the status, and the body text.
    Download { url: String },
    /// GET this metadata URL; report its decoded `ContentData` body.
    Metadata { url: String },
}

/// What the transport observed for a listing request.
pub enum ListingOutcome {
    /// No response arrived (transport error).
    NoResponse,
    /// Status 403 with a rate-limit body: the reset header's value, if any,
    /// and the current time, both in seconds since the epoch.
    RateLimited { reset: Option<u64>, now: u64 },
    /// Status 404.
    NotFound,
    /// Another non-success status.
    OtherStatus { status: u16 },
    /// Status 200 with these entries (a single-item body counts as one).
    Items { items: Vec<ContentItem> },
}

/// What the transport observed for a direct download.
pub enum RawOutcome {
    /// No response arrived (transport error).
    NoResponse,
    /// A response: whether the status was 200, the `content-length` header
    /// if present and numeric, and the body text if it decoded.
    Response { status_ok: bool, content_length: Option<u64>, body: Option<String> },
}

/// What the transport observed for a metadata fetch.
pub enum MetaOutcome {
    /// No usable response: transport error, non-success status, or a body
    /// that did not parse.
    NoData,
    /// A parsed metadata body.
    Data { data: ContentData },
}

/// Why a listing returned 404; guides the caller toward corrective action.
#[derive(Debug, Clone, Copy, PartialEq, Eq, Structural)]
pub enum NotFoundReason {
    /// The repository was not found or is private, and no credential was
    /// supplied.
    RepoMissingOrPrivate,
    /// The repository root with ref `main` was not found: the default
    /// branch is probably named otherwise.
    DefaultBranchMismatch,
    /// The listed sub-path does not exist, or the credential lacks access.
    PathMissing,
}

/// What the caller should do after handing a listing outcome in.
#[derive(Debug, Clone, Copy, PartialEq, Eq, Structural)]
pub enum StepAction {
    /// Sleep this many seconds, then re-issue the identical request.
    Wait { seconds: u64 },
    /// Go on with the next pending request.
    Proceed,
    /// The listed path was not found; this branch of the walk ends, the
    /// rest goes on.
    Missing { reason: NotFoundReason },
    /// Another non-success status; this branch of the walk ends silently.
    HttpError { status: u16 },
}

/// A value read from an optional header or field, zero when absent.
pub open spec fn spec_opt_u64(o: Option<u64>) -> u64 {
    match o {
        Some(v) => v,
        None => 0,
    }
}

/// The seconds to wait after a rate-limited response: until one second past
/// the reset time, and at least one second.
pub open spec fn spec_wait_seconds(reset: Option<u64>, now: u64) -> int {
    if spec_opt_u64(reset) > now {
        spec_opt_u64(reset) - now + 1
    } else {
        1
    }
}

/// The diagnostic for a 404 on a listing.
pub open spec fn spec_not_found_reason(
    has_token: bool,
    path: Seq<char>,
    ref_name: Option<Seq<char>>,
) -> NotFoundReason {
    if !has_token {
        NotFoundReason::RepoMissingOrPrivate
    } else if path.len() == 0 && ref_name == Some("main"@) {
        NotFoundReason::DefaultBranchMismatch
    } else {
        NotFoundReason::PathMissing
    }
}

/// The size reported for an item, zero when the listing gave none.
pub open spec fn spec_item_size(item: ContentItem) -> u64 {
    spec_opt_u64(item.size)
}

/// The decoded size estimated from an encoded length: three quarters of it,
/// rounded down, since base64 spends four characters on three bytes.
pub open spec fn spec_est_decoded(encoded_len: nat) -> int {
    (3 * (encoded_len as int)) / 4
}

/// The path a file or directory is reported under: relativized to the walk's
/// starting sub-path when relative reporting is on and the sub-path leads it.
pub open spec fn spec_display_path(
    cfg: CrawlConfig,
    base: Seq<char>,
    item_path: Seq<char>,
) -> Seq<char> {
    if cfg.use_relative_paths && base.len() > 0 && base.is_prefix_of(item_path) {
        spec_trim_left(item_path.skip(base.len() as int), '/')
    } else {
        item_path
    }
}

fn display_path(cfg: &CrawlConfig, base: &str, item_path: &str) -> (r: String)
    ensures
        r@ == spec_display_path(*cfg, base@, item_path@),
{
    let base_chars = chars_of(base);
    if cfg.use_relative_paths && base_chars.len() > 0 && starts_with(item_path, base) {
        let item_chars = chars_of(item_path);
        let mut suffix: Vec<char> = Vec::new();
        let mut i: usize = base_chars.len();
        while i < item_chars.len()
            invariant
                item_chars@ == item_path@,
                base_chars@ == base@,
                base_chars.len() <= i <= item_chars.len(),
                suffix@ == item_path@.subrange(base@.len() as int, i as int),
            decreases item_chars.len() - i,
        {
            suffix.push(item_chars[i]);
            proof {
                assert(suffix@ =~= item_path@.subrange(base@.len() as int, i as int + 1));
            }
            i += 1;
        }
        proof {
            assert(suffix@ =~= item_path@.skip(base@.len() as int));
        }
        let suffix_str = string_of(suffix);
        trim_left_char(suffix_str.as_str(), '/')
    } else {
        item_path.to_owned()
    }
}

/// The work items one listing entry adds to the work list.
pub open spec fn spec_item_pushes(
    cfg: CrawlConfig,
    base: Seq<char>,
    item: ContentItem,
) -> Seq<WorkItemView> {
    let disp = spec_display_path(cfg, base, item.path@);
    if item.item_type@ == "file"@ {
        if !cfg.spec_accepts(disp, item.name@) {
            Seq::empty()
        } else if spec_item_size(item) > cfg.max_file_size {
            Seq::empty()
        } else {
            match item.download_url {
                Some(u) => seq![
                    WorkItemView::RawFile { api_path: item.path@, display_path: disp, url: u@ },
                ],
                None => seq![
                    WorkItemView::MetaFile {
                        api_path: item.path@,
                        display_path: disp,
                        url: item.url@,
                    },
                ],
            }
        }
    } else if item.item_type@ == "dir"@ {
        if cfg.spec_dir_excluded(item.path@, disp) {
            Seq::empty()
        } else {
            seq![WorkItemView::ListDir { path: item.path@ }]
        }
    } else {
        Seq::empty()
    }
}

/// The work items a whole listing adds, in listing order.
pub open spec fn spec_listing_pushes(
    cfg: CrawlConfig,
    base: Seq<char>,
    items: Seq<ContentItem>,
) -> Seq<WorkItemView>
    decreases items.len(),
{
    if items.len() == 0 {
        Seq::empty()
    } else {
        spec_listing_pushes(cfg, base, items.drop_last()) + spec_item_pushes(
            cfg,
            base,
            items.last(),
        )
    }
}

/// The size-skip record one listing entry adds: files that pass the filter
/// but exceed the size limit, under their repository path with the reported
/// size.
pub open spec fn spec_item_skips(
    cfg: CrawlConfig,
    base: Seq<char>,
    item: ContentItem,
) -> Seq<(Seq<char>, u64)> {
    let disp = spec_display_path(cfg, base, item.path@);
    if item.item_type@ == "file"@ && cfg.spec_accepts(disp, item.name@) && spec_item_size(item)
        > cfg.max_file_size {
        seq![(item.path@, spec_item_size(item))]
    } else {
        Seq::empty()
    }
}

/// The size-skip records a whole listing adds, in listing order.
pub open spec fn spec_listing_skips(
    cfg: CrawlConfig,
    base: Seq<char>,
    items: Seq<ContentItem>,
) -> Seq<(Seq<char>, u64)>
    decreases items.len(),
{
    if items.len() == 0 {
        Seq::empty()
    } else {
        spec_listing_skips(cfg, base, items.drop_last()) + spec_item_skips(
            cfg,
            base,
            items.last(),
        )
    }
}

/// The views of recorded size skips.
pub open spec fn skip_views(s: Seq<(String, u64)>) -> Seq<(Seq<char>, u64)> {
    s.map_values(|p: (String, u64)| (p.0@, p.1))
}

/// The remote walk's state: its identity and configuration, the work list,
/// and what has been gathered so far.
pub struct RemoteCrawler {
    /// The account that owns the repository.
    pub owner: String,
    /// The repository's name.
    pub repo: String,
    /// The resolved ref carried on every listing request, if any.
    pub ref_name: Option<String>,
    /// The sub-path the walk starts at; also the base for relativization.
    pub base_path: String,
    /// Whether a credential is supplied (shapes the 404 diagnostics).
    pub has_token: bool,
    /// The crawl configuration.
    pub cfg: CrawlConfig,
    /// The content gathered so far.
    pub files: PathMap,
    /// The size skips recorded so far, each under its repository path.
    pub skipped: Vec<(String, u64)>,
    /// The work list; the last item is handled next.
    pub pending: Vec<WorkItem>,
}

/// The view of an optional string.
pub open spec fn opt_view(o: Option<String>) -> Option<Seq<char>> {
    match o {
        Some(s) => Some(s@),
        None => None,
    }
}

/// The request a work item calls for.
pub open spec fn spec_request_for(c: RemoteCrawler, w: WorkItemView, req: Request) -> bool {
    match w {
        WorkItemView::ListDir { path } => req matches Request::Listing { path: p, ref_name }
            && p@ == path && opt_view(ref_name) == opt_view(c.ref_name),
        WorkItemView::RawFile { url, .. } => req matches Request::Download { url: u } && u@
            == url,
        WorkItemView::MetaFile { url, .. } => req matches Request::Metadata { url: u } && u@
            == url,
    }
}

/// The identity and configuration never change over the walk.
pub open spec fn frame_fixed(pre: RemoteCrawler, post: RemoteCrawler) -> bool {
    &&& post.owner == pre.owner
    &&& post.repo == pre.repo
    &&& post.ref_name == pre.ref_name
    &&& post.base_path == pre.base_path
    &&& post.has_token == pre.has_token
    &&& post.cfg == pre.cfg
}

/// How one listing outcome steps the state: a rate limit leaves everything
/// as it was and asks for a wait; an error drops the work item; entries push
/// new work and record size skips.
pub open spec fn listing_step(
    pre: RemoteCrawler,
    post: RemoteCrawler,
    outcome: ListingOutcome,
    act: StepAction,
) -> bool {
    &&& frame_fixed(pre, post)
    &&& match outcome {
        ListingOutcome::NoResponse => {
            &&& post.pending_views() == pre.pending_views().drop_last()
            &&& post.files_map() == pre.files_map()
            &&& post.skipped_views() == pre.skipped_views()
            &&& act is Proceed
        },
        ListingOutcome::RateLimited { reset, now } => {
            &&& post == pre
            &&& act matches StepAction::Wait { seconds } && seconds == spec_wait_seconds(
                reset,
                now,
            )
        },
        ListingOutcome::NotFound => {
            &&& post.pending_views() == pre.pending_views().drop_last()
            &&& post.files_map() == pre.files_map()
            &&& post.skipped_views() == pre.skipped_views()
            &&& act matches StepAction::Missing { reason } && reason == spec_not_found_reason(
                pre.has_token,
                wi_api_path(pre.pending_views().last()),
                opt_view(pre.ref_name),
            )
        },
        ListingOutcome::OtherStatus { status } => {
            &&& post.pending_views() == pre.pending_views().drop_last()
            &&& post.files_map() == pre.files_map()
            &&& post.skipped_views() == pre.skipped_views()
            &&& act == StepAction::HttpError { status }
        },
        ListingOutcome::Items { items } => {
            &&& post.pending_views() == pre.pending_views().drop_last() + spec_listing_pushes(
                pre.cfg,
                pre.base_path@,
                items@,
            )
            &&& post.files_map() == pre.files_map()
            &&& post.skipped_views() == pre.skipped_views() + spec_listing_skips(
                pre.cfg,
                pre.base_path@,
                items@,
            )
            &&& act is Proceed
        },
    }
}

/// How a direct-download outcome steps the state: an oversized
/// `content-length` records a skip under the repository path; a successful
/// body is filed under the display path; anything else drops the item.
pub open spec fn raw_step(pre: RemoteCrawler, post: RemoteCrawler, outcome: RawOutcome) -> bool {
    let w = pre.pending_views().last();
    &&& frame_fixed(pre, post)
    &&& post.pending_views() == pre.pending_views().drop_last()
    &&& match outcome {
        RawOutcome::NoResponse => {
            &&& post.files_map() == pre.files_map()
            &&& post.skipped_views() == pre.skipped_views()
        },
        RawOutcome::Response { status_ok, content_length, body } => {
            if spec_opt_u64(content_length) > pre.cfg.max_file_size {
                &&& post.files_map() == pre.files_map()
                &&& post.skipped_views() == pre.skipped_views().push(
                    (wi_api_path(w), spec_opt_u64(content_length)),
                )
            } else {
                match body {
                    Some(text) => if status_ok {
                        &&& post.files_map() == pre.files_map().insert(
                            wi_display_path(w),
                            text@,
                        )
                        &&& post.skipped_views() == pre.skipped_views()
                    } else {
                        &&& post.files_map() == pre.files_map()
                        &&& post.skipped_views() == pre.skipped_views()
                    },
                    None => {
                        &&& post.files_map() == pre.files_map()
                        &&& post.skipped_views() == pre.skipped_views()
                    },
                }
            }
        },
    }
}

/// How a metadata outcome steps the state: inline base64 content whose
/// estimated decoded size is over the limit records a skip; otherwise the
/// payload is decoded (newlines stripped first) and filed when it is valid
/// base64 and valid UTF-8; anything else drops the item.
pub open spec fn meta_step(pre: RemoteCrawler, post: RemoteCrawler, outcome: MetaOutcome) -> bool {
    let w = pre.pending_views().last();
    &&& frame_fixed(pre, post)
    &&& post.pending_views() == pre.pending_views().drop_last()
    &&& match outcome {
        MetaOutcome::NoData => {
            &&& post.files_map() == pre.files_map()
            &&& post.skipped_views() == pre.skipped_views()
        },
        MetaOutcome::Data { data } => {
            if opt_view(data.encoding) == Some("base64"@) && data.content is Some {
                match data.content {
                    Some(encoded) => {
                        let est = spec_est_decoded(encoded@.len());
                        if est > pre.cfg.max_file_size {
                            &&& post.files_map() == pre.files_map()
                            &&& post.skipped_views() == pre.skipped_views().push(
                                (wi_api_path(w), est as u64),
                            )
                        } else {
                            let clean = spec_remove_char(encoded@, '\n');
                            if b64_ok(clean) && vstd::utf8::valid_utf8(b64_bytes(clean)) {
                                &&& post.files_map() == pre.files_map().insert(
                                    wi_display_path(w),
                                    vstd::utf8::decode_utf8(b64_bytes(clean)),
                                )
                                &&& post.skipped_views() == pre.skipped_views()
                            } else {
                                &&& post.files_map() == pre.files_map()
                                &&& post.skipped_views() == pre.skipped_views()
                            }
                        }
                    },
                    None => false,
                }
            } else {
                &&& post.files_map() == pre.files_map()
                &&& post.skipped_views() == pre.skipped_views()
            }
        },
    }
}

impl RemoteCrawler {
    /// The distinct-path invariant of the gathered content map.
    pub open spec fn inv(&self) -> bool {
        self.files.inv()
    }

    /// The content gathered so far, as a map.
    pub open spec fn files_map(&self) -> Map<Seq<char>, Seq<char>> {
        self.files@
    }

    /// The size skips recorded so far, at view level.
    pub open spec fn skipped_views(&self) -> Seq<(Seq<char>, u64)> {
        skip_views(self.skipped@)
    }

    /// The pending work, oldest first; the last item is handled next.
    pub open spec fn pending_views(&self) -> Seq<WorkItemView> {
        views_of(self.pending@)
    }

    /// A fresh walk: nothing gathered, one pending listing of the sub-path.
    pub fn new(
        owner: String,
        repo: String,
        ref_name: Option<String>,
        base_path: String,
        has_token: bool,
        cfg: CrawlConfig,
    ) -> (r: RemoteCrawler)
        ensures
            r.inv(),
            r.owner == owner,
            r.repo == repo,
            r.ref_name == ref_name,
            r.base_path == base_path,
            r.has_token == has_token,
            r.cfg == cfg,
            r.files_map() == Map::<Seq<char>, Seq<char>>::empty(),
            r.skipped_views() == Seq::<(Seq<char>, u64)>::empty(),
            r.pending_views() == seq![WorkItemView::ListDir { path: base_path@ }],
    {
        let start = WorkItem::ListDir { path: base_path.clone() };
        let mut pending: Vec<WorkItem> = Vec::new();
        pending.push(start);
        let r = RemoteCrawler {
            owner,
            repo,
            ref_name,
            base_path,
            has_token,
            cfg,
            files: PathMap::new(),
            skipped: Vec::new(),
            pending,
        };
        proof {
            assert(r.skipped_views() =~= Seq::<(Seq<char>, u64)>::empty());
            assert(r.pending_views() =~= seq![WorkItemView::ListDir { path: r.base_path@ }]);
        }
        r
    }

    /// Whether the walk is finished.
    pub fn done(&self) -> (r: bool)
        ensures
            r == (self.pending_views().len() == 0),
    {
        self.pending.len() == 0
    }

    /// The request to issue for the work item handled next.
    pub fn next_request(&self) -> (r: Option<Request>)
        ensures
            self.pending_views().len() == 0 ==> r is None,
            self.pending_views().len() > 0 ==> (r matches Some(req) && spec_request_for(
                *self,
                self.pending_views().last(),
                req,
            )),
    {
        if self.pending.len() == 0 {
            return None;
        }
        let w = &self.pending[self.pending.len() - 1];
        proof {
            assert(self.pending_views().last() == self.pending@.last()@);
        }
        match w {
            WorkItem::ListDir { path } => Some(
                Request::Listing {
                    path: path.clone(),
                    ref_name: match &self.ref_name {
                        Some(r) => Some(r.clone()),
                        None => None,
                    },
                },
            ),
            WorkItem::RawFile { url, .. } => Some(Request::Download { url: url.clone() }),
            WorkItem::MetaFile { url, .. } => Some(Request::Metadata { url: url.clone() }),
        }
    }

    /// Steps the walk on a listing outcome.
    pub fn on_listing(&mut self, outcome: ListingOutcome) -> (act: StepAction)
        requires
            old(self).inv(),
            old(self).cfg.patterns_ok(),
            old(self).pending_views().len() > 0,
            old(self).pending_views().last() is ListDir,
            outcome matches ListingOutcome::RateLimited { now, .. } ==> now >= 1,
        ensures
            final(self).inv(),
            listing_step(*old(self), *final(self), outcome, act),
    {
        proof {
            assert(self.pending_views().last() == self.pending@.last()@);
            assert(self.pending_views().drop_last() =~= views_of(self.pending@.drop_last()));
        }
        match outcome {
            ListingOutcome::NoResponse => {
                self.pending.pop();
                StepAction::Proceed
            },
            ListingOutcome::RateLimited { reset, now } => {
                let r = match reset {
                    Some(v) => v,
                    None => 0,
                };
                let seconds = if r > now {
                    r - now + 1
                } else {
                    1
                };
                StepAction::Wait { seconds }
            },
            ListingOutcome::NotFound => {
                let reason = if !self.has_token {
                    NotFoundReason::RepoMissingOrPrivate
                } else {
                    let at_root = match &self.pending[self.pending.len() - 1] {
                        WorkItem::ListDir { path } => path.as_str().is_empty(),
                        _ => false,
                    };
                    let on_main = match &self.ref_name {
                        Some(r) => str_eq(r.as_str(), "main"),
                        None => false,
                    };
                    if at_root && on_main {
                        NotFoundReason::DefaultBranchMismatch
                    } else {
                        NotFoundReason::PathMissing
                    }
                };
                proof {
                    if &self.ref_name matches Some(r) && r@ == "main"@ {
                        assert(opt_view(self.ref_name) == Some("main"@));
                    }
                }
                self.pending.pop();
                StepAction::Missing { reason }
            },
            ListingOutcome::OtherStatus { status } => {
                self.pending.pop();
                StepAction::HttpError { status }
            },
            ListingOutcome::Items { items } => {
                self.pending.pop();
                let ghost base_pending = views_of(self.pending@);
                let ghost base_skips = skip_views(self.skipped@);
                let ghost cfg0 = self.cfg;
                let ghost base0 = self.base_path@;
                let mut i: usize = 0;
                proof {
                    assert(items@.take(0) =~= Seq::<ContentItem>::empty());
                    assert(views_of(self.pending@) =~= base_pending + spec_listing_pushes(
                        cfg0,
                        base0,
                        items@.take(0),
                    ));
                    assert(skip_views(self.skipped@) =~= base_skips + spec_listing_skips(
                        cfg0,
                        base0,
                        items@.take(0),
                    ));
                }
                while i < items.len()
                    invariant
                        self.inv(),
                        self.cfg.patterns_ok(),
                        self.cfg == cfg0,
                        self.base_path@ == base0,
                        self.owner == old(self).owner,
                        self.repo == old(self).repo,
                        self.ref_name == old(self).ref_name,
                        self.base_path == old(self).base_path,
                        self.has_token == old(self).has_token,
                        self.files_map() == old(self).files_map(),
                        i <= items@.len(),
                        views_of(self.pending@) == base_pending + spec_listing_pushes(
                            cfg0,
                            base0,
                            items@.take(i as int),
                        ),
                        skip_views(self.skipped@) == base_skips + spec_listing_skips(
                            cfg0,
                            base0,
                            items@.take(i as int),
                        ),
                    decreases items@.len() - i,
                {
                    proof {
                        assert(items@.take(i as int + 1).drop_last() =~= items@.take(i as int));
                        assert(items@.take(i as int + 1).last() == items@[i as int]);
                    }
                    let item = &items[i];
                    let ghost pushes = spec_item_pushes(cfg0, base0, items@[i as int]);
                    let ghost skips = spec_item_skips(cfg0, base0, items@[i as int]);
                    let ghost pend_before = views_of(self.pending@);
                    let ghost skips_before = skip_views(self.skipped@);
                    let disp = display_path(&self.cfg, self.base_path.as_str(), item.path.as_str());
                    if str_eq(item.item_type.as_str(), "file") {
                        if self.cfg.accepts(disp.as_str(), item.name.as_str()) {
                            let size = match item.size {
                                Some(s) => s,
                                None => 0,
                            };
                            if size > self.cfg.max_file_size {
                                self.skipped.push((item.path.clone(), size));
                                proof {
                                    assert(skip_views(self.skipped@) =~= skips_before + skips);
                                }
                            } else {
                                match &item.download_url {
                                    Some(u) => {
                                        self.pending.push(
                                            WorkItem::RawFile {
                                                api_path: item.path.clone(),
                                                display_path: disp,
                                                url: u.clone(),
                                            },
                                        );
                                    },
                                    None => {
                                        self.pending.push(
                                            WorkItem::MetaFile {
                                                api_path: item.path.clone(),
                                                display_path: disp,
                                                url: item.url.clone(),
                                            },
                                        );
                                    },
                                }
                                proof {
                                    assert(views_of(self.pending@) =~= pend_before + pushes);
                                }
                            }
                        }
                    } else if str_eq(item.item_type.as_str(), "dir") {
                        if !self.cfg.dir_excluded(item.path.as_str(), disp.as_str()) {
                            self.pending.push(WorkItem::ListDir { path: item.path.clone() });
                            proof {
                                assert(views_of(self.pending@) =~= pend_before + pushes);
                            }
                        }
                    }
                    proof {
                        assert(views_of(self.pending@) =~= pend_before + pushes);
                        assert(skip_views(self.skipped@) =~= skips_before + skips);
                        assert(pend_before + pushes =~= base_pending + spec_listing_pushes(
                            cfg0,
                            base0,
                            items@.take(i as int + 1),
                        ));
                        assert(skips_before + skips =~= base_skips + spec_listing_skips(
                            cfg0,
                            base0,
                            items@.take(i as int + 1),
                        ));
                    }
                    i += 1;
                }
                proof {
                    assert(items@.take(items@.len() as int) =~= items@);
                }
                StepAction::Proceed
            },
        }
    }

    /// Steps the walk on a listing outcome, validating the configured
    /// patterns first; `None` exactly when some pattern does not compile,
    /// with the state untouched.
    pub fn on_listing_checked(&mut self, outcome: ListingOutcome) -> (r: Option<StepAction>)
        requires
            old(self).inv(),
            old(self).pending_views().len() > 0,
            old(self).pending_views().last() is ListDir,
            outcome matches ListingOutcome::RateLimited { now, .. } ==> now >= 1,
        ensures
            final(self).inv(),
            !old(self).cfg.patterns_ok() ==> r is None && *final(self) == *old(self),
            old(self).cfg.patterns_ok() ==> (r matches Some(act) && listing_step(
                *old(self),
                *final(self),
                outcome,
                act,
            )),
    {
        if self.cfg.validate() {
            Some(self.on_listing(outcome))
        } else {
            None
        }
    }

    /// Steps the walk on a direct-download outcome.
    pub fn on_raw(&mut self, outcome: RawOutcome)
        requires
            old(self).inv(),
            old(self).pending_views().len() > 0,
            old(self).pending_views().last() is RawFile,
        ensures
            final(self).inv(),
            raw_step(*old(self), *final(self), outcome),
    {
        proof {
            assert(self.pending_views().last() == self.pending@.last()@);
            assert(self.pending_views().drop_last() =~= views_of(self.pending@.drop_last()));
        }
        let w = self.pending.pop();
        let (api_path, display) = match w {
            Some(WorkItem::RawFile { api_path, display_path, .. }) => (api_path, display_path),
            _ => {
                proof {
                    assert(false);
                }
                return ;
            },
        };
        match outcome {
            RawOutcome::NoResponse => {},
            RawOutcome::Response { status_ok, content_length, body } => {
                let cl = match content_length {
                    Some(v) => v,
                    None => 0,
                };
                let ghost skips_before = skip_views(self.skipped@);
                if cl > self.cfg.max_file_size {
                    self.skipped.push((api_path, cl));
                    proof {
                        assert(skip_views(self.skipped@) =~= skips_before.push(
                            (wi_api_path(old(self).pending_views().last()), cl),
                        ));
                    }
                } else {
                    match body {
                        Some(text) => {
                            if status_ok {
                                self.files.insert(display, text);
                            }
                        },
                        None => {},
                    }
                }
            },
        }
    }

    /// Steps the walk on a metadata outcome.
    pub fn on_meta(&mut self, outcome: MetaOutcome)
        requires
            old(self).inv(),
            old(self).pending_views().len() > 0,
            old(self).pending_views().last() is MetaFile,
        ensures
            final(self).inv(),
            meta_step(*old(self), *final(self), outcome),
    {
        proof {
            assert(self.pending_views().last() == self.pending@.last()@);
            assert(self.pending_views().drop_last() =~= views_of(self.pending@.drop_last()));
        }
        let w = self.pending.pop();
        let (api_path, display) = match w {
            Some(WorkItem::MetaFile { api_path, display_path, .. }) => (api_path, display_path),
            _ => {
                proof {
                    assert(false);
                }
                return ;
            },
        };
        match outcome {
            MetaOutcome::NoData => {},
            MetaOutcome::Data { data } => {
                let is_b64 = match &data.encoding {
                    Some(e) => str_eq(e.as_str(), "base64"),
                    None => false,
                };
                proof {
                    if data.encoding matches Some(e) && e@ == "base64"@ {
                        assert(opt_view(data.encoding) == Some("base64"@));
                    }
                }
                if is_b64 {
                    match data.content {
                        Some(encoded) => {
                            let len = chars_of(encoded.as_str()).len();
                            let q = (len / 4) as u64;
                            let rem = (len % 4) as u64;
                            let est: u64 = 3 * q + (3 * rem) / 4;
                            proof {
                                assert(est == spec_est_decoded(encoded@.len())) by (nonlinear_arith)
                                    requires
                                        len == encoded@.len(),
                                        q == len as int / 4,
                                        rem == len as int % 4,
                                        est == 3 * q + (3 * rem) / 4,
                                ;
                            }
                            let ghost skips_before = skip_views(self.skipped@);
                            if est > self.cfg.max_file_size {
                                self.skipped.push((api_path, est));
                                proof {
                                    assert(skip_views(self.skipped@) =~= skips_before.push(
                                        (
                                            wi_api_path(old(self).pending_views().last()),
                                            est,
                                        ),
                                    ));
                                }
                            } else {
                                let clean = remove_char(encoded.as_str(), '\n');
                                match base64_decode(clean.as_str()) {
                                    Some(bytes) => {
                                        match utf8_string(bytes) {
                                            Some(text) => {
                                                self.files.insert(display, text);
                                            },
                                            None => {},
                                        }
                                    },
                                    None => {},
                                }
                            }
                        },
                        None => {},
                    }
                }
            },
        }
    }

    /// Assembles the finished walk into a crawl result.
    pub fn into_result(self) -> (r: CrawlResult)
        requires
            self.inv(),
            self.pending_views().len() == 0,
        ensures
            r.files.inv(),
            r.files@ == self.files_map(),
            skip_views(r.stats.skipped_files@) == self.skipped_views(),
            r.stats.downloaded_count == self.files_map().dom().len(),
            r.stats.skipped_count == self.skipped_views().len(),
            self.cfg.use_relative_paths ==> (r.stats.base_path matches Some(b) && b@
                == self.base_path@),
            !self.cfg.use_relative_paths ==> r.stats.base_path is None,
            r.stats.include_patterns == self.cfg.include_patterns,
            r.stats.exclude_patterns == self.cfg.exclude_patterns,
            r.stats.source is None,
    {
        let downloaded_count = self.files.len();
        let skipped_count = self.skipped.len();
        let base_path = if self.cfg.use_relative_paths {
            Some(self.base_path)
        } else {
            None
        };
        CrawlResult {
            files: self.files,
            stats: CrawlStats {
                downloaded_count,
                skipped_count,
                skipped_files: self.skipped,
                base_path,
                include_patterns: self.cfg.include_patterns,
                exclude_patterns: self.cfg.exclude_patterns,
                source: None,
            },
        }
    }
}

/// The data-model invariant, seen from the scheduling side: a listing step
/// schedules a fetch only for a listed file that passes the pattern filter
/// and sits within the size limit, and content is only ever filed under a
/// scheduled fetch's display path (see `raw_step` and `meta_step`), so
/// everything in the final map satisfies both conditions.
pub proof fn lemma_scheduled_fetch_passed_filter_and_limit(
    cfg: CrawlConfig,
    base: Seq<char>,
    items: Seq<ContentItem>,
    w: WorkItemView,
)
    requires
        spec_listing_pushes(cfg, base, items).contains(w),
        w is RawFile || w is MetaFile,
    ensures
        exists|i: int|
            0 <= i < items.len() && {
                let item = #[trigger] items[i];
                &&& item.item_type@ == "file"@
                &&& wi_api_path(w) == item.path@
                &&& wi_display_path(w) == spec_display_path(cfg, base, item.path@)
                &&& cfg.spec_accepts(spec_display_path(cfg, base, item.path@), item.name@)
                &&& spec_item_size(item) <= cfg.max_file_size
            },
    decreases items.len(),
{
    if items.len() > 0 {
        let earlier = spec_listing_pushes(cfg, base, items.drop_last());
        let from_last = spec_item_pushes(cfg, base, items.last());
        let k = choose|k: int|
            0 <= k < spec_listing_pushes(cfg, base, items).len() && spec_listing_pushes(
                cfg,
                base,
                items,
            )[k] == w;
        if k < earlier.len() {
            assert(earlier.contains(w)) by {
                assert(earlier[k] == w);
            }
            lemma_scheduled_fetch_passed_filter_and_limit(cfg, base, items.drop_last(), w);
            let i = choose|i: int|
                0 <= i < items.drop_last().len() && {
                    let item = #[trigger] items.drop_last()[i];
                    &&& item.item_type@ == "file"@
                    &&& wi_api_path(w) == item.path@
                    &&& wi_display_path(w) == spec_display_path(cfg, base, item.path@)
                    &&& cfg.spec_accepts(spec_display_path(cfg, base, item.path@), item.name@)
                    &&& spec_item_size(item) <= cfg.max_file_size
                };
            assert(items[i] == items.drop_last()[i]);
        } else {
            assert(from_last[k - earlier.len()] == w);
            assert(items[items.len() - 1] == items.last());
        }
    }
}

/// A listed file that passes the pattern filter but exceeds the size limit
/// is recorded as skipped under its repository path with its exact reported
/// size, and no fetch of it is scheduled, so its content never enters the
/// map.
pub proof fn lemma_remote_oversize_skipped_not_fetched(
    cfg: CrawlConfig,
    base: Seq<char>,
    item: ContentItem,
)
    requires
        item.item_type@ == "file"@,
        cfg.spec_accepts(spec_display_path(cfg, base, item.path@), item.name@),
        spec_item_size(item) > cfg.max_file_size,
    ensures
        spec_item_skips(cfg, base, item) == seq![(item.path@, spec_item_size(item))],
        spec_item_pushes(cfg, base, item) == Seq::<WorkItemView>::empty(),
{
}

/// After a rate-limited listing the state is unchanged, so the next request
/// is the identical one, and the wait reaches past the reset time: with the
/// reset `d` seconds ahead, the wait is `d + 1`.
pub proof fn lemma_rate_limit_retries_same_request(
    pre: RemoteCrawler,
    post: RemoteCrawler,
    reset: u64,
    now: u64,
    act: StepAction,
)
    requires
        listing_step(pre, post, ListingOutcome::RateLimited { reset: Some(reset), now }, act),
    ensures
        post == pre,
        forall|req: Request|
            spec_request_for(post, post.pending_views().last(), req) == spec_request_for(
                pre,
                pre.pending_views().last(),
                req,
            ),
        act matches StepAction::Wait { seconds } && (reset > now ==> seconds == reset - now
            + 1),
        act matches StepAction::Wait { seconds } && (reset > now ==> seconds > reset - now),
{
}

} // verus!
