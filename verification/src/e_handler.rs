//! The query configuration of one run, and the requests it gives rise to.

use crate::orchestrator::{initial, Orchestrator};
use crate::text::{decimal, i32_to_string, join, signed_decimal, u64_to_string};
use vstd::prelude::*;
use vstd::string::*;

verus! {

/// The traversal policy of a run.
#[derive(Clone, Copy, Debug, PartialEq, Eq, Structural)]
pub enum Mode {
    /// One page of the favourites of the configured user.
    Favourites,
    /// One page of the posts that match the tag filter.
    Tags,
    /// Page after page, kept on disk first and downloaded in a second pass.
    Bulk,
}

/// The query configuration: read-only for the duration of a run.
#[derive(Debug, Clone)]
pub struct EHandler {
    pub username: String,
    pub api_key: String,
    pub count: i32,
    pub pages: i32,
    pub random: bool,
    pub tags: String,
    pub lower_quality: bool,
    pub api_source: String,
}

/// The configuration with its texts as character sequences.
pub struct EHandlerView {
    pub username: Seq<char>,
    pub api_key: Seq<char>,
    pub count: i32,
    pub pages: i32,
    pub random: bool,
    pub tags: Seq<char>,
    pub lower_quality: bool,
    pub api_source: Seq<char>,
}

/// One request to the search API: the address, and the identity to send
/// with it where a credential is configured.
#[derive(Debug, Clone)]
pub struct Request {
    pub target: String,
    pub auth: Option<(String, String)>,
}

/// A request with its texts as character sequences.
pub struct RequestView {
    pub target: Seq<char>,
    pub auth: Option<(Seq<char>, Seq<char>)>,
}

impl View for Request {
    type V = RequestView;

    open spec fn view(&self) -> RequestView {
        RequestView {
            target: self.target@,
            auth: match self.auth {
                Some(pair) => Some((pair.0@, pair.1@)),
                None => None,
            },
        }
    }
}

/// The page bound that stands for "no bound".
pub const UNBOUNDED: i32 = -1;

/// The host queried where none is configured.
pub open spec fn default_source() -> Seq<char> {
    "e926.net"@
}

/// The configuration a new handler starts with: five posts per page, five
/// pages, original quality, default order, no user, no filter, no credential.
pub open spec fn default_config() -> EHandlerView {
    EHandlerView {
        username: Seq::empty(),
        api_key: Seq::empty(),
        count: 5,
        pages: 5,
        random: false,
        tags: Seq::empty(),
        lower_quality: false,
        api_source: default_source(),
    }
}

/// The ordering token of the tag expression.
pub open spec fn order_token(random: bool) -> Seq<char> {
    if random {
        "order:random"@
    } else {
        Seq::empty()
    }
}

/// The favourites scope of the tag expression.
pub open spec fn fav_token(username: Seq<char>) -> Seq<char> {
    "fav:"@ + username
}

/// The parts of the tag expression, in order. Favourites mode always
/// scopes by the user; bulk mode does so where a user is configured and
/// leaves the part empty otherwise; tag search has no such part.
pub open spec fn tag_parts(cfg: EHandlerView, mode: Mode) -> Seq<Seq<char>> {
    match mode {
        Mode::Favourites => seq![fav_token(cfg.username), cfg.tags, order_token(cfg.random)],
        Mode::Tags => seq![cfg.tags, order_token(cfg.random)],
        Mode::Bulk => seq![
            if cfg.username.len() == 0 {
                Seq::empty()
            } else {
                fav_token(cfg.username)
            },
            cfg.tags,
            order_token(cfg.random),
        ],
    }
}

/// The page parameter of a request: bulk mode asks for page `page + 1`,
/// the other modes send none.
pub open spec fn page_parameter(mode: Mode, page: u32) -> Seq<char> {
    match mode {
        Mode::Bulk => "&page="@ + decimal((page + 1) as nat),
        _ => Seq::empty(),
    }
}

/// The address of the request for the page with index `page`:
/// `https://{host}/posts.json?tags={expression}&limit={count}`, where the
/// expression is the tag parts joined by single spaces, followed in bulk
/// mode by `&page={page + 1}`.
pub open spec fn target_of(cfg: EHandlerView, mode: Mode, page: u32) -> Seq<char> {
    "https://"@ + cfg.api_source + "/posts.json?tags="@ + join(tag_parts(cfg, mode), " "@)
        + "&limit="@ + signed_decimal(cfg.count as int) + page_parameter(mode, page)
}

/// The identity sent with a request: the user name and the credential
/// where a credential is configured, none otherwise.
pub open spec fn auth_of(cfg: EHandlerView) -> Option<(Seq<char>, Seq<char>)> {
    if cfg.api_key.len() == 0 {
        None
    } else {
        Some((cfg.username, cfg.api_key))
    }
}

/// The request for the page with index `page`.
pub open spec fn request_of(cfg: EHandlerView, mode: Mode, page: u32) -> RequestView {
    RequestView { target: target_of(cfg, mode, page), auth: auth_of(cfg) }
}

/// Whether the fetch loop of a bulk run is over before it asks for the page
/// with index `next`: the page bound is reached, or the index can grow no
/// further. A bound of `UNBOUNDED`, like any other negative one, is never
/// reached.
pub open spec fn fetch_over(pages: i32, next: u32) -> bool {
    (pages != UNBOUNDED && next as int == pages as int) || next == u32::MAX
}

impl View for EHandler {
    type V = EHandlerView;

    open spec fn view(&self) -> EHandlerView {
        EHandlerView {
            username: self.username@,
            api_key: self.api_key@,
            count: self.count,
            pages: self.pages,
            random: self.random,
            tags: self.tags@,
            lower_quality: self.lower_quality,
            api_source: self.api_source@,
        }
    }
}

impl Default for EHandler {
    fn default() -> (cfg: EHandler)
        ensures
            cfg@ == default_config(),
    {
        EHandler {
            username: String::new(),
            api_key: String::new(),
            count: 5,
            pages: 5,
            random: false,
            tags: String::new(),
            lower_quality: false,
            api_source: String::from_str("e926.net"),
        }
    }
}

impl EHandler {
    /// Takes the credential read from its store, if there was one. An
    /// absent or empty credential is refused and leaves the handler as it
    /// was; any other replaces the one configured.
    pub fn check_api_key(&mut self, key: Option<String>) -> (accepted: bool)
        ensures
            accepted <==> (key matches Some(k) && k@.len() > 0),
            accepted ==> final(self)@ == (EHandlerView { api_key: key->0@, ..old(self)@ }),
            !accepted ==> final(self)@ == old(self)@,
    {
        match key {
            Some(k) => {
                if !k.as_str().is_empty() {
                    self.api_key = k;
                    true
                } else {
                    false
                }
            },
            None => false,
        }
    }

    /// Forgets the credential; later requests go out unauthenticated.
    pub fn clear_api_key(&mut self)
        ensures
            final(self)@ == (EHandlerView { api_key: Seq::empty(), ..old(self)@ }),
    {
        if !self.api_key.as_str().is_empty() {
            self.api_key = String::new();
        }
        assert(self.api_key@ =~= Seq::<char>::empty());
    }

    /// Whether a credential is configured.
    pub fn has_api_key(&self) -> (has: bool)
        ensures
            has == (self@.api_key.len() > 0),
    {
        !self.api_key.as_str().is_empty()
    }

    /// Whether the fetch loop of a bulk run is over before the page with
    /// index `next`.
    pub fn bound_reached(&self, next: u32) -> (over: bool)
        ensures
            over == fetch_over(self@.pages, next),
    {
        (self.pages != UNBOUNDED && self.pages >= 0 && next == self.pages as u32) || next
            == u32::MAX
    }

    /// Builds the tag expression of a request.
    fn tag_expression(&self, mode: Mode) -> (expr: String)
        ensures
            expr@ == join(tag_parts(self@, mode), " "@),
    {
        let order: &str = if self.random {
            "order:random"
        } else {
            ""
        };
        proof {
            reveal_strlit("");
        }
        let mut expr: String = String::new();
        let ghost parts = tag_parts(self@, mode);
        match mode {
            Mode::Favourites => {
                expr.append("fav:");
                expr.append(self.username.as_str());
                expr.append(" ");
            },
            Mode::Tags => {},
            Mode::Bulk => {
                if !self.username.as_str().is_empty() {
                    expr.append("fav:");
                    expr.append(self.username.as_str());
                }
                expr.append(" ");
            },
        }
        expr.append(self.tags.as_str());
        expr.append(" ");
        expr.append(order);
        proof {
            if mode == Mode::Tags {
                assert(join(parts.drop_last(), " "@) == parts[0]);
            } else {
                let two = parts.drop_last();
                assert(join(two.drop_last(), " "@) == parts[0]);
                assert(join(two, " "@) == parts[0] + " "@ + parts[1]);
            }
        }
        expr
    }

    /// Builds the request for the page with index `page`.
    pub fn handle_request(&self, mode: Mode, page: u32) -> (request: Request)
        ensures
            request@ == request_of(self@, mode, page),
    {
        let mut target: String = String::from_str("https://");
        target.append(self.api_source.as_str());
        target.append("/posts.json?tags=");
        target.append(self.tag_expression(mode).as_str());
        target.append("&limit=");
        target.append(i32_to_string(self.count).as_str());
        match mode {
            Mode::Bulk => {
                target.append("&page=");
                target.append(u64_to_string(page as u64 + 1).as_str());
            },
            _ => {},
        }
        assert(target@ =~= target_of(self@, mode, page));
        let auth: Option<(String, String)> = if self.has_api_key() {
            Some((self.username.clone(), self.api_key.clone()))
        } else {
            None
        };
        Request { target, auth }
    }
    /// A copy of the configuration, for a run to keep while this one is
    /// edited further.
    pub fn snapshot(&self) -> (copy: EHandler)
        ensures
            copy@ == self@,
    {
        EHandler {
            username: self.username.clone(),
            api_key: self.api_key.clone(),
            count: self.count,
            pages: self.pages,
            random: self.random,
            tags: self.tags.clone(),
            lower_quality: self.lower_quality,
            api_source: self.api_source.clone(),
        }
    }

    /// Prepares the download of one page of the user's favourites.
    pub fn download_favourites(&self) -> (run: Orchestrator)
        ensures
            run@ == initial(self@, Mode::Favourites),
    {
        Orchestrator::new(self.snapshot(), Mode::Favourites)
    }

    /// Prepares the download of one page of the posts that match the tags.
    pub fn download_with_tags(&self) -> (run: Orchestrator)
        ensures
            run@ == initial(self@, Mode::Tags),
    {
        Orchestrator::new(self.snapshot(), Mode::Tags)
    }

    /// Prepares a bulk run: pages are fetched and kept until the page bound
    /// or an empty page, then downloaded in a second pass.
    pub fn get_bulk_data(&self) -> (run: Orchestrator)
        ensures
            run@ == initial(self@, Mode::Bulk),
    {
        Orchestrator::new(self.snapshot(), Mode::Bulk)
    }
}

} // verus!
