//! A client's session, as a state machine: the filter, the replays named by
//! identifier, the replays sent inline, one status line per replay, and the
//! final report. The caller performs each action and hands back what came
//! of it; each replay's conversation with the parser runs as a `ReplayJob`.

use vstd::prelude::*;
use crate::cache::{cached_match, hit_usable, hit_usable_spec};
use crate::placement_stats::StatsModel;
use crate::players::{
    distinct_names, entries_view, lemma_merged_entries_distinct, merge_entries, merged_entries,
    PlayerEntry,
};
use crate::replay_job::{
    action_view, entry_follows_requests, event_view, job_next, pending_action, JobAction,
    JobActionView, JobEvent, JobEventView, JobPhase, JobView, ReplayError, ReplayJob,
};
use crate::text::{
    count_value, lower_of, parse_count, parse_filter, parse_filter_spec, sanitize_string,
    sanitized, views,
};

verus! {

/// Where the session stands.
#[derive(Clone, Copy, Debug, PartialEq, Eq, Structural)]
pub enum SessionPhase {
    /// Waiting for the filter line.
    AwaitFilter,
    /// Waiting for the number of replays named by identifier.
    AwaitIdCount,
    /// Waiting for the number of replays sent inline.
    AwaitInlineCount,
    /// Waiting for the next replay's identifier or content key.
    AwaitItem,
    /// The replay's cache entry is to be looked up.
    LookupCache,
    /// The client is to be told that the cache cannot serve the replay.
    SendAck,
    /// The client is to be told that the cache serves the inline replay.
    SendHitAck,
    /// Waiting for the replay sent inline.
    AwaitPayload,
    /// The replay is to be downloaded.
    Download,
    /// A connection to the parser is to be opened.
    OpenParser,
    /// The conversation with the parser is under way.
    Parsing,
    /// The replay's cache entry is to be written.
    StoreCache,
    /// The replay's status line is to be sent.
    SendStatus,
    /// The report is to be sent.
    Report,
    /// The session ended normally.
    Closed,
    /// The session ended on a transport or protocol error.
    Aborted,
}

/// What came of the last action.
#[derive(Debug)]
pub enum SessionEvent {
    Received(String),
    ReceiveFailed,
    Sent,
    SendFailed,
    /// The cache entry, or none when it is absent or unreadable.
    CacheLoaded(Option<Vec<PlayerEntry>>),
    Downloaded(String),
    DownloadFailed,
    ParserOpened,
    ParserOpenFailed,
    Parser(JobEvent),
    Stored,
    StoreFailed,
    Reported,
    ReportFailed,
}

/// What the caller is to do next.
#[derive(Debug, PartialEq, Eq)]
pub enum SessionAction {
    /// Read a line from the client.
    Receive,
    /// Write the line to the client.
    Send(String),
    /// Read the cache entry under the key.
    LookupCache(String),
    /// Download the replay with this identifier.
    Download(String),
    /// Open a new connection to the parser.
    OpenParser,
    /// Act for the conversation with the parser.
    Parser(JobAction),
    /// Write `job_entry` to the cache under the key.
    StoreCache(String),
    /// Send the report made of `players`, then close.
    Report,
    /// Close the connection.
    Close,
}

/// The value of a `SessionEvent`.
pub enum SessionEventView {
    Received(Seq<char>),
    ReceiveFailed,
    Sent,
    SendFailed,
    CacheLoaded(Option<Seq<(Seq<char>, StatsModel)>>),
    Downloaded(Seq<char>),
    DownloadFailed,
    ParserOpened,
    ParserOpenFailed,
    Parser(JobEventView),
    Stored,
    StoreFailed,
    Reported,
    ReportFailed,
}

/// The value of a `SessionAction`.
pub enum SessionActionView {
    Receive,
    Send(Seq<char>),
    LookupCache(Seq<char>),
    Download(Seq<char>),
    OpenParser,
    Parser(JobActionView),
    StoreCache(Seq<char>),
    Report,
    Close,
}

/// The value of an event.
pub open spec fn session_event_view(e: SessionEvent) -> SessionEventView {
    match e {
        SessionEvent::Received(l) => SessionEventView::Received(l@),
        SessionEvent::ReceiveFailed => SessionEventView::ReceiveFailed,
        SessionEvent::Sent => SessionEventView::Sent,
        SessionEvent::SendFailed => SessionEventView::SendFailed,
        SessionEvent::CacheLoaded(c) => SessionEventView::CacheLoaded(
            match c {
                Some(v) => Some(entries_view(v@)),
                None => None,
            },
        ),
        SessionEvent::Downloaded(r) => SessionEventView::Downloaded(r@),
        SessionEvent::DownloadFailed => SessionEventView::DownloadFailed,
        SessionEvent::ParserOpened => SessionEventView::ParserOpened,
        SessionEvent::ParserOpenFailed => SessionEventView::ParserOpenFailed,
        SessionEvent::Parser(j) => SessionEventView::Parser(event_view(j)),
        SessionEvent::Stored => SessionEventView::Stored,
        SessionEvent::StoreFailed => SessionEventView::StoreFailed,
        SessionEvent::Reported => SessionEventView::Reported,
        SessionEvent::ReportFailed => SessionEventView::ReportFailed,
    }
}

/// The value of an action.
pub open spec fn session_action_view(a: SessionAction) -> SessionActionView {
    match a {
        SessionAction::Receive => SessionActionView::Receive,
        SessionAction::Send(l) => SessionActionView::Send(l@),
        SessionAction::LookupCache(k) => SessionActionView::LookupCache(k@),
        SessionAction::Download(k) => SessionActionView::Download(k@),
        SessionAction::OpenParser => SessionActionView::OpenParser,
        SessionAction::Parser(j) => SessionActionView::Parser(action_view(j)),
        SessionAction::StoreCache(k) => SessionActionView::StoreCache(k@),
        SessionAction::Report => SessionActionView::Report,
        SessionAction::Close => SessionActionView::Close,
    }
}

/// The value of a session.
pub struct SessionView {
    pub phase: SessionPhase,
    /// Whether the cache is in use.
    pub caching: bool,
    /// The client's lowercase name filter; empty for none.
    pub filter: Seq<Seq<char>>,
    /// The bundles gathered so far, by player.
    pub players: Seq<(Seq<char>, StatsModel)>,
    /// Whether the current replays are sent inline.
    pub inline: bool,
    pub item_count: nat,
    pub item_index: nat,
    /// The current replay's identifier or content key.
    pub key: Seq<char>,
    /// The current replay's cache entry, when the cache is in use.
    pub cached: Option<Seq<(Seq<char>, StatsModel)>>,
    /// The current replay's conversation with the parser.
    pub job: Option<JobView>,
    /// The status line waiting to be sent.
    pub status: Seq<char>,
}

/// The status line of a replay that was processed.
pub open spec fn success_line() -> Seq<char> {
    "success"@
}

/// The status line of a replay that could not be downloaded.
pub open spec fn download_error_line() -> Seq<char> {
    "error downloading replay"@
}

/// What the client is told of a replay whose cache entry cannot serve it.
pub open spec fn miss_line() -> Seq<char> {
    "false"@
}

/// What the client is told of an inline replay that the cache serves.
pub open spec fn hit_line() -> Seq<char> {
    "true"@
}

/// The session moves on to the next replay, to the inline replays, or to
/// the report.
pub open spec fn next_item(v: SessionView) -> SessionView {
    let i = v.item_index + 1;
    if i < v.item_count {
        SessionView { phase: SessionPhase::AwaitItem, item_index: i, job: None, ..v }
    } else if !v.inline {
        SessionView { phase: SessionPhase::AwaitInlineCount, item_index: i, job: None, ..v }
    } else {
        SessionView { phase: SessionPhase::Report, item_index: i, job: None, ..v }
    }
}

/// The replay's bundles are merged when its conversation succeeded, and its
/// status line is set.
pub open spec fn settle(v: SessionView, j: JobView) -> SessionView {
    match j.outcome {
        None => SessionView {
            phase: SessionPhase::SendStatus,
            players: merged_entries(v.players, j.entry, v.filter),
            status: success_line(),
            job: None,
            ..v
        },
        Some(e) => SessionView {
            phase: SessionPhase::SendStatus,
            status: e.message_spec(),
            job: None,
            ..v
        },
    }
}

/// The conversation is over: the cache entry is written first when needed.
pub open spec fn conclude(v: SessionView, j: JobView) -> SessionView {
    if j.caching && j.outcome.is_none() && j.requested.len() > 0 {
        SessionView { phase: SessionPhase::StoreCache, job: Some(j), ..v }
    } else {
        settle(v, j)
    }
}

/// The conversation that a replay starts.
pub open spec fn job_start(v: SessionView, replay: Seq<char>) -> JobView {
    JobView {
        phase: JobPhase::SendReplay,
        replay,
        filter: v.filter,
        caching: v.cached.is_some(),
        entry: match v.cached {
            Some(c) => c,
            None => Seq::empty(),
        },
        selected_len: 0,
        requested: Seq::empty(),
        num_games: 0,
        name_index: 0,
        games_read: 0,
        pending: Seq::empty(),
        any_game: false,
        outcome: None,
    }
}

/// The session after a count line: its replays, or the next stage when
/// there is none; a line that is no count ends the session.
pub open spec fn on_count(v: SessionView, line: Seq<char>, inline: bool) -> SessionView {
    match count_value(sanitized(line)) {
        Some(n) => {
            let v2 = SessionView { inline, item_count: n as nat, item_index: 0, ..v };
            if n > 0 {
                SessionView { phase: SessionPhase::AwaitItem, ..v2 }
            } else if !inline {
                SessionView { phase: SessionPhase::AwaitInlineCount, ..v2 }
            } else {
                SessionView { phase: SessionPhase::Report, ..v2 }
            }
        },
        None => SessionView { phase: SessionPhase::Aborted, ..v },
    }
}

/// The session after the cache lookup: a usable entry serves the replay,
/// another one becomes the entry to complete.
pub open spec fn on_cache(v: SessionView, c: Option<Seq<(Seq<char>, StatsModel)>>) -> SessionView {
    let after_miss = if v.inline {
        SessionPhase::SendAck
    } else {
        SessionPhase::Download
    };
    match c {
        Some(e) => if hit_usable_spec(e, v.filter) {
            SessionView {
                phase: if v.inline {
                    SessionPhase::SendHitAck
                } else {
                    SessionPhase::SendStatus
                },
                players: merged_entries(v.players, e, v.filter),
                status: success_line(),
                ..v
            }
        } else {
            SessionView { phase: after_miss, cached: Some(e), ..v }
        },
        None => SessionView { phase: after_miss, cached: Some(Seq::empty()), ..v },
    }
}

/// The session after event `e`. An event that does not answer the pending
/// action leaves it as it is.
pub open spec fn session_next(v: SessionView, e: SessionEventView) -> SessionView {
    match (v.phase, e) {
        (SessionPhase::AwaitFilter, SessionEventView::Received(l)) => SessionView {
            phase: SessionPhase::AwaitIdCount,
            filter: parse_filter_spec(l),
            ..v
        },
        (SessionPhase::AwaitIdCount, SessionEventView::Received(l)) => on_count(v, l, false),
        (SessionPhase::AwaitInlineCount, SessionEventView::Received(l)) => on_count(v, l, true),
        (SessionPhase::AwaitItem, SessionEventView::Received(l)) => {
            let v2 = SessionView { key: sanitized(l), cached: None, ..v };
            if v.caching {
                SessionView { phase: SessionPhase::LookupCache, ..v2 }
            } else if v.inline {
                SessionView { phase: SessionPhase::SendAck, ..v2 }
            } else {
                SessionView { phase: SessionPhase::Download, ..v2 }
            }
        },
        (SessionPhase::LookupCache, SessionEventView::CacheLoaded(c)) => on_cache(v, c),
        (SessionPhase::SendHitAck, SessionEventView::Sent) => SessionView {
            phase: SessionPhase::SendStatus,
            ..v
        },
        (SessionPhase::SendAck, SessionEventView::Sent) => SessionView {
            phase: SessionPhase::AwaitPayload,
            ..v
        },
        (SessionPhase::AwaitPayload, SessionEventView::Received(l)) => SessionView {
            phase: SessionPhase::OpenParser,
            job: Some(job_start(v, l)),
            cached: None,
            ..v
        },
        (SessionPhase::Download, SessionEventView::Downloaded(r)) => SessionView {
            phase: SessionPhase::OpenParser,
            job: Some(job_start(v, r)),
            cached: None,
            ..v
        },
        (SessionPhase::Download, SessionEventView::DownloadFailed) => SessionView {
            phase: SessionPhase::SendStatus,
            status: download_error_line(),
            ..v
        },
        (SessionPhase::OpenParser, SessionEventView::ParserOpened) => SessionView {
            phase: SessionPhase::Parsing,
            ..v
        },
        (SessionPhase::OpenParser, SessionEventView::ParserOpenFailed) => SessionView {
            phase: SessionPhase::SendStatus,
            status: ReplayError::Connection.message_spec(),
            ..v
        },
        (SessionPhase::Parsing, SessionEventView::Parser(je)) => match v.job {
            Some(j) => {
                let j2 = job_next(j, je);
                if j2.phase == JobPhase::Done {
                    conclude(v, j2)
                } else {
                    SessionView { job: Some(j2), ..v }
                }
            },
            None => v,
        },
        (SessionPhase::StoreCache, SessionEventView::Stored) => match v.job {
            Some(j) => settle(v, j),
            None => v,
        },
        // A failed write costs only the cache entry: the replay's statistics
        // still count.
        (SessionPhase::StoreCache, SessionEventView::StoreFailed) => match v.job {
            Some(j) => settle(v, j),
            None => v,
        },
        (SessionPhase::SendStatus, SessionEventView::Sent) => next_item(v),
        (SessionPhase::Report, SessionEventView::Reported) => SessionView {
            phase: SessionPhase::Closed,
            ..v
        },
        (SessionPhase::Report, SessionEventView::ReportFailed) => SessionView {
            phase: SessionPhase::Aborted,
            ..v
        },
        (
            SessionPhase::AwaitFilter
            | SessionPhase::AwaitIdCount
            | SessionPhase::AwaitInlineCount
            | SessionPhase::AwaitItem
            | SessionPhase::AwaitPayload,
            SessionEventView::ReceiveFailed,
        ) => SessionView { phase: SessionPhase::Aborted, ..v },
        (
            SessionPhase::SendAck | SessionPhase::SendHitAck | SessionPhase::SendStatus,
            SessionEventView::SendFailed,
        ) => SessionView { phase: SessionPhase::Aborted, ..v },
        _ => v,
    }
}

/// The action that a session in state `v` asks for.
pub open spec fn session_pending(v: SessionView) -> SessionActionView {
    match v.phase {
        SessionPhase::LookupCache => SessionActionView::LookupCache(v.key),
        SessionPhase::SendAck => SessionActionView::Send(miss_line()),
        SessionPhase::SendHitAck => SessionActionView::Send(hit_line()),
        SessionPhase::Download => SessionActionView::Download(v.key),
        SessionPhase::OpenParser => SessionActionView::OpenParser,
        SessionPhase::Parsing => match v.job {
            Some(j) => SessionActionView::Parser(pending_action(j)),
            None => SessionActionView::Close,
        },
        SessionPhase::StoreCache => SessionActionView::StoreCache(v.key),
        SessionPhase::SendStatus => SessionActionView::Send(v.status),
        SessionPhase::Report => SessionActionView::Report,
        SessionPhase::Closed | SessionPhase::Aborted => SessionActionView::Close,
        _ => SessionActionView::Receive,
    }
}

/// A client's session.
pub struct ClientSession {
    phase: SessionPhase,
    caching: bool,
    filter: Vec<String>,
    players: Vec<PlayerEntry>,
    inline: bool,
    item_count: usize,
    item_index: usize,
    key: String,
    cached: Option<Vec<PlayerEntry>>,
    job: Option<ReplayJob>,
    status: String,
}

/// The value of an optional cache entry.
pub open spec fn cached_view(c: Option<Vec<PlayerEntry>>) -> Option<Seq<(Seq<char>, StatsModel)>> {
    match c {
        Some(v) => Some(entries_view(v@)),
        None => None,
    }
}

impl View for ClientSession {
    type V = SessionView;

    closed spec fn view(&self) -> SessionView {
        SessionView {
            phase: self.phase,
            caching: self.caching,
            filter: views(self.filter@),
            players: entries_view(self.players@),
            inline: self.inline,
            item_count: self.item_count as nat,
            item_index: self.item_index as nat,
            key: self.key@,
            cached: cached_view(self.cached),
            job: match self.job {
                Some(j) => Some(j@),
                None => None,
            },
            status: self.status@,
        }
    }
}

impl ClientSession {
    /// The session is in a consistent state.
    pub closed spec fn wf(&self) -> bool {
        &&& self.item_index <= self.item_count
        &&& distinct_names(entries_view(self.players@))
        &&& (self.phase == SessionPhase::Parsing || self.phase == SessionPhase::StoreCache
            || self.phase == SessionPhase::OpenParser) ==> self.job.is_some()
        &&& (self.phase == SessionPhase::Parsing || self.phase == SessionPhase::OpenParser)
            ==> self.job.unwrap()@.phase != JobPhase::Done
        &&& match self.job {
            Some(j) => j.wf(),
            None => true,
        }
        &&& (self.phase == SessionPhase::AwaitItem || self.phase == SessionPhase::LookupCache
            || self.phase == SessionPhase::SendAck || self.phase == SessionPhase::SendHitAck
            || self.phase == SessionPhase::AwaitPayload
            || self.phase == SessionPhase::Download || self.phase == SessionPhase::OpenParser
            || self.phase == SessionPhase::Parsing || self.phase == SessionPhase::StoreCache
            || self.phase == SessionPhase::SendStatus) ==> self.item_index < self.item_count
    }

    /// A session waiting for its filter line.
    pub fn new(caching: bool) -> (r: Self)
        ensures
            r.wf(),
            r@ == (SessionView {
                phase: SessionPhase::AwaitFilter,
                caching,
                filter: Seq::empty(),
                players: Seq::empty(),
                inline: false,
                item_count: 0,
                item_index: 0,
                key: Seq::empty(),
                cached: None,
                job: None,
                status: Seq::empty(),
            }),
    {
        let r = ClientSession {
            phase: SessionPhase::AwaitFilter,
            caching,
            filter: Vec::new(),
            players: Vec::new(),
            inline: false,
            item_count: 0,
            item_index: 0,
            key: String::new(),
            cached: None,
            job: None,
            status: String::new(),
        };
        assert(r@.players =~= Seq::<(Seq<char>, StatsModel)>::empty());
        assert(r@.filter =~= Seq::<Seq<char>>::empty());
        r
    }

    /// Where the session stands.
    pub fn phase(&self) -> (r: SessionPhase)
        ensures
            r == self@.phase,
    {
        self.phase
    }

    /// The bundles gathered so far, by player.
    pub fn players(&self) -> (r: &Vec<PlayerEntry>)
        ensures
            entries_view(r@) == self@.players,
    {
        &self.players
    }

    /// The bundles gathered, giving the session up.
    pub fn into_players(self) -> (r: Vec<PlayerEntry>)
        ensures
            entries_view(r@) == self@.players,
    {
        self.players
    }

    /// The current replay's bundles, to be written to the cache.
    pub fn job_entry(&self) -> (r: Option<&Vec<PlayerEntry>>)
        ensures
            match r {
                Some(e) => self@.job.is_some() && entries_view(e@) == self@.job.unwrap().entry,
                None => self@.job.is_none(),
            },
    {
        match &self.job {
            Some(j) => Some(j.entry()),
            None => None,
        }
    }

    /// The action that the session asks for.
    pub fn pending(&self) -> (r: SessionAction)
        requires
            self.wf(),
        ensures
            session_action_view(r) == session_pending(self@),
    {
        match self.phase {
            SessionPhase::LookupCache => SessionAction::LookupCache(self.key.clone()),
            SessionPhase::SendAck => SessionAction::Send("false".to_owned()),
            SessionPhase::SendHitAck => SessionAction::Send("true".to_owned()),
            SessionPhase::Download => SessionAction::Download(self.key.clone()),
            SessionPhase::OpenParser => SessionAction::OpenParser,
            SessionPhase::Parsing => match &self.job {
                Some(j) => SessionAction::Parser(j.pending()),
                None => SessionAction::Close,
            },
            SessionPhase::StoreCache => SessionAction::StoreCache(self.key.clone()),
            SessionPhase::SendStatus => SessionAction::Send(self.status.clone()),
            SessionPhase::Report => SessionAction::Report,
            SessionPhase::Closed | SessionPhase::Aborted => SessionAction::Close,
            _ => SessionAction::Receive,
        }
    }

    fn count_line(&mut self, line: String, inline: bool)
        requires
            old(self).wf(),
        ensures
            final(self).wf(),
            final(self)@ == on_count(old(self)@, line@, inline),
    {
        let clean = sanitize_string(line.as_str());
        match parse_count(clean.as_str()) {
            Some(n) => {
                self.inline = inline;
                self.item_count = n;
                self.item_index = 0;
                if n > 0 {
                    self.phase = SessionPhase::AwaitItem;
                } else if !inline {
                    self.phase = SessionPhase::AwaitInlineCount;
                } else {
                    self.phase = SessionPhase::Report;
                }
            },
            None => {
                self.phase = SessionPhase::Aborted;
            },
        }
    }

    fn cache_loaded(&mut self, c: Option<Vec<PlayerEntry>>)
        requires
            old(self).wf(),
            old(self).phase == SessionPhase::LookupCache,
        ensures
            final(self).wf(),
            final(self)@ == on_cache(old(self)@, cached_view(c)),
    {
        let after_miss = if self.inline {
            SessionPhase::SendAck
        } else {
            SessionPhase::Download
        };
        match c {
            Some(e) => {
                if hit_usable(&e, &self.filter) {
                    proof {
                    lemma_merged_entries_distinct(
                        entries_view(self.players@),
                        entries_view(e@),
                        views(self.filter@),
                    );
                }
                merge_entries(&mut self.players, e, &self.filter);
                    self.status = "success".to_owned();
                    self.phase = if self.inline {
                        SessionPhase::SendHitAck
                    } else {
                        SessionPhase::SendStatus
                    };
                } else {
                    self.cached = Some(e);
                    self.phase = after_miss;
                }
            },
            None => {
                let empty: Vec<PlayerEntry> = Vec::new();
                assert(entries_view(empty@) =~= Seq::empty());
                self.cached = Some(empty);
                self.phase = after_miss;
            },
        }
    }

    fn start_job(&mut self, replay: String)
        requires
            old(self).wf(),
            old(self).phase == SessionPhase::AwaitPayload || old(self).phase
                == SessionPhase::Download,
        ensures
            final(self).wf(),
            final(self)@ == (SessionView {
                phase: SessionPhase::OpenParser,
                job: Some(job_start(old(self)@, replay@)),
                cached: None,
                ..old(self)@
            }),
    {
        let cached = self.cached.take();
        let job = ReplayJob::new(replay, self.filter.clone(), cached);
        self.job = Some(job);
        self.phase = SessionPhase::OpenParser;
    }

    fn settle_job(&mut self, job: ReplayJob)
        requires
            old(self).wf(),
            old(self).item_index < old(self).item_count,
            job.wf(),
        ensures
            final(self).wf(),
            final(self)@ == settle(old(self)@, job@),
    {
        match job.outcome() {
            None => {
                let entry = job.into_entry();
                proof {
                    lemma_merged_entries_distinct(
                        entries_view(self.players@),
                        entries_view(entry@),
                        views(self.filter@),
                    );
                }
                merge_entries(&mut self.players, entry, &self.filter);
                self.status = "success".to_owned();
            },
            Some(e) => {
                self.status = e.message();
            },
        }
        self.job = None;
        self.phase = SessionPhase::SendStatus;
    }

    fn conclude_job(&mut self, job: ReplayJob)
        requires
            old(self).wf(),
            old(self).item_index < old(self).item_count,
            job.wf(),
            job@.phase == JobPhase::Done,
        ensures
            final(self).wf(),
            final(self)@ == conclude(old(self)@, job@),
    {
        if job.stores_cache() {
            self.job = Some(job);
            self.phase = SessionPhase::StoreCache;
        } else {
            self.settle_job(job);
        }
    }

    fn advance(&mut self)
        requires
            old(self).wf(),
            old(self).phase == SessionPhase::SendStatus,
        ensures
            final(self).wf(),
            final(self)@ == next_item(old(self)@),
    {
        let i = self.item_index + 1;
        self.item_index = i;
        self.job = None;
        if i < self.item_count {
            self.phase = SessionPhase::AwaitItem;
        } else if !self.inline {
            self.phase = SessionPhase::AwaitInlineCount;
        } else {
            self.phase = SessionPhase::Report;
        }
    }

    fn on_line(&mut self, line: String)
        requires
            old(self).wf(),
        ensures
            final(self).wf(),
            final(self)@ == session_next(old(self)@, SessionEventView::Received(line@)),
    {
        match self.phase {
            SessionPhase::AwaitFilter => {
                self.filter = parse_filter(line.as_str());
                self.phase = SessionPhase::AwaitIdCount;
            },
            SessionPhase::AwaitIdCount => self.count_line(line, false),
            SessionPhase::AwaitInlineCount => self.count_line(line, true),
            SessionPhase::AwaitItem => {
                self.key = sanitize_string(line.as_str());
                self.cached = None;
                if self.caching {
                    self.phase = SessionPhase::LookupCache;
                } else if self.inline {
                    self.phase = SessionPhase::SendAck;
                } else {
                    self.phase = SessionPhase::Download;
                }
            },
            SessionPhase::AwaitPayload => self.start_job(line),
            _ => {},
        }
    }

    fn on_parser(&mut self, je: JobEvent)
        requires
            old(self).wf(),
            old(self).phase == SessionPhase::Parsing,
        ensures
            final(self).wf(),
            final(self)@ == session_next(old(self)@, SessionEventView::Parser(event_view(je))),
    {
        match self.job.take() {
            Some(j) => {
                let mut j = j;
                let _ = j.step(je);
                if j.phase() == JobPhase::Done {
                    self.phase = SessionPhase::SendStatus;
                    self.conclude_job(j);
                } else {
                    self.job = Some(j);
                }
            },
            None => {},
        }
    }

    /// Advances the session by what came of the last action, and returns
    /// the next action.
    pub fn step(&mut self, event: SessionEvent) -> (r: SessionAction)
        requires
            old(self).wf(),
        ensures
            final(self).wf(),
            final(self)@ == session_next(old(self)@, session_event_view(event)),
            session_action_view(r) == session_pending(final(self)@),
    {
        match event {
            SessionEvent::Received(line) => self.on_line(line),
            SessionEvent::CacheLoaded(c) => {
                if self.phase == SessionPhase::LookupCache {
                    self.cache_loaded(c);
                }
            },
            SessionEvent::Sent => {
                if self.phase == SessionPhase::SendHitAck {
                    self.phase = SessionPhase::SendStatus;
                } else if self.phase == SessionPhase::SendAck {
                    self.phase = SessionPhase::AwaitPayload;
                } else if self.phase == SessionPhase::SendStatus {
                    self.advance();
                }
            },
            SessionEvent::Downloaded(replay) => {
                if self.phase == SessionPhase::Download {
                    self.start_job(replay);
                }
            },
            SessionEvent::DownloadFailed => {
                if self.phase == SessionPhase::Download {
                    self.status = "error downloading replay".to_owned();
                    self.phase = SessionPhase::SendStatus;
                }
            },
            SessionEvent::ParserOpened => {
                if self.phase == SessionPhase::OpenParser {
                    self.phase = SessionPhase::Parsing;
                }
            },
            SessionEvent::ParserOpenFailed => {
                if self.phase == SessionPhase::OpenParser {
                    self.status = ReplayError::Connection.message();
                    self.phase = SessionPhase::SendStatus;
                }
            },
            SessionEvent::Parser(je) => {
                if self.phase == SessionPhase::Parsing {
                    self.on_parser(je);
                }
            },
            SessionEvent::Stored | SessionEvent::StoreFailed => {
                if self.phase == SessionPhase::StoreCache {
                    match self.job.take() {
                        Some(j) => {
                            self.phase = SessionPhase::SendStatus;
                            self.settle_job(j);
                        },
                        None => {},
                    }
                }
            },
            SessionEvent::Reported => {
                if self.phase == SessionPhase::Report {
                    self.phase = SessionPhase::Closed;
                }
            },
            SessionEvent::ReportFailed => {
                if self.phase == SessionPhase::Report {
                    self.phase = SessionPhase::Aborted;
                }
            },
            SessionEvent::ReceiveFailed => {
                if self.phase == SessionPhase::AwaitFilter || self.phase
                    == SessionPhase::AwaitIdCount || self.phase == SessionPhase::AwaitInlineCount
                    || self.phase == SessionPhase::AwaitItem || self.phase
                    == SessionPhase::AwaitPayload {
                    self.phase = SessionPhase::Aborted;
                }
            },
            SessionEvent::SendFailed => {
                if self.phase == SessionPhase::SendAck || self.phase == SessionPhase::SendHitAck
                    || self.phase == SessionPhase::SendStatus {
                    self.phase = SessionPhase::Aborted;
                }
            },
        }
        self.pending()
    }
}

/// Caching is idempotent. A replay's processing writes its entry to the
/// cache and merges that entry's bundles. A later session with the same
/// filter and the same bundles so far, served from that entry, ends with the
/// same bundles, and goes on to its acknowledgement (inline replays) or its
/// success line without opening a parser connection.
pub proof fn lemma_idempotent_caching(first: SessionView, j: JobView, second: SessionView)
    requires
        first.phase == SessionPhase::StoreCache,
        first.job == Some(j),
        j.outcome.is_none(),
        second.phase == SessionPhase::LookupCache,
        second.filter == first.filter,
        second.players == first.players,
        hit_usable_spec(j.entry, second.filter),
    ensures
        session_next(second, SessionEventView::CacheLoaded(Some(j.entry))).players
            == session_next(first, SessionEventView::Stored).players,
        session_next(first, SessionEventView::Stored).players == merged_entries(
            first.players,
            j.entry,
            first.filter,
        ),
        session_next(second, SessionEventView::CacheLoaded(Some(j.entry))).phase == if second.inline {
            SessionPhase::SendHitAck
        } else {
            SessionPhase::SendStatus
        },
        session_next(second, SessionEventView::CacheLoaded(Some(j.entry))).status == success_line(),
        session_next(second, SessionEventView::CacheLoaded(Some(j.entry))).job == second.job,
{
}

/// A replay whose conversation fails adds no player: its error becomes its
/// status line, after which the session goes on with the next replay.
pub proof fn lemma_failed_replay_merges_nothing(v: SessionView, j: JobView, je: JobEventView)
    requires
        v.phase == SessionPhase::Parsing,
        v.job == Some(j),
        job_next(j, je).phase == JobPhase::Done,
        job_next(j, je).outcome.is_some(),
    ensures
        session_next(v, SessionEventView::Parser(je)).players == v.players,
        session_next(v, SessionEventView::Parser(je)).phase == SessionPhase::SendStatus,
        session_next(v, SessionEventView::Parser(je)).status == job_next(
            j,
            je,
        ).outcome.unwrap().message_spec(),
        next_item(session_next(v, SessionEventView::Parser(je))).players == v.players,
{
}

/// A replay processed from a cache miss stores an entry that its next lookup
/// can use: with no filter, when the parser was asked for two names; with a
/// filter, when every name of the filter is the lowercase form of a name
/// asked.
pub proof fn lemma_stored_entry_usable(j: JobView)
    requires
        entry_follows_requests(j, Seq::empty()),
        j.phase == JobPhase::Done,
        j.outcome.is_none(),
        j.filter.len() == 0 ==> j.requested.len() == 2,
        forall|i: int|
            0 <= i < j.filter.len() ==> exists|k: int|
                0 <= k < j.requested.len() && lower_of(j.requested[k]) == #[trigger] j.filter[i],
    ensures
        hit_usable_spec(j.entry, j.filter),
{
    let c = Seq::<(Seq<char>, StatsModel)>::empty();
    assert forall|i: int| 0 <= i < j.filter.len() implies cached_match(
        j.entry,
        #[trigger] j.filter[i],
    ) by {
        let k = choose|k: int|
            0 <= k < j.requested.len() && lower_of(j.requested[k]) == j.filter[i];
        assert(j.entry[c.len() + k].0 == j.requested[k]);
        assert(lower_of(j.entry[k].0) == j.filter[i]);
    }
}

} // verus!
