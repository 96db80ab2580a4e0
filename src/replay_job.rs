//! The conversation with the replay parser about one replay, as a state
//! machine. The caller performs each action that the machine asks for and
//! hands back what came of it; the machine decides everything else.

use vstd::prelude::*;
use crate::cache::{missing_names, names_to_compute};
use crate::placement_stats::{absorb_model, zero_model, CumulativePlacementStats, StatsModel};
use crate::players::{entries_view, entry_names, PlayerEntry};
use crate::text::{
    count_value, flag_value, parse_count, parse_flag, parse_names, parse_names_spec,
    sanitize_string, sanitized, views,
};

verus! {

/// Why a replay could not be turned into statistics.
#[derive(Clone, Copy, Debug, PartialEq, Eq, Structural)]
pub enum ReplayError {
    /// The parser does not support the replay's version.
    Unsupported,
    /// The parser's answer was not what the protocol asks for.
    Unparsable,
    /// A game's placements could not be decoded or analysed.
    Unmunchable,
    /// Every game of the replay was corrupt.
    Corrupt,
    /// The connection to the parser failed.
    Connection,
}

impl ReplayError {
    pub open spec fn message_spec(&self) -> Seq<char> {
        match self {
            ReplayError::Unsupported => "The replay's version is unsupported."@,
            ReplayError::Unparsable => "The replay was unable to be identified as a valid replay."@,
            ReplayError::Unmunchable => "The replay's data was unable to be processed into stats."@,
            ReplayError::Corrupt => "The replay is corrupt, no data was able to be processed."@,
            ReplayError::Connection => "A connection error occurred with the replay parser."@,
        }
    }

    /// The status line that reports the error to the client.
    pub fn message(&self) -> (r: String)
        ensures
            r@ == self.message_spec(),
    {
        match self {
            ReplayError::Unsupported => "The replay's version is unsupported.".to_owned(),
            ReplayError::Unparsable => "The replay was unable to be identified as a valid replay.".to_owned(),
            ReplayError::Unmunchable => "The replay's data was unable to be processed into stats.".to_owned(),
            ReplayError::Corrupt => "The replay is corrupt, no data was able to be processed.".to_owned(),
            ReplayError::Connection => "A connection error occurred with the replay parser.".to_owned(),
        }
    }
}

/// Where the conversation stands.
#[derive(Clone, Copy, Debug, PartialEq, Eq, Structural)]
pub enum JobPhase {
    /// The replay is to be sent.
    SendReplay,
    /// Waiting for the line that says whether the version is supported.
    AwaitSupported,
    /// Waiting for the players' names.
    AwaitNames,
    /// Waiting for the number of games.
    AwaitGameCount,
    /// The number of names to be asked for is to be sent.
    SendCount,
    /// The next name is to be sent.
    SendName,
    /// Waiting for the next game of the current name.
    ReadGames,
    /// A game is to be decoded and its analysis started.
    Analyze,
    /// The analyses of the current name are to be collected.
    Collect,
    /// The conversation is over.
    Done,
}

/// What came of the last action.
#[derive(Debug)]
pub enum JobEvent {
    Sent,
    SendFailed,
    Received(String),
    ReceiveFailed,
    /// The game decoded and its analysis started.
    Started,
    /// The game did not decode.
    DecodeFailed,
    /// The bundles of the current name's games, in any order.
    Collected(Vec<CumulativePlacementStats>),
    CollectFailed,
}

/// What the caller is to do next.
#[derive(Debug, PartialEq, Eq)]
pub enum JobAction {
    /// Write the line to the parser.
    Send(String),
    /// Write the count, in decimal, as a line to the parser.
    SendCount(usize),
    /// Read a line from the parser.
    Receive,
    /// Decode the line as a game's placements and start its analysis.
    Analyze(String),
    /// Wait for the analyses started since the last name was sent.
    Collect,
    /// Nothing: the conversation is over.
    Finish,
}

/// The value of a `JobEvent`.
pub enum JobEventView {
    Sent,
    SendFailed,
    Received(Seq<char>),
    ReceiveFailed,
    Started,
    DecodeFailed,
    Collected(Seq<StatsModel>),
    CollectFailed,
}

/// The value of a `JobAction`.
pub enum JobActionView {
    Send(Seq<char>),
    SendCount(usize),
    Receive,
    Analyze(Seq<char>),
    Collect,
    Finish,
}

/// The value of an event.
pub open spec fn event_view(e: JobEvent) -> JobEventView {
    match e {
        JobEvent::Sent => JobEventView::Sent,
        JobEvent::SendFailed => JobEventView::SendFailed,
        JobEvent::Received(l) => JobEventView::Received(l@),
        JobEvent::ReceiveFailed => JobEventView::ReceiveFailed,
        JobEvent::Started => JobEventView::Started,
        JobEvent::DecodeFailed => JobEventView::DecodeFailed,
        JobEvent::Collected(bs) => JobEventView::Collected(bs@.map_values(|b: CumulativePlacementStats| b@)),
        JobEvent::CollectFailed => JobEventView::CollectFailed,
    }
}

/// The value of an action.
pub open spec fn action_view(a: JobAction) -> JobActionView {
    match a {
        JobAction::Send(l) => JobActionView::Send(l@),
        JobAction::SendCount(n) => JobActionView::SendCount(n),
        JobAction::Receive => JobActionView::Receive,
        JobAction::Analyze(l) => JobActionView::Analyze(l@),
        JobAction::Collect => JobActionView::Collect,
        JobAction::Finish => JobActionView::Finish,
    }
}

/// The value of a conversation.
pub struct JobView {
    pub phase: JobPhase,
    /// The replay, as received.
    pub replay: Seq<char>,
    /// The client's lowercase name filter; empty for none.
    pub filter: Seq<Seq<char>>,
    /// Whether the cache is in use.
    pub caching: bool,
    /// The replay's bundles: the cached ones, then those computed here.
    pub entry: Seq<(Seq<char>, StatsModel)>,
    /// How many of the replay's players the filter let through.
    pub selected_len: nat,
    /// The names asked of the parser.
    pub requested: Seq<Seq<char>>,
    pub num_games: nat,
    /// Position in `requested` of the current name.
    pub name_index: nat,
    /// Games of the current name read so far.
    pub games_read: nat,
    /// The game line waiting to be analysed.
    pub pending: Seq<char>,
    /// Some game line was not marked corrupt.
    pub any_game: bool,
    /// Once done: the error, if any.
    pub outcome: Option<ReplayError>,
}

/// The bundles merged, the last one first.
pub open spec fn absorb_rest(acc: StatsModel, rest: Seq<StatsModel>) -> StatsModel
    decreases rest.len(),
{
    if rest.len() == 0 {
        acc
    } else {
        absorb_rest(absorb_model(acc, rest.last()), rest.drop_last())
    }
}

/// The merge of all the bundles.
pub open spec fn absorb_all(bs: Seq<StatsModel>) -> StatsModel {
    absorb_rest(zero_model(), bs)
}

/// The conversation ended with an error.
pub open spec fn failed(v: JobView, e: ReplayError) -> JobView {
    JobView { phase: JobPhase::Done, outcome: Some(e), ..v }
}

/// The replay is corrupt: names were asked of the parser and none of their
/// game lines held data, or no player was selected at all.
pub open spec fn all_corrupt(v: JobView) -> bool {
    if v.requested.len() > 0 {
        !v.any_game
    } else {
        v.selected_len == 0
    }
}

/// The conversation ended after the last name.
pub open spec fn finished(v: JobView) -> JobView {
    JobView {
        phase: JobPhase::Done,
        outcome: if all_corrupt(v) {
            Some(ReplayError::Corrupt)
        } else {
            None
        },
        ..v
    }
}

/// After a game: the next game, or collecting when it was the last.
pub open spec fn after_game(v: JobView) -> JobPhase {
    if v.games_read < v.num_games {
        JobPhase::ReadGames
    } else {
        JobPhase::Collect
    }
}

/// The action that a conversation in state `v` asks for.
pub open spec fn pending_action(v: JobView) -> JobActionView {
    match v.phase {
        JobPhase::SendReplay => JobActionView::Send(sanitized(v.replay)),
        JobPhase::SendCount => JobActionView::SendCount(v.requested.len() as usize),
        JobPhase::SendName => JobActionView::Send(v.requested[v.name_index as int]),
        JobPhase::Analyze => JobActionView::Analyze(v.pending),
        JobPhase::Collect => JobActionView::Collect,
        JobPhase::Done => JobActionView::Finish,
        _ => JobActionView::Receive,
    }
}

/// The conversation after event `e`. An event that does not answer the
/// pending action leaves it as it is.
pub open spec fn job_next(v: JobView, e: JobEventView) -> JobView {
    match e {
        JobEventView::Sent => match v.phase {
            JobPhase::SendReplay => JobView { phase: JobPhase::AwaitSupported, ..v },
            JobPhase::SendCount => if v.requested.len() == 0 {
                finished(v)
            } else {
                JobView { phase: JobPhase::SendName, name_index: 0, ..v }
            },
            JobPhase::SendName => JobView {
                phase: if v.num_games > 0 {
                    JobPhase::ReadGames
                } else {
                    JobPhase::Collect
                },
                games_read: 0,
                ..v
            },
            _ => v,
        },
        JobEventView::SendFailed => match v.phase {
            JobPhase::SendReplay | JobPhase::SendCount | JobPhase::SendName => failed(
                v,
                ReplayError::Connection,
            ),
            _ => v,
        },
        JobEventView::Received(line) => match v.phase {
            JobPhase::AwaitSupported => match flag_value(sanitized(line)) {
                Some(true) => JobView { phase: JobPhase::AwaitNames, ..v },
                Some(false) => failed(v, ReplayError::Unsupported),
                None => failed(v, ReplayError::Unparsable),
            },
            JobPhase::AwaitNames => {
                let sel = parse_names_spec(line, v.filter);
                JobView {
                    phase: JobPhase::AwaitGameCount,
                    selected_len: sel.len(),
                    requested: if v.caching {
                        missing_names(sel, v.entry)
                    } else {
                        sel
                    },
                    ..v
                }
            },
            JobPhase::AwaitGameCount => match count_value(sanitized(line)) {
                Some(n) => JobView {
                    phase: JobPhase::SendCount,
                    num_games: n as nat,
                    games_read: 0,
                    ..v
                },
                None => failed(v, ReplayError::Unparsable),
            },
            JobPhase::ReadGames => {
                let v2 = JobView { games_read: v.games_read + 1, ..v };
                if sanitized(line) == "CORRUPT"@ {
                    JobView { phase: after_game(v2), ..v2 }
                } else {
                    JobView {
                        phase: JobPhase::Analyze,
                        pending: line,
                        any_game: true,
                        ..v2
                    }
                }
            },
            _ => v,
        },
        JobEventView::ReceiveFailed => match v.phase {
            JobPhase::AwaitSupported | JobPhase::AwaitNames | JobPhase::AwaitGameCount
            | JobPhase::ReadGames => failed(v, ReplayError::Unparsable),
            _ => v,
        },
        JobEventView::Started => match v.phase {
            JobPhase::Analyze => JobView { phase: after_game(v), ..v },
            _ => v,
        },
        JobEventView::DecodeFailed => match v.phase {
            JobPhase::Analyze => failed(v, ReplayError::Unmunchable),
            _ => v,
        },
        JobEventView::Collected(bs) => match v.phase {
            JobPhase::Collect => {
                let v2 = JobView {
                    entry: v.entry.push((v.requested[v.name_index as int], absorb_all(bs))),
                    name_index: v.name_index + 1,
                    ..v
                };
                if v2.name_index < v2.requested.len() {
                    JobView { phase: JobPhase::SendName, ..v2 }
                } else {
                    finished(v2)
                }
            },
            _ => v,
        },
        JobEventView::CollectFailed => match v.phase {
            JobPhase::Collect => failed(v, ReplayError::Unmunchable),
            _ => v,
        },
    }
}

/// The conversation with the parser about one replay.
pub struct ReplayJob {
    phase: JobPhase,
    replay: String,
    filter: Vec<String>,
    caching: bool,
    entry: Vec<PlayerEntry>,
    selected_len: usize,
    requested: Vec<String>,
    num_games: usize,
    name_index: usize,
    games_read: usize,
    pending: String,
    any_game: bool,
    outcome: Option<ReplayError>,
}

impl View for ReplayJob {
    type V = JobView;

    closed spec fn view(&self) -> JobView {
        JobView {
            phase: self.phase,
            replay: self.replay@,
            filter: views(self.filter@),
            caching: self.caching,
            entry: entries_view(self.entry@),
            selected_len: self.selected_len as nat,
            requested: views(self.requested@),
            num_games: self.num_games as nat,
            name_index: self.name_index as nat,
            games_read: self.games_read as nat,
            pending: self.pending@,
            any_game: self.any_game,
            outcome: self.outcome,
        }
    }
}

fn absorb_bundles(bundles: Vec<CumulativePlacementStats>) -> (r: CumulativePlacementStats)
    ensures
        r@ == absorb_all(bundles@.map_values(|b: CumulativePlacementStats| b@)),
{
    let ghost all = bundles@.map_values(|b: CumulativePlacementStats| b@);
    let mut rest = bundles;
    let mut acc = CumulativePlacementStats::new();
    while rest.len() > 0
        invariant
            absorb_rest(acc@, rest@.map_values(|b: CumulativePlacementStats| b@)) == absorb_all(all),
        decreases rest@.len(),
    {
        let ghost rv = rest@.map_values(|b: CumulativePlacementStats| b@);
        match rest.pop() {
            Some(b) => {
                assert(rest@.map_values(|b: CumulativePlacementStats| b@) =~= rv.drop_last());
                acc.absorb(b);
            },
            None => {},
        }
    }
    acc
}

impl ReplayJob {
    /// The conversation is in a consistent state.
    pub closed spec fn wf(&self) -> bool {
        &&& self.games_read <= self.num_games
        &&& self.phase == JobPhase::ReadGames ==> self.games_read < self.num_games
        &&& (self.phase == JobPhase::SendName || self.phase == JobPhase::ReadGames || self.phase
            == JobPhase::Analyze || self.phase == JobPhase::Collect) ==> self.name_index
            < self.requested@.len()
    }

    /// A conversation about `replay` for the players that `filter` lets
    /// through. `cached` is the replay's cache entry when the cache is in use
    /// (empty on a miss); names it holds are not asked of the parser.
    pub fn new(replay: String, filter: Vec<String>, cached: Option<Vec<PlayerEntry>>) -> (r: Self)
        ensures
            r.wf(),
            r@ == (JobView {
                phase: JobPhase::SendReplay,
                replay: replay@,
                filter: views(filter@),
                caching: cached.is_some(),
                entry: match cached {
                    Some(c) => entries_view(c@),
                    None => Seq::empty(),
                },
                selected_len: 0,
                requested: Seq::empty(),
                num_games: 0,
                name_index: 0,
                games_read: 0,
                pending: Seq::empty(),
                any_game: false,
                outcome: None,
            }),
    {
        let caching = cached.is_some();
        let entry = match cached {
            Some(c) => c,
            None => Vec::new(),
        };
        assert(!caching ==> entries_view(entry@) =~= Seq::empty());
        let r = ReplayJob {
            phase: JobPhase::SendReplay,
            replay,
            filter,
            caching,
            entry,
            selected_len: 0,
            requested: Vec::new(),
            num_games: 0,
            name_index: 0,
            games_read: 0,
            pending: String::new(),
            any_game: false,
            outcome: None,
        };
        assert(r@.requested =~= Seq::empty());
        assert(!caching ==> r@.entry =~= Seq::empty());
        r
    }

    /// The action that the conversation asks for.
    pub fn pending(&self) -> (r: JobAction)
        requires
            self.wf(),
        ensures
            action_view(r) == pending_action(self@),
    {
        match self.phase {
            JobPhase::SendReplay => JobAction::Send(sanitize_string(self.replay.as_str())),
            JobPhase::SendCount => JobAction::SendCount(self.requested.len()),
            JobPhase::SendName => {
                let name = self.requested[self.name_index].clone();
                JobAction::Send(name)
            },
            JobPhase::Analyze => JobAction::Analyze(self.pending.clone()),
            JobPhase::Collect => JobAction::Collect,
            JobPhase::Done => JobAction::Finish,
            _ => JobAction::Receive,
        }
    }

    /// Where the conversation stands.
    pub fn phase(&self) -> (r: JobPhase)
        ensures
            r == self@.phase,
    {
        self.phase
    }

    /// Once done: the error, if any.
    pub fn outcome(&self) -> (r: Option<ReplayError>)
        ensures
            r == self@.outcome,
    {
        self.outcome
    }

    /// The replay's bundles: the cached ones, then those computed here.
    pub fn entry(&self) -> (r: &Vec<PlayerEntry>)
        ensures
            entries_view(r@) == self@.entry,
    {
        &self.entry
    }

    /// The filter that the conversation was started with.
    pub fn filter(&self) -> (r: &Vec<String>)
        ensures
            views(r@) == self@.filter,
    {
        &self.filter
    }

    /// The replay's bundles, giving the conversation up.
    pub fn into_entry(self) -> (r: Vec<PlayerEntry>)
        ensures
            entries_view(r@) == self@.entry,
    {
        self.entry
    }

    /// The cache entry is to be written: the cache is in use, the
    /// conversation succeeded and asked the parser for some name.
    pub fn stores_cache(&self) -> (r: bool)
        ensures
            r == (self@.caching && self@.phase == JobPhase::Done && self@.outcome.is_none()
                && self@.requested.len() > 0),
    {
        self.caching && self.phase == JobPhase::Done && self.outcome.is_none()
            && self.requested.len() > 0
    }

    fn fail(&mut self, e: ReplayError)
        requires
            old(self).wf(),
        ensures
            final(self).wf(),
            final(self)@ == failed(old(self)@, e),
    {
        self.phase = JobPhase::Done;
        self.outcome = Some(e);
    }

    fn finish(&mut self)
        requires
            old(self).wf(),
        ensures
            final(self).wf(),
            final(self)@ == finished(old(self)@),
    {
        self.phase = JobPhase::Done;
        let corrupt = if self.requested.len() > 0 {
            !self.any_game
        } else {
            self.selected_len == 0
        };
        if corrupt {
            self.outcome = Some(ReplayError::Corrupt);
        } else {
            self.outcome = None;
        }
    }

    fn next_game(&mut self)
        requires
            old(self).wf(),
            old(self).phase == JobPhase::Analyze || old(self).phase == JobPhase::ReadGames,
        ensures
            final(self).wf(),
            final(self)@ == (JobView { phase: after_game(old(self)@), ..old(self)@ }),
    {
        if self.games_read < self.num_games {
            self.phase = JobPhase::ReadGames;
        } else {
            self.phase = JobPhase::Collect;
        }
    }

    fn on_line(&mut self, line: String)
        requires
            old(self).wf(),
        ensures
            final(self).wf(),
            final(self)@ == job_next(old(self)@, JobEventView::Received(line@)),
    {
        match self.phase {
            JobPhase::AwaitSupported => {
                let clean = sanitize_string(line.as_str());
                match parse_flag(&clean) {
                    Some(true) => {
                        self.phase = JobPhase::AwaitNames;
                    },
                    Some(false) => self.fail(ReplayError::Unsupported),
                    None => self.fail(ReplayError::Unparsable),
                }
            },
            JobPhase::AwaitNames => {
                let selected = parse_names(line.as_str(), &self.filter);
                self.selected_len = selected.len();
                if self.caching {
                    self.requested = names_to_compute(&selected, &self.entry);
                } else {
                    self.requested = selected;
                }
                self.phase = JobPhase::AwaitGameCount;
            },
            JobPhase::AwaitGameCount => {
                let clean = sanitize_string(line.as_str());
                match parse_count(clean.as_str()) {
                    Some(n) => {
                        self.num_games = n;
                        self.games_read = 0;
                        self.phase = JobPhase::SendCount;
                    },
                    None => self.fail(ReplayError::Unparsable),
                }
            },
            JobPhase::ReadGames => {
                self.games_read = self.games_read + 1;
                let clean = sanitize_string(line.as_str());
                let marker = "CORRUPT".to_owned();
                if clean.eq(&marker) {
                    if self.games_read < self.num_games {
                        self.phase = JobPhase::ReadGames;
                    } else {
                        self.phase = JobPhase::Collect;
                    }
                } else {
                    self.pending = line;
                    self.any_game = true;
                    self.phase = JobPhase::Analyze;
                }
            },
            _ => {},
        }
    }

    /// Advances the conversation by what came of the last action, and
    /// returns the next action.
    pub fn step(&mut self, event: JobEvent) -> (r: JobAction)
        requires
            old(self).wf(),
        ensures
            final(self).wf(),
            final(self)@ == job_next(old(self)@, event_view(event)),
            action_view(r) == pending_action(final(self)@),
    {
        match event {
            JobEvent::Sent => match self.phase {
                JobPhase::SendReplay => {
                    self.phase = JobPhase::AwaitSupported;
                },
                JobPhase::SendCount => {
                    if self.requested.len() == 0 {
                        self.finish();
                    } else {
                        self.name_index = 0;
                        self.phase = JobPhase::SendName;
                    }
                },
                JobPhase::SendName => {
                    self.games_read = 0;
                    if self.num_games > 0 {
                        self.phase = JobPhase::ReadGames;
                    } else {
                        self.phase = JobPhase::Collect;
                    }
                },
                _ => {},
            },
            JobEvent::SendFailed => match self.phase {
                JobPhase::SendReplay | JobPhase::SendCount | JobPhase::SendName => {
                    self.fail(ReplayError::Connection);
                },
                _ => {},
            },
            JobEvent::Received(line) => {
                self.on_line(line);
            },
            JobEvent::ReceiveFailed => match self.phase {
                JobPhase::AwaitSupported | JobPhase::AwaitNames | JobPhase::AwaitGameCount
                | JobPhase::ReadGames => {
                    self.fail(ReplayError::Unparsable);
                },
                _ => {},
            },
            JobEvent::Started => match self.phase {
                JobPhase::Analyze => {
                    self.next_game();
                },
                _ => {},
            },
            JobEvent::DecodeFailed => match self.phase {
                JobPhase::Analyze => {
                    self.fail(ReplayError::Unmunchable);
                },
                _ => {},
            },
            JobEvent::Collected(bundles) => match self.phase {
                JobPhase::Collect => {
                    let stats = absorb_bundles(bundles);
                    let name = self.requested[self.name_index].clone();
                    let ghost before = self.entry@;
                    self.entry.push(PlayerEntry { name, stats });
                    assert(entries_view(self.entry@) =~= entries_view(before).push(
                        (views(self.requested@)[self.name_index as int], stats@),
                    ));
                    let count = self.requested.len();
                    self.name_index = self.name_index + 1;
                    if self.name_index < count {
                        self.phase = JobPhase::SendName;
                    } else {
                        self.phase = JobPhase::Done;
                        self.finish();
                    }
                },
                _ => {},
            },
            JobEvent::CollectFailed => match self.phase {
                JobPhase::Collect => {
                    self.fail(ReplayError::Unmunchable);
                },
                _ => {},
            },
        }
        self.pending()
    }
}

proof fn lemma_missing_not_cached(
    names: Seq<Seq<char>>,
    entry: Seq<(Seq<char>, StatsModel)>,
    n: Seq<char>,
)
    requires
        missing_names(names, entry).contains(n),
    ensures
        !entry_names(entry).contains(n),
    decreases names.len(),
{
    if names.len() > 0 {
        let prev = missing_names(names.drop_last(), entry);
        if !entry_names(entry).contains(names.last()) && n != names.last() {
            let k = choose|k: int| 0 <= k < prev.push(names.last()).len() && prev.push(
                names.last(),
            )[k] == n;
            assert(prev[k] == n);
            lemma_missing_not_cached(names.drop_last(), entry, n);
        } else if entry_names(entry).contains(names.last()) {
            lemma_missing_not_cached(names.drop_last(), entry, n);
        }
    }
}

/// With the cache in use, a name that the replay's cache entry already
/// holds is never asked of the parser again.
pub proof fn lemma_cached_names_not_requested(v: JobView, line: Seq<char>, n: Seq<char>)
    requires
        v.phase == JobPhase::AwaitNames,
        v.caching,
        job_next(v, JobEventView::Received(line)).requested.contains(n),
    ensures
        !entry_names(v.entry).contains(n),
{
    lemma_missing_not_cached(parse_names_spec(line, v.filter), v.entry, n);
}

/// The replay's bundles only grow: the cached ones and those already
/// computed are kept as they are, whatever happens.
pub proof fn lemma_entry_kept(v: JobView, e: JobEventView)
    ensures
        v.entry.len() <= job_next(v, e).entry.len(),
        job_next(v, e).entry.subrange(0, v.entry.len() as int) == v.entry,
{
    assert(job_next(v, e).entry.subrange(0, v.entry.len() as int) =~= v.entry);
}

/// The replay's entry is the cached entry `cached` followed by one bundle
/// for each name asked of the parser so far, in order; once the
/// conversation has succeeded, every name asked has its bundle.
pub open spec fn entry_follows_requests(v: JobView, cached: Seq<(Seq<char>, StatsModel)>) -> bool {
    &&& v.name_index <= v.requested.len()
    &&& v.entry.len() == cached.len() + v.name_index
    &&& v.entry.subrange(0, cached.len() as int) == cached
    &&& forall|k: int|
        0 <= k < v.name_index ==> v.entry[cached.len() + k].0 == #[trigger] v.requested[k]
    &&& (v.phase == JobPhase::SendReplay || v.phase == JobPhase::AwaitSupported || v.phase
        == JobPhase::AwaitNames || v.phase == JobPhase::AwaitGameCount || v.phase
        == JobPhase::SendCount) ==> v.name_index == 0
    &&& (v.phase == JobPhase::SendName || v.phase == JobPhase::ReadGames || v.phase
        == JobPhase::Analyze || v.phase == JobPhase::Collect) ==> v.name_index < v.requested.len()
    &&& (v.phase == JobPhase::Done && v.outcome.is_none()) ==> v.name_index == v.requested.len()
}

/// A new conversation's entry is its cached entry.
pub proof fn lemma_entry_starts_cached(v: JobView)
    requires
        v.phase == JobPhase::SendReplay,
        v.name_index == 0,
    ensures
        entry_follows_requests(v, v.entry),
{
    assert(v.entry.subrange(0, v.entry.len() as int) =~= v.entry);
}

/// Every event keeps the entry made of the cached entry and one bundle per
/// name asked.
pub proof fn lemma_entry_follows_requests(
    v: JobView,
    e: JobEventView,
    cached: Seq<(Seq<char>, StatsModel)>,
)
    requires
        entry_follows_requests(v, cached),
    ensures
        entry_follows_requests(job_next(v, e), cached),
{
    let w = job_next(v, e);
    if v.phase == JobPhase::Collect {
        match e {
            JobEventView::Collected(bs) => {
                assert(w.entry.subrange(0, cached.len() as int) =~= v.entry.subrange(
                    0,
                    cached.len() as int,
                ));
                assert forall|k: int| 0 <= k < w.name_index implies w.entry[cached.len() + k].0
                    == #[trigger] w.requested[k] by {
                    if k < v.name_index {
                        assert(w.entry[cached.len() + k] == v.entry[cached.len() + k]);
                    }
                }
            },
            _ => {},
        }
    }
}

/// A replay that asked the parser for some name and got no game line that
/// was not marked corrupt fails as corrupt once its last name is collected.
pub proof fn lemma_all_corrupt_fails(v: JobView, bs: Seq<StatsModel>)
    requires
        v.phase == JobPhase::Collect,
        !v.any_game,
        v.name_index + 1 == v.requested.len(),
    ensures
        job_next(v, JobEventView::Collected(bs)).outcome == Some(ReplayError::Corrupt),
{
}

} // verus!
