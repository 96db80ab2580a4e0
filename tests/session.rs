use action_parser::placement_stats::CumulativePlacementStats;
use action_parser::players::PlayerEntry;
use action_parser::replay_job::{JobAction, JobEvent, JobPhase, ReplayError, ReplayJob};
use action_parser::session::{ClientSession, SessionAction, SessionEvent, SessionPhase};

fn bundle(attack: usize) -> CumulativePlacementStats {
    let mut s = CumulativePlacementStats::new();
    s.attack = attack;
    s.delays = vec![attack as u64];
    s
}

fn recv(s: &mut ClientSession, line: &str) -> SessionAction {
    s.step(SessionEvent::Received(line.to_string()))
}

fn parser(s: &mut ClientSession, e: JobEvent) -> SessionAction {
    s.step(SessionEvent::Parser(e))
}

fn parser_line(s: &mut ClientSession, line: &str) -> SessionAction {
    parser(s, JobEvent::Received(line.to_string()))
}

fn send(line: &str) -> SessionAction {
    SessionAction::Send(line.to_string())
}

fn to_parser(line: &str) -> SessionAction {
    SessionAction::Parser(JobAction::Send(line.to_string()))
}

const RECEIVE_FROM_PARSER: SessionAction = SessionAction::Parser(JobAction::Receive);

fn attack_of(players: &Vec<PlayerEntry>, name: &str) -> Option<usize> {
    players.iter().find(|e| e.name == name).map(|e| e.stats.attack)
}

/// Runs one inline replay up to its status line, the parser answering that
/// the version is supported, naming `names` and giving one game per name.
fn inline_replay_with_games(s: &mut ClientSession, key: &str, payload: &str, names: &str, attacks: &[usize]) -> SessionAction {
    assert_eq!(recv(s, key), send("false"));
    assert_eq!(s.step(SessionEvent::Sent), SessionAction::Receive);
    assert_eq!(recv(s, payload), SessionAction::OpenParser);
    assert_eq!(s.step(SessionEvent::ParserOpened), to_parser(payload.trim_end()));
    assert_eq!(parser(s, JobEvent::Sent), RECEIVE_FROM_PARSER);
    assert_eq!(parser_line(s, "true\n"), RECEIVE_FROM_PARSER);
    assert_eq!(parser_line(s, names), RECEIVE_FROM_PARSER);
    assert_eq!(parser_line(s, "1\n"), SessionAction::Parser(JobAction::SendCount(attacks.len())));
    let mut last = SessionAction::Close;
    for (i, name) in names.trim_end().split(' ').enumerate() {
        let prev = parser(s, JobEvent::Sent);
        if i == 0 {
            assert_eq!(prev, to_parser(name));
            assert_eq!(parser(s, JobEvent::Sent), RECEIVE_FROM_PARSER);
        } else {
            assert_eq!(prev, RECEIVE_FROM_PARSER);
        }
        assert_eq!(
            parser_line(s, "[{}]\n"),
            SessionAction::Parser(JobAction::Analyze("[{}]\n".to_string()))
        );
        assert_eq!(parser(s, JobEvent::Started), SessionAction::Parser(JobAction::Collect));
        last = parser(s, JobEvent::Collected(vec![bundle(attacks[i])]));
        if i + 1 < attacks.len() {
            let next = names.trim_end().split(' ').nth(i + 1).unwrap();
            assert_eq!(last, to_parser(next));
        }
    }
    last
}

#[test]
fn unsupported_replay_is_reported_and_the_next_one_proceeds() {
    let mut s = ClientSession::new(false);
    assert_eq!(s.pending(), SessionAction::Receive);
    assert_eq!(recv(&mut s, "\n"), SessionAction::Receive);
    assert_eq!(recv(&mut s, "0\n"), SessionAction::Receive);
    assert_eq!(recv(&mut s, "2\n"), SessionAction::Receive);
    assert_eq!(recv(&mut s, "h1\n"), send("false"));
    assert_eq!(s.step(SessionEvent::Sent), SessionAction::Receive);
    assert_eq!(recv(&mut s, "payload-one\n"), SessionAction::OpenParser);
    assert_eq!(s.step(SessionEvent::ParserOpened), to_parser("payload-one"));
    assert_eq!(parser(&mut s, JobEvent::Sent), RECEIVE_FROM_PARSER);
    assert_eq!(
        parser_line(&mut s, "false\n"),
        send("The replay's version is unsupported.")
    );
    assert_eq!(s.step(SessionEvent::Sent), SessionAction::Receive);
    let last = inline_replay_with_games(&mut s, "h2\n", "payload-two\n", "Alice Bob\n", &[3, 4]);
    assert_eq!(last, send("success"));
    assert_eq!(s.step(SessionEvent::Sent), SessionAction::Report);
    assert_eq!(attack_of(s.players(), "Alice"), Some(3));
    assert_eq!(attack_of(s.players(), "Bob"), Some(4));
    assert_eq!(s.step(SessionEvent::Reported), SessionAction::Close);
    assert_eq!(s.phase(), SessionPhase::Closed);
}

#[test]
fn all_corrupt_games_fail_the_replay() {
    let mut s = ClientSession::new(false);
    recv(&mut s, "\n");
    recv(&mut s, "0\n");
    recv(&mut s, "1\n");
    recv(&mut s, "h\n");
    s.step(SessionEvent::Sent);
    recv(&mut s, "payload\n");
    s.step(SessionEvent::ParserOpened);
    parser(&mut s, JobEvent::Sent);
    parser_line(&mut s, "true\n");
    parser_line(&mut s, "Alice Bob\n");
    assert_eq!(parser_line(&mut s, "2\n"), SessionAction::Parser(JobAction::SendCount(2)));
    assert_eq!(parser(&mut s, JobEvent::Sent), to_parser("Alice"));
    assert_eq!(parser(&mut s, JobEvent::Sent), RECEIVE_FROM_PARSER);
    assert_eq!(parser_line(&mut s, "CORRUPT\n"), RECEIVE_FROM_PARSER);
    assert_eq!(parser_line(&mut s, "CORRUPT\r\n"), SessionAction::Parser(JobAction::Collect));
    assert_eq!(parser(&mut s, JobEvent::Collected(vec![])), to_parser("Bob"));
    assert_eq!(parser(&mut s, JobEvent::Sent), RECEIVE_FROM_PARSER);
    parser_line(&mut s, "CORRUPT\n");
    parser_line(&mut s, "CORRUPT\n");
    assert_eq!(
        parser(&mut s, JobEvent::Collected(vec![])),
        send("The replay is corrupt, no data was able to be processed.")
    );
    assert_eq!(s.step(SessionEvent::Sent), SessionAction::Report);
    assert!(s.players().is_empty());
}

#[test]
fn cached_replay_is_served_without_the_parser() {
    // First pass: a miss, computed and stored.
    let mut s = ClientSession::new(true);
    recv(&mut s, "\n");
    recv(&mut s, "1\n");
    assert_eq!(recv(&mut s, "r1\n"), SessionAction::LookupCache("r1".to_string()));
    assert_eq!(s.step(SessionEvent::CacheLoaded(None)), SessionAction::Download("r1".to_string()));
    assert_eq!(s.step(SessionEvent::Downloaded("{}".to_string())), SessionAction::OpenParser);
    assert_eq!(s.step(SessionEvent::ParserOpened), to_parser("{}"));
    parser(&mut s, JobEvent::Sent);
    parser_line(&mut s, "true\n");
    parser_line(&mut s, "Alice Bob\n");
    parser_line(&mut s, "1\n");
    parser(&mut s, JobEvent::Sent);
    parser(&mut s, JobEvent::Sent);
    parser_line(&mut s, "[{}]\n");
    parser(&mut s, JobEvent::Started);
    parser(&mut s, JobEvent::Collected(vec![bundle(3)]));
    parser(&mut s, JobEvent::Sent);
    parser_line(&mut s, "[{}]\n");
    parser(&mut s, JobEvent::Started);
    assert_eq!(
        parser(&mut s, JobEvent::Collected(vec![bundle(4)])),
        SessionAction::StoreCache("r1".to_string())
    );
    let stored: Vec<(String, usize)> =
        s.job_entry().unwrap().iter().map(|e| (e.name.clone(), e.stats.attack)).collect();
    assert_eq!(stored, vec![("Alice".to_string(), 3), ("Bob".to_string(), 4)]);
    assert_eq!(s.step(SessionEvent::Stored), send("success"));
    let first: Vec<(String, usize)> =
        s.players().iter().map(|e| (e.name.clone(), e.stats.attack)).collect();

    // Second pass: the stored entry serves the replay.
    let mut s2 = ClientSession::new(true);
    recv(&mut s2, "\n");
    recv(&mut s2, "1\n");
    recv(&mut s2, "r1\n");
    let entry = stored
        .iter()
        .map(|(n, a)| PlayerEntry { name: n.clone(), stats: bundle(*a) })
        .collect();
    assert_eq!(s2.step(SessionEvent::CacheLoaded(Some(entry))), send("success"));
    let mut second: Vec<(String, usize)> =
        s2.players().iter().map(|e| (e.name.clone(), e.stats.attack)).collect();
    second.sort();
    let mut first = first;
    first.sort();
    assert_eq!(first, second);
}

#[test]
fn partial_cache_entry_asks_only_for_missing_names() {
    let mut s = ClientSession::new(true);
    recv(&mut s, "\n");
    recv(&mut s, "1\n");
    recv(&mut s, "r2\n");
    let cached = vec![PlayerEntry { name: "Alice".to_string(), stats: bundle(9) }];
    assert_eq!(
        s.step(SessionEvent::CacheLoaded(Some(cached))),
        SessionAction::Download("r2".to_string())
    );
    s.step(SessionEvent::Downloaded("{}".to_string()));
    s.step(SessionEvent::ParserOpened);
    parser(&mut s, JobEvent::Sent);
    parser_line(&mut s, "true\n");
    parser_line(&mut s, "Alice Bob\n");
    assert_eq!(parser_line(&mut s, "1\n"), SessionAction::Parser(JobAction::SendCount(1)));
    assert_eq!(parser(&mut s, JobEvent::Sent), to_parser("Bob"));
    parser(&mut s, JobEvent::Sent);
    parser_line(&mut s, "[{}]\n");
    parser(&mut s, JobEvent::Started);
    assert_eq!(
        parser(&mut s, JobEvent::Collected(vec![bundle(2)])),
        SessionAction::StoreCache("r2".to_string())
    );
    assert_eq!(s.step(SessionEvent::Stored), send("success"));
    assert_eq!(attack_of(s.players(), "Alice"), Some(9));
    assert_eq!(attack_of(s.players(), "Bob"), Some(2));
}

#[test]
fn inline_cache_hit_answers_true() {
    let mut s = ClientSession::new(true);
    recv(&mut s, "alice\n");
    recv(&mut s, "0\n");
    recv(&mut s, "1\n");
    assert_eq!(recv(&mut s, "hash\n"), SessionAction::LookupCache("hash".to_string()));
    let cached = vec![
        PlayerEntry { name: "Alice".to_string(), stats: bundle(1) },
        PlayerEntry { name: "Bob".to_string(), stats: bundle(2) },
    ];
    assert_eq!(s.step(SessionEvent::CacheLoaded(Some(cached))), send("true"));
    assert_eq!(s.step(SessionEvent::Sent), send("success"));
    assert_eq!(s.step(SessionEvent::Sent), SessionAction::Report);
    assert_eq!(s.players().len(), 1);
    assert_eq!(attack_of(s.players(), "Alice"), Some(1));
}

#[test]
fn download_failure_is_reported() {
    let mut s = ClientSession::new(false);
    recv(&mut s, "\n");
    recv(&mut s, "1\n");
    assert_eq!(recv(&mut s, "id\n"), SessionAction::Download("id".to_string()));
    assert_eq!(s.step(SessionEvent::DownloadFailed), send("error downloading replay"));
    assert_eq!(s.step(SessionEvent::Sent), SessionAction::Receive);
    assert_eq!(recv(&mut s, "0\n"), SessionAction::Report);
}

#[test]
fn parser_connection_failure_is_reported() {
    let mut s = ClientSession::new(false);
    recv(&mut s, "\n");
    recv(&mut s, "1\n");
    recv(&mut s, "id\n");
    s.step(SessionEvent::Downloaded("{}".to_string()));
    assert_eq!(
        s.step(SessionEvent::ParserOpenFailed),
        send("A connection error occurred with the replay parser.")
    );
}

#[test]
fn bad_count_aborts_the_session() {
    let mut s = ClientSession::new(false);
    recv(&mut s, "\n");
    assert_eq!(recv(&mut s, "many\n"), SessionAction::Close);
    assert_eq!(s.phase(), SessionPhase::Aborted);
}

fn started_job() -> ReplayJob {
    let mut j = ReplayJob::new("replay\n".to_string(), vec![], None);
    assert_eq!(j.pending(), JobAction::Send("replay".to_string()));
    assert_eq!(j.step(JobEvent::Sent), JobAction::Receive);
    j
}

#[test]
fn job_errors() {
    let mut j = started_job();
    assert_eq!(j.step(JobEvent::Received("yes\n".to_string())), JobAction::Finish);
    assert_eq!(j.outcome(), Some(ReplayError::Unparsable));

    let mut j = started_job();
    j.step(JobEvent::Received("true\n".to_string()));
    j.step(JobEvent::Received("A\n".to_string()));
    assert_eq!(j.step(JobEvent::Received("x\n".to_string())), JobAction::Finish);
    assert_eq!(j.outcome(), Some(ReplayError::Unparsable));

    let mut j = started_job();
    j.step(JobEvent::Received("true\n".to_string()));
    j.step(JobEvent::Received("A\n".to_string()));
    j.step(JobEvent::Received("1\n".to_string()));
    j.step(JobEvent::Sent);
    j.step(JobEvent::Sent);
    assert_eq!(
        j.step(JobEvent::Received("garbage\n".to_string())),
        JobAction::Analyze("garbage\n".to_string())
    );
    assert_eq!(j.step(JobEvent::DecodeFailed), JobAction::Finish);
    assert_eq!(j.outcome(), Some(ReplayError::Unmunchable));

    let mut j = started_job();
    j.step(JobEvent::ReceiveFailed);
    assert_eq!(j.outcome(), Some(ReplayError::Unparsable));

    let mut j = ReplayJob::new("r".to_string(), vec![], None);
    assert_eq!(j.step(JobEvent::SendFailed), JobAction::Finish);
    assert_eq!(j.outcome(), Some(ReplayError::Connection));
    assert_eq!(j.phase(), JobPhase::Done);
}

#[test]
fn unexpected_event_changes_nothing() {
    let mut j = started_job();
    assert_eq!(j.step(JobEvent::Started), JobAction::Receive);
    assert_eq!(j.phase(), JobPhase::AwaitSupported);
}

#[test]
fn filter_with_no_matching_player_is_corrupt() {
    let mut j = ReplayJob::new("r".to_string(), vec!["carol".to_string()], None);
    j.step(JobEvent::Sent);
    j.step(JobEvent::Received("true\n".to_string()));
    j.step(JobEvent::Received("Alice Bob\n".to_string()));
    assert_eq!(j.step(JobEvent::Received("3\n".to_string())), JobAction::SendCount(0));
    assert_eq!(j.step(JobEvent::Sent), JobAction::Finish);
    assert_eq!(j.outcome(), Some(ReplayError::Corrupt));
}

#[test]
fn error_messages() {
    assert_eq!(ReplayError::Unsupported.message(), "The replay's version is unsupported.");
    assert_eq!(
        ReplayError::Unparsable.message(),
        "The replay was unable to be identified as a valid replay."
    );
    assert_eq!(
        ReplayError::Unmunchable.message(),
        "The replay's data was unable to be processed into stats."
    );
}

#[test]
fn partial_hit_with_only_corrupt_games_is_corrupt() {
    let mut s = ClientSession::new(true);
    recv(&mut s, "\n");
    recv(&mut s, "1\n");
    recv(&mut s, "r3\n");
    let cached = vec![PlayerEntry { name: "Alice".to_string(), stats: bundle(9) }];
    s.step(SessionEvent::CacheLoaded(Some(cached)));
    s.step(SessionEvent::Downloaded("{}".to_string()));
    s.step(SessionEvent::ParserOpened);
    parser(&mut s, JobEvent::Sent);
    parser_line(&mut s, "true\n");
    parser_line(&mut s, "Alice Bob\n");
    assert_eq!(parser_line(&mut s, "1\n"), SessionAction::Parser(JobAction::SendCount(1)));
    assert_eq!(parser(&mut s, JobEvent::Sent), to_parser("Bob"));
    parser(&mut s, JobEvent::Sent);
    assert_eq!(parser_line(&mut s, "CORRUPT\n"), SessionAction::Parser(JobAction::Collect));
    assert_eq!(
        parser(&mut s, JobEvent::Collected(vec![])),
        send("The replay is corrupt, no data was able to be processed.")
    );
    assert!(s.players().is_empty());
}

#[test]
fn name_with_only_corrupt_games_gets_an_empty_bundle() {
    let mut s = ClientSession::new(true);
    recv(&mut s, "\n");
    recv(&mut s, "1\n");
    recv(&mut s, "r4\n");
    s.step(SessionEvent::CacheLoaded(None));
    s.step(SessionEvent::Downloaded("{}".to_string()));
    s.step(SessionEvent::ParserOpened);
    parser(&mut s, JobEvent::Sent);
    parser_line(&mut s, "true\n");
    parser_line(&mut s, "Alice Bob\n");
    parser_line(&mut s, "1\n");
    parser(&mut s, JobEvent::Sent);
    parser(&mut s, JobEvent::Sent);
    parser_line(&mut s, "CORRUPT\n");
    assert_eq!(parser(&mut s, JobEvent::Collected(vec![])), to_parser("Bob"));
    parser(&mut s, JobEvent::Sent);
    parser_line(&mut s, "[{}]\n");
    parser(&mut s, JobEvent::Started);
    assert_eq!(
        parser(&mut s, JobEvent::Collected(vec![bundle(5)])),
        SessionAction::StoreCache("r4".to_string())
    );
    let stored: Vec<(String, usize)> =
        s.job_entry().unwrap().iter().map(|e| (e.name.clone(), e.stats.attack)).collect();
    assert_eq!(stored, vec![("Alice".to_string(), 0), ("Bob".to_string(), 5)]);
    assert_eq!(s.step(SessionEvent::Stored), send("success"));
    assert_eq!(attack_of(s.players(), "Alice"), Some(0));
    assert_eq!(attack_of(s.players(), "Bob"), Some(5));
}

#[test]
fn failed_cache_write_still_counts_the_replay() {
    let mut s = ClientSession::new(true);
    recv(&mut s, "\n");
    recv(&mut s, "1\n");
    recv(&mut s, "r5\n");
    s.step(SessionEvent::CacheLoaded(None));
    s.step(SessionEvent::Downloaded("{}".to_string()));
    s.step(SessionEvent::ParserOpened);
    parser(&mut s, JobEvent::Sent);
    parser_line(&mut s, "true\n");
    parser_line(&mut s, "Alice\n");
    parser_line(&mut s, "1\n");
    parser(&mut s, JobEvent::Sent);
    parser(&mut s, JobEvent::Sent);
    parser_line(&mut s, "[{}]\n");
    parser(&mut s, JobEvent::Started);
    assert_eq!(
        parser(&mut s, JobEvent::Collected(vec![bundle(2)])),
        SessionAction::StoreCache("r5".to_string())
    );
    assert_eq!(s.step(SessionEvent::StoreFailed), send("success"));
    assert_eq!(attack_of(s.players(), "Alice"), Some(2));
    assert_eq!(s.step(SessionEvent::Sent), SessionAction::Receive);
}

#[test]
fn inline_hit_send_failure_aborts() {
    let mut s = ClientSession::new(true);
    recv(&mut s, "\n");
    recv(&mut s, "0\n");
    recv(&mut s, "1\n");
    recv(&mut s, "hash\n");
    let cached = vec![
        PlayerEntry { name: "A".to_string(), stats: bundle(1) },
        PlayerEntry { name: "B".to_string(), stats: bundle(2) },
    ];
    assert_eq!(s.step(SessionEvent::CacheLoaded(Some(cached))), send("true"));
    assert_eq!(s.step(SessionEvent::SendFailed), SessionAction::Close);
    assert_eq!(s.phase(), SessionPhase::Aborted);
}
