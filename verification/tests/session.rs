use codecrafters_bittorrent::download::queue::PieceQueue;
use codecrafters_bittorrent::download::worker::{PeerWorker, WorkerError};
use codecrafters_bittorrent::peer::message::HandshakeRequest;
use codecrafters_bittorrent::peer::session::{
    HandlerEffect, PeerSession, PeerSessionConfig, SessionAction, SessionControl, SessionError,
    SessionEvent, SessionInput, SessionOutput,
};
use codecrafters_bittorrent::peer::{PeerCommand, PeerEvent};
use codecrafters_bittorrent::torrent::TorrentMetainfo;
use codecrafters_bittorrent::tracker::Peer;
use sha1::Digest;
use std::sync::Arc;

fn session(config: PeerSessionConfig) -> PeerSession {
    PeerSession::new(
        Peer { ip: [127, 0, 0, 1], port: 6881 },
        vec![7; 20],
        "-CT0001-123456789012".to_string(),
        config,
    )
}

#[test]
fn backoff_doubles_up_to_the_cap() {
    let config = PeerSessionConfig { backoff_base_ms: 1000, backoff_cap_ms: 3000, max_retries: 0 };
    assert_eq!(config.backoff_delay(0), 1000);
    assert_eq!(config.backoff_delay(1), 2000);
    assert_eq!(config.backoff_delay(2), 3000);
    assert_eq!(config.backoff_delay(50), 3000);
    let wide = PeerSessionConfig { backoff_base_ms: 3, backoff_cap_ms: u64::MAX, max_retries: 0 };
    assert_eq!(wide.backoff_delay(4), 48);
    assert_eq!(wide.backoff_delay(10), 3 * 1024);
    assert_eq!(wide.backoff_delay(11), 3 * 1024);
    assert_eq!(wide.backoff_delay(u32::MAX), 3 * 1024);
    let huge = PeerSessionConfig {
        backoff_base_ms: u64::MAX / 2,
        backoff_cap_ms: u64::MAX - 1,
        max_retries: 0,
    };
    assert_eq!(huge.backoff_delay(0), u64::MAX / 2);
    assert_eq!(huge.backoff_delay(3), u64::MAX - 1);
    let low_cap = PeerSessionConfig { backoff_base_ms: 500, backoff_cap_ms: 100, max_retries: 0 };
    assert_eq!(low_cap.backoff_delay(0), 100);
}

#[test]
fn known_configurations() {
    assert_eq!(
        PeerSessionConfig::default(),
        PeerSessionConfig { backoff_base_ms: 1000, backoff_cap_ms: 3000, max_retries: 2 }
    );
    assert_eq!(
        PeerSessionConfig::aggressive(),
        PeerSessionConfig { backoff_base_ms: 500, backoff_cap_ms: 1000, max_retries: 1 }
    );
}

#[test]
fn two_failed_attempts_sleep_one_and_two_seconds_and_give_up() {
    let mut session = session(PeerSessionConfig {
        backoff_base_ms: 1000,
        backoff_cap_ms: 3000,
        max_retries: 2,
    });
    let mut slept = 0u64;
    assert_eq!(session.step(SessionEvent::Wake, false), SessionAction::Connect);
    match session.step(SessionEvent::ConnectFailed, false) {
        SessionAction::Sleep(ms) => {
            assert_eq!(ms, 1000);
            slept += ms;
        }
        other => panic!("unexpected action {:?}", other),
    }
    assert_eq!(session.step(SessionEvent::Wake, false), SessionAction::Connect);
    match session.step(SessionEvent::ConnectFailed, false) {
        SessionAction::Sleep(ms) => {
            assert_eq!(ms, 2000);
            slept += ms;
        }
        other => panic!("unexpected action {:?}", other),
    }
    assert_eq!(
        session.step(SessionEvent::Wake, false),
        SessionAction::Fail(SessionError::MaxRetriesExceeded)
    );
    assert_eq!(slept, 3000);
    assert_eq!(session.attempts(), 2);
}

#[test]
fn a_handshake_resets_the_failures() {
    let mut session = session(PeerSessionConfig::default());
    assert_eq!(session.step(SessionEvent::Wake, false), SessionAction::Connect);
    assert_eq!(session.step(SessionEvent::ConnectFailed, false), SessionAction::Sleep(1000));
    assert_eq!(session.attempts(), 1);
    assert_eq!(session.step(SessionEvent::Wake, false), SessionAction::Connect);
    assert_eq!(session.step(SessionEvent::Connected, false), SessionAction::Greet);
    assert_eq!(session.attempts(), 0);
    assert_eq!(
        session.step(SessionEvent::Handled(SessionControl::Continue), false),
        SessionAction::Receive
    );
    assert_eq!(
        session.step(SessionEvent::Handled(SessionControl::Reconnect), false),
        SessionAction::Sleep(1000)
    );
    assert_eq!(session.step(SessionEvent::Wake, false), SessionAction::Connect);
    assert_eq!(session.step(SessionEvent::Connected, false), SessionAction::Greet);
    assert_eq!(session.step(SessionEvent::StreamClosed, false), SessionAction::Sleep(1000));
}

#[test]
fn stop_and_should_stop_end_the_session_with_success() {
    let mut stopped = session(PeerSessionConfig::default());
    assert_eq!(stopped.step(SessionEvent::Wake, true), SessionAction::Finish);
    assert_eq!(
        stopped.step(SessionEvent::Wake, false),
        SessionAction::Fail(SessionError::UnexpectedEvent)
    );

    let mut by_handler = session(PeerSessionConfig::default());
    by_handler.step(SessionEvent::Wake, false);
    by_handler.step(SessionEvent::Connected, false);
    assert_eq!(
        by_handler.step(SessionEvent::Handled(SessionControl::Stop), false),
        SessionAction::Finish
    );

    let mut between_events = session(PeerSessionConfig::default());
    between_events.step(SessionEvent::Wake, false);
    between_events.step(SessionEvent::Connected, false);
    assert_eq!(
        between_events.step(SessionEvent::Handled(SessionControl::Continue), true),
        SessionAction::Finish
    );

    let mut before_reconnect = session(PeerSessionConfig::default());
    before_reconnect.step(SessionEvent::Wake, false);
    before_reconnect.step(SessionEvent::Connected, false);
    assert_eq!(
        before_reconnect.step(SessionEvent::StreamClosed, true),
        SessionAction::Finish
    );
}

#[test]
fn handler_errors_and_misuse_fail_the_session() {
    let mut failed = session(PeerSessionConfig::default());
    failed.step(SessionEvent::Wake, false);
    failed.step(SessionEvent::Connected, false);
    assert_eq!(
        failed.step(SessionEvent::HandlerFailed, false),
        SessionAction::Fail(SessionError::HandlerFailed)
    );
    let mut misused = session(PeerSessionConfig::default());
    assert_eq!(
        misused.step(SessionEvent::Connected, false),
        SessionAction::Fail(SessionError::UnexpectedEvent)
    );
}

#[test]
fn unlimited_retries_never_give_up() {
    let mut session = session(PeerSessionConfig {
        backoff_base_ms: 1,
        backoff_cap_ms: 4,
        max_retries: 0,
    });
    let mut delays = Vec::new();
    for _ in 0..5 {
        assert_eq!(session.step(SessionEvent::Wake, false), SessionAction::Connect);
        match session.step(SessionEvent::ConnectFailed, false) {
            SessionAction::Sleep(ms) => delays.push(ms),
            other => panic!("unexpected action {:?}", other),
        }
    }
    assert_eq!(delays, vec![1, 2, 4, 4, 4]);
}

#[test]
fn the_session_shakes_hands_with_extensions_under_the_client_id() {
    let session = session(PeerSessionConfig::default());
    let request: HandshakeRequest = session.handshake_request();
    assert_eq!(request.pstr, "BitTorrent protocol");
    assert_eq!(request.reserved, [0, 0, 0, 0, 0, 0x10, 0, 0]);
    assert_eq!(request.info_hash, vec![7; 20]);
    assert_eq!(request.peer_id, b"-CT0001-123456789012".to_vec());
    assert_eq!(session.peer(), Peer { ip: [127, 0, 0, 1], port: 6881 });
    assert_eq!(session.backoff_delay(0), 1000);
    assert_eq!(session.backoff_delay(1), 2000);
    assert_eq!(session.backoff_delay(2), 3000);
}

#[test]
fn a_session_drives_its_handler() {
    let file: Vec<u8> = (0..40u32).map(|i| (i * 7) as u8).collect();
    let mut pieces = Vec::new();
    for piece in file.chunks(16) {
        pieces.extend_from_slice(&sha1::Sha1::digest(piece));
    }
    let metainfo = TorrentMetainfo {
        announce: String::new(),
        piece_length: 16,
        pieces,
        length: 40,
        info_hash: vec![7; 20],
    };
    let peer = Peer { ip: [127, 0, 0, 1], port: 6881 };
    let mut worker =
        PeerWorker::new(peer, Arc::new(metainfo), "id".to_string(), PeerSessionConfig::default());
    let mut queue = PieceQueue::new(&vec![0, 1, 2]);
    let mut session = worker.session();
    let mut output = vec![0u8; 40];

    assert_eq!(
        session.advance(&mut worker, &mut queue, SessionInput::Wake),
        SessionOutput::Act { action: SessionAction::Connect, commands: vec![] }
    );
    assert_eq!(
        session.advance(&mut worker, &mut queue, SessionInput::Connected(vec![9; 20])),
        SessionOutput::Act {
            action: SessionAction::Receive,
            commands: vec![PeerCommand::Interested],
        }
    );
    let mut input = SessionInput::Event(PeerEvent::Unchoke);
    let mut events = 0;
    loop {
        match session.advance(&mut worker, &mut queue, input) {
            SessionOutput::Act { action: SessionAction::Receive, commands } => {
                assert_eq!(commands.len(), 1);
                match commands[0] {
                    PeerCommand::Request { index, begin, length } => {
                        let start = index as usize * 16 + begin as usize;
                        input = SessionInput::Event(PeerEvent::Piece {
                            index,
                            begin,
                            data: file[start..start + length as usize].to_vec(),
                        });
                    }
                    _ => panic!("unexpected command"),
                }
            }
            SessionOutput::Act { action: SessionAction::Finish, commands } => {
                assert!(commands.is_empty());
                break;
            }
            SessionOutput::Effect { commands, effect: HandlerEffect::StorePiece(write) } => {
                assert!(commands.is_empty());
                let at = write.offset as usize;
                output[at..at + write.data.len()].copy_from_slice(&write.data);
                input = SessionInput::EffectDone(true);
            }
            other => panic!("unexpected output {:?}", other),
        }
        events += 1;
        assert!(events < 20);
    }
    assert_eq!(output, file);
    assert!(queue.is_shutdown());
    assert_eq!(
        session.advance(&mut worker, &mut queue, SessionInput::Wake),
        SessionOutput::Act {
            action: SessionAction::Fail(SessionError::UnexpectedEvent),
            commands: vec![],
        }
    );
}

#[test]
fn a_failing_handler_fails_the_session() {
    let metainfo = TorrentMetainfo {
        announce: String::new(),
        piece_length: 16,
        pieces: vec![0; 20],
        length: 16,
        info_hash: vec![7; 20],
    };
    let peer = Peer { ip: [127, 0, 0, 1], port: 6881 };
    let mut worker =
        PeerWorker::new(peer, Arc::new(metainfo), "id".to_string(), PeerSessionConfig::default());
    let mut queue = PieceQueue::new(&vec![0]);
    let mut session = worker.session();
    session.advance(&mut worker, &mut queue, SessionInput::Wake);
    session.advance(&mut worker, &mut queue, SessionInput::Connected(vec![9; 20]));
    session.advance(&mut worker, &mut queue, SessionInput::Event(PeerEvent::Unchoke));
    assert_eq!(
        session.advance(
            &mut worker,
            &mut queue,
            SessionInput::Event(PeerEvent::Piece { index: 0, begin: 0, data: vec![1; 16] })
        ),
        SessionOutput::Failed {
            action: SessionAction::Fail(SessionError::HandlerFailed),
            error: WorkerError::HashMismatch(0),
        }
    );
    assert_eq!(queue.pop(), Some(0));

    let mut queue = PieceQueue::new(&vec![0]);
    let mut session = worker.session();
    session.advance(&mut worker, &mut queue, SessionInput::Wake);
    session.advance(&mut worker, &mut queue, SessionInput::Connected(vec![9; 20]));
    session.advance(&mut worker, &mut queue, SessionInput::Event(PeerEvent::Unchoke));
    assert_eq!(
        session.advance(&mut worker, &mut queue, SessionInput::Event(PeerEvent::Choke)),
        SessionOutput::Act { action: SessionAction::Sleep(1000), commands: vec![] }
    );
    assert_eq!(queue.len(), 1);
    assert_eq!(
        session.advance(&mut worker, &mut queue, SessionInput::Event(PeerEvent::Unchoke)),
        SessionOutput::Act {
            action: SessionAction::Fail(SessionError::UnexpectedEvent),
            commands: vec![],
        }
    );
}
