use codecrafters_bittorrent::download::manager::{DownloadError, DownloadManager};
use codecrafters_bittorrent::download::queue::PieceQueue;
use codecrafters_bittorrent::download::worker::{PeerWorker, WorkerError};
use codecrafters_bittorrent::download::FileWorker;
use codecrafters_bittorrent::peer::session::{
    HandlerEffect, HandlerStep, PeerSessionConfig, PeerSessionHandler, PieceWrite,
    SessionControl,
};
use codecrafters_bittorrent::peer::{PeerCommand, PeerEvent};
use codecrafters_bittorrent::torrent::TorrentMetainfo;
use codecrafters_bittorrent::tracker::Peer;
use sha1::Digest;
use std::sync::Arc;

const PIECE_LENGTH: usize = 32768;
const FILE_LENGTH: usize = 92063;

fn file_bytes() -> Vec<u8> {
    let mut bytes = Vec::with_capacity(FILE_LENGTH);
    let mut n: u32 = 7;
    for _ in 0..FILE_LENGTH {
        n = n.wrapping_mul(1664525).wrapping_add(1013904223);
        bytes.push((n >> 24) as u8);
    }
    bytes
}

fn metainfo() -> TorrentMetainfo {
    let file = file_bytes();
    let mut pieces = Vec::new();
    for piece in file.chunks(PIECE_LENGTH) {
        pieces.extend_from_slice(&sha1::Sha1::digest(piece));
    }
    TorrentMetainfo {
        announce: "http://tracker/announce".to_string(),
        piece_length: PIECE_LENGTH as u64,
        pieces,
        length: FILE_LENGTH as u64,
        info_hash: vec![7; 20],
    }
}

fn worker() -> PeerWorker {
    PeerWorker::new(
        Peer { ip: [127, 0, 0, 1], port: 6881 },
        Arc::new(metainfo()),
        "-CT0001-123456789012".to_string(),
        PeerSessionConfig::default(),
    )
}

fn only(control: SessionControl) -> Result<HandlerStep, WorkerError> {
    Ok(HandlerStep { control, commands: vec![], effect: HandlerEffect::Nothing })
}

fn request(index: u32, begin: u32, length: u32) -> Result<HandlerStep, WorkerError> {
    Ok(HandlerStep {
        control: SessionControl::Continue,
        commands: vec![PeerCommand::Request { index, begin, length }],
        effect: HandlerEffect::Nothing,
    })
}

fn block(index: u32, begin: usize, length: usize) -> PeerEvent {
    let start = index as usize * PIECE_LENGTH + begin;
    PeerEvent::Piece {
        index,
        begin: begin as u32,
        data: file_bytes()[start..start + length].to_vec(),
    }
}

#[test]
fn the_whole_file_is_downloaded_piece_by_piece() {
    let file = file_bytes();
    let mut queue = PieceQueue::new(&vec![0, 1, 2]);
    let mut worker = worker();
    let mut output = vec![0u8; FILE_LENGTH];

    assert!(!worker.should_stop(&queue));
    assert_eq!(
        worker.on_connect(&mut queue, &[9; 20]),
        Ok(HandlerStep {
            control: SessionControl::Continue,
            commands: vec![PeerCommand::Interested],
            effect: HandlerEffect::Nothing,
        })
    );
    assert_eq!(worker.on_event(&mut queue, PeerEvent::Bitfield(vec![0xE0])), only(SessionControl::Continue));
    let mut answer = worker.on_event(&mut queue, PeerEvent::Unchoke);
    let mut stored = 0;
    loop {
        let step = answer.unwrap();
        match step.effect {
            HandlerEffect::StorePiece(PieceWrite { index, offset, data }) => {
                assert_eq!(step.control, SessionControl::Continue);
                assert_eq!(offset, index as u64 * PIECE_LENGTH as u64);
                let expected = &metainfo().pieces[index as usize * 20..index as usize * 20 + 20];
                assert_eq!(&sha1::Sha1::digest(&data)[..], expected);
                output[offset as usize..offset as usize + data.len()].copy_from_slice(&data);
                stored += 1;
                answer = worker.on_stored(&mut queue, true);
                continue;
            }
            HandlerEffect::AwaitWork => panic!("nothing to wait for"),
            HandlerEffect::Nothing => {}
        }
        if step.control == SessionControl::Stop {
            break;
        }
        assert_eq!(step.commands.len(), 1);
        match step.commands[0] {
            PeerCommand::Request { index, begin, length } => {
                answer = worker.on_event(&mut queue, block(index, begin as usize, length as usize));
            }
            _ => panic!("unexpected command"),
        }
    }
    assert_eq!(stored, 3);
    assert_eq!(output, file);
    assert!(queue.is_shutdown());
    assert_eq!(queue.completed(), 3);
    assert!(worker.should_stop(&queue));
}

#[test]
fn blocks_are_requested_in_order_and_the_last_is_short() {
    let mut queue = PieceQueue::new(&vec![2]);
    let mut worker = worker();
    assert_eq!(worker.on_event(&mut queue, PeerEvent::Unchoke), request(2, 0, 16384));
    assert_eq!(worker.on_event(&mut queue, block(2, 0, 16384)), request(2, 16384, 10143));
    assert_eq!(worker.get_piece_len(2), Some(26527));
    assert_eq!(worker.get_piece_len(0), Some(32768));
    assert_eq!(worker.get_piece_len(3), None);
    // A block of another piece or another offset is ignored.
    assert_eq!(worker.on_event(&mut queue, block(1, 16384, 100)), only(SessionControl::Continue));
    assert_eq!(worker.on_event(&mut queue, block(2, 0, 16384)), only(SessionControl::Continue));
    // An unchoke asks for the block again.
    assert_eq!(worker.on_event(&mut queue, PeerEvent::Unchoke), request(2, 16384, 10143));
    // A short block moves the offset by its length.
    assert_eq!(worker.on_event(&mut queue, block(2, 16384, 143)), request(2, 16527, 10000));
}

#[test]
fn a_choke_or_an_error_gives_the_piece_back() {
    let mut queue = PieceQueue::new(&vec![0, 1]);
    let mut worker = worker();
    assert_eq!(worker.on_event(&mut queue, PeerEvent::Unchoke), request(0, 0, 16384));
    assert_eq!(queue.len(), 1);
    assert_eq!(worker.on_event(&mut queue, PeerEvent::Choke), only(SessionControl::Reconnect));
    assert_eq!(queue.len(), 2);
    assert_eq!(worker.on_event(&mut queue, PeerEvent::Choke), only(SessionControl::Reconnect));
    assert_eq!(queue.len(), 2);
    assert_eq!(worker.on_event(&mut queue, PeerEvent::Unchoke), request(1, 0, 16384));
    assert_eq!(
        worker.on_event(&mut queue, PeerEvent::IoError("reset".to_string())),
        only(SessionControl::Reconnect)
    );
    assert_eq!(queue.pop(), Some(0));
    assert_eq!(queue.pop(), Some(1));
    assert_eq!(worker.on_event(&mut queue, PeerEvent::Unchoke).unwrap().effect, HandlerEffect::AwaitWork);
    queue.push(1);
    assert_eq!(worker.resume(&mut queue), request(1, 0, 16384));
    worker.on_connect(&mut queue, &[9; 20]).unwrap();
    assert_eq!(queue.pop(), Some(1));
}

#[test]
fn a_block_beyond_the_piece_gives_the_piece_back_with_an_error() {
    let mut queue = PieceQueue::new(&vec![2]);
    let mut worker = worker();
    worker.on_event(&mut queue, PeerEvent::Unchoke).unwrap();
    worker.on_event(&mut queue, block(2, 0, 16384)).unwrap();
    assert_eq!(
        worker.on_event(
            &mut queue,
            PeerEvent::Piece { index: 2, begin: 16384, data: vec![0; 10144] }
        ),
        Err(WorkerError::BlockOverrun(2))
    );
    assert_eq!(queue.pop(), Some(2));
    assert_eq!(worker.on_event(&mut queue, block(2, 0, 16384)), only(SessionControl::Continue));
}

#[test]
fn a_piece_with_a_wrong_hash_goes_back_to_the_queue() {
    let mut queue = PieceQueue::new(&vec![1]);
    let mut worker = worker();
    worker.on_event(&mut queue, PeerEvent::Unchoke).unwrap();
    worker.on_event(&mut queue, block(1, 0, 16384)).unwrap();
    let mut data = file_bytes()[PIECE_LENGTH + 16384..2 * PIECE_LENGTH].to_vec();
    data[5] ^= 1;
    assert_eq!(
        worker.on_event(&mut queue, PeerEvent::Piece { index: 1, begin: 16384, data }),
        Err(WorkerError::HashMismatch(1))
    );
    assert_eq!(queue.completed(), 0);
    assert_eq!(queue.pop(), Some(1));
}

#[test]
fn a_piece_that_cannot_be_stored_goes_back_to_the_queue() {
    let mut queue = PieceQueue::new(&vec![2, 0]);
    let mut worker = worker();
    worker.on_event(&mut queue, PeerEvent::Unchoke).unwrap();
    worker.on_event(&mut queue, block(2, 0, 16384)).unwrap();
    let step = worker.on_event(&mut queue, block(2, 16384, 10143)).unwrap();
    assert!(matches!(step.effect, HandlerEffect::StorePiece(_)));
    // While the piece is being stored nothing else is begun.
    assert_eq!(worker.on_event(&mut queue, PeerEvent::Unchoke), only(SessionControl::Continue));
    assert_eq!(worker.resume(&mut queue), only(SessionControl::Continue));
    assert_eq!(worker.on_stored(&mut queue, false), Err(WorkerError::StoreFailed(2)));
    assert_eq!(queue.completed(), 0);
    assert_eq!(queue.pop(), Some(0));
    assert_eq!(queue.pop(), Some(2));
    assert_eq!(worker.on_stored(&mut queue, true), only(SessionControl::Continue));
}

#[test]
fn pieces_that_cannot_be_downloaded_are_given_back() {
    let mut queue = PieceQueue::new(&vec![3]);
    let mut worker = worker();
    assert_eq!(
        worker.on_event(&mut queue, PeerEvent::Unchoke),
        Err(WorkerError::UnknownPiece(3))
    );
    assert_eq!(queue.pop(), Some(3));

    let broken = TorrentMetainfo { piece_length: 0, ..metainfo() };
    let mut worker = PeerWorker::new(
        Peer { ip: [127, 0, 0, 1], port: 6881 },
        Arc::new(broken),
        "id".to_string(),
        PeerSessionConfig::default(),
    );
    queue.push(0);
    assert_eq!(
        worker.on_event(&mut queue, PeerEvent::Unchoke),
        Err(WorkerError::InvalidMetainfo)
    );
    assert_eq!(queue.pop(), Some(0));

    let large = TorrentMetainfo {
        piece_length: 1 << 33,
        pieces: vec![0; 20],
        length: 1 << 33,
        ..metainfo()
    };
    let mut worker = PeerWorker::new(
        Peer { ip: [127, 0, 0, 1], port: 6881 },
        Arc::new(large),
        "id".to_string(),
        PeerSessionConfig::default(),
    );
    queue.push(0);
    assert_eq!(
        worker.on_event(&mut queue, PeerEvent::Unchoke),
        Err(WorkerError::PieceTooLarge(0))
    );
    assert_eq!(queue.pop(), Some(0));
}

#[test]
fn a_finished_queue_stops_the_worker() {
    let mut queue = PieceQueue::new(&vec![0]);
    queue.shutdown();
    let mut worker = worker();
    assert!(worker.should_stop(&queue));
    assert_eq!(worker.on_event(&mut queue, PeerEvent::Unchoke), only(SessionControl::Stop));
    assert_eq!(queue.len(), 1);
}

#[test]
fn the_worker_runs_a_session_for_its_torrent() {
    let worker = worker();
    let session = worker.session();
    assert_eq!(session.peer(), Peer { ip: [127, 0, 0, 1], port: 6881 });
    assert_eq!(session.handshake_request().info_hash, vec![7; 20]);
    assert_eq!(session.attempts(), 0);
}

#[test]
fn a_download_is_planned_from_the_metainfo() {
    let manager =
        DownloadManager::new(metainfo(), "-CT0001-123456789012".to_string(), "out.bin".to_string());
    assert_eq!(manager.output_path(), "out.bin");
    assert_eq!(manager.announce(), "http://tracker/announce");
    assert_eq!(manager.piece_ids(), Ok(vec![0, 1, 2]));
    let mut plan = manager.plan().unwrap();
    assert_eq!(plan.file_length, FILE_LENGTH as u64);
    assert_eq!(plan.request.left, FILE_LENGTH as u64);
    assert_eq!(plan.request.info_hash, vec![7; 20]);
    assert_eq!(plan.request.peer_id, "-CT0001-123456789012");
    assert_eq!((plan.request.port, plan.request.compact), (6881, 1));
    assert_eq!(plan.queue.total_pieces(), 3);
    assert_eq!(plan.queue.pop(), Some(0));
    let mut worker = manager.worker(Peer { ip: [10, 0, 0, 1], port: 1 });
    assert_eq!(worker.on_event(&mut plan.queue, PeerEvent::Unchoke), request(1, 0, 16384));

    let mut single = manager.plan_piece(2).unwrap();
    assert_eq!(single.file_length, 26527);
    assert_eq!(single.base_offset, 65536);
    assert_eq!(single.queue.total_pieces(), 1);
    assert_eq!(single.queue.pop(), Some(2));
    assert_eq!(single.queue.pop(), None);
    assert_eq!(single.request.left, FILE_LENGTH as u64);
    assert_eq!(manager.plan_piece(3).err(), Some(DownloadError::UnknownPiece));

    let broken = DownloadManager::new(
        TorrentMetainfo { pieces: vec![0; 40], ..metainfo() },
        "id".to_string(),
        "out".to_string(),
    );
    assert_eq!(broken.piece_ids(), Err(DownloadError::InvalidMetainfo));
    assert_eq!(broken.plan().err(), Some(DownloadError::InvalidMetainfo));
    assert_eq!(broken.plan_piece(0).err(), Some(DownloadError::InvalidMetainfo));
}

#[test]
fn the_file_worker_prepares_its_announce() {
    let mut worker =
        FileWorker::new(Arc::new(metainfo()), "-CT0001-123456789012".to_string(), ".".to_string());
    let request = worker.announce_request();
    assert_eq!(request.left, FILE_LENGTH as u64);
    assert_eq!(request.info_hash, vec![7; 20]);
    assert_eq!(worker.run(), Ok(()));
}

#[test]
fn a_single_piece_is_downloaded_and_has_the_first_hash() {
    let mut queue = PieceQueue::new(&vec![0]);
    let mut worker = worker();
    let mut answer = worker.on_event(&mut queue, PeerEvent::Unchoke);
    let written = loop {
        let step = answer.unwrap();
        if let HandlerEffect::StorePiece(write) = step.effect {
            break write;
        }
        match step.commands[0] {
            PeerCommand::Request { index, begin, length } => {
                assert_eq!(index, 0);
                answer = worker.on_event(&mut queue, block(index, begin as usize, length as usize));
            }
            _ => panic!("unexpected command"),
        }
    };
    assert_eq!(written.index, 0);
    assert_eq!(written.offset, 0);
    assert_eq!(written.data, file_bytes()[..PIECE_LENGTH].to_vec());
    assert_eq!(&sha1::Sha1::digest(&written.data)[..], &metainfo().pieces[..20]);
    assert_eq!(worker.on_stored(&mut queue, true), only(SessionControl::Stop));
    assert!(queue.is_shutdown());
    assert_eq!(queue.completed(), 1);
}
