use chess_bot::controller::Action;
use chess_bot::controller::Controller;
use chess_bot::controller::InstanceState;
use chess_bot::controller::PositionInfo;
use chess_bot::messages::BOOK_DEPTH;
use chess_bot::messages::FindMoveMessage;
use chess_bot::messages::Message;
use chess_bot::messages::SessionEndedMessage;
use chess_bot::messages::StopMessage;
use chess_bot::opening::Openings;

fn push_record(blob: &mut Vec<u8>, hash: u64, raw: u16, weight: u16) {
    blob.extend_from_slice(&hash.to_be_bytes());
    blob.extend_from_slice(&raw.to_be_bytes());
    blob.extend_from_slice(&weight.to_be_bytes());
    blob.extend_from_slice(&[0u8; 4]);
}

fn pack(from: u16, to: u16, promo: u16) -> u16 {
    to | (from << 6) | (promo << 12)
}

// A book whose hash 42 maps to e2e4 (weight 200), d2d4 (150), g1f3 (50).
fn weighted_book() -> Openings {
    let mut blob: Vec<u8> = Vec::new();
    push_record(&mut blob, 42, pack(12, 28, 0), 200);
    push_record(&mut blob, 42, pack(11, 27, 0), 150);
    push_record(&mut blob, 42, pack(6, 21, 0), 50);
    Openings::init(&blob)
}

fn empty_book() -> Openings {
    Openings::init(&[])
}

fn find_move(session_id: usize, request_id: usize) -> Message {
    Message::FIND_MOVE(FindMoveMessage { pgn: String::new(), request_id, session_id })
}

fn resolution(hash: u64) -> PositionInfo {
    PositionInfo { hash, fen: "fen text".to_string() }
}

#[test]
fn selection_never_picks_weak_move_when_good_exist() {
    let mut controller = Controller::new(weighted_book());
    for trial in 0..1000usize {
        let actions = controller.handle_message(find_move(1, trial), resolution(42));
        assert_eq!(actions.len(), 1);
        match &actions[0] {
            Action::EmitResponse { response } => {
                assert_eq!(response.depth, BOOK_DEPTH);
                assert_eq!(response.session_id, 1);
                assert_eq!(response.request_id, trial);
                assert!(response.mv == "e2e4" || response.mv == "d2d4");
            },
            _ => panic!("a book hit must answer with one response"),
        }
    }
}

#[test]
fn selection_falls_back_to_top_three() {
    // All weights at or below 100: the pick is capped to the top three.
    let mut blob: Vec<u8> = Vec::new();
    push_record(&mut blob, 7, pack(12, 28, 0), 30); // e2e4
    push_record(&mut blob, 7, pack(11, 27, 0), 20); // d2d4
    push_record(&mut blob, 7, pack(6, 21, 0), 10); // g1f3
    let mut controller = Controller::new(Openings::init(&blob));
    for trial in 0..300usize {
        let actions = controller.handle_message(find_move(2, trial), resolution(7));
        match &actions[0] {
            Action::EmitResponse { response } => {
                assert!(
                    response.mv == "e2e4" || response.mv == "d2d4" || response.mv == "g1f3",
                    "unexpected move {}",
                    response.mv
                );
            },
            _ => panic!("a book hit must answer with one response"),
        }
    }
}

#[test]
fn selection_fallback_cap_excludes_fourth_entry() {
    let mut blob: Vec<u8> = Vec::new();
    push_record(&mut blob, 8, pack(12, 28, 0), 40); // e2e4
    push_record(&mut blob, 8, pack(11, 27, 0), 30); // d2d4
    push_record(&mut blob, 8, pack(6, 21, 0), 20); // g1f3
    push_record(&mut blob, 8, pack(10, 26, 0), 10); // c2c4, outside the cap
    let mut controller = Controller::new(Openings::init(&blob));
    for trial in 0..500usize {
        let actions = controller.handle_message(find_move(3, trial), resolution(8));
        match &actions[0] {
            Action::EmitResponse { response } => {
                assert_ne!(response.mv, "c2c4");
            },
            _ => panic!("a book hit must answer with one response"),
        }
    }
}

#[test]
fn find_move_unseen_session_spawns_once() {
    let mut controller = Controller::new(empty_book());
    let actions = controller.handle_message(find_move(9, 1), resolution(5));
    assert_eq!(actions.len(), 1);
    match &actions[0] {
        Action::StartSearch { session_id, request_id, fen, spawn } => {
            assert_eq!(*session_id, 9);
            assert_eq!(*request_id, 1);
            assert_eq!(fen, "fen text");
            assert!(*spawn);
        },
        _ => panic!("a book miss must start a search"),
    }
}

#[test]
fn second_find_move_stops_before_new_go() {
    let mut controller = Controller::new(empty_book());
    controller.handle_message(find_move(9, 1), resolution(5));
    let actions = controller.handle_message(find_move(9, 2), resolution(6));
    assert_eq!(actions.len(), 2);
    assert!(matches!(&actions[0], Action::SendStop { session_id: 9 }));
    match &actions[1] {
        Action::StartSearch { session_id, request_id, spawn, .. } => {
            assert_eq!(*session_id, 9);
            assert_eq!(*request_id, 2);
            assert!(!*spawn, "the existing instance is reused, not respawned");
        },
        _ => panic!("a book miss must start a search"),
    }
}

#[test]
fn book_hit_still_stops_running_search() {
    let mut blob: Vec<u8> = Vec::new();
    push_record(&mut blob, 11, pack(12, 28, 0), 200);
    let mut controller = Controller::new(Openings::init(&blob));
    controller.handle_message(find_move(4, 1), resolution(999));
    let actions = controller.handle_message(find_move(4, 2), resolution(11));
    assert_eq!(actions.len(), 2);
    assert!(matches!(&actions[0], Action::SendStop { session_id: 4 }));
    assert!(matches!(&actions[1], Action::EmitResponse { .. }));
}

#[test]
fn session_ended_kills_once_and_is_idempotent() {
    let mut controller = Controller::new(empty_book());
    controller.handle_message(find_move(9, 1), resolution(5));
    let ended = Message::SESSION_ENDED(SessionEndedMessage { session_id: 9 });
    let actions = controller.handle_message(ended, resolution(0));
    assert_eq!(actions.len(), 1);
    assert!(matches!(&actions[0], Action::KillEngine { session_id: 9 }));
    let again = Message::SESSION_ENDED(SessionEndedMessage { session_id: 9 });
    let actions = controller.handle_message(again, resolution(0));
    assert!(actions.is_empty(), "a repeated session end is a no-op");
}

#[test]
fn stop_for_unknown_session_is_noop() {
    let mut controller = Controller::new(empty_book());
    let actions =
        controller.handle_message(Message::STOP(StopMessage { session_id: 77 }), resolution(0));
    assert!(actions.is_empty());
}

#[test]
fn stop_for_known_session_sends_stop() {
    let mut controller = Controller::new(empty_book());
    controller.handle_message(find_move(6, 1), resolution(5));
    let actions =
        controller.handle_message(Message::STOP(StopMessage { session_id: 6 }), resolution(0));
    assert_eq!(actions.len(), 1);
    assert!(matches!(&actions[0], Action::SendStop { session_id: 6 }));
}

#[test]
fn reader_line_becomes_tagged_response() {
    let instance = InstanceState::new(21, 34);
    let line = "info depth 12 seldepth 18 multipv 1 score cp 35 nodes 100000 nps 500000 hashfull 423 tbhits 0 time 812 pv e2e4 e7e5";
    let response = instance.handle_line(line).expect("a search-progress line yields a response");
    assert_eq!(response.mv, "e2e4");
    assert_eq!(response.session_id, 21);
    assert_eq!(response.request_id, 34);
    assert_eq!(response.depth, 12);
}

#[test]
fn reader_skips_other_engine_output() {
    let instance = InstanceState::new(21, 34);
    assert!(instance.handle_line("readyok").is_none());
    assert!(instance.handle_line("info string NNUE evaluation enabled").is_none());
}

#[test]
fn request_id_cell_overwritten() {
    let mut instance = InstanceState::new(21, 34);
    instance.set_request_id(35);
    let line = "info depth 2 seldepth 2 multipv 1 score cp 1 nodes 1 nps 1 hashfull 0 tbhits 0 time 1 pv d2d4";
    let response = instance.handle_line(line).unwrap();
    assert_eq!(response.request_id, 35);
}
