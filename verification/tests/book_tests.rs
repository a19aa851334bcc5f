use chess_bot::opening::Openings;
use chess_bot::opening::check_book;
use chess_bot::opening::square_name;
use shakmaty::Chess;
use shakmaty::EnPassantMode;
use shakmaty::Position;
use shakmaty::zobrist::Zobrist64;

fn push_record(blob: &mut Vec<u8>, hash: u64, raw: u16, weight: u16) {
    blob.extend_from_slice(&hash.to_be_bytes());
    blob.extend_from_slice(&raw.to_be_bytes());
    blob.extend_from_slice(&weight.to_be_bytes());
    blob.extend_from_slice(&[0u8; 4]);
}

// Packed move: destination in bits 0..6, origin in bits 6..12, promotion in
// bits 12..15.
fn pack(from: u16, to: u16, promo: u16) -> u16 {
    to | (from << 6) | (promo << 12)
}

#[test]
fn opening() {
    let mut blob: Vec<u8> = Vec::new();
    let pos = Chess::default();
    let hash = pos.zobrist_hash::<Zobrist64>(EnPassantMode::Legal).0;
    push_record(&mut blob, hash, pack(12, 28, 0), 200);
    assert!(check_book(&blob));
    let openings = Openings::init(&blob);
    println!("{:?}", openings.get_moves(&hash));
}

#[test]
fn square_index_mapping() {
    assert_eq!(square_name(0), "a1");
    assert_eq!(square_name(7), "h1");
    assert_eq!(square_name(8), "a2");
    assert_eq!(square_name(63), "h8");
}

#[test]
fn two_records_one_hash_ordered_by_weight() {
    let mut blob: Vec<u8> = Vec::new();
    push_record(&mut blob, 42, pack(11, 27, 0), 50); // d2d4, the lighter record first
    push_record(&mut blob, 42, pack(12, 28, 0), 180); // e2e4
    assert!(check_book(&blob));
    let openings = Openings::init(&blob);
    let moves = openings.get_moves(&42).expect("hash must be present");
    assert_eq!(moves.len(), 2);
    assert_eq!(moves[0].mv, "e2e4");
    assert_eq!(moves[0].weight, 180);
    assert_eq!(moves[1].mv, "d2d4");
    assert_eq!(moves[1].weight, 50);
}

#[test]
fn records_of_distinct_hashes_kept_apart() {
    let mut blob: Vec<u8> = Vec::new();
    push_record(&mut blob, 1, pack(6, 21, 0), 10); // g1f3
    push_record(&mut blob, 2, pack(12, 28, 0), 20); // e2e4
    let openings = Openings::init(&blob);
    assert_eq!(openings.get_moves(&1).unwrap()[0].mv, "g1f3");
    assert_eq!(openings.get_moves(&2).unwrap()[0].mv, "e2e4");
    assert!(openings.get_moves(&3).is_none());
}

#[test]
fn promotion_letter_rendered() {
    let mut blob: Vec<u8> = Vec::new();
    push_record(&mut blob, 9, pack(48, 56, 4), 77); // a7a8 promoting to queen
    let openings = Openings::init(&blob);
    assert_eq!(openings.get_moves(&9).unwrap()[0].mv, "a7a8q");
}

#[test]
fn check_book_rejects_bad_promotion_code() {
    let mut blob: Vec<u8> = Vec::new();
    push_record(&mut blob, 5, pack(0, 1, 5), 10);
    assert!(!check_book(&blob));
}

#[test]
fn check_book_rejects_partial_record() {
    let mut blob: Vec<u8> = Vec::new();
    push_record(&mut blob, 5, pack(0, 1, 0), 10);
    blob.push(0);
    assert!(!check_book(&blob));
}

#[test]
fn empty_blob_gives_empty_book() {
    let blob: Vec<u8> = Vec::new();
    assert!(check_book(&blob));
    let openings = Openings::init(&blob);
    assert!(openings.get_moves(&0).is_none());
}
