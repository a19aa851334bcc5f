use chess_bot::info_parser::Bound;
use chess_bot::info_parser::Info;
use chess_bot::info_parser::Score;

const GOLDEN: &str =
    "info depth 12 seldepth 18 multipv 1 score cp 35 nodes 100000 nps 500000 hashfull 423 tbhits 0 time 812 pv e2e4 e7e5";

#[test]
fn golden_centipawn_line() {
    let info = Info::parse_info(GOLDEN).expect("golden line must parse");
    assert_eq!(info.depth, 12);
    assert_eq!(info.seldepth, 18);
    assert_eq!(info.multipv, 1);
    match &info.score {
        Score::CP(c) => {
            // Raw centipawn value 35: the pawn-unit score 0.35 is cp / 100.
            assert_eq!(c.cp, 35);
            assert!(c.bound.is_none());
            assert_eq!(c.cp as f32 / 100.0, 0.35);
        },
        Score::Mate(_) => panic!("expected a centipawn score"),
    }
    assert_eq!(info.nodes, 100000);
    assert_eq!(info.nps, 500000);
    // Raw hashfull 423: the stored fraction of the original design is 4.23.
    assert_eq!(info.hashfull, 423);
    assert_eq!(info.hashfull as f32 / 100.0, 4.23);
    assert_eq!(info.tbhits, 0);
    assert_eq!(info.time, 812);
    assert_eq!(info.pv, vec!["e2e4".to_string(), "e7e5".to_string()]);
}

#[test]
fn golden_mate_line() {
    let line = "info depth 20 seldepth 24 multipv 1 score mate 3 nodes 5 nps 6 hashfull 7 tbhits 8 time 9 pv d8h4";
    let info = Info::parse_info(line).expect("mate line must parse");
    assert!(matches!(info.score, Score::Mate(3)));
    assert_eq!(info.pv, vec!["d8h4".to_string()]);
}

#[test]
fn golden_bounded_negative_centipawns() {
    let line = "info depth 9 seldepth 11 multipv 1 score cp -120 upperbound nodes 1 nps 2 hashfull 3 tbhits 4 time 5 pv e7e5 g1f3";
    let info = Info::parse_info(line).expect("bounded line must parse");
    match &info.score {
        Score::CP(c) => {
            assert_eq!(c.cp, -120);
            assert!(matches!(c.bound, Some(Bound::Upper)));
            assert_eq!(c.cp as f32 / 100.0, -1.20);
        },
        Score::Mate(_) => panic!("expected a centipawn score"),
    }
}

#[test]
fn lowerbound_recognised() {
    let line = "info depth 9 seldepth 11 multipv 1 score cp 44 lowerbound nodes 1 nps 2 hashfull 3 tbhits 4 time 5 pv a2a3";
    let info = Info::parse_info(line).expect("bounded line must parse");
    match &info.score {
        Score::CP(c) => assert!(matches!(c.bound, Some(Bound::Lower))),
        Score::Mate(_) => panic!("expected a centipawn score"),
    }
}

#[test]
fn non_info_lines_rejected() {
    assert!(Info::parse_info("Stockfish 16 by the Stockfish developers").is_none());
    assert!(Info::parse_info("uciok").is_none());
    assert!(Info::parse_info("bestmove e2e4 ponder e7e5").is_none());
    assert!(Info::parse_info("").is_none());
}

#[test]
fn missing_field_rejected() {
    // No seldepth: the whole line is rejected, no partial record.
    let line = "info depth 12 multipv 1 score cp 35 nodes 1 nps 2 hashfull 3 tbhits 4 time 5 pv e2e4";
    assert!(Info::parse_info(line).is_none());
}

#[test]
fn keyword_out_of_order_rejected() {
    let line = "info depth 12 multipv 1 seldepth 18 score cp 35 nodes 1 nps 2 hashfull 3 tbhits 4 time 5 pv e2e4";
    assert!(Info::parse_info(line).is_none());
}

#[test]
fn non_numeric_field_rejected() {
    let line = "info depth twelve seldepth 18 multipv 1 score cp 35 nodes 1 nps 2 hashfull 3 tbhits 4 time 5 pv e2e4";
    assert!(Info::parse_info(line).is_none());
    let trailing = "info depth 12x seldepth 18 multipv 1 score cp 35 nodes 1 nps 2 hashfull 3 tbhits 4 time 5 pv e2e4";
    assert!(Info::parse_info(trailing).is_none());
}

#[test]
fn empty_principal_variation_rejected() {
    let line = "info depth 12 seldepth 18 multipv 1 score cp 35 nodes 1 nps 2 hashfull 3 tbhits 4 time 5 pv";
    assert!(Info::parse_info(line).is_none());
    let with_space = "info depth 12 seldepth 18 multipv 1 score cp 35 nodes 1 nps 2 hashfull 3 tbhits 4 time 5 pv ";
    assert!(Info::parse_info(with_space).is_none());
}

#[test]
fn score_without_kind_rejected() {
    let line = "info depth 12 seldepth 18 multipv 1 score 35 nodes 1 nps 2 hashfull 3 tbhits 4 time 5 pv e2e4";
    assert!(Info::parse_info(line).is_none());
}

#[test]
fn trailing_words_after_pv_kept_as_tokens() {
    let line = "info depth 1 seldepth 1 multipv 1 score cp 0 nodes 1 nps 1 hashfull 0 tbhits 0 time 1 pv e2e4 e7e5 g1f3";
    let info = Info::parse_info(line).expect("line must parse");
    assert_eq!(info.pv.len(), 3);
}
