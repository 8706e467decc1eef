//! End-to-end searches on concrete positions: mate finding, draws,
//! repetition, tactics, Multi-PV, and the negamax colour symmetry.
use peapea_core::context::SearchContext;
use peapea_core::moves::Mv;
use peapea_core::ordering::MoveOrdering;
use peapea_core::params::Params;
use peapea_core::position::{is_insufficient_material, legal_moves, startpos, uci_to_move};
use peapea_core::score::MATE_SCORE;
use peapea_core::search::{quiescence, search};
use peapea_core::state::EngineState;
use peapea_core::tt::{Bound, TranspositionTable};
use peapea_core::uci::move_to_uci;
use peapea_core::utility::read_position_from_fen;

const NO_CLOCK: Option<u64> = Some(36_000_000);

fn fresh_context(multipv: usize) -> SearchContext {
    let params = Params::default();
    let ordering = MoveOrdering::new(&params.piece_values);
    let tt = TranspositionTable::new(128);
    SearchContext::new(params, ordering, multipv, tt)
}

fn search_position(pos: &shakmaty::Chess, depth: usize, multipv: usize) -> (i64, SearchContext) {
    let mut ctx = fresh_context(multipv);
    let hash = peapea_core::position::zobrist(pos);
    ctx.increase_history(hash);
    let score = search(pos, &mut ctx, depth, NO_CLOCK);
    (score, ctx)
}

#[test]
fn startpos_depth4_legal_and_quiet() {
    let pos = startpos();
    let (score, ctx) = search_position(&pos, 4, 1);
    let best = ctx.pv.best_move().expect("a best move at the root");
    assert!(legal_moves(&pos).contains(&best));
    assert!(score.abs() < 200);
}

#[test]
fn scholars_mate_found() {
    let pos = read_position_from_fen(
        "r1bqkbnr/pppp1ppp/2n5/4p3/2B1P3/5Q2/PPPP1PPP/RNB1K1NR w KQkq - 2 3",
    )
    .unwrap();
    let (score, ctx) = search_position(&pos, 4, 1);
    let best = ctx.pv.best_move().expect("a best move at the root");
    assert_eq!(move_to_uci(&best), "f3f7");
    assert!(score >= MATE_SCORE - 4);
}

#[test]
fn mate_in_one_scores_mate_distance() {
    // White mates with Ra8 at once.
    let pos = read_position_from_fen("6k1/5ppp/8/8/8/8/5PPP/R5K1 w - - 0 1").unwrap();
    let (score, ctx) = search_position(&pos, 3, 1);
    let best = ctx.pv.best_move().expect("a best move at the root");
    assert_eq!(move_to_uci(&best), "a1a8");
    assert!(score >= MATE_SCORE - 1);
}

#[test]
fn king_vs_king_is_drawn() {
    let pos = read_position_from_fen("8/8/8/3k4/8/3K4/8/8 w - - 0 1").unwrap();
    assert!(is_insufficient_material(&pos));
    for depth in 1..=4 {
        let (score, _ctx) = search_position(&pos, depth, 1);
        assert_eq!(score, 0);
    }
}

#[test]
fn threefold_by_shuffle_is_drawn() {
    let mut state = EngineState::new(16);
    for uci in ["g1f3", "g8f6", "f3g1", "f6g8", "g1f3", "g8f6", "f3g1", "f6g8"] {
        let m = uci_to_move(&state.position, uci).expect("a legal shuffle move");
        assert!(state.apply_move(&m));
        state.increase_history();
    }
    let params = Params::default();
    let ordering = MoveOrdering::new(&params.piece_values);
    let mut ctx = SearchContext::new(params, ordering, 1, state.tt);
    for h in state.repetition_stack.iter() {
        ctx.increase_history(*h);
    }
    for depth in 1..=3 {
        ctx.tt.clear();
        let score = search(&state.position, &mut ctx, depth, NO_CLOCK);
        assert_eq!(score, 0);
    }
}

#[test]
fn tactic_finds_forced_win() {
    // White has a forced mate here (Qa8+ followed by the queen crashing
    // through on c6/c7); the search must see a decisively winning, forcing
    // sequence at depth 6.
    let pos = read_position_from_fen("2k4r/1r1q2pp/QBp2p2/1p6/8/8/P4PPP/2R3K1 w - - 1 0").unwrap();
    let (score, ctx) = search_position(&pos, 6, 1);
    let best = ctx.pv.best_move().expect("a best move at the root");
    assert!(legal_moves(&pos).contains(&best));
    assert!(score > 300, "score {}", score);
    assert!(score >= MATE_SCORE - 10, "score {}", score);
    // The winning line is forcing: its second white move is a capture.
    let line = ctx.pv.pv_line();
    assert!(line.len() >= 3, "line length {}", line.len());
    assert!(line[2].is_capture(), "move {}", move_to_uci(&line[2]));
}

#[test]
fn multipv_lines_sorted_distinct_and_legal() {
    // The buffer keeps the root moves that successively became the local
    // best in the last completed iteration. At the final depth the hash
    // move is searched first and usually stays best, so fewer lines than
    // the capacity can remain; every line kept is sorted, distinct in its
    // first move, and legal.
    let pos = startpos();
    let (score, ctx) = search_position(&pos, 6, 3);
    let lines = &ctx.multipv.lines;
    assert!(1 <= lines.len() && lines.len() <= 3);
    assert_eq!(lines[0].0, score);
    let legal = legal_moves(&pos);
    let heads: Vec<Mv> = lines.iter().map(|l| l.1[0]).collect();
    for i in 0..lines.len() {
        assert!(legal.contains(&heads[i]));
        for j in (i + 1)..lines.len() {
            assert!(lines[i].0 >= lines[j].0);
            assert!(heads[i] != heads[j]);
        }
    }
}

#[test]
fn multipv_collects_improving_roots_at_depth_one() {
    // A single depth-1 pass considers every root move with no hash move to
    // pin: each improvement enters the buffer, so several lines remain.
    let pos = startpos();
    let (score, ctx) = search_position(&pos, 1, 3);
    let lines = &ctx.multipv.lines;
    assert_eq!(lines.len(), 3);
    assert_eq!(lines[0].0, score);
    assert!(lines[0].0 >= lines[1].0 && lines[1].0 >= lines[2].0);
    let legal = legal_moves(&pos);
    let heads: Vec<Mv> = lines.iter().map(|l| l.1[0]).collect();
    assert!(heads[0] != heads[1] && heads[0] != heads[2] && heads[1] != heads[2]);
    for h in heads.iter() {
        assert!(legal.contains(h));
    }
}

#[test]
fn negamax_colour_symmetry() {
    // The same position with the colours mirrored: each side-to-move
    // perspective must yield the same score (fresh tables for each search).
    let white_view = read_position_from_fen(
        "r1bqkbnr/pppp1ppp/2n5/4p3/2B1P3/5Q2/PPPP1PPP/RNB1K1NR w KQkq - 2 3",
    )
    .unwrap();
    let black_view = read_position_from_fen(
        "rnb1k1nr/pppp1ppp/5q2/2b1p3/4P3/2N5/PPPP1PPP/R1BQKBNR b KQkq - 2 3",
    )
    .unwrap();
    for depth in 1..=3 {
        let (s_w, _) = search_position(&white_view, depth, 1);
        let (s_b, _) = search_position(&black_view, depth, 1);
        assert_eq!(s_w, s_b);
    }
}

#[test]
fn evaluate_startpos_is_tempo_bonus() {
    let pos = startpos();
    let params = Params::default();
    assert_eq!(peapea_core::eval::evaluate(&pos, &params), 10);
}

#[test]
fn repetition_stack_balanced_roundtrip() {
    let mut ctx = fresh_context(1);
    ctx.increase_history(7);
    ctx.increase_history(9);
    let before = ctx.repetition_stack.clone();
    ctx.increase_history(42);
    ctx.decrease_history();
    assert_eq!(ctx.repetition_stack, before);
}

#[test]
fn evaluate_rook_endgame_exact() {
    // White Ka1, Rb1 against a lone black Ka8: a rook's worth of material,
    // 13 rook mobility squares at two centipawns each, and the tempo bonus.
    let pos = read_position_from_fen("k7/8/8/8/8/8/8/KR6 w - - 0 1").unwrap();
    let params = Params::default();
    assert_eq!(peapea_core::eval::evaluate(&pos, &params), 500 + 26 + 10);
}

#[test]
fn rejected_inputs_yield_none() {
    assert!(read_position_from_fen("not a position").is_none());
    assert!(read_position_from_fen("8/8/8/8").is_none());
    let pos = startpos();
    assert!(uci_to_move(&pos, "e2e5").is_none());
    assert!(uci_to_move(&pos, "zz99").is_none());
}

#[test]
fn quiescence_stand_pat_and_store() {
    // The start position is quiet (no captures) and evaluates to the tempo
    // bonus, 10.
    let pos = startpos();
    // Stand-pat at or above beta fails hard at beta.
    let mut ctx = fresh_context(1);
    ctx.increase_history(peapea_core::position::zobrist(&pos));
    assert_eq!(quiescence(&pos, &mut ctx, 0, -100, 5), 5);
    // Below beta the raised alpha comes back, and the depth-0 entry is
    // stored at the position's key with an upper bound (nothing beat the
    // stand-pat).
    let mut ctx = fresh_context(1);
    let hash = peapea_core::position::zobrist(&pos);
    ctx.increase_history(hash);
    assert_eq!(quiescence(&pos, &mut ctx, 0, -100, 100), 10);
    let entry = ctx.tt.probe(hash).expect("a quiescence entry");
    assert_eq!(entry.depth, 0);
    assert_eq!(entry.score, 10);
    assert!(entry.best_move.is_none());
    assert!(matches!(entry.bound, Bound::Upper));
}
