//! Unit tests for the engine's components: transposition table, Multi-PV
//! buffer, move ordering and the time manager.
use peapea_core::moves::Mv;
use peapea_core::ordering::MoveOrdering;
use peapea_core::params::Params;
use peapea_core::position::startpos;
use peapea_core::pv::{MultiPv, PvTable};
use peapea_core::time_manager::compute_time_limit;
use peapea_core::tt::{Bound, TranspositionTable};
use peapea_core::utility::read_position_from_fen;

#[test]
fn tt_store_probe_full_key_match() {
    let mut tt = TranspositionTable::new(1);
    tt.store(0xdead_beef, 4, 120, Bound::Exact, None);
    let hit = tt.probe(0xdead_beef).expect("stored entry");
    assert_eq!(hit.key, 0xdead_beef);
    assert_eq!(hit.depth, 4);
    assert_eq!(hit.score, 120);
    // A different key mapping elsewhere misses.
    assert!(tt.probe(0x1234_5678).is_none());
}

#[test]
fn tt_depth_preferred_replacement() {
    let mut tt = TranspositionTable::new(1);
    let key = 77u64;
    tt.store(key, 6, 300, Bound::Exact, None);
    // A shallower store at the same slot is rejected.
    tt.store(key, 3, -50, Bound::Lower, None);
    let hit = tt.probe(key).expect("deep entry kept");
    assert_eq!(hit.depth, 6);
    assert_eq!(hit.score, 300);
    // An equal-depth store replaces (always-replace on ties).
    tt.store(key, 6, 111, Bound::Upper, None);
    let hit = tt.probe(key).expect("fresh entry");
    assert_eq!(hit.score, 111);
}

#[test]
fn tt_clear_and_occupancy() {
    // A zero-size request still allocates a single slot.
    let mut tt = TranspositionTable::new(0);
    assert_eq!(tt.tt_occupancy(), 0);
    tt.store(1, 1, 0, Bound::Exact, None);
    assert_eq!(tt.tt_occupancy(), 1000);
    tt.clear();
    assert_eq!(tt.tt_occupancy(), 0);
    assert!(tt.probe(1).is_none());
}

#[test]
fn multipv_sorts_and_truncates() {
    let mut mpv = MultiPv::new(2);
    mpv.insert(10, vec![]);
    mpv.insert(30, vec![]);
    mpv.insert(20, vec![]);
    assert_eq!(mpv.lines.len(), 2);
    assert_eq!(mpv.lines[0].0, 30);
    assert_eq!(mpv.lines[1].0, 20);
    mpv.clear();
    assert!(mpv.lines.is_empty());
}

#[test]
fn pv_table_set_and_clear() {
    let mut pv = PvTable::new(4);
    let m1 = Mv::Normal { role: 1, from: 12, capture: 0, to: 28, promotion: 0 };
    let m2 = Mv::Normal { role: 1, from: 52, capture: 0, to: 36, promotion: 0 };
    pv.set_pv(1, m2, &vec![]);
    let child = pv.table[1].clone();
    pv.set_pv(0, m1, &child);
    assert_eq!(pv.best_move(), Some(m1));
    assert_eq!(pv.pv_line(), &vec![m1, m2]);
    pv.clear_from(0);
    assert_eq!(pv.best_move(), None);
    assert_eq!(pv.table[1], vec![m2]);
}

#[test]
fn mvv_lva_prefers_valuable_victims() {
    let params = Params::default();
    let ordering = MoveOrdering::new(&params.piece_values);
    let pawn_takes_queen = Mv::Normal { role: 1, from: 0, capture: 5, to: 9, promotion: 0 };
    let queen_takes_pawn = Mv::Normal { role: 5, from: 0, capture: 1, to: 9, promotion: 0 };
    // victim value + 6 - attacker value / 100
    assert_eq!(ordering.mvv_lva_score(pawn_takes_queen), 900 + 6 - 1);
    assert_eq!(ordering.mvv_lva_score(queen_takes_pawn), 100 + 6 - 9);
    let mut moves = vec![queen_takes_pawn, pawn_takes_queen];
    ordering.order_captures(&mut moves);
    assert_eq!(moves, vec![pawn_takes_queen, queen_takes_pawn]);
}

#[test]
fn order_moves_pins_and_partitions() {
    let params = Params::default();
    let ordering = MoveOrdering::new(&params.piece_values);
    let quiet1 = Mv::Normal { role: 2, from: 1, capture: 0, to: 18, promotion: 0 };
    let quiet2 = Mv::Normal { role: 2, from: 6, capture: 0, to: 21, promotion: 0 };
    let small_capture = Mv::Normal { role: 4, from: 0, capture: 1, to: 8, promotion: 0 };
    let big_capture = Mv::Normal { role: 1, from: 8, capture: 5, to: 17, promotion: 0 };
    let mut moves = vec![quiet1, small_capture, quiet2, big_capture];
    ordering.order_moves(Some(quiet2), Some(small_capture), &mut moves);
    assert_eq!(moves[0], quiet2);
    assert_eq!(moves[1], small_capture);
    assert_eq!(moves[2], big_capture);
    assert_eq!(moves[3], quiet1);
}

#[test]
fn time_limit_formula() {
    // No clock: one second.
    let pos = startpos();
    assert_eq!(compute_time_limit(&pos, None, None), 1000);
    // Startpos has 20 legal moves: factor clamps up to 0.7.
    // base = 10000/10 = 1000; 1000 * 700 / 1000 = 700.
    assert_eq!(compute_time_limit(&pos, Some(10_000), None), 700);
    // The floor: 20 ms, unless two thirds of the clock is lower.
    assert_eq!(compute_time_limit(&pos, Some(100), None), 20);
    assert_eq!(compute_time_limit(&pos, Some(15), None), 10);
    // A busy middlegame widens the factor to 1.3.
    let busy = read_position_from_fen(
        "r3k2r/p1ppqpb1/bn2pnp1/3PN3/1p2P3/2N2Q1p/PPPBBPPP/R3K2R w KQkq - 0 1",
    )
    .unwrap();
    // 48 legal moves: 48000/30 = 1600, clamped to 1300.
    assert_eq!(compute_time_limit(&busy, Some(10_000), Some(500)), 1950);
}

#[test]
fn engine_state_history() {
    let mut state = peapea_core::state::EngineState::new(1);
    assert_eq!(state.repetition_stack.len(), 1);
    let first = state.repetition_stack[0];
    state.increase_history();
    assert_eq!(state.repetition_stack, vec![first, first]);
    state.init_history();
    assert_eq!(state.repetition_stack, vec![first]);
}
