//! Perft node counts against published values for the standard test set.
use peapea_core::perft::perft;
use peapea_core::position::startpos;
use peapea_core::utility::read_position_from_fen;

#[test]
fn perft_startpos_shallow() {
    let pos = startpos();
    assert_eq!(perft(&pos, 0), 1);
    assert_eq!(perft(&pos, 1), 20);
    assert_eq!(perft(&pos, 2), 400);
    assert_eq!(perft(&pos, 3), 8902);
}

#[test]
fn perft_startpos_depth4() {
    let pos = startpos();
    assert_eq!(perft(&pos, 4), 197_281);
}

#[test]
fn perft_kiwipete() {
    let pos = read_position_from_fen(
        "r3k2r/p1ppqpb1/bn2pnp1/3PN3/1p2P3/2N2Q1p/PPPBBPPP/R3K2R w KQkq - 0 1",
    )
    .unwrap();
    assert_eq!(perft(&pos, 1), 48);
    assert_eq!(perft(&pos, 2), 2039);
    assert_eq!(perft(&pos, 3), 97_862);
}

#[test]
fn perft_position_3() {
    let pos = read_position_from_fen("8/2p5/3p4/KP5r/1R3p1k/8/4P1P1/8 w - - 0 1").unwrap();
    assert_eq!(perft(&pos, 1), 14);
    assert_eq!(perft(&pos, 2), 191);
    assert_eq!(perft(&pos, 3), 2812);
    assert_eq!(perft(&pos, 4), 43_238);
}

#[test]
fn perft_position_4() {
    let pos = read_position_from_fen(
        "r3k2r/Pppp1ppp/1b3nbN/nP6/BBP1P3/q4N2/Pp1P2PP/R2Q1RK1 w kq - 0 1",
    )
    .unwrap();
    assert_eq!(perft(&pos, 1), 6);
    assert_eq!(perft(&pos, 2), 264);
    assert_eq!(perft(&pos, 3), 9467);
}

#[test]
fn perft_position_5() {
    let pos =
        read_position_from_fen("rnbq1k1r/pp1Pbppp/2p5/8/2B5/8/PPP1NnPP/RNBQK2R w KQ - 1 8")
            .unwrap();
    assert_eq!(perft(&pos, 1), 44);
    assert_eq!(perft(&pos, 2), 1486);
    assert_eq!(perft(&pos, 3), 62_379);
}

#[test]
fn perft_position_6() {
    let pos = read_position_from_fen(
        "r4rk1/1pp1qppp/p1np1n2/2b1p1B1/2B1P1b1/P1NP1N2/1PP1QPPP/R4RK1 w - - 0 10",
    )
    .unwrap();
    assert_eq!(perft(&pos, 1), 46);
    assert_eq!(perft(&pos, 2), 2079);
    assert_eq!(perft(&pos, 3), 89_890);
}
