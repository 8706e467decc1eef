//! Command parsing and move notation.
use peapea_core::moves::Mv;
use peapea_core::position::{legal_moves, startpos, uci_to_move};
use peapea_core::uci::{move_to_uci, parse_command, parse_u32, parse_u64, UciCommand};
use peapea_core::utility::read_position_from_fen;

#[test]
fn parse_simple_commands() {
    assert_eq!(parse_command("uci"), UciCommand::Uci);
    assert_eq!(parse_command("  isready  "), UciCommand::IsReady);
    assert_eq!(parse_command("ucinewgame"), UciCommand::UciNewGame);
    assert_eq!(parse_command("stop"), UciCommand::Stop);
    assert_eq!(parse_command("quit"), UciCommand::Quit);
    assert_eq!(parse_command(""), UciCommand::Unknown);
    assert_eq!(parse_command("   \t "), UciCommand::Unknown);
    assert_eq!(parse_command("flip"), UciCommand::Unknown);
}

#[test]
fn parse_position_startpos_and_moves() {
    let cmd = parse_command("position startpos moves e2e4 e7e5");
    assert_eq!(
        cmd,
        UciCommand::Position {
            fen: None,
            moves: vec!["e2e4".to_string(), "e7e5".to_string()],
        }
    );
    let bare = parse_command("position startpos");
    assert_eq!(bare, UciCommand::Position { fen: None, moves: vec![] });
}

#[test]
fn parse_position_fen_joins_fields() {
    let cmd = parse_command(
        "position fen r3k2r/p1ppqpb1/bn2pnp1/3PN3/1p2P3/2N2Q1p/PPPBBPPP/R3K2R w KQkq - 0 1 moves e1g1",
    );
    assert_eq!(
        cmd,
        UciCommand::Position {
            fen: Some(
                "r3k2r/p1ppqpb1/bn2pnp1/3PN3/1p2P3/2N2Q1p/PPPBBPPP/R3K2R w KQkq - 0 1".to_string()
            ),
            moves: vec!["e1g1".to_string()],
        }
    );
}

#[test]
fn parse_position_fen_too_short_is_unknown() {
    assert_eq!(parse_command("position fen 8/8/8/8"), UciCommand::Unknown);
}

#[test]
fn parse_go_options() {
    let cmd = parse_command("go wtime 300000 btime 200000 winc 2000 binc 1000 depth 12");
    assert_eq!(
        cmd,
        UciCommand::Go {
            wtime: Some(300000),
            btime: Some(200000),
            movetime: None,
            winc: Some(2000),
            binc: Some(1000),
            depth: Some(12),
        }
    );
    let latest = parse_command("go movetime 1000 movetime nonsense");
    assert_eq!(
        latest,
        UciCommand::Go {
            wtime: None,
            btime: None,
            movetime: None,
            winc: None,
            binc: None,
            depth: None,
        }
    );
}

#[test]
fn parse_setoption_with_spaces() {
    let cmd = parse_command("setoption name MultiPV value 3");
    assert_eq!(
        cmd,
        UciCommand::SetOption { name: "MultiPV".to_string(), value: "3".to_string() }
    );
    let spaced = parse_command("setoption name Clear Hash value on demand");
    assert_eq!(
        spaced,
        UciCommand::SetOption { name: "Clear Hash".to_string(), value: "on demand".to_string() }
    );
}

#[test]
fn parse_perft_depth_and_default() {
    assert_eq!(parse_command("perft 5"), UciCommand::Perft { depth: 5 });
    assert_eq!(parse_command("perft"), UciCommand::Perft { depth: 1 });
    assert_eq!(parse_command("perft x"), UciCommand::Perft { depth: 1 });
}

#[test]
fn parse_numbers_like_std() {
    assert_eq!(parse_u64("12345"), Some(12345));
    assert_eq!(parse_u64("+7"), Some(7));
    assert_eq!(parse_u64(""), None);
    assert_eq!(parse_u64("+"), None);
    assert_eq!(parse_u64("12x"), None);
    assert_eq!(parse_u64("-3"), None);
    assert_eq!(parse_u64("18446744073709551615"), Some(u64::MAX));
    assert_eq!(parse_u64("18446744073709551616"), None);
    assert_eq!(parse_u32("4294967295"), Some(u32::MAX));
    assert_eq!(parse_u32("4294967296"), None);
}

#[test]
fn move_notation_examples() {
    let normal = Mv::Normal { role: 1, from: 12, capture: 0, to: 28, promotion: 0 };
    assert_eq!(move_to_uci(&normal), "e2e4");
    let promo = Mv::Normal { role: 1, from: 52, capture: 0, to: 60, promotion: 5 };
    assert_eq!(move_to_uci(&promo), "e7e8q");
    let castle = Mv::Castle { king: 4, rook: 7 };
    assert_eq!(move_to_uci(&castle), "e1g1");
    let long_castle = Mv::Castle { king: 60, rook: 56 };
    assert_eq!(move_to_uci(&long_castle), "e8c8");
}

#[test]
fn uci_roundtrip_over_legal_moves() {
    let positions = [
        startpos(),
        read_position_from_fen(
            "r3k2r/p1ppqpb1/bn2pnp1/3PN3/1p2P3/2N2Q1p/PPPBBPPP/R3K2R w KQkq - 0 1",
        )
        .unwrap(),
        read_position_from_fen("rnbq1k1r/pp1Pbppp/2p5/8/2B5/8/PPP1NnPP/RNBQK2R w KQ - 1 8")
            .unwrap(),
    ];
    for pos in positions.iter() {
        for m in legal_moves(pos).iter() {
            let text = move_to_uci(m);
            let back = uci_to_move(pos, text.as_str());
            assert_eq!(back, Some(*m));
        }
    }
}
