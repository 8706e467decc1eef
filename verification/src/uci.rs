//! The UCI text protocol: command parsing and move notation.
//!
//! [`parse_command`] turns one line of input into a [`UciCommand`]; its
//! result is pinned exactly by [`spec_parse_command`], which tokenizes the
//! line on ASCII whitespace and mirrors the protocol's keyword grammar. A
//! malformed `position fen` line (fewer than six FEN fields) parses to
//! `Unknown`. [`move_to_uci`] renders a move in long algebraic notation.
use vstd::prelude::*;

use crate::moves::Mv;

verus! {

#[derive(Debug, PartialEq, Eq, Clone)]
pub enum UciCommand {
    Uci,
    IsReady,
    UciNewGame,
    Position { fen: Option<String>, moves: Vec<String> },
    Go {
        wtime: Option<u64>,
        btime: Option<u64>,
        movetime: Option<u64>,
        winc: Option<u64>,
        binc: Option<u64>,
        depth: Option<u32>,
    },
    Stop,
    Quit,
    SetOption { name: String, value: String },
    Perft { depth: u32 },
    Unknown,
}

/// The mathematical shape of a parsed command: strings as character
/// sequences.
pub enum UciCommandView {
    Uci,
    IsReady,
    UciNewGame,
    Position { fen: Option<Seq<char>>, moves: Seq<Seq<char>> },
    Go {
        wtime: Option<u64>,
        btime: Option<u64>,
        movetime: Option<u64>,
        winc: Option<u64>,
        binc: Option<u64>,
        depth: Option<u32>,
    },
    Stop,
    Quit,
    SetOption { name: Seq<char>, value: Seq<char> },
    Perft { depth: u32 },
    Unknown,
}

impl View for UciCommand {
    type V = UciCommandView;

    open spec fn view(&self) -> UciCommandView {
        match self {
            UciCommand::Uci => UciCommandView::Uci,
            UciCommand::IsReady => UciCommandView::IsReady,
            UciCommand::UciNewGame => UciCommandView::UciNewGame,
            UciCommand::Position { fen, moves } => UciCommandView::Position {
                fen: match fen {
                    Some(f) => Some(f@),
                    None => None,
                },
                moves: moves@.map_values(|m: String| m@),
            },
            UciCommand::Go { wtime, btime, movetime, winc, binc, depth } => UciCommandView::Go {
                wtime: *wtime,
                btime: *btime,
                movetime: *movetime,
                winc: *winc,
                binc: *binc,
                depth: *depth,
            },
            UciCommand::Stop => UciCommandView::Stop,
            UciCommand::Quit => UciCommandView::Quit,
            UciCommand::SetOption { name, value } => UciCommandView::SetOption {
                name: name@,
                value: value@,
            },
            UciCommand::Perft { depth } => UciCommandView::Perft { depth: *depth },
            UciCommand::Unknown => UciCommandView::Unknown,
        }
    }
}

/// ASCII whitespace, the separators the tokenizer splits on.
pub open spec fn is_ws_char(c: char) -> bool {
    c == ' ' || c == '\t' || c == '\n' || c == '\r' || c == '\u{b}' || c == '\u{c}'
}

/// Length of the leading run of non-whitespace characters.
pub open spec fn token_end(s: Seq<char>) -> int
    decreases s.len(),
{
    if s.len() == 0 || is_ws_char(s[0]) {
        0
    } else {
        1 + token_end(s.drop_first())
    }
}

pub proof fn lemma_token_end_bounds(s: Seq<char>)
    ensures
        0 <= token_end(s) <= s.len(),
        s.len() > 0 && !is_ws_char(s[0]) ==> token_end(s) >= 1,
    decreases s.len(),
{
    if s.len() > 0 && !is_ws_char(s[0]) {
        lemma_token_end_bounds(s.drop_first());
    }
}

/// The whitespace-separated tokens of a line, in order.
pub open spec fn spec_tokens(s: Seq<char>) -> Seq<Seq<char>>
    decreases s.len(),
    via spec_tokens_dec
{
    if s.len() == 0 {
        Seq::empty()
    } else if is_ws_char(s[0]) {
        spec_tokens(s.drop_first())
    } else {
        seq![s.take(token_end(s))] + spec_tokens(s.skip(token_end(s)))
    }
}

#[via_fn]
proof fn spec_tokens_dec(s: Seq<char>) {
    if s.len() > 0 && !is_ws_char(s[0]) {
        lemma_token_end_bounds(s);
    }
}

pub open spec fn is_digit(c: char) -> bool {
    ('0' as u32) <= (c as u32) <= ('9' as u32)
}

pub open spec fn all_digits(s: Seq<char>) -> bool {
    forall|i: int| 0 <= i < s.len() ==> is_digit(#[trigger] s[i])
}

/// The base-10 value of a digit string.
pub open spec fn digits_val(s: Seq<char>) -> int
    decreases s.len(),
{
    if s.len() == 0 {
        0
    } else {
        digits_val(s.drop_last()) * 10 + (s.last() as u32) - ('0' as u32)
    }
}

/// The digits of a decimal literal: everything after an optional leading
/// plus sign.
pub open spec fn spec_num_body(s: Seq<char>) -> Seq<char> {
    if s.len() > 0 && s[0] == '+' {
        s.drop_first()
    } else {
        s
    }
}

/// What Rust's unsigned decimal parser accepts: an optional leading plus
/// sign, then one or more digits whose value fits.
pub open spec fn spec_parse_u64(s: Seq<char>) -> Option<u64> {
    let body = spec_num_body(s);
    if body.len() == 0 || !all_digits(body) {
        None
    } else if digits_val(body) > u64::MAX {
        None
    } else {
        Some(digits_val(body) as u64)
    }
}

pub open spec fn spec_parse_u32(s: Seq<char>) -> Option<u32> {
    match spec_parse_u64(s) {
        Some(v) => if v <= u32::MAX {
            Some(v as u32)
        } else {
            None
        },
        None => None,
    }
}

/// The parts joined with single spaces.
pub open spec fn join_spaces(parts: Seq<Seq<char>>) -> Seq<char>
    decreases parts.len(),
{
    if parts.len() == 0 {
        Seq::empty()
    } else if parts.len() == 1 {
        parts[0]
    } else {
        parts[0] + seq![' '] + join_spaces(parts.drop_first())
    }
}

pub struct GoOpts {
    pub wtime: Option<u64>,
    pub btime: Option<u64>,
    pub movetime: Option<u64>,
    pub winc: Option<u64>,
    pub binc: Option<u64>,
    pub depth: Option<u32>,
}

/// One key/value pair of a `go` line: a recognized key overwrites its
/// option with the parse of the value, anything else changes nothing.
pub open spec fn spec_go_step(acc: GoOpts, key: Seq<char>, val: Seq<char>) -> GoOpts {
    if key == "wtime"@ {
        GoOpts { wtime: spec_parse_u64(val), ..acc }
    } else if key == "btime"@ {
        GoOpts { btime: spec_parse_u64(val), ..acc }
    } else if key == "movetime"@ {
        GoOpts { movetime: spec_parse_u64(val), ..acc }
    } else if key == "winc"@ {
        GoOpts { winc: spec_parse_u64(val), ..acc }
    } else if key == "binc"@ {
        GoOpts { binc: spec_parse_u64(val), ..acc }
    } else if key == "depth"@ {
        GoOpts { depth: spec_parse_u32(val), ..acc }
    } else {
        acc
    }
}

/// The `go` options accumulated from token `i` on, in steps of two.
pub open spec fn spec_go_opts(tokens: Seq<Seq<char>>, i: int, acc: GoOpts) -> GoOpts
    decreases tokens.len() - i,
{
    if i < 0 || i + 1 >= tokens.len() {
        acc
    } else {
        spec_go_opts(tokens, i + 2, spec_go_step(acc, tokens[i], tokens[i + 1]))
    }
}

/// The name tokens collected until a `value` keyword or the end, joined
/// onto `acc` with spaces; yields the index stopped at and the new text.
pub open spec fn spec_collect_until_value(tokens: Seq<Seq<char>>, i: int, acc: Seq<char>) -> (
    int,
    Seq<char>,
)
    decreases tokens.len() - i,
{
    if i < 0 || i >= tokens.len() || tokens[i] == "value"@ {
        (i, acc)
    } else {
        spec_collect_until_value(
            tokens,
            i + 1,
            if acc.len() == 0 {
                tokens[i]
            } else {
                acc + seq![' '] + tokens[i]
            },
        )
    }
}

/// The remaining tokens joined onto `acc` with spaces.
pub open spec fn spec_collect_rest(tokens: Seq<Seq<char>>, i: int, acc: Seq<char>) -> Seq<char>
    decreases tokens.len() - i,
{
    if i < 0 || i >= tokens.len() {
        acc
    } else {
        spec_collect_rest(
            tokens,
            i + 1,
            if acc.len() == 0 {
                tokens[i]
            } else {
                acc + seq![' '] + tokens[i]
            },
        )
    }
}

pub proof fn lemma_collect_until_value_bounds(tokens: Seq<Seq<char>>, i: int, acc: Seq<char>)
    requires
        0 <= i <= tokens.len(),
    ensures
        i <= spec_collect_until_value(tokens, i, acc).0 <= tokens.len(),
    decreases tokens.len() - i,
{
    if i < tokens.len() && tokens[i] != "value"@ {
        lemma_collect_until_value_bounds(
            tokens,
            i + 1,
            if acc.len() == 0 {
                tokens[i]
            } else {
                acc + seq![' '] + tokens[i]
            },
        );
    }
}

/// The `setoption` scan from token `i`: a `name` keyword collects tokens
/// into the name until a `value` keyword, which collects the rest into the
/// value; anything else is skipped.
pub open spec fn spec_setopt(tokens: Seq<Seq<char>>, i: int, name: Seq<char>, value: Seq<char>) -> (
    Seq<char>,
    Seq<char>,
)
    decreases tokens.len() - i,
    via spec_setopt_dec
{
    if i < 0 || i >= tokens.len() {
        (name, value)
    } else if tokens[i] == "name"@ {
        let c = spec_collect_until_value(tokens, i + 1, name);
        spec_setopt(tokens, if c.0 > i { c.0 } else { i + 1 }, c.1, value)
    } else if tokens[i] == "value"@ {
        spec_setopt(tokens, tokens.len() as int, name, spec_collect_rest(tokens, i + 1, value))
    } else {
        spec_setopt(tokens, i + 1, name, value)
    }
}

#[via_fn]
proof fn spec_setopt_dec(tokens: Seq<Seq<char>>, i: int, name: Seq<char>, value: Seq<char>) {
    if 0 <= i < tokens.len() && tokens[i] == "name"@ {
        lemma_collect_until_value_bounds(tokens, i + 1, name);
    }
}

/// What one line of input parses to.
pub open spec fn spec_parse_command(input: Seq<char>) -> UciCommandView {
    let tokens = spec_tokens(input);
    if tokens.len() == 0 {
        UciCommandView::Unknown
    } else if tokens[0] == "uci"@ {
        UciCommandView::Uci
    } else if tokens[0] == "isready"@ {
        UciCommandView::IsReady
    } else if tokens[0] == "ucinewgame"@ {
        UciCommandView::UciNewGame
    } else if tokens[0] == "stop"@ {
        UciCommandView::Stop
    } else if tokens[0] == "quit"@ {
        UciCommandView::Quit
    } else if tokens[0] == "position"@ {
        spec_position_cmd(tokens)
    } else if tokens[0] == "go"@ {
        let o = spec_go_opts(
            tokens,
            1,
            GoOpts {
                wtime: None,
                btime: None,
                movetime: None,
                winc: None,
                binc: None,
                depth: None,
            },
        );
        UciCommandView::Go {
            wtime: o.wtime,
            btime: o.btime,
            movetime: o.movetime,
            winc: o.winc,
            binc: o.binc,
            depth: o.depth,
        }
    } else if tokens[0] == "setoption"@ {
        let nv = spec_setopt(tokens, 1, Seq::empty(), Seq::empty());
        UciCommandView::SetOption { name: nv.0, value: nv.1 }
    } else if tokens[0] == "perft"@ {
        if tokens.len() >= 2 && spec_parse_u32(tokens[1]) is Some {
            UciCommandView::Perft { depth: spec_parse_u32(tokens[1])->0 }
        } else {
            UciCommandView::Perft { depth: 1 }
        }
    } else {
        UciCommandView::Unknown
    }
}

/// A `position` line: `startpos` or six joined FEN fields, then an
/// optional `moves` list. A `fen` form with fewer than six fields is not a
/// command.
pub open spec fn spec_position_cmd(tokens: Seq<Seq<char>>) -> UciCommandView {
    let after: int = if tokens.len() >= 2 && tokens[1] == "startpos"@ {
        2
    } else if tokens.len() >= 2 && tokens[1] == "fen"@ {
        8
    } else {
        1
    };
    if tokens.len() >= 2 && tokens[1] == "fen"@ && tokens.len() < 8 {
        UciCommandView::Unknown
    } else {
        let fen: Option<Seq<char>> = if tokens.len() >= 2 && tokens[1] == "fen"@ {
            Some(join_spaces(tokens.subrange(2, 8)))
        } else {
            None
        };
        let moves: Seq<Seq<char>> = if after < tokens.len() && tokens[after] == "moves"@ {
            tokens.subrange(after + 1, tokens.len() as int)
        } else {
            Seq::empty()
        };
        UciCommandView::Position { fen, moves }
    }
}

fn is_ws(c: char) -> (r: bool)
    ensures
        r == is_ws_char(c),
{
    c == ' ' || c == '\t' || c == '\n' || c == '\r' || c == '\u{b}' || c == '\u{c}'
}

/// Character-for-character string equality.
fn str_eq(a: &str, b: &str) -> (r: bool)
    ensures
        r == (a@ == b@),
{
    let na = a.unicode_len();
    let nb = b.unicode_len();
    if na != nb {
        return false;
    }
    let mut i: usize = 0;
    while i < na
        invariant
            na == a@.len(),
            na == b@.len(),
            i <= na,
            forall|k: int| 0 <= k < i ==> a@[k] == b@[k],
        decreases na - i,
    {
        if a.get_char(i) != b.get_char(i) {
            return false;
        }
        i = i + 1;
    }
    proof {
        assert(a@ =~= b@);
    }
    true
}

proof fn lemma_tokens_skip_ws(s: Seq<char>, i: int)
    requires
        0 <= i < s.len(),
        is_ws_char(s[i]),
    ensures
        spec_tokens(s.skip(i)) == spec_tokens(s.skip(i + 1)),
{
    assert(s.skip(i).drop_first() =~= s.skip(i + 1));
}

proof fn lemma_token_end_char(s: Seq<char>, k: int)
    requires
        0 <= k <= s.len(),
        forall|x: int| 0 <= x < k ==> !is_ws_char(#[trigger] s[x]),
        k == s.len() || is_ws_char(s[k]),
    ensures
        token_end(s) == k,
    decreases s.len(),
{
    if k > 0 {
        let t = s.drop_first();
        assert(forall|x: int| 0 <= x < k - 1 ==> !is_ws_char(#[trigger] t[x]));
        lemma_token_end_char(t, k - 1);
    }
}

proof fn lemma_token_extract(s: Seq<char>, i: int, j: int)
    requires
        0 <= i < j <= s.len(),
        forall|x: int| i <= x < j ==> !is_ws_char(#[trigger] s[x]),
        j == s.len() || is_ws_char(s[j]),
    ensures
        spec_tokens(s.skip(i)) == seq![s.subrange(i, j)] + spec_tokens(s.skip(j)),
{
    let t = s.skip(i);
    assert(forall|x: int| 0 <= x < j - i ==> !is_ws_char(#[trigger] t[x]));
    lemma_token_end_char(t, j - i);
    assert(t.take(j - i) =~= s.subrange(i, j));
    assert(t.skip(j - i) =~= s.skip(j));
}

/// Splits a line into its whitespace-separated tokens.
fn tokenize(s: &str) -> (toks: Vec<String>)
    ensures
        toks@.map_values(|t: String| t@) == spec_tokens(s@),
{
    let n = s.unicode_len();
    let mut toks: Vec<String> = Vec::new();
    proof {
        assert(s@.skip(0) =~= s@);
        assert(toks@.map_values(|t: String| t@) =~= Seq::<Seq<char>>::empty());
    }
    let mut i: usize = 0;
    while i < n
        invariant
            n == s@.len(),
            i <= n,
            spec_tokens(s@) == toks@.map_values(|t: String| t@) + spec_tokens(s@.skip(i as int)),
        decreases n - i,
    {
        if is_ws(s.get_char(i)) {
            proof {
                lemma_tokens_skip_ws(s@, i as int);
            }
            i = i + 1;
        } else {
            let start = i;
            let mut j = i + 1;
            while j < n && !is_ws(s.get_char(j))
                invariant
                    n == s@.len(),
                    start < j <= n,
                    forall|x: int| start <= x < j ==> !is_ws_char(#[trigger] s@[x]),
                decreases n - j,
            {
                j = j + 1;
            }
            let tok = s.substring_char(start, j).to_owned();
            proof {
                lemma_token_extract(s@, start as int, j as int);
                let f = |t: String| t@;
                assert(toks@.push(tok).map_values(f) =~= toks@.map_values(f).push(tok@));
                assert(toks@.map_values(f).push(tok@) =~= toks@.map_values(f) + seq![
                    s@.subrange(start as int, j as int),
                ]);
            }
            toks.push(tok);
            i = j;
        }
    }
    proof {
        assert(s@.skip(n as int) =~= Seq::<char>::empty());
        assert(spec_tokens(Seq::<char>::empty()) =~= Seq::<Seq<char>>::empty());
        assert(toks@.map_values(|t: String| t@) + Seq::<Seq<char>>::empty() =~= toks@.map_values(
            |t: String| t@,
        ));
    }
    toks
}

proof fn lemma_digits_nonneg(s: Seq<char>)
    requires
        all_digits(s),
    ensures
        digits_val(s) >= 0,
    decreases s.len(),
{
    if s.len() > 0 {
        assert(all_digits(s.drop_last()));
        lemma_digits_nonneg(s.drop_last());
    }
}

proof fn lemma_digits_prefix(s: Seq<char>, k: int)
    requires
        all_digits(s),
        0 <= k <= s.len(),
    ensures
        digits_val(s.take(k)) <= digits_val(s),
    decreases s.len(),
{
    if k == s.len() {
        assert(s.take(k) =~= s);
    } else {
        let d = s.drop_last();
        assert(all_digits(d));
        lemma_digits_nonneg(d);
        assert(s.take(k) =~= d.take(k));
        lemma_digits_prefix(d, k);
    }
}

/// Parses an unsigned 64-bit decimal number as Rust's parser does: an
/// optional leading plus, then digits; anything else, or a value out of
/// range, is rejected.
pub fn parse_u64(s: &str) -> (r: Option<u64>)
    ensures
        r == spec_parse_u64(s@),
{
    let n = s.unicode_len();
    let mut start: usize = 0;
    if n > 0 && s.get_char(0) == '+' {
        start = 1;
    }
    let ghost body = spec_num_body(s@);
    proof {
        assert(body =~= s@.subrange(start as int, n as int));
    }
    if start >= n {
        return None;
    }
    let mut val: u64 = 0;
    let mut i = start;
    while i < n
        invariant
            n == s@.len(),
            start <= i <= n,
            start < n,
            body == spec_num_body(s@),
            body == s@.subrange(start as int, n as int),
            forall|k: int| start <= k < i ==> is_digit(#[trigger] s@[k]),
            val == digits_val(body.take(i - start)),
        decreases n - i,
    {
        let c = s.get_char(i);
        let cu = c as u32;
        if cu < 48 || cu > 57 {
            proof {
                assert(('0' as u32) == 48 && ('9' as u32) == 57);
                assert(body[i - start] == s@[i as int]);
                assert(!is_digit(s@[i as int]));
                assert(!all_digits(body));
            }
            return None;
        }
        proof {
            assert(('0' as u32) == 48 && ('9' as u32) == 57);
            assert(is_digit(s@[i as int]));
        }
        let d = (cu - 48) as u64;
        proof {
            assert(body.take(i - start + 1).drop_last() =~= body.take(i - start));
            assert(body.take(i - start + 1).last() == s@[i as int]);
        }
        if val > (u64::MAX - d) / 10 {
            proof {
                assert(val * 10 + d > u64::MAX) by (nonlinear_arith)
                    requires
                        val > (u64::MAX - d) / 10,
                        0 <= d <= 9,
                        val >= 0,
                ;
                if all_digits(body) {
                    lemma_digits_prefix(body, i - start + 1);
                    assert(digits_val(body) > u64::MAX);
                }
            }
            return None;
        }
        val = val * 10 + d;
        i = i + 1;
    }
    proof {
        assert(body.take(n - start) =~= body);
        assert(all_digits(body));
    }
    Some(val)
}

/// Parses an unsigned 32-bit decimal number, as Rust's parser does.
pub fn parse_u32(s: &str) -> (r: Option<u32>)
    ensures
        r == spec_parse_u32(s@),
{
    match parse_u64(s) {
        Some(v) => if v <= u32::MAX as u64 {
            Some(v as u32)
        } else {
            None
        },
        None => None,
    }
}

proof fn lemma_join_snoc(parts: Seq<Seq<char>>, t: Seq<char>)
    requires
        parts.len() >= 1,
    ensures
        join_spaces(parts.push(t)) == join_spaces(parts) + seq![' '] + t,
    decreases parts.len(),
{
    if parts.len() == 1 {
        let p = parts.push(t);
        assert(p.drop_first() =~= seq![t]);
        assert(join_spaces(seq![t]) == t);
        assert(p[0] == parts[0]);
    } else {
        assert(parts.push(t).drop_first() =~= parts.drop_first().push(t));
        lemma_join_snoc(parts.drop_first(), t);
        assert(parts.push(t)[0] == parts[0]);
        assert(parts[0] + seq![' '] + (join_spaces(parts.drop_first()) + seq![' '] + t) =~= (
        parts[0] + seq![' '] + join_spaces(parts.drop_first())) + seq![' '] + t);
    }
}

/// Parses one line of UCI input.
pub fn parse_command(input: &str) -> (r: UciCommand)
    ensures
        r@ == spec_parse_command(input@),
{
    let tokens = tokenize(input);
    let ghost tv = spec_tokens(input@);
    proof {
        assert(tv == tokens@.map_values(|t: String| t@));
    }
    if tokens.len() == 0 {
        return UciCommand::Unknown;
    }
    proof {
        assert(tv[0] == tokens@[0]@);
    }
    if str_eq(tokens[0].as_str(), "uci") {
        return UciCommand::Uci;
    }
    if str_eq(tokens[0].as_str(), "isready") {
        return UciCommand::IsReady;
    }
    if str_eq(tokens[0].as_str(), "ucinewgame") {
        return UciCommand::UciNewGame;
    }
    if str_eq(tokens[0].as_str(), "stop") {
        return UciCommand::Stop;
    }
    if str_eq(tokens[0].as_str(), "quit") {
        return UciCommand::Quit;
    }
    if str_eq(tokens[0].as_str(), "position") {
        return parse_position(&tokens, Ghost(tv));
    }
    if str_eq(tokens[0].as_str(), "go") {
        return parse_go(&tokens, Ghost(tv));
    }
    if str_eq(tokens[0].as_str(), "setoption") {
        return parse_setoption(&tokens, Ghost(tv));
    }
    if str_eq(tokens[0].as_str(), "perft") {
        if tokens.len() >= 2 {
            proof {
                assert(tv[1] == tokens@[1]@);
            }
            if let Some(depth) = parse_u32(tokens[1].as_str()) {
                return UciCommand::Perft { depth };
            }
            return UciCommand::Perft { depth: 1 };
        }
        return UciCommand::Perft { depth: 1 };
    }
    UciCommand::Unknown
}

fn parse_position(tokens: &Vec<String>, Ghost(tv): Ghost<Seq<Seq<char>>>) -> (r: UciCommand)
    requires
        tv == tokens@.map_values(|t: String| t@),
        tokens@.len() >= 1,
        tv[0] == "position"@,
    ensures
        r@ == spec_position_cmd(tv),
{
    let has_startpos = tokens.len() >= 2 && str_eq(tokens[1].as_str(), "startpos");
    let has_fen = tokens.len() >= 2 && str_eq(tokens[1].as_str(), "fen");
    proof {
        if tokens@.len() >= 2 {
            assert(tv[1] == tokens@[1]@);
        }
        reveal_strlit("startpos");
        reveal_strlit("fen");
        assert("startpos"@.len() == 8 && "fen"@.len() == 3);
    }
    if has_fen && tokens.len() < 8 {
        return UciCommand::Unknown;
    }
    let mut after: usize = 1;
    let mut fen: Option<String> = None;
    if has_startpos {
        after = 2;
    }
    if has_fen {
        let mut f = tokens[2].clone();
        proof {
            assert(tv[2] == tokens@[2]@);
            assert(tv.subrange(2, 3) =~= seq![tv[2]]);
            assert(join_spaces(seq![tv[2]]) == tv[2]);
        }
        let mut k: usize = 3;
        while k < 8
            invariant
                tv == tokens@.map_values(|t: String| t@),
                tokens@.len() >= 8,
                3 <= k <= 8,
                f@ == join_spaces(tv.subrange(2, k as int)),
            decreases 8 - k,
        {
            proof {
                assert(tv[k as int] == tokens@[k as int]@);
                assert(tv.subrange(2, k + 1) =~= tv.subrange(2, k as int).push(tv[k as int]));
                lemma_join_snoc(tv.subrange(2, k as int), tv[k as int]);
            }
            f.append(" ");
            proof {
                reveal_strlit(" ");
                assert(" "@ =~= seq![' ']);
            }
            f.append(tokens[k].as_str());
            k = k + 1;
        }
        fen = Some(f);
        after = 8;
    }
    let mut moves: Vec<String> = Vec::new();
    proof {
        if after < tokens@.len() {
            assert(tv[after as int] == tokens@[after as int]@);
        }
    }
    if after < tokens.len() && str_eq(tokens[after].as_str(), "moves") {
        proof {
            assert(moves@.map_values(|t: String| t@) =~= tv.subrange(
                after + 1,
                after + 1,
            ));
        }
        let mut k = after + 1;
        while k < tokens.len()
            invariant
                tv == tokens@.map_values(|t: String| t@),
                after + 1 <= k <= tokens@.len(),
                moves@.map_values(|t: String| t@) == tv.subrange(after + 1, k as int),
            decreases tokens@.len() - k,
        {
            let t = tokens[k].clone();
            proof {
                let fview = |t: String| t@;
                assert(tv[k as int] == tokens@[k as int]@);
                assert(moves@.push(t).map_values(fview) =~= moves@.map_values(fview).push(t@));
                assert(moves@.map_values(fview).push(t@) =~= tv.subrange(after + 1, k + 1));
            }
            moves.push(t);
            k = k + 1;
        }
        proof {
            assert(tv.subrange(after + 1, tv.len() as int) == moves@.map_values(
                |t: String| t@,
            ));
        }
    } else {
        proof {
            assert(moves@.map_values(|t: String| t@) =~= Seq::<Seq<char>>::empty());
        }
    }
    UciCommand::Position { fen, moves }
}

fn parse_go(tokens: &Vec<String>, Ghost(tv): Ghost<Seq<Seq<char>>>) -> (r: UciCommand)
    requires
        tv == tokens@.map_values(|t: String| t@),
        tokens@.len() >= 1,
    ensures
        r@ == ({
            let o = spec_go_opts(
                tv,
                1,
                GoOpts {
                    wtime: None,
                    btime: None,
                    movetime: None,
                    winc: None,
                    binc: None,
                    depth: None,
                },
            );
            UciCommandView::Go {
                wtime: o.wtime,
                btime: o.btime,
                movetime: o.movetime,
                winc: o.winc,
                binc: o.binc,
                depth: o.depth,
            }
        }),
{
    let ghost init = GoOpts {
        wtime: None,
        btime: None,
        movetime: None,
        winc: None,
        binc: None,
        depth: None,
    };
    let mut wtime: Option<u64> = None;
    let mut btime: Option<u64> = None;
    let mut movetime: Option<u64> = None;
    let mut winc: Option<u64> = None;
    let mut binc: Option<u64> = None;
    let mut depth: Option<u32> = None;

    let mut i: usize = 1;
    while i < tokens.len() && i + 1 < tokens.len()
        invariant
            tv == tokens@.map_values(|t: String| t@),
            1 <= i,
            spec_go_opts(tv, 1, init) == spec_go_opts(
                tv,
                i as int,
                GoOpts { wtime, btime, movetime, winc, binc, depth },
            ),
        decreases tokens@.len() - i,
    {
        proof {
            assert(tv[i as int] == tokens@[i as int]@);
            assert(tv[i + 1] == tokens@[i + 1]@);
        }
        if str_eq(tokens[i].as_str(), "wtime") {
            wtime = parse_u64(tokens[i + 1].as_str());
        } else if str_eq(tokens[i].as_str(), "btime") {
            btime = parse_u64(tokens[i + 1].as_str());
        } else if str_eq(tokens[i].as_str(), "movetime") {
            movetime = parse_u64(tokens[i + 1].as_str());
        } else if str_eq(tokens[i].as_str(), "winc") {
            winc = parse_u64(tokens[i + 1].as_str());
        } else if str_eq(tokens[i].as_str(), "binc") {
            binc = parse_u64(tokens[i + 1].as_str());
        } else if str_eq(tokens[i].as_str(), "depth") {
            depth = parse_u32(tokens[i + 1].as_str());
        }
        i = i + 2;
    }
    UciCommand::Go { wtime, btime, movetime, winc, binc, depth }
}

fn parse_setoption(tokens: &Vec<String>, Ghost(tv): Ghost<Seq<Seq<char>>>) -> (r: UciCommand)
    requires
        tv == tokens@.map_values(|t: String| t@),
        tokens@.len() >= 1,
    ensures
        r@ == ({
            let nv = spec_setopt(tv, 1, Seq::empty(), Seq::empty());
            UciCommandView::SetOption { name: nv.0, value: nv.1 }
        }),
{
    let mut name = String::new();
    let mut value = String::new();
    let mut i: usize = 1;
    while i < tokens.len()
        invariant
            tv == tokens@.map_values(|t: String| t@),
            1 <= i,
            spec_setopt(tv, 1, Seq::empty(), Seq::empty()) == spec_setopt(
                tv,
                i as int,
                name@,
                value@,
            ),
        decreases tokens@.len() - i,
    {
        proof {
            assert(tv[i as int] == tokens@[i as int]@);
        }
        if str_eq(tokens[i].as_str(), "name") {
            let ghost entry = i as int;
            let ghost name0 = name@;
            i = i + 1;
            while i < tokens.len() && !str_eq(tokens[i].as_str(), "value")
                invariant
                    tv == tokens@.map_values(|t: String| t@),
                    entry + 1 <= i <= tokens@.len(),
                    spec_collect_until_value(tv, entry + 1, name0) == spec_collect_until_value(
                        tv,
                        i as int,
                        name@,
                    ),
                decreases tokens@.len() - i,
            {
                proof {
                    assert(tv[i as int] == tokens@[i as int]@);
                }
                append_token(&mut name, tokens[i].as_str());
                i = i + 1;
            }
            proof {
                if i < tokens@.len() {
                    assert(tv[i as int] == tokens@[i as int]@);
                }
                assert(spec_collect_until_value(tv, i as int, name@) == (i as int, name@));
            }
        } else if str_eq(tokens[i].as_str(), "value") {
            let ghost entry = i as int;
            let ghost value0 = value@;
            i = i + 1;
            while i < tokens.len()
                invariant
                    tv == tokens@.map_values(|t: String| t@),
                    entry + 1 <= i <= tokens@.len(),
                    spec_setopt(tv, 1, Seq::empty(), Seq::empty()) == spec_setopt(
                        tv,
                        tv.len() as int,
                        name@,
                        spec_collect_rest(tv, i as int, value@),
                    ),
                decreases tokens@.len() - i,
            {
                proof {
                    assert(tv[i as int] == tokens@[i as int]@);
                }
                append_token(&mut value, tokens[i].as_str());
                i = i + 1;
            }
            proof {
                assert(spec_collect_rest(tv, i as int, value@) == value@);
            }
        } else {
            i = i + 1;
        }
    }
    UciCommand::SetOption { name, value }
}

/// The file letter of a square's file index.
pub open spec fn spec_file_char(f: u8) -> char {
    if f == 0 {
        'a'
    } else if f == 1 {
        'b'
    } else if f == 2 {
        'c'
    } else if f == 3 {
        'd'
    } else if f == 4 {
        'e'
    } else if f == 5 {
        'f'
    } else if f == 6 {
        'g'
    } else {
        'h'
    }
}

/// The rank digit of a square's rank index.
pub open spec fn spec_rank_char(r: u8) -> char {
    if r == 0 {
        '1'
    } else if r == 1 {
        '2'
    } else if r == 2 {
        '3'
    } else if r == 3 {
        '4'
    } else if r == 4 {
        '5'
    } else if r == 5 {
        '6'
    } else if r == 6 {
        '7'
    } else {
        '8'
    }
}

/// A square's two-character name, file letter then rank digit.
pub open spec fn spec_sq_chars(sq: u8) -> Seq<char> {
    seq![spec_file_char((sq % 8) as u8), spec_rank_char((sq / 8) as u8)]
}

/// The lowercase letter of a role, used for promotion suffixes.
pub open spec fn spec_role_char(role: u8) -> char {
    if role == 1 {
        'p'
    } else if role == 2 {
        'n'
    } else if role == 3 {
        'b'
    } else if role == 4 {
        'r'
    } else if role == 5 {
        'q'
    } else {
        'k'
    }
}

/// The uppercase letter of a role, used for drops.
pub open spec fn spec_role_upper(role: u8) -> char {
    if role == 1 {
        'P'
    } else if role == 2 {
        'N'
    } else if role == 3 {
        'B'
    } else if role == 4 {
        'R'
    } else if role == 5 {
        'Q'
    } else {
        'K'
    }
}

/// Where the king lands when castling: the g-file for a king-side rook,
/// the c-file for a queen-side one, on the king's own rank.
pub open spec fn spec_castle_target(king: u8, rook: u8) -> u8 {
    ((king / 8) * 8 + if king < rook {
        6u8
    } else {
        2u8
    }) as u8
}

/// A move's long algebraic (UCI) notation: origin and target squares, a
/// promotion letter when there is one; castling as the king's move to its
/// target square; a drop as the role letter, `@`, and the square.
pub open spec fn spec_move_uci(m: Mv) -> Seq<char> {
    match m {
        Mv::Normal { from, to, promotion, .. } => spec_sq_chars(from) + spec_sq_chars(to) + (
        if promotion == 0 {
            Seq::<char>::empty()
        } else {
            seq![spec_role_char(promotion)]
        }),
        Mv::EnPassant { from, to } => spec_sq_chars(from) + spec_sq_chars(to),
        Mv::Castle { king, rook } => spec_sq_chars(king) + spec_sq_chars(
            spec_castle_target(king, rook),
        ),
        Mv::Put { role, to } => seq![spec_role_upper(role), '@'] + spec_sq_chars(to),
    }
}

fn file_str(f: u8) -> (r: &'static str)
    requires
        f < 8,
    ensures
        r@ == seq![spec_file_char(f)],
{
    proof {
        reveal_strlit("a");
        reveal_strlit("b");
        reveal_strlit("c");
        reveal_strlit("d");
        reveal_strlit("e");
        reveal_strlit("f");
        reveal_strlit("g");
        reveal_strlit("h");
        assert("a"@ =~= seq!['a']);
        assert("b"@ =~= seq!['b']);
        assert("c"@ =~= seq!['c']);
        assert("d"@ =~= seq!['d']);
        assert("e"@ =~= seq!['e']);
        assert("f"@ =~= seq!['f']);
        assert("g"@ =~= seq!['g']);
        assert("h"@ =~= seq!['h']);
    }
    if f == 0 {
        "a"
    } else if f == 1 {
        "b"
    } else if f == 2 {
        "c"
    } else if f == 3 {
        "d"
    } else if f == 4 {
        "e"
    } else if f == 5 {
        "f"
    } else if f == 6 {
        "g"
    } else {
        "h"
    }
}

fn rank_str(r: u8) -> (s: &'static str)
    requires
        r < 8,
    ensures
        s@ == seq![spec_rank_char(r)],
{
    proof {
        reveal_strlit("1");
        reveal_strlit("2");
        reveal_strlit("3");
        reveal_strlit("4");
        reveal_strlit("5");
        reveal_strlit("6");
        reveal_strlit("7");
        reveal_strlit("8");
        assert("1"@ =~= seq!['1']);
        assert("2"@ =~= seq!['2']);
        assert("3"@ =~= seq!['3']);
        assert("4"@ =~= seq!['4']);
        assert("5"@ =~= seq!['5']);
        assert("6"@ =~= seq!['6']);
        assert("7"@ =~= seq!['7']);
        assert("8"@ =~= seq!['8']);
    }
    if r == 0 {
        "1"
    } else if r == 1 {
        "2"
    } else if r == 2 {
        "3"
    } else if r == 3 {
        "4"
    } else if r == 4 {
        "5"
    } else if r == 5 {
        "6"
    } else if r == 6 {
        "7"
    } else {
        "8"
    }
}

fn role_str(role: u8) -> (s: &'static str)
    requires
        1 <= role <= 6,
    ensures
        s@ == seq![spec_role_char(role)],
{
    proof {
        reveal_strlit("p");
        reveal_strlit("n");
        reveal_strlit("b");
        reveal_strlit("r");
        reveal_strlit("q");
        reveal_strlit("k");
        assert("p"@ =~= seq!['p']);
        assert("n"@ =~= seq!['n']);
        assert("b"@ =~= seq!['b']);
        assert("r"@ =~= seq!['r']);
        assert("q"@ =~= seq!['q']);
        assert("k"@ =~= seq!['k']);
    }
    if role == 1 {
        "p"
    } else if role == 2 {
        "n"
    } else if role == 3 {
        "b"
    } else if role == 4 {
        "r"
    } else if role == 5 {
        "q"
    } else {
        "k"
    }
}

fn role_upper_str(role: u8) -> (s: &'static str)
    requires
        1 <= role <= 6,
    ensures
        s@ == seq![spec_role_upper(role), '@'],
{
    proof {
        reveal_strlit("P@");
        reveal_strlit("N@");
        reveal_strlit("B@");
        reveal_strlit("R@");
        reveal_strlit("Q@");
        reveal_strlit("K@");
        assert("P@"@ =~= seq!['P', '@']);
        assert("N@"@ =~= seq!['N', '@']);
        assert("B@"@ =~= seq!['B', '@']);
        assert("R@"@ =~= seq!['R', '@']);
        assert("Q@"@ =~= seq!['Q', '@']);
        assert("K@"@ =~= seq!['K', '@']);
    }
    if role == 1 {
        "P@"
    } else if role == 2 {
        "N@"
    } else if role == 3 {
        "B@"
    } else if role == 4 {
        "R@"
    } else if role == 5 {
        "Q@"
    } else {
        "K@"
    }
}

/// Appends a square's two-character name.
fn append_sq(s: &mut String, sq: u8)
    requires
        sq < 64,
    ensures
        final(s)@ == old(s)@ + spec_sq_chars(sq),
{
    s.append(file_str(sq % 8));
    s.append(rank_str(sq / 8));
    proof {
        assert((old(s)@ + seq![spec_file_char((sq % 8) as u8)]) + seq![
            spec_rank_char((sq / 8) as u8),
        ] =~= old(s)@ + spec_sq_chars(sq));
    }
}

/// Renders a move in long algebraic UCI notation, e.g. `e2e4` or `e7e8q`;
/// castling appears as the king's two-square move.
pub fn move_to_uci(m: &Mv) -> (r: String)
    requires
        m.wf(),
    ensures
        r@ == spec_move_uci(*m),
{
    let mut s = String::new();
    match *m {
        Mv::Normal { from, to, promotion, .. } => {
            append_sq(&mut s, from);
            append_sq(&mut s, to);
            if promotion != 0 {
                s.append(role_str(promotion));
            }
            proof {
                if m->Normal_promotion == 0 {
                    assert(s@ =~= spec_move_uci(*m));
                } else {
                    assert(s@ =~= spec_move_uci(*m));
                }
            }
        },
        Mv::EnPassant { from, to } => {
            append_sq(&mut s, from);
            append_sq(&mut s, to);
            proof {
                assert(s@ =~= spec_move_uci(*m));
            }
        },
        Mv::Castle { king, rook } => {
            append_sq(&mut s, king);
            let file: u8 = if king < rook {
                6
            } else {
                2
            };
            append_sq(&mut s, (king / 8) * 8 + file);
            proof {
                assert(s@ =~= spec_move_uci(*m));
            }
        },
        Mv::Put { role, to } => {
            s.append(role_upper_str(role));
            append_sq(&mut s, to);
            proof {
                assert(s@ =~= spec_move_uci(*m));
            }
        },
    }
    s
}

/// Appends a token to accumulated option text, separating with a space
/// when text is already there.
fn append_token(acc: &mut String, t: &str)
    ensures
        final(acc)@ == if old(acc)@.len() == 0 {
            t@
        } else {
            old(acc)@ + seq![' '] + t@
        },
{
    if acc.as_str().unicode_len() > 0 {
        acc.append(" ");
        proof {
            reveal_strlit(" ");
            assert(" "@ =~= seq![' ']);
        }
        acc.append(t);
        proof {
            assert((old(acc)@ + seq![' ']) + t@ =~= old(acc)@ + seq![' '] + t@);
        }
    } else {
        acc.append(t);
        proof {
            assert(old(acc)@ + t@ =~= t@);
        }
    }
}

} // verus!
