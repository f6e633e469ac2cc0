//! Loading Sokoban level packs: tokenizing the level text, grouping the
//! tokens into levels, building boards and entities, and the outer-tile
//! culling pass that reclassifies unreachable floor as empty space.
//!
//! The level format cannot distinguish floor the player can stand on
//! from space outside the building's footprint: both are blank. Culling
//! runs a flood fill inward from the grid boundary: a floor cell is
//! *exterior* when a path of floor cells connects it to a *seed* — a
//! floor cell on the boundary, or one next to an already-empty cell —
//! and every exterior floor cell becomes `Empty`.

use vstd::prelude::*;

use vstd::slice::slice_index_get;
use vstd::slice::slice_subrange;

use crate::grid::Board;
use crate::grid::grid_rect;
use crate::types::Coordinate;
use crate::types::Entity;
use crate::types::Tile;
use crate::types::World;
use crate::types::coord_in_grid;

verus! {

/// One lexical element of the level-pack text: a title line's text, a
/// tile character, or a row boundary.
#[derive(Debug, Clone, PartialEq)]
pub enum Token {
    Text(String),
    Wall,
    Player,
    SokoBox,
    Goal,
    SokoBoxAndGoal,
    PlayerAndGoal,
    Empty,
    NewLine,
}

/// The mathematical shape of a token: title text as a character
/// sequence, the rest as plain tags.
pub enum SpecToken {
    Text(Seq<char>),
    Wall,
    Player,
    SokoBox,
    Goal,
    SokoBoxAndGoal,
    PlayerAndGoal,
    Empty,
    NewLine,
}

impl View for Token {
    type V = SpecToken;

    open spec fn view(&self) -> SpecToken {
        match self {
            Token::Text(s) => SpecToken::Text(s@),
            Token::Wall => SpecToken::Wall,
            Token::Player => SpecToken::Player,
            Token::SokoBox => SpecToken::SokoBox,
            Token::Goal => SpecToken::Goal,
            Token::SokoBoxAndGoal => SpecToken::SokoBoxAndGoal,
            Token::PlayerAndGoal => SpecToken::PlayerAndGoal,
            Token::Empty => SpecToken::Empty,
            Token::NewLine => SpecToken::NewLine,
        }
    }
}

/// The views of a sequence of tokens.
pub open spec fn toks_view(ts: Seq<Token>) -> Seq<SpecToken> {
    ts.map_values(|t: Token| t@)
}

/// Appending a token appends its view.
proof fn lemma_toks_view_push(ts: Seq<Token>, t: Token)
    ensures
        toks_view(ts.push(t)) =~= toks_view(ts).push(t@),
{
    assert forall|i: int| 0 <= i < ts.len() + 1 implies toks_view(ts.push(t))[i] == toks_view(
        ts,
    ).push(t@)[i] by {
        if i < ts.len() {
            assert(ts.push(t)[i] == ts[i]);
        } else {
            assert(ts.push(t)[i] == t);
        }
    }
}

/// Copies one token; title text is cloned.
fn copy_token(t: &Token) -> (r: Token)
    ensures
        r@ == t@,
{
    match t {
        Token::Text(s) => Token::Text(s.clone()),
        Token::Wall => Token::Wall,
        Token::Player => Token::Player,
        Token::SokoBox => Token::SokoBox,
        Token::Goal => Token::Goal,
        Token::SokoBoxAndGoal => Token::SokoBoxAndGoal,
        Token::PlayerAndGoal => Token::PlayerAndGoal,
        Token::Empty => Token::Empty,
        Token::NewLine => Token::NewLine,
    }
}

/// The characters a board row may use.
pub open spec fn is_cell_char(c: char) -> bool {
    c == '#' || c == '@' || c == '$' || c == '.' || c == '*' || c == '+' || c == ' '
}

/// The token of one board-row character.
pub open spec fn spec_cell_token(c: char) -> SpecToken {
    if c == '#' {
        SpecToken::Wall
    } else if c == '@' {
        SpecToken::Player
    } else if c == '$' {
        SpecToken::SokoBox
    } else if c == '.' {
        SpecToken::Goal
    } else if c == '*' {
        SpecToken::SokoBoxAndGoal
    } else if c == '+' {
        SpecToken::PlayerAndGoal
    } else {
        SpecToken::Empty
    }
}

/// A title line's text: everything after the marker and exactly one
/// further character. The two-character strip is deliberate.
pub open spec fn spec_title_of(line: Seq<char>) -> Seq<char> {
    if line.len() >= 2 {
        line.subrange(2, line.len() as int)
    } else {
        Seq::empty()
    }
}

/// The tokens of one line: a title line yields its text, a blank line
/// yields nothing, a row of tile characters yields one token per
/// character plus a row boundary, and any other character fails the
/// whole tokenization.
pub open spec fn spec_line_tokens(line: Seq<char>) -> Option<Seq<SpecToken>> {
    if line.len() > 0 && line[0] == ';' {
        Some(seq![SpecToken::Text(spec_title_of(line))])
    } else if line.len() == 0 {
        Some(Seq::empty())
    } else if forall|k: int| 0 <= k < line.len() ==> is_cell_char(#[trigger] line[k]) {
        Some(line.map_values(|c: char| spec_cell_token(c)).push(SpecToken::NewLine))
    } else {
        None
    }
}

/// The position of the first newline, or the length when there is none.
pub open spec fn find_newline(s: Seq<char>) -> int
    decreases s.len(),
{
    if s.len() == 0 {
        0
    } else if s[0] == '\n' {
        0
    } else {
        1 + find_newline(s.skip(1))
    }
}

/// A line that arrived before a newline drops one trailing carriage
/// return, as `str::lines` does.
pub open spec fn strip_cr(line: Seq<char>) -> Seq<char> {
    if line.len() > 0 && line.last() == '\r' {
        line.drop_last()
    } else {
        line
    }
}

/// The lines of the text, split at newlines; a final line needs no
/// terminator.
pub open spec fn spec_split_lines(s: Seq<char>) -> Seq<Seq<char>>
    decreases s.len(),
    via spec_split_lines_dec
{
    if s.len() == 0 {
        Seq::empty()
    } else {
        let i = find_newline(s);
        if i == s.len() {
            seq![s]
        } else {
            seq![strip_cr(s.subrange(0, i))] + spec_split_lines(s.subrange(i + 1, s.len() as int))
        }
    }
}

/// `find_newline` stays within the sequence.
proof fn lemma_find_newline_bounds(s: Seq<char>)
    ensures
        0 <= find_newline(s) <= s.len(),
    decreases s.len(),
{
    if s.len() == 0 {
    } else if s[0] == '\n' {
    } else {
        lemma_find_newline_bounds(s.skip(1));
    }
}

#[via_fn]
proof fn spec_split_lines_dec(s: Seq<char>) {
    lemma_find_newline_bounds(s);
}

/// The tokens of a sequence of lines, or failure if any line fails.
pub open spec fn spec_tokenize_lines(lines: Seq<Seq<char>>) -> Option<Seq<SpecToken>>
    decreases lines.len(),
{
    if lines.len() == 0 {
        Some(Seq::empty())
    } else {
        match spec_line_tokens(lines[0]) {
            Option::None => Option::None,
            Option::Some(ts) => match spec_tokenize_lines(lines.skip(1)) {
                Option::None => Option::None,
                Option::Some(rest) => Some(ts + rest),
            },
        }
    }
}

/// What tokenizing the level-pack text yields.
pub open spec fn spec_tokenize(s: Seq<char>) -> Option<Seq<SpecToken>> {
    spec_tokenize_lines(spec_split_lines(s))
}

/// `find_newline` is pinned by a scan that stopped at `k`.
proof fn lemma_find_newline_is(s: Seq<char>, k: int)
    requires
        0 <= k <= s.len(),
        forall|t: int| 0 <= t < k ==> s[t] != '\n',
        k < s.len() ==> s[k] == '\n',
    ensures
        find_newline(s) == k,
    decreases k,
{
    if s.len() == 0 {
    } else if k == 0 {
        if s.len() > 0 {
            assert(s[0] == '\n');
        }
    } else {
        assert(s[0] != '\n');
        lemma_find_newline_is(s.skip(1), k - 1);
    }
}

/// Turns the level-pack text into tokens, line by line: title lines
/// carry their text with the two-character prefix stripped, blank lines
/// vanish, and each board row becomes its cell tokens followed by a row
/// boundary. One character outside the tile alphabet fails the whole
/// input.
#[verifier::rlimit(100)]
pub fn tokenize(contents: &str) -> (r: Option<Vec<Token>>)
    ensures
        match r {
            Option::Some(toks) => spec_tokenize(contents@) matches Some(sts) && toks_view(toks@)
                == sts,
            Option::None => spec_tokenize(contents@) is None,
        },
{
    let ghost s = contents@;
    let n = contents.unicode_len();
    let mut tokens: Vec<Token> = Vec::new();
    let mut i: usize = 0;
    proof {
        assert(s.subrange(0, n as int) =~= s);
        match spec_tokenize(s) {
            Option::None => {},
            Option::Some(full) => {
                assert(toks_view(tokens@) + full =~= full);
            },
        }
    }
    while i < n
        invariant
            s == contents@,
            n == s.len(),
            i <= n,
            spec_tokenize(s) == (match spec_tokenize_lines(
                spec_split_lines(s.subrange(i as int, n as int)),
            ) {
                Option::None => Option::None::<Seq<SpecToken>>,
                Option::Some(rest) => Option::Some(toks_view(tokens@) + rest),
            }),
        decreases n - i,
    {
        let ghost tokens0 = tokens@;
        let ghost u = s.subrange(i as int, n as int);
        // find the end of the current line
        let mut j: usize = i;
        while j < n && contents.get_char(j) != '\n'
            invariant
                s == contents@,
                n == s.len(),
                i <= j <= n,
                forall|t: int| i <= t < j ==> s[t] != '\n',
            decreases n - j,
        {
            j = j + 1;
        }
        proof {
            assert forall|t: int| 0 <= t < j - i implies u[t] != '\n' by {
                assert(u[t] == s[i + t]);
            }
            if j < n {
                assert(u[j - i] == s[j as int]);
            }
            lemma_find_newline_is(u, j - i);
        }
        let terminated = j < n;
        let mut line_end = j;
        if terminated && j > i {
            if contents.get_char(j - 1) == '\r' {
                line_end = j - 1;
            }
        }
        let ghost line = s.subrange(i as int, line_end as int);
        proof {
            // the current line is the first of the remaining lines
            if terminated {
                assert(strip_cr(u.subrange(0, j - i)) =~= line) by {
                    assert(u.subrange(0, j - i) =~= s.subrange(i as int, j as int));
                }
                assert(spec_split_lines(u) == seq![line] + spec_split_lines(
                    s.subrange(j + 1, n as int),
                )) by {
                    assert(u.subrange(j - i + 1, u.len() as int) =~= s.subrange(j + 1, n as int));
                }
            } else {
                assert(line =~= u);
                assert(spec_split_lines(u) == seq![line]);
            }
        }
        // tokenize the line
        if line_end == i {
            // a blank line is skipped: no token, no row boundary
            proof {
                assert(spec_line_tokens(line) == Some(Seq::<SpecToken>::empty()));
            }
        } else if contents.get_char(i) == ';' {
            // a title line: strip the marker and exactly one further
            // character
            let title: String = if line_end - i >= 2 {
                contents.substring_char(i + 2, line_end).to_owned()
            } else {
                String::new()
            };
            proof {
                assert(line[0] == s[i as int]);
                assert(title@ =~= spec_title_of(line));
                assert(spec_line_tokens(line) == Some(seq![SpecToken::Text(spec_title_of(line))]));
            }
            tokens.push(Token::Text(title));
            proof {
                assert(toks_view(tokens@) =~= toks_view(tokens0).push(
                    SpecToken::Text(title@),
                ));
            }
        } else {
            // a board row: one token per tile character
            proof {
                assert(line.len() > 0);
                assert(line[0] == s[i as int]);
                assert(line[0] != ';');
                if spec_line_tokens(line) is None {
                    assert(spec_tokenize_lines(spec_split_lines(u)) is None);
                }
            }
            let mut k = i;
            while k < line_end
                invariant
                    s == contents@,
                    n == s.len(),
                    i <= k <= line_end <= n,
                    i < line_end,
                    line == s.subrange(i as int, line_end as int),
                    line.len() == line_end - i,
                    line[0] != ';',
                    spec_line_tokens(line) is None ==> spec_tokenize(s) is None,
                    forall|t: int| 0 <= t < k - i ==> is_cell_char(#[trigger] line[t]),
                    toks_view(tokens@) =~= toks_view(tokens0) + line.subrange(0, k - i).map_values(
                        |c: char| spec_cell_token(c),
                    ),
                decreases line_end - k,
            {
                let ghost tsnap = tokens@;
                let c = contents.get_char(k);
                proof {
                    assert(line[k - i] == s[k as int]);
                }
                match c {
                    '#' => tokens.push(Token::Wall),
                    '@' => tokens.push(Token::Player),
                    '$' => tokens.push(Token::SokoBox),
                    '.' => tokens.push(Token::Goal),
                    '*' => tokens.push(Token::SokoBoxAndGoal),
                    '+' => tokens.push(Token::PlayerAndGoal),
                    ' ' => tokens.push(Token::Empty),
                    _ => {
                        proof {
                            assert(!is_cell_char(line[k - i]));
                            assert(spec_line_tokens(line) is None);
                        }
                        return Option::None;
                    },
                }
                proof {
                    lemma_toks_view_push(tsnap, tokens@.last());
                    assert(toks_view(tokens@) =~= toks_view(tsnap).push(spec_cell_token(s[k as int])));
                    assert(line.subrange(0, k + 1 - i).map_values(|cc: char| spec_cell_token(cc))
                        =~= line.subrange(0, k - i).map_values(|cc: char| spec_cell_token(cc)).push(
                        spec_cell_token(line[k - i]),
                    ));
                }
                k = k + 1;
            }
            let ghost tpre = tokens@;
            tokens.push(Token::NewLine);
            proof {
                assert(line.subrange(0, line_end - i) =~= line);
                assert(line.len() > 0 && line[0] != ';');
                assert(spec_line_tokens(line) == Some(
                    line.map_values(|c: char| spec_cell_token(c)).push(SpecToken::NewLine),
                ));
                lemma_toks_view_push(tpre, Token::NewLine);
                assert(toks_view(tpre) =~= toks_view(tokens0) + line.map_values(
                    |c: char| spec_cell_token(c),
                ));
                assert(toks_view(tokens@) =~= (toks_view(tokens0) + line.map_values(
                    |c: char| spec_cell_token(c),
                )).push(SpecToken::NewLine));
                assert(toks_view(tokens@) =~= toks_view(tokens0) + line.map_values(
                    |c: char| spec_cell_token(c),
                ).push(SpecToken::NewLine));
            }
        }
        // step to the next line and re-establish the running equation
        let ghost inext: int = if terminated {
            j + 1
        } else {
            n as int
        };
        proof {
            let lrest = if terminated {
                spec_split_lines(s.subrange(j + 1, n as int))
            } else {
                Seq::<Seq<char>>::empty()
            };
            assert(spec_split_lines(u) == seq![line] + lrest);
            assert((seq![line] + lrest)[0] == line);
            assert((seq![line] + lrest).skip(1) =~= lrest);
            assert(spec_split_lines(s.subrange(inext, n as int)) == lrest) by {
                if !terminated {
                    assert(s.subrange(inext, n as int) =~= Seq::<char>::empty());
                }
            }
            match spec_line_tokens(line) {
                Option::None => {},
                Option::Some(lts) => {
                    assert(toks_view(tokens@) =~= toks_view(tokens0) + lts);
                    match spec_tokenize_lines(lrest) {
                        Option::None => {},
                        Option::Some(rest2) => {
                            assert(spec_tokenize_lines(spec_split_lines(u)) == Some(lts + rest2));
                            assert(toks_view(tokens0) + (lts + rest2) =~= toks_view(tokens@)
                                + rest2);
                        },
                    }
                },
            }
        }
        if terminated {
            i = j + 1;
        } else {
            i = n;
        }
    }
    proof {
        assert(s.subrange(i as int, n as int) =~= Seq::<char>::empty());
        assert(spec_split_lines(Seq::<char>::empty()) == Seq::<Seq<char>>::empty());
        assert(spec_tokenize_lines(Seq::<Seq<char>>::empty()) == Some(Seq::<SpecToken>::empty()));
        if spec_tokenize(s) is Some {
            assert(toks_view(tokens@) + Seq::<SpecToken>::empty() =~= toks_view(tokens@));
        }
    }
    Option::Some(tokens)
}

/// The number of row boundaries in a token sequence.
pub open spec fn spec_nl_count(ts: Seq<SpecToken>) -> nat
    decreases ts.len(),
{
    if ts.len() == 0 {
        0
    } else {
        spec_nl_count(ts.drop_last()) + if ts.last() is NewLine {
            1nat
        } else {
            0nat
        }
    }
}

/// The longest completed run of cell tokens between row boundaries,
/// carrying the current run and the best seen so far. A trailing run
/// without its boundary does not count, matching the board-width rule.
pub open spec fn spec_max_run_acc(ts: Seq<SpecToken>, count: nat, best: nat) -> nat
    decreases ts.len(),
{
    if ts.len() == 0 {
        best
    } else if ts[0] is NewLine {
        spec_max_run_acc(
            ts.skip(1),
            0,
            if count > best {
                count
            } else {
                best
            },
        )
    } else {
        spec_max_run_acc(ts.skip(1), count + 1, best)
    }
}

/// The board width a token sequence implies.
pub open spec fn spec_max_run(ts: Seq<SpecToken>) -> nat {
    spec_max_run_acc(ts, 0, 0)
}

/// Measures a level's board: the width is the longest completed run of
/// cell tokens, the height the number of row boundaries.
pub fn get_board_dimensions(tokens: &[Token]) -> (r: (usize, usize))
    ensures
        r.0 == spec_max_run(toks_view(tokens@)),
        r.1 == spec_nl_count(toks_view(tokens@)),
{
    let ghost ts = toks_view(tokens@);
    let mut x: usize = 0;
    let mut count: usize = 0;
    let mut y: usize = 0;
    let mut i: usize = 0;
    proof {
        assert(ts.subrange(0, 0) =~= Seq::<SpecToken>::empty());
        assert(ts.skip(0) =~= ts);
    }
    while i < tokens.len()
        invariant
            ts == toks_view(tokens@),
            ts.len() == tokens@.len(),
            i <= tokens@.len(),
            count <= i,
            x <= i,
            y <= i,
            y == spec_nl_count(ts.subrange(0, i as int)),
            spec_max_run(ts) == spec_max_run_acc(ts.skip(i as int), count as nat, x as nat),
        decreases tokens@.len() - i,
    {
        let ghost i0 = i as int;
        proof {
            assert(ts.skip(i0)[0] == ts[i0]);
            assert(ts.skip(i0).skip(1) =~= ts.skip(i0 + 1));
            assert(ts.subrange(0, i0 + 1).drop_last() =~= ts.subrange(0, i0));
            assert(ts.subrange(0, i0 + 1).last() == ts[i0]);
        }
        match slice_index_get(tokens, i) {
            Token::NewLine => {
                if count > x {
                    x = count;
                }
                count = 0;
                y = y + 1;
            },
            _ => {
                count = count + 1;
            },
        }
        i = i + 1;
    }
    proof {
        assert(ts.subrange(0, ts.len() as int) =~= ts);
        assert(ts.skip(ts.len() as int) =~= Seq::<SpecToken>::empty());
    }
    (x, y)
}

/// The positions of the title tokens, in ascending order.
pub open spec fn spec_text_indices(ts: Seq<SpecToken>) -> Seq<int>
    decreases ts.len(),
{
    if ts.len() == 0 {
        Seq::empty()
    } else {
        spec_text_indices(ts.drop_last()) + (
        if ts.last() is Text {
            seq![ts.len() - 1]
        } else {
            Seq::empty()
        })
    }
}

/// Per-level token groups: each runs from one title token up to, but
/// excluding, the next title token or the end of the stream. Tokens
/// before the first title belong to no group.
pub open spec fn spec_groups(ts: Seq<SpecToken>) -> Seq<Seq<SpecToken>> {
    let idx = spec_text_indices(ts);
    Seq::new(
        idx.len(),
        |j: int|
            ts.subrange(
                idx[j],
                if j + 1 < idx.len() {
                    idx[j + 1]
                } else {
                    ts.len() as int
                },
            ),
    )
}

/// The title positions are in bounds, hold title tokens, and ascend.
proof fn lemma_text_indices_props(ts: Seq<SpecToken>)
    ensures
        forall|j: int|
            0 <= j < spec_text_indices(ts).len() ==> 0 <= #[trigger] spec_text_indices(ts)[j]
                < ts.len(),
        forall|j: int|
            0 <= j < spec_text_indices(ts).len() ==> ts[#[trigger] spec_text_indices(ts)[j]] is Text,
        forall|j: int|
            0 <= j < spec_text_indices(ts).len() - 1 ==> #[trigger] spec_text_indices(ts)[j]
                < spec_text_indices(ts)[j + 1],
    decreases ts.len(),
{
    if ts.len() > 0 {
        lemma_text_indices_props(ts.drop_last());
        let pre = spec_text_indices(ts.drop_last());
        assert forall|j: int|
            0 <= j < spec_text_indices(ts).len() implies 0 <= #[trigger] spec_text_indices(ts)[j]
            < ts.len() && ts[spec_text_indices(ts)[j]] is Text by {
            if j < pre.len() {
                assert(spec_text_indices(ts)[j] == pre[j]);
                assert(ts.drop_last()[pre[j]] == ts[pre[j]]);
            } else {
                assert(spec_text_indices(ts)[j] == ts.len() - 1);
            }
        }
        assert forall|j: int|
            0 <= j < spec_text_indices(ts).len() - 1 implies #[trigger] spec_text_indices(ts)[j]
            < spec_text_indices(ts)[j + 1] by {
            if j + 1 < pre.len() {
                assert(spec_text_indices(ts)[j] == pre[j]);
                assert(spec_text_indices(ts)[j + 1] == pre[j + 1]);
            } else {
                assert(spec_text_indices(ts)[j] == pre[j]);
                assert(spec_text_indices(ts)[j + 1] == ts.len() - 1);
            }
        }
    }
}

/// Splits a token stream into one group per level, using every title
/// token as a group boundary.
#[verifier::rlimit(100)]
pub fn group_sokoban_tokens(tokens: &[Token]) -> (r: Vec<Vec<Token>>)
    ensures
        r@.map_values(|g: Vec<Token>| toks_view(g@)) == spec_groups(toks_view(tokens@)),
{
    let ghost ts = toks_view(tokens@);
    let mut result: Vec<Vec<Token>> = Vec::new();
    let mut current: Vec<Token> = Vec::new();
    let mut started = false;
    let mut i: usize = 0;
    proof {
        assert(ts.subrange(0, 0) =~= Seq::<SpecToken>::empty());
    }
    while i < tokens.len()
        invariant
            ts == toks_view(tokens@),
            ts.len() == tokens@.len(),
            i <= tokens@.len(),
            started == (spec_text_indices(ts.subrange(0, i as int)).len() > 0),
            !started ==> result@.len() == 0 && current@.len() == 0,
            started ==> ({
                let pidx = spec_text_indices(ts.subrange(0, i as int));
                &&& result@.len() == pidx.len() - 1
                &&& forall|j: int|
                    0 <= j < result@.len() ==> toks_view(#[trigger] result@[j]@) == ts.subrange(
                        pidx[j],
                        pidx[j + 1],
                    )
                &&& toks_view(current@) == ts.subrange(pidx.last(), i as int)
            }),
        decreases tokens@.len() - i,
    {
        let ghost i0 = i as int;
        let ghost pidx = spec_text_indices(ts.subrange(0, i0));
        proof {
            assert(ts.subrange(0, i0 + 1).drop_last() =~= ts.subrange(0, i0));
            assert(ts.subrange(0, i0 + 1).last() == ts[i0]);
            lemma_text_indices_props(ts.subrange(0, i0));
        }
        let tok = slice_index_get(tokens, i);
        match tok {
            Token::Text(_) => {
                if started {
                    result.push(current);
                    current = Vec::new();
                } else {
                    started = true;
                }
                let ghost csnap = current@;
                current.push(copy_token(tok));
                proof {
                    assert(current@ == csnap.push(current@.last()));
                    lemma_toks_view_push(csnap, current@.last());
                    assert(toks_view(current@) =~= toks_view(csnap).push(tok@));
                    let nidx = spec_text_indices(ts.subrange(0, i0 + 1));
                    assert(nidx =~= pidx + seq![i0]);
                    assert(toks_view(current@) =~= ts.subrange(i0, i0 + 1));
                }
            },
            _ => {
                if started {
                    let ghost csnap = current@;
                    current.push(copy_token(tok));
                    proof {
                        assert(current@ == csnap.push(current@.last()));
                        lemma_toks_view_push(csnap, current@.last());
                        assert(toks_view(current@) =~= toks_view(csnap).push(tok@));
                        let nidx = spec_text_indices(ts.subrange(0, i0 + 1));
                        assert(nidx =~= pidx);
                        assert(toks_view(current@) =~= ts.subrange(pidx.last(), i0 + 1));
                    }
                } else {
                    proof {
                        assert(spec_text_indices(ts.subrange(0, i0 + 1)) =~= pidx);
                    }
                }
            },
        }
        i = i + 1;
    }
    proof {
        assert(ts.subrange(0, ts.len() as int) =~= ts);
    }
    if started {
        result.push(current);
    }
    proof {
        lemma_text_indices_props(ts);
        let idx = spec_text_indices(ts);
        assert forall|j: int|
            0 <= j < result@.len() implies toks_view(#[trigger] result@[j]@) == spec_groups(
            ts,
        )[j] by {}
        assert(result@.map_values(|g: Vec<Token>| toks_view(g@)) =~= spec_groups(ts));
    }
    result
}

/// Whether `(y, x)` is a valid cell of the grid view `g`.
pub open spec fn in_grid(g: Seq<Seq<Tile>>, y: int, x: int) -> bool {
    0 <= y < g.len() && 0 <= x < g[y].len()
}

/// Whether `(y, x)` lies on the grid's outermost row or column.
pub open spec fn on_boundary(g: Seq<Seq<Tile>>, y: int, x: int) -> bool {
    y == 0 || x == 0 || y == g.len() - 1 || x == g[y].len() - 1
}

/// Whether two cells are orthogonal neighbours.
pub open spec fn adjacent(y1: int, x1: int, y2: int, x2: int) -> bool {
    (x1 == x2 && (y2 == y1 + 1 || y2 == y1 - 1)) || (y1 == y2 && (x2 == x1 + 1 || x2 == x1 - 1))
}

/// Whether some in-bounds orthogonal neighbour of `(y, x)` is `Empty`.
pub open spec fn has_empty_neighbor(g: Seq<Seq<Tile>>, y: int, x: int) -> bool {
    exists|ny: int, nx: int|
        in_grid(g, ny, nx) && adjacent(y, x, ny, nx) && #[trigger] g[ny][nx] == Tile::Empty
}

/// A seed of the flood fill: a floor cell that is itself on the
/// boundary, or has an empty neighbour.
pub open spec fn is_seed(g: Seq<Seq<Tile>>, y: int, x: int) -> bool {
    g[y][x] == Tile::Floor && (on_boundary(g, y, x) || has_empty_neighbor(g, y, x))
}

/// A nonempty sequence of in-bounds floor cells, each step orthogonally
/// adjacent to the next.
pub open spec fn is_floor_path(g: Seq<Seq<Tile>>, p: Seq<(int, int)>) -> bool {
    &&& p.len() > 0
    &&& forall|i: int|
        0 <= i < p.len() ==> in_grid(g, (#[trigger] p[i]).0, p[i].1) && g[p[i].0][p[i].1]
            == Tile::Floor
    &&& forall|i: int|
        0 <= i < p.len() - 1 ==> adjacent((#[trigger] p[i]).0, p[i].1, p[i + 1].0, p[i + 1].1)
}

/// An exterior cell: a floor path connects it to a seed.
pub open spec fn is_exterior(g: Seq<Seq<Tile>>, y: int, x: int) -> bool {
    exists|p: Seq<(int, int)>|
        #[trigger] is_floor_path(g, p) && p[0] == (y, x) && is_seed(g, p.last().0, p.last().1)
}

/// What culling leaves of a grid: every exterior floor cell becomes
/// `Empty`; every other cell keeps its tile.
pub open spec fn spec_cull(g: Seq<Seq<Tile>>) -> Seq<Seq<Tile>> {
    Seq::new(
        g.len(),
        |y: int|
            Seq::new(
                g[y].len(),
                |x: int|
                    if g[y][x] == Tile::Floor && is_exterior(g, y, x) {
                        Tile::Empty
                    } else {
                        g[y][x]
                    },
            ),
    )
}

/// Both grids have the same row count and row widths.
pub open spec fn same_dims(g: Seq<Seq<Tile>>, h: Seq<Seq<Tile>>) -> bool {
    h.len() == g.len() && forall|y: int| 0 <= y < g.len() ==> (#[trigger] h[y]).len() == g[y].len()
}

/// `h` is reachable from `g` by culling: the dimensions agree, and every
/// cell either keeps its tile or was an exterior floor cell of `g` and
/// is now `Empty`.
pub open spec fn cull_step(g: Seq<Seq<Tile>>, h: Seq<Seq<Tile>>) -> bool {
    &&& same_dims(g, h)
    &&& forall|y: int, x: int|
        in_grid(g, y, x) ==> #[trigger] h[y][x] == g[y][x] || (g[y][x] == Tile::Floor && h[y][x]
            == Tile::Empty && is_exterior(g, y, x))
}

/// No in-bounds orthogonal neighbour of `(y, x)` holds `Floor` in `h`.
pub open spec fn neighbors_not_floor(h: Seq<Seq<Tile>>, y: int, x: int) -> bool {
    forall|ny: int, nx: int|
        in_grid(h, ny, nx) && adjacent(y, x, ny, nx) ==> #[trigger] h[ny][nx] != Tile::Floor
}

/// Every cell changed between `g` and `h` has no floor neighbour left
/// in `h`: the flood fill never stops at a still-floor neighbour.
pub open spec fn sealed(g: Seq<Seq<Tile>>, h: Seq<Seq<Tile>>) -> bool {
    forall|y: int, x: int|
        in_grid(g, y, x) && #[trigger] h[y][x] != g[y][x] ==> neighbors_not_floor(h, y, x)
}

/// No seed anywhere: culling such a grid changes nothing.
pub open spec fn stable_grid(h: Seq<Seq<Tile>>) -> bool {
    forall|y: int, x: int| in_grid(h, y, x) ==> !is_seed(h, y, x)
}

/// The number of `Floor` cells in one row.
pub open spec fn row_floor_count(r: Seq<Tile>) -> nat
    decreases r.len(),
{
    if r.len() == 0 {
        0
    } else {
        row_floor_count(r.drop_last()) + if r.last() == Tile::Floor {
            1nat
        } else {
            0nat
        }
    }
}

/// The number of `Floor` cells in the whole grid.
pub open spec fn floor_count(g: Seq<Seq<Tile>>) -> nat
    decreases g.len(),
{
    if g.len() == 0 {
        0
    } else {
        floor_count(g.drop_last()) + row_floor_count(g.last())
    }
}

/// Overwriting one cell of a row adjusts its floor count by what left
/// and what arrived.
proof fn lemma_row_floor_count_update(r: Seq<Tile>, x: int, t: Tile)
    requires
        0 <= x < r.len(),
    ensures
        row_floor_count(r.update(x, t)) == row_floor_count(r) + (
        if t == Tile::Floor {
            1int
        } else {
            0int
        }) - (
        if r[x] == Tile::Floor {
            1int
        } else {
            0int
        }),
    decreases r.len(),
{
    let r2 = r.update(x, t);
    if x == r.len() - 1 {
        assert(r2.drop_last() =~= r.drop_last());
        assert(r2.last() == t);
    } else {
        lemma_row_floor_count_update(r.drop_last(), x, t);
        assert(r2.drop_last() =~= r.drop_last().update(x, t));
        assert(r2.last() == r.last());
    }
}

/// Overwriting one cell of a grid adjusts its floor count likewise.
proof fn lemma_floor_count_update(g: Seq<Seq<Tile>>, y: int, x: int, t: Tile)
    requires
        0 <= y < g.len(),
        0 <= x < g[y].len(),
    ensures
        floor_count(g.update(y, g[y].update(x, t))) == floor_count(g) + (
        if t == Tile::Floor {
            1int
        } else {
            0int
        }) - (
        if g[y][x] == Tile::Floor {
            1int
        } else {
            0int
        }),
    decreases g.len(),
{
    let g2 = g.update(y, g[y].update(x, t));
    if y == g.len() - 1 {
        assert(g2.drop_last() =~= g.drop_last());
        assert(g2.last() == g[y].update(x, t));
        lemma_row_floor_count_update(g[y], x, t);
    } else {
        lemma_floor_count_update(g.drop_last(), y, x, t);
        assert(g2.drop_last() =~= g.drop_last().update(y, g[y].update(x, t)));
        assert(g2.last() == g.last());
    }
}

/// Joining two floor paths whose ends are adjacent gives a floor path.
proof fn lemma_path_concat(g: Seq<Seq<Tile>>, p: Seq<(int, int)>, q: Seq<(int, int)>)
    requires
        is_floor_path(g, p),
        is_floor_path(g, q),
        adjacent(p.last().0, p.last().1, q[0].0, q[0].1),
    ensures
        is_floor_path(g, p + q),
        (p + q)[0] == p[0],
        (p + q).last() == q.last(),
{
    let r = p + q;
    assert forall|i: int| 0 <= i < r.len() implies in_grid(g, (#[trigger] r[i]).0, r[i].1)
        && g[r[i].0][r[i].1] == Tile::Floor by {
        if i < p.len() {
            assert(r[i] == p[i]);
        } else {
            assert(r[i] == q[i - p.len()]);
        }
    }
    assert forall|i: int| 0 <= i < r.len() - 1 implies adjacent(
        (#[trigger] r[i]).0,
        r[i].1,
        r[i + 1].0,
        r[i + 1].1,
    ) by {
        if i + 1 < p.len() {
            assert(r[i] == p[i]);
            assert(r[i + 1] == p[i + 1]);
        } else if i + 1 == p.len() {
            assert(r[i] == p.last());
            assert(r[i + 1] == q[0]);
        } else {
            assert(r[i] == q[i - p.len()]);
            assert(r[i + 1] == q[i + 1 - p.len()]);
        }
    }
    assert(r.last() == q.last());
}

/// An exterior cell of a culled grid was already exterior in the grid
/// it was culled from.
proof fn lemma_exterior_trans(g: Seq<Seq<Tile>>, h: Seq<Seq<Tile>>, y: int, x: int)
    requires
        cull_step(g, h),
        in_grid(h, y, x),
        is_exterior(h, y, x),
    ensures
        is_exterior(g, y, x),
{
    let p = choose|p: Seq<(int, int)>|
        #[trigger] is_floor_path(h, p) && p[0] == (y, x) && is_seed(h, p.last().0, p.last().1);
    // every cell of the path is floor in h, hence unchanged floor in g
    assert forall|i: int| 0 <= i < p.len() implies in_grid(g, (#[trigger] p[i]).0, p[i].1)
        && g[p[i].0][p[i].1] == Tile::Floor by {
        assert(in_grid(h, p[i].0, p[i].1));
        assert(h[p[i].0][p[i].1] == Tile::Floor);
    }
    assert(is_floor_path(g, p));
    let ly = p.last().0;
    let lx = p.last().1;
    if on_boundary(h, ly, lx) {
        assert(on_boundary(g, ly, lx));
        assert(is_seed(g, ly, lx));
        assert(is_exterior(g, y, x));
    } else {
        let (ny, nx) = choose|ny: int, nx: int|
            in_grid(h, ny, nx) && adjacent(ly, lx, ny, nx) && #[trigger] h[ny][nx] == Tile::Empty;
        assert(in_grid(g, ny, nx));
        if g[ny][nx] == Tile::Empty {
            assert(has_empty_neighbor(g, ly, lx));
            assert(is_seed(g, ly, lx));
            assert(is_exterior(g, y, x));
        } else {
            // the empty neighbour was culled, so it is exterior in g:
            // extend the path through it
            assert(g[ny][nx] == Tile::Floor && is_exterior(g, ny, nx));
            let q = choose|q: Seq<(int, int)>|
                #[trigger] is_floor_path(g, q) && q[0] == (ny, nx) && is_seed(
                    g,
                    q.last().0,
                    q.last().1,
                );
            lemma_path_concat(g, p, q);
            assert(is_floor_path(g, p + q) && (p + q)[0] == (y, x) && is_seed(
                g,
                (p + q).last().0,
                (p + q).last().1,
            ));
            assert(is_exterior(g, y, x));
        }
    }
}

/// Culling steps compose.
proof fn lemma_cull_step_trans(g: Seq<Seq<Tile>>, h: Seq<Seq<Tile>>, k: Seq<Seq<Tile>>)
    requires
        cull_step(g, h),
        cull_step(h, k),
    ensures
        cull_step(g, k),
{
    assert forall|y: int, x: int| in_grid(g, y, x) implies #[trigger] k[y][x] == g[y][x] || (
    g[y][x] == Tile::Floor && k[y][x] == Tile::Empty && is_exterior(g, y, x)) by {
        assert(in_grid(h, y, x));
        if k[y][x] != g[y][x] {
            if h[y][x] == g[y][x] {
                // changed in the second step
                assert(h[y][x] == Tile::Floor && k[y][x] == Tile::Empty && is_exterior(h, y, x));
                lemma_exterior_trans(g, h, y, x);
            } else {
                // changed in the first step; empties stay empty
                assert(g[y][x] == Tile::Floor && h[y][x] == Tile::Empty && is_exterior(g, y, x));
                assert(k[y][x] == Tile::Empty);
            }
        }
    }
}

/// In a stable grid reached by culling, every cell that a floor path of
/// the original grid connects to a seed of the original grid is empty.
proof fn lemma_stable_complete(g: Seq<Seq<Tile>>, h: Seq<Seq<Tile>>, p: Seq<(int, int)>)
    requires
        cull_step(g, h),
        stable_grid(h),
        is_floor_path(g, p),
        is_seed(g, p.last().0, p.last().1),
    ensures
        h[p[0].0][p[0].1] == Tile::Empty,
    decreases p.len(),
{
    let y = p[0].0;
    let x = p[0].1;
    assert(in_grid(g, y, x) && g[y][x] == Tile::Floor);
    if p.len() == 1 {
        let ly = p.last().0;
        let lx = p.last().1;
        assert(p.last() == p[0]);
        if h[y][x] == Tile::Floor {
            if on_boundary(g, ly, lx) {
                assert(on_boundary(h, ly, lx));
                assert(is_seed(h, y, x));
                assert(false);
            } else {
                let (ny, nx) = choose|ny: int, nx: int|
                    in_grid(g, ny, nx) && adjacent(ly, lx, ny, nx) && #[trigger] g[ny][nx]
                        == Tile::Empty;
                assert(h[ny][nx] == Tile::Empty);
                assert(in_grid(h, ny, nx));
                assert(has_empty_neighbor(h, y, x));
                assert(is_seed(h, y, x));
                assert(false);
            }
        }
        assert(h[y][x] == Tile::Empty);
    } else {
        let q = p.subrange(1, p.len() as int);
        assert(q.len() == p.len() - 1);
        assert forall|i: int| 0 <= i < q.len() implies in_grid(g, (#[trigger] q[i]).0, q[i].1)
            && g[q[i].0][q[i].1] == Tile::Floor by {
            assert(q[i] == p[i + 1]);
        }
        assert forall|i: int| 0 <= i < q.len() - 1 implies adjacent(
            (#[trigger] q[i]).0,
            q[i].1,
            q[i + 1].0,
            q[i + 1].1,
        ) by {
            assert(q[i] == p[i + 1]);
            assert(q[i + 1] == p[i + 2]);
        }
        assert(q.last() == p.last());
        lemma_stable_complete(g, h, q);
        assert(q[0] == p[1]);
        assert(h[p[1].0][p[1].1] == Tile::Empty);
        if h[y][x] == Tile::Floor {
            assert(adjacent(y, x, p[1].0, p[1].1));
            assert(in_grid(h, p[1].0, p[1].1));
            assert(has_empty_neighbor(h, y, x));
            assert(is_seed(h, y, x));
            assert(false);
        }
        assert(h[y][x] == Tile::Empty);
    }
}

/// A cell that has no floor neighbours in `h` keeps that property
/// through a culling step.
proof fn lemma_nnf_persists(h: Seq<Seq<Tile>>, k: Seq<Seq<Tile>>, y: int, x: int)
    requires
        cull_step(h, k),
        neighbors_not_floor(h, y, x),
    ensures
        neighbors_not_floor(k, y, x),
{
    assert forall|ny: int, nx: int|
        in_grid(k, ny, nx) && adjacent(y, x, ny, nx) implies #[trigger] k[ny][nx]
        != Tile::Floor by {
        assert(in_grid(h, ny, nx));
        assert(h[ny][nx] != Tile::Floor);
    }
}

/// Chains four culling steps, each sealed, into one sealed step.
proof fn lemma_seal_chain(
    g0: Seq<Seq<Tile>>,
    h1: Seq<Seq<Tile>>,
    h2: Seq<Seq<Tile>>,
    h3: Seq<Seq<Tile>>,
    h4: Seq<Seq<Tile>>,
)
    requires
        cull_step(g0, h1),
        sealed(g0, h1),
        cull_step(h1, h2),
        sealed(h1, h2),
        cull_step(h2, h3),
        sealed(h2, h3),
        cull_step(h3, h4),
        sealed(h3, h4),
    ensures
        cull_step(g0, h4),
        sealed(g0, h4),
{
    lemma_cull_step_trans(g0, h1, h2);
    lemma_cull_step_trans(g0, h2, h3);
    lemma_cull_step_trans(g0, h3, h4);
    lemma_cull_step_trans(h1, h2, h3);
    lemma_cull_step_trans(h1, h3, h4);
    lemma_cull_step_trans(h2, h3, h4);
    assert forall|y: int, x: int|
        in_grid(g0, y, x) && #[trigger] h4[y][x] != g0[y][x] implies neighbors_not_floor(
        h4,
        y,
        x,
    ) by {
        if h1[y][x] != g0[y][x] {
            assert(neighbors_not_floor(h1, y, x));
            lemma_nnf_persists(h1, h4, y, x);
        } else if h2[y][x] != h1[y][x] {
            assert(neighbors_not_floor(h2, y, x));
            lemma_nnf_persists(h2, h4, y, x);
        } else if h3[y][x] != h2[y][x] {
            assert(neighbors_not_floor(h3, y, x));
            lemma_nnf_persists(h3, h4, y, x);
        } else {
            assert(h4[y][x] != h3[y][x]);
            assert(neighbors_not_floor(h4, y, x));
        }
    }
}

/// Assembles the postconditions of `cull_tiles` from the snapshots
/// around its four neighbour visits: `g` at entry, `gs` after the seed
/// cell was emptied, `h1`..`h4` after each neighbour.
#[verifier::rlimit(100)]
proof fn lemma_cull_tiles_finish(
    g: Seq<Seq<Tile>>,
    gs: Seq<Seq<Tile>>,
    h1: Seq<Seq<Tile>>,
    h2: Seq<Seq<Tile>>,
    h3: Seq<Seq<Tile>>,
    h4: Seq<Seq<Tile>>,
    yi: int,
    xi: int,
)
    requires
        grid_rect(g),
        in_grid(g, yi, xi),
        g[yi][xi] == Tile::Floor,
        is_exterior(g, yi, xi),
        gs == g.update(yi, g[yi].update(xi, Tile::Empty)),
        cull_step(gs, h1),
        sealed(gs, h1),
        cull_step(h1, h2),
        sealed(h1, h2),
        cull_step(h2, h3),
        sealed(h2, h3),
        cull_step(h3, h4),
        sealed(h3, h4),
        yi + 1 < g.len() ==> h1[yi + 1][xi] != Tile::Floor,
        yi > 0 ==> h2[yi - 1][xi] != Tile::Floor,
        xi + 1 < g[yi].len() ==> h3[yi][xi + 1] != Tile::Floor,
        xi > 0 ==> h4[yi][xi - 1] != Tile::Floor,
    ensures
        cull_step(g, h4),
        sealed(g, h4),
        h4[yi][xi] == Tile::Empty,
{
    assert(cull_step(g, gs));
    lemma_seal_chain(gs, h1, h2, h3, h4);
    lemma_cull_step_trans(g, gs, h4);
    assert(gs[yi][xi] == Tile::Empty);
    assert(h1[yi][xi] == Tile::Empty);
    assert(h2[yi][xi] == Tile::Empty);
    assert(h3[yi][xi] == Tile::Empty);
    assert(h4[yi][xi] == Tile::Empty);
    // the four neighbour facts persist to the last snapshot
    assert(yi + 1 < g.len() ==> h4[yi + 1][xi] != Tile::Floor) by {
        if yi + 1 < g.len() {
            assert(h2[yi + 1][xi] != Tile::Floor);
            assert(h3[yi + 1][xi] != Tile::Floor);
        }
    }
    assert(yi > 0 ==> h4[yi - 1][xi] != Tile::Floor) by {
        if yi > 0 {
            assert(h3[yi - 1][xi] != Tile::Floor);
        }
    }
    assert(neighbors_not_floor(h4, yi, xi)) by {
        assert forall|ny: int, nx: int|
            in_grid(h4, ny, nx) && adjacent(yi, xi, ny, nx) implies #[trigger] h4[ny][nx]
            != Tile::Floor by {
            assert(in_grid(g, ny, nx));
            assert(ny == yi + 1 || ny == yi - 1 || nx == xi + 1 || nx == xi - 1);
        }
    }
    // every changed cell is sealed: cells other than the seed changed
    // in one of the four chained steps
    assert forall|y: int, x: int|
        in_grid(g, y, x) && #[trigger] h4[y][x] != g[y][x] implies neighbors_not_floor(
        h4,
        y,
        x,
    ) by {
        if y == yi && x == xi {
        } else {
            assert(gs[y][x] == g[y][x]);
            assert(in_grid(gs, y, x));
        }
    }
    assert(sealed(g, h4));
}

/// The four explicit neighbour positions cover `has_empty_neighbor`.
proof fn lemma_empty_neighbor_cases(g: Seq<Seq<Tile>>, yi: int, xi: int)
    requires
        grid_rect(g),
        in_grid(g, yi, xi),
    ensures
        has_empty_neighbor(g, yi, xi) <==> ((yi + 1 < g.len() && g[yi + 1][xi] == Tile::Empty) || (
        yi > 0 && g[yi - 1][xi] == Tile::Empty) || (xi + 1 < g[yi].len() && g[yi][xi + 1]
            == Tile::Empty) || (xi > 0 && g[yi][xi - 1] == Tile::Empty)),
{
    if has_empty_neighbor(g, yi, xi) {
        let (ny, nx) = choose|ny: int, nx: int|
            in_grid(g, ny, nx) && adjacent(yi, xi, ny, nx) && #[trigger] g[ny][nx] == Tile::Empty;
        assert(ny == yi + 1 || ny == yi - 1 || nx == xi + 1 || nx == xi - 1);
    }
    if yi + 1 < g.len() && g[yi + 1][xi] == Tile::Empty {
        assert(in_grid(g, yi + 1, xi) && adjacent(yi, xi, yi + 1, xi));
        assert(has_empty_neighbor(g, yi, xi));
    }
    if yi > 0 && g[yi - 1][xi] == Tile::Empty {
        assert(in_grid(g, yi - 1, xi) && adjacent(yi, xi, yi - 1, xi));
        assert(has_empty_neighbor(g, yi, xi));
    }
    if xi + 1 < g[yi].len() && g[yi][xi + 1] == Tile::Empty {
        assert(in_grid(g, yi, xi + 1) && adjacent(yi, xi, yi, xi + 1));
        assert(has_empty_neighbor(g, yi, xi));
    }
    if xi > 0 && g[yi][xi - 1] == Tile::Empty {
        assert(in_grid(g, yi, xi - 1) && adjacent(yi, xi, yi, xi - 1));
        assert(has_empty_neighbor(g, yi, xi));
    }
}

/// A floor cell next to an empty cell is a seed.
proof fn lemma_neighbor_seed(h: Seq<Seq<Tile>>, ey: int, ex: int, ny: int, nx: int)
    requires
        in_grid(h, ey, ex),
        h[ey][ex] == Tile::Empty,
        in_grid(h, ny, nx),
        h[ny][nx] == Tile::Floor,
        adjacent(ny, nx, ey, ex),
    ensures
        is_seed(h, ny, nx),
{
    assert(has_empty_neighbor(h, ny, nx));
}

/// Whether the cell is a seed of the flood fill: floor, and on the
/// boundary or next to an empty cell.
fn is_seed_cell(board: &Board, yi: usize, xi: usize) -> (r: bool)
    requires
        board.wf(),
        yi < board@.len(),
        xi < board@[yi as int].len(),
    ensures
        r == is_seed(board@, yi as int, xi as int),
{
    let ghost g = board@;
    match board.get(yi, xi) {
        Tile::Floor => {},
        _ => {
            return false;
        },
    }
    let rows = board.rows();
    let cols = board.cols();
    let is_edge_tile = yi == 0 || yi == rows - 1 || xi == 0 || xi == cols - 1;
    proof {
        assert(is_edge_tile == on_boundary(g, yi as int, xi as int));
    }
    let mut any_empty = false;
    if yi + 1 < rows {
        if matches!(board.get(yi + 1, xi), Tile::Empty) {
            any_empty = true;
        }
    }
    if yi > 0 {
        if matches!(board.get(yi - 1, xi), Tile::Empty) {
            any_empty = true;
        }
    }
    if xi + 1 < cols {
        if matches!(board.get(yi, xi + 1), Tile::Empty) {
            any_empty = true;
        }
    }
    if xi > 0 {
        if matches!(board.get(yi, xi - 1), Tile::Empty) {
            any_empty = true;
        }
    }
    proof {
        lemma_empty_neighbor_cases(g, yi as int, xi as int);
        assert(any_empty == has_empty_neighbor(g, yi as int, xi as int));
    }
    any_empty || is_edge_tile
}

/// Culls the floor tile at `index` if it is exterior, then floods the
/// reclassification through its neighbours.
///
/// On return the cell at `index` is empty whenever it was a seed (a
/// floor cell on the boundary or next to an empty cell), every changed
/// cell was an exterior floor cell of the entry grid, no changed cell
/// has a floor neighbour left, and nothing changes at all when the
/// cell was no seed.
#[verifier::rlimit(100)]
pub fn cull_tiles(index: [usize; 2], board: &mut Board)
    requires
        old(board).wf(),
        index@[0] < old(board)@.len(),
        index@[1] < old(board)@[index@[0] as int].len(),
    ensures
        final(board).wf(),
        cull_step(old(board)@, final(board)@),
        sealed(old(board)@, final(board)@),
        floor_count(final(board)@) <= floor_count(old(board)@),
        is_seed(old(board)@, index@[0] as int, index@[1] as int)
            ==> final(board)@[index@[0] as int][index@[1] as int] == Tile::Empty,
        !is_seed(old(board)@, index@[0] as int, index@[1] as int)
            ==> final(board)@ == old(board)@,
    decreases floor_count(old(board)@),
{
    let yi = index[0];
    let xi = index[1];
    let ghost g = board@;
    // a guard so we don't cull any non-floor or non-exterior tiles
    if !is_seed_cell(board, yi, xi) {
        return ;
    }
    let rows = board.rows();
    let cols = board.cols();
    // the cell is a seed: reclassify it, then re-examine each floor
    // neighbour, which the fresh empty may newly qualify as exterior
    board.set(yi, xi, Tile::Empty);
    let ghost gs = board@;
    proof {
        lemma_floor_count_update(g, yi as int, xi as int, Tile::Empty);
        let pp = seq![(yi as int, xi as int)];
        assert(pp.last() == pp[0]);
        assert(is_floor_path(g, pp));
        assert(is_exterior(g, yi as int, xi as int));
        assert(floor_count(gs) == floor_count(g) - 1);
        assert(gs[yi as int][xi as int] == Tile::Empty);
    }
    if yi + 1 < rows {
        if matches!(board.get(yi + 1, xi), Tile::Floor) {
            proof {
                lemma_neighbor_seed(
                    board@,
                    yi as int,
                    xi as int,
                    yi as int + 1,
                    xi as int,
                );
            }
            cull_tiles([yi + 1, xi], board);
        }
        proof {
            assert(board@[yi as int + 1][xi as int] != Tile::Floor);
        }
    }
    let ghost h1 = board@;
    proof {
        assert(cull_step(gs, h1) && sealed(gs, h1));
        assert(h1[yi as int][xi as int] == Tile::Empty);
    }
    if yi > 0 {
        if matches!(board.get(yi - 1, xi), Tile::Floor) {
            proof {
                lemma_neighbor_seed(
                    board@,
                    yi as int,
                    xi as int,
                    yi as int - 1,
                    xi as int,
                );
            }
            cull_tiles([yi - 1, xi], board);
        }
        proof {
            assert(board@[yi as int - 1][xi as int] != Tile::Floor);
        }
    }
    let ghost h2 = board@;
    proof {
        assert(cull_step(h1, h2) && sealed(h1, h2));
        assert(h2[yi as int][xi as int] == Tile::Empty);
    }
    if xi + 1 < cols {
        if matches!(board.get(yi, xi + 1), Tile::Floor) {
            proof {
                lemma_neighbor_seed(
                    board@,
                    yi as int,
                    xi as int,
                    yi as int,
                    xi as int + 1,
                );
            }
            cull_tiles([yi, xi + 1], board);
        }
        proof {
            assert(board@[yi as int][xi as int + 1] != Tile::Floor);
        }
    }
    let ghost h3 = board@;
    proof {
        assert(cull_step(h2, h3) && sealed(h2, h3));
        assert(h3[yi as int][xi as int] == Tile::Empty);
    }
    if xi > 0 {
        if matches!(board.get(yi, xi - 1), Tile::Floor) {
            proof {
                lemma_neighbor_seed(
                    board@,
                    yi as int,
                    xi as int,
                    yi as int,
                    xi as int - 1,
                );
            }
            cull_tiles([yi, xi - 1], board);
        }
        proof {
            assert(board@[yi as int][xi as int - 1] != Tile::Floor);
        }
    }
    let ghost h4 = board@;
    proof {
        assert(cull_step(h3, h4) && sealed(h3, h4));
        lemma_cull_tiles_finish(g, gs, h1, h2, h3, h4, yi as int, xi as int);
    }
}

/// A seed is exterior: the one-cell path witnesses it.
proof fn lemma_seed_exterior(g: Seq<Seq<Tile>>, y: int, x: int)
    requires
        in_grid(g, y, x),
        is_seed(g, y, x),
    ensures
        is_exterior(g, y, x),
{
    let p = seq![(y, x)];
    assert(p.last() == p[0]);
    assert(is_floor_path(g, p));
}

/// A floor cell next to an exterior cell is exterior.
proof fn lemma_exterior_extend(g: Seq<Seq<Tile>>, y: int, x: int, ny: int, nx: int)
    requires
        in_grid(g, y, x),
        g[y][x] == Tile::Floor,
        adjacent(y, x, ny, nx),
        is_exterior(g, ny, nx),
    ensures
        is_exterior(g, y, x),
{
    let q = choose|q: Seq<(int, int)>|
        #[trigger] is_floor_path(g, q) && q[0] == (ny, nx) && is_seed(g, q.last().0, q.last().1);
    let p = seq![(y, x)];
    assert(p.last() == p[0]);
    assert(is_floor_path(g, p));
    lemma_path_concat(g, p, q);
}

/// A culled grid reached from a stable state never changes again: the
/// culled cells of a stable grid are exactly the exterior floor cells.
proof fn lemma_stable_is_cull(g: Seq<Seq<Tile>>, h: Seq<Seq<Tile>>)
    requires
        cull_step(g, h),
        stable_grid(h),
    ensures
        h =~~= spec_cull(g),
{
    assert forall|y: int, x: int| in_grid(g, y, x) implies #[trigger] h[y][x] == spec_cull(
        g,
    )[y][x] by {
        if g[y][x] == Tile::Floor && is_exterior(g, y, x) {
            let p = choose|p: Seq<(int, int)>|
                #[trigger] is_floor_path(g, p) && p[0] == (y, x) && is_seed(
                    g,
                    p.last().0,
                    p.last().1,
                );
            lemma_stable_complete(g, h, p);
            assert(h[y][x] == Tile::Empty);
        } else {
            assert(h[y][x] == g[y][x]);
        }
    }
}

/// Culling a stable cell keeps it stable.
proof fn lemma_stable_cell_persists(h: Seq<Seq<Tile>>, k: Seq<Seq<Tile>>, y: int, x: int)
    requires
        cull_step(h, k),
        sealed(h, k),
        in_grid(h, y, x),
        !is_seed(h, y, x),
    ensures
        !is_seed(k, y, x),
{
    if k[y][x] == Tile::Floor {
        assert(h[y][x] == Tile::Floor);
        if is_seed(k, y, x) {
            if on_boundary(k, y, x) {
                assert(on_boundary(h, y, x));
                assert(is_seed(h, y, x));
            } else {
                let (ny, nx) = choose|ny: int, nx: int|
                    in_grid(k, ny, nx) && adjacent(y, x, ny, nx) && #[trigger] k[ny][nx]
                        == Tile::Empty;
                assert(in_grid(h, ny, nx));
                if h[ny][nx] == Tile::Empty {
                    assert(has_empty_neighbor(h, y, x));
                    assert(is_seed(h, y, x));
                } else {
                    assert(k[ny][nx] != h[ny][nx]);
                    assert(neighbors_not_floor(k, ny, nx));
                    assert(adjacent(ny, nx, y, x));
                    assert(k[y][x] != Tile::Floor);
                }
            }
        }
    }
}

/// Culls every exterior floor tile of the board, scanning in row-major
/// order and flooding from each seed found.
///
/// On return the board equals `spec_cull` of the input: every exterior
/// floor cell is `Empty`, and every other cell keeps its tile. The pass
/// is total: it never fails on a well-formed board.
#[verifier::rlimit(100)]
pub fn cull_outer_tiles(board: &mut Board)
    requires
        old(board).wf(),
    ensures
        final(board).wf(),
        final(board)@ == spec_cull(old(board)@),
{
    let ghost g = board@;
    let rows = board.rows();
    let cols = board.cols();
    let mut yi: usize = 0;
    while yi < rows
        invariant
            board.wf(),
            rows == g.len(),
            forall|i: int| 0 <= i < g.len() ==> (#[trigger] g[i]).len() == cols,
            yi <= rows,
            cull_step(g, board@),
            sealed(g, board@),
            forall|yy: int, xx: int|
                0 <= yy < yi && 0 <= xx < cols ==> !is_seed(board@, yy, xx),
        decreases rows - yi,
    {
        let mut xi: usize = 0;
        while xi < cols
            invariant
                board.wf(),
                rows == g.len(),
                forall|i: int| 0 <= i < g.len() ==> (#[trigger] g[i]).len() == cols,
                yi < rows,
                xi <= cols,
                cull_step(g, board@),
                sealed(g, board@),
                forall|yy: int, xx: int|
                    0 <= yy < yi && 0 <= xx < cols ==> !is_seed(board@, yy, xx),
                forall|xx: int| 0 <= xx < xi ==> !is_seed(board@, yi as int, xx),
            decreases cols - xi,
        {
            let ghost before = board@;
            if matches!(board.get(yi, xi), Tile::Floor) {
                cull_tiles([yi, xi], board);
            }
            proof {
                let after = board@;
                assert(cull_step(before, after) && sealed(before, after));
                lemma_cull_step_trans(g, before, after);
                // earlier cells stay stable
                assert forall|yy: int, xx: int|
                    0 <= yy < yi && 0 <= xx < cols implies !is_seed(after, yy, xx) by {
                    lemma_stable_cell_persists(before, after, yy, xx);
                }
                assert forall|xx: int| 0 <= xx < xi implies !is_seed(
                    after,
                    yi as int,
                    xx,
                ) by {
                    lemma_stable_cell_persists(before, after, yi as int, xx);
                }
                // the cell just visited is stable now
                assert(!is_seed(after, yi as int, xi as int)) by {
                    if before[yi as int][xi as int] == Tile::Floor {
                        if is_seed(before, yi as int, xi as int) {
                            assert(after[yi as int][xi as int] == Tile::Empty);
                        } else {
                            assert(after == before);
                        }
                    } else {
                        assert(after[yi as int][xi as int] != Tile::Floor);
                    }
                }
                // accumulated seal: changed cells of either leg
                assert forall|y: int, x: int|
                    in_grid(g, y, x) && #[trigger] after[y][x] != g[y][x] implies neighbors_not_floor(
                    after,
                    y,
                    x,
                ) by {
                    if before[y][x] != g[y][x] {
                        assert(neighbors_not_floor(before, y, x));
                        lemma_nnf_persists(before, after, y, x);
                    } else {
                        assert(after[y][x] != before[y][x]);
                    }
                }
                assert(sealed(g, after));
            }
            xi = xi + 1;
        }
        yi = yi + 1;
    }
    proof {
        assert(stable_grid(board@)) by {
            assert forall|y: int, x: int| in_grid(board@, y, x) implies !is_seed(
                board@,
                y,
                x,
            ) by {
                assert(in_grid(g, y, x));
            }
        }
        lemma_stable_is_cull(g, board@);
    }
}

/// The tile a token writes into the board, if any.
pub open spec fn spec_tile_of(t: SpecToken) -> Option<Tile> {
    match t {
        SpecToken::Wall => Some(Tile::Wall),
        SpecToken::Goal => Some(Tile::Goal),
        SpecToken::SokoBoxAndGoal => Some(Tile::Goal),
        SpecToken::PlayerAndGoal => Some(Tile::Goal),
        _ => None,
    }
}

/// The entity a token places at `(x, y)`, if any.
pub open spec fn spec_entity_of(t: SpecToken, x: int, y: int) -> Option<Entity> {
    match t {
        SpecToken::Player => Some(
            Entity::Player { position: Coordinate { x: x as usize, y: y as usize } },
        ),
        SpecToken::PlayerAndGoal => Some(
            Entity::Player { position: Coordinate { x: x as usize, y: y as usize } },
        ),
        SpecToken::SokoBox => Some(
            Entity::SokoBox { position: Coordinate { x: x as usize, y: y as usize } },
        ),
        SpecToken::SokoBoxAndGoal => Some(
            Entity::SokoBox { position: Coordinate { x: x as usize, y: y as usize } },
        ),
        _ => None,
    }
}

/// Walks the level tokens with a running cursor, writing tiles and
/// placing entities; a row boundary resets the column and advances the
/// row. Writes that would leave the grid are clipped.
pub open spec fn spec_walk(
    rest: Seq<SpecToken>,
    g: Seq<Seq<Tile>>,
    es: Seq<Entity>,
    x: int,
    y: int,
) -> (Seq<Seq<Tile>>, Seq<Entity>)
    decreases rest.len(),
{
    if rest.len() == 0 {
        (g, es)
    } else {
        let t = rest[0];
        if t is NewLine {
            spec_walk(rest.skip(1), g, es, 0, y + 1)
        } else {
            let g2 = if in_grid(g, y, x) {
                match spec_tile_of(t) {
                    Some(tile) => g.update(y, g[y].update(x, tile)),
                    None => g,
                }
            } else {
                g
            };
            let es2 = if in_grid(g, y, x) {
                match spec_entity_of(t, x, y) {
                    Some(e) => es.push(e),
                    None => es,
                }
            } else {
                es
            };
            spec_walk(rest.skip(1), g2, es2, x + 1, y)
        }
    }
}

/// An all-`fill` grid of the given dimensions.
pub open spec fn spec_fill_grid(rows: int, cols: int, fill: Tile) -> Seq<Seq<Tile>> {
    Seq::new(rows as nat, |y: int| Seq::new(cols as nat, |x: int| fill))
}

/// The board a level's tokens build, before culling: a floor-filled
/// grid of the measured dimensions with the walked tiles written in.
pub open spec fn spec_built_board(rest: Seq<SpecToken>) -> Seq<Seq<Tile>> {
    spec_walk(
        rest,
        spec_fill_grid(spec_nl_count(rest) as int, spec_max_run(rest) as int, Tile::Floor),
        Seq::empty(),
        0,
        0,
    ).0
}

/// The entities a level's tokens place, in token order.
pub open spec fn spec_built_entities(rest: Seq<SpecToken>) -> Seq<Entity> {
    spec_walk(
        rest,
        spec_fill_grid(spec_nl_count(rest) as int, spec_max_run(rest) as int, Tile::Floor),
        Seq::empty(),
        0,
        0,
    ).1
}

/// The title text a title token carries.
pub open spec fn spec_text_of(t: SpecToken) -> Seq<char> {
    match t {
        SpecToken::Text(s) => s,
        _ => Seq::empty(),
    }
}

/// The board of the group's tokens fits in memory: each dimension and
/// the cell count the builder allocates must not overflow.
pub open spec fn spec_level_fits(ts: Seq<SpecToken>) -> bool {
    ts.len() > 0 && ts[0] is Text ==> spec_nl_count(ts.skip(1)) <= isize::MAX && spec_max_run(
        ts.skip(1),
    ) <= isize::MAX && spec_nl_count(ts.skip(1)) * spec_max_run(ts.skip(1)) <= isize::MAX
}

/// What building one level group yields: a world named by the title
/// token, with the culled walked board and the walked entities; a group
/// that does not open with a title is rejected.
pub open spec fn spec_parse_level_matches(ts: Seq<SpecToken>, r: Result<World, String>) -> bool {
    if ts.len() > 0 && ts[0] is Text {
        r matches Ok(w) && w.name@ == spec_text_of(ts[0]) && w.board@ == spec_cull(
            spec_built_board(ts.skip(1)),
        ) && w.entities@ == spec_built_entities(ts.skip(1)) && w.camera_position == (Coordinate {
            x: 0,
            y: 0,
        }) && w.wf()
    } else {
        r matches Err(e) && e@ == "Level must start with a title"@
    }
}

/// Builds one level from its token group: measures the board, fills it
/// with floor, walks the tokens writing tiles and placing entities,
/// then culls the exterior floor.
#[verifier::rlimit(100)]
pub fn parse_sokoban_level(tokens: &[Token]) -> (r: Result<World, String>)
    requires
        spec_level_fits(toks_view(tokens@)),
    ensures
        spec_parse_level_matches(toks_view(tokens@), r),
{
    let ghost ts = toks_view(tokens@);
    if tokens.len() == 0 {
        return Result::Err("Level must start with a title".to_owned());
    }
    let title: String = match slice_index_get(tokens, 0) {
        Token::Text(t) => t.clone(),
        _ => {
            return Result::Err("Level must start with a title".to_owned());
        },
    };
    let level_toks = slice_subrange(tokens, 1, tokens.len());
    let ghost rest = toks_view(level_toks@);
    proof {
        assert(rest =~= ts.skip(1));
    }
    // dimensions for the board
    let (wd, ht) = get_board_dimensions(level_toks);
    // create an initial board with default floor
    let mut board = Board::new(ht, wd, Tile::Floor);
    let mut entities: Vec<Entity> = Vec::new();
    proof {
        assert(board@ =~~= spec_fill_grid(ht as int, wd as int, Tile::Floor));
        assert(rest.skip(0) =~= rest);
    }
    let mut x: usize = 0;
    let mut y: usize = 0;
    let mut i: usize = 0;
    while i < level_toks.len()
        invariant
            rest == toks_view(level_toks@),
            rest.len() == level_toks@.len(),
            i <= rest.len(),
            x <= i,
            y <= i,
            board.wf(),
            board@.len() == ht,
            forall|rr: int| 0 <= rr < board@.len() ==> (#[trigger] board@[rr]).len() == wd,
            forall|k: int|
                0 <= k < entities@.len() ==> coord_in_grid(
                    (#[trigger] entities@[k]).spec_position(),
                    board@,
                ),
            spec_walk(rest, spec_fill_grid(ht as int, wd as int, Tile::Floor), Seq::empty(), 0, 0)
                == spec_walk(rest.skip(i as int), board@, entities@, x as int, y as int),
        decreases rest.len() - i,
    {
        let ghost i0 = i as int;
        proof {
            assert(rest.skip(i0)[0] == rest[i0]);
            assert(rest.skip(i0).skip(1) =~= rest.skip(i0 + 1));
        }
        match slice_index_get(level_toks, i) {
            Token::NewLine => {
                y = y + 1;
                x = 0;
            },
            tok => {
                if y < ht && x < wd {
                    match tok {
                        Token::Wall => {
                            board.set(y, x, Tile::Wall);
                        },
                        Token::Goal => {
                            board.set(y, x, Tile::Goal);
                        },
                        Token::Player => {
                            entities.push(Entity::Player { position: Coordinate { x, y } });
                        },
                        Token::SokoBox => {
                            entities.push(Entity::SokoBox { position: Coordinate { x, y } });
                        },
                        Token::SokoBoxAndGoal => {
                            board.set(y, x, Tile::Goal);
                            entities.push(Entity::SokoBox { position: Coordinate { x, y } });
                        },
                        Token::PlayerAndGoal => {
                            board.set(y, x, Tile::Goal);
                            entities.push(Entity::Player { position: Coordinate { x, y } });
                        },
                        _ => {},
                    }
                } else {
                    proof {
                        assert(!in_grid(board@, y as int, x as int));
                    }
                }
                x = x + 1;
            },
        }
        i = i + 1;
    }
    proof {
        assert(rest.skip(rest.len() as int) =~= Seq::<SpecToken>::empty());
        assert(board@ == spec_built_board(rest) && entities@ == spec_built_entities(rest));
    }
    cull_outer_tiles(&mut board);
    let level = World {
        name: title,
        board,
        entities,
        camera_position: Coordinate { x: 0, y: 0 },
    };
    proof {
        assert(level.wf()) by {
            assert forall|k: int|
                0 <= k < level.entities@.len() implies coord_in_grid(
                (#[trigger] level.entities@[k]).spec_position(),
                level.board@,
            ) by {
                assert(level.board@.len() == spec_built_board(rest).len());
                let c = level.entities@[k].spec_position();
                assert(level.board@[c.y as int].len() == spec_built_board(rest)[c.y as int].len());
            }
        }
    }
    Result::Ok(level)
}

/// The token stream of a text, or nothing when tokenizing fails.
pub open spec fn spec_toks_of(s: Seq<char>) -> Seq<SpecToken> {
    match spec_tokenize(s) {
        Option::Some(ts) => ts,
        Option::None => Seq::empty(),
    }
}

/// The boards of every level in the pack fit in memory.
pub open spec fn spec_levels_fit(s: Seq<char>) -> bool {
    forall|j: int|
        0 <= j < spec_groups(spec_toks_of(s)).len() ==> spec_level_fits(
            #[trigger] spec_groups(spec_toks_of(s))[j],
        )
}

/// What parsing a whole pack yields: failure messages for an
/// untokenizable text or an empty pack, else one world per group, each
/// pinned by `spec_parse_level_matches`.
pub open spec fn spec_parse_worlds_matches(s: Seq<char>, r: Result<Vec<World>, String>) -> bool {
    match spec_tokenize(s) {
        Option::None => r matches Err(e) && e@ == "Level failed to load"@,
        Option::Some(ts) => {
            if spec_groups(ts).len() == 0 {
                r matches Err(e) && e@ == "No Levels were loaded"@
            } else {
                r matches Ok(ws) && ws@.len() == spec_groups(ts).len() && forall|j: int|
                    0 <= j < spec_groups(ts).len() ==> spec_parse_level_matches(
                        spec_groups(ts)[j],
                        Ok(#[trigger] ws@[j]),
                    )
            }
        },
    }
}

/// Round-trip load stability: parsing is a pure function of its input
/// text, so two loads of the same text agree world for world — same
/// names, same board dimensions and tile classifications, and the same
/// entity lists in the same order.
pub proof fn lemma_parse_round_trip(
    s: Seq<char>,
    r1: Result<Vec<World>, String>,
    r2: Result<Vec<World>, String>,
)
    requires
        spec_parse_worlds_matches(s, r1),
        spec_parse_worlds_matches(s, r2),
        r1 is Ok,
    ensures
        r2 is Ok,
        (r1 matches Ok(w1) && r2 matches Ok(w2) && w1@.len() == w2@.len() && forall|j: int|
            0 <= j < w1@.len() ==> (#[trigger] w1@[j]).name@ == w2@[j].name@ && w1@[j].board@
                == w2@[j].board@ && w1@[j].entities@ == w2@[j].entities@),
{
    let ts = spec_toks_of(s);
    assert(spec_tokenize(s) is Some);
    let gs = spec_groups(ts);
    let w1 = r1->Ok_0;
    let w2 = r2->Ok_0;
    assert forall|j: int| 0 <= j < w1@.len() implies (#[trigger] w1@[j]).name@ == w2@[j].name@
        && w1@[j].board@ == w2@[j].board@ && w1@[j].entities@ == w2@[j].entities@ by {
        assert(spec_parse_level_matches(gs[j], Ok(w1@[j])));
        assert(spec_parse_level_matches(gs[j], Ok(w2@[j])));
    }
}

/// Parses a whole level pack: tokenizes the text, splits the tokens
/// into per-level groups, and builds one world per group. A character
/// outside the tile alphabet fails the load; a pack that yields no
/// level at all is rejected.
#[verifier::rlimit(100)]
pub fn parse_sokoban_worlds(sokoban_text: &str) -> (r: Result<Vec<World>, String>)
    requires
        spec_levels_fit(sokoban_text@),
    ensures
        spec_parse_worlds_matches(sokoban_text@, r),
{
    match tokenize(sokoban_text) {
        Option::None => Result::Err("Level failed to load".to_owned()),
        Option::Some(tokens) => {
            let ghost ts = toks_view(tokens@);
            let groups = group_sokoban_tokens(tokens.as_slice());
            let ghost gs = spec_groups(ts);
            let mut worlds: Vec<World> = Vec::new();
            let mut j: usize = 0;
            while j < groups.len()
                invariant
                    spec_tokenize(sokoban_text@) == Some(ts),
                    spec_levels_fit(sokoban_text@),
                    gs == spec_groups(ts),
                    groups@.map_values(|g: Vec<Token>| toks_view(g@)) == gs,
                    groups@.len() == gs.len(),
                    j <= gs.len(),
                    worlds@.len() == j,
                    forall|k: int|
                        0 <= k < j ==> spec_parse_level_matches(gs[k], Ok(#[trigger] worlds@[k])),
                decreases gs.len() - j,
            {
                proof {
                    assert(toks_view(groups@[j as int]@) == gs[j as int]);
                    lemma_text_indices_props(ts);
                    assert(gs[j as int].len() > 0 && gs[j as int][0] is Text) by {
                        let idx = spec_text_indices(ts);
                        assert(gs[j as int] == ts.subrange(
                            idx[j as int],
                            if j + 1 < idx.len() {
                                idx[j as int + 1]
                            } else {
                                ts.len() as int
                            },
                        ));
                        assert(gs[j as int][0] == ts[idx[j as int]]);
                    }
                }
                proof {
                    assert(spec_level_fits(gs[j as int])) by {
                        assert(spec_toks_of(sokoban_text@) == ts);
                        assert(spec_groups(spec_toks_of(sokoban_text@))[j as int] == gs[
                            j as int
                        ]);
                    }
                }
                match parse_sokoban_level(groups[j].as_slice()) {
                    Result::Ok(world) => {
                        worlds.push(world);
                    },
                    Result::Err(_) => {
                        proof {
                            assert(false);
                        }
                    },
                }
                j = j + 1;
            }
            if worlds.len() == 0 {
                return Result::Err("No Levels were loaded".to_owned());
            }
            Result::Ok(worlds)
        },
    }
}

/// Culling is idempotent: a culled grid has no seeds left, so culling
/// it again changes nothing.
pub proof fn lemma_cull_idempotent(g: Seq<Seq<Tile>>)
    ensures
        spec_cull(spec_cull(g)) == spec_cull(g),
{
    let h = spec_cull(g);
    assert forall|y: int, x: int| in_grid(h, y, x) implies !is_seed(h, y, x) by {
        if is_seed(h, y, x) {
            assert(h[y][x] == Tile::Floor);
            assert(g[y][x] == Tile::Floor && !is_exterior(g, y, x));
            if on_boundary(h, y, x) {
                assert(on_boundary(g, y, x));
                lemma_seed_exterior(g, y, x);
            } else {
                let (ny, nx) = choose|ny: int, nx: int|
                    in_grid(h, ny, nx) && adjacent(y, x, ny, nx) && #[trigger] h[ny][nx]
                        == Tile::Empty;
                assert(in_grid(g, ny, nx));
                if g[ny][nx] == Tile::Empty {
                    assert(has_empty_neighbor(g, y, x));
                    lemma_seed_exterior(g, y, x);
                } else {
                    assert(g[ny][nx] == Tile::Floor && is_exterior(g, ny, nx));
                    lemma_exterior_extend(g, y, x, ny, nx);
                }
            }
        }
    }
    assert forall|y: int, x: int| in_grid(h, y, x) && h[y][x] == Tile::Floor implies !is_exterior(
        h,
        y,
        x,
    ) by {
        if is_exterior(h, y, x) {
            let p = choose|p: Seq<(int, int)>|
                #[trigger] is_floor_path(h, p) && p[0] == (y, x) && is_seed(
                    h,
                    p.last().0,
                    p.last().1,
                );
            assert(in_grid(h, p.last().0, p.last().1));
            assert(!is_seed(h, p.last().0, p.last().1));
        }
    }
    assert(spec_cull(h) =~~= h);
}

/// Walls and goals are immutable under culling.
pub proof fn lemma_cull_preserves_walls_goals(g: Seq<Seq<Tile>>, y: int, x: int)
    requires
        in_grid(g, y, x),
        g[y][x] == Tile::Wall || g[y][x] == Tile::Goal,
    ensures
        spec_cull(g)[y][x] == g[y][x],
{
}

/// Fully enclosed interior floor survives: a floor cell that no floor
/// path connects to a seed keeps its tile.
pub proof fn lemma_enclosed_floor_survives(g: Seq<Seq<Tile>>, y: int, x: int)
    requires
        in_grid(g, y, x),
        g[y][x] == Tile::Floor,
        !is_exterior(g, y, x),
    ensures
        spec_cull(g)[y][x] == Tile::Floor,
{
}

/// Boundary floor is always culled: a floor cell on row 0, the last
/// row, column 0 or the last column becomes empty, unconditionally.
pub proof fn lemma_boundary_floor_culled(g: Seq<Seq<Tile>>, y: int, x: int)
    requires
        in_grid(g, y, x),
        g[y][x] == Tile::Floor,
        on_boundary(g, y, x),
    ensures
        spec_cull(g)[y][x] == Tile::Empty,
{
    lemma_seed_exterior(g, y, x);
}

} // verus!
