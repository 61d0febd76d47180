use vstd::prelude::*;
use vstd::string::StrSliceExecFns;

use crate::parser::{GameConfig, GameRequest, GameType, GameTypeView, PokerVariant};
use crate::strings::str_eq;

verus! {

/// The first index holding `c`, scanning forward.
pub open spec fn first_index_of(t: Seq<char>, c: char, i: int) -> Option<int>
    decreases t.len() - i,
        when 0 <= i <= t.len()
{
    if i >= t.len() {
        None
    } else if t[i] == c {
        Some(i)
    } else {
        first_index_of(t, c, i + 1)
    }
}

/// The last index holding `c`, scanning backward.
pub open spec fn last_index_of(t: Seq<char>, c: char, i: int) -> Option<int>
    decreases i,
        when i <= t.len()
{
    if i <= 0 {
        None
    } else if t[i - 1] == c {
        Some(i - 1)
    } else {
        last_index_of(t, c, i - 1)
    }
}

/// The span a model's reply is read from: from the first opening brace to
/// the last closing brace, inclusive, when both exist in that order, and the
/// whole reply otherwise.
pub open spec fn json_span(t: Seq<char>) -> Seq<char> {
    match (first_index_of(t, '{', 0), last_index_of(t, '}', t.len() as int)) {
        (Some(a), Some(b)) => if a <= b {
            t.subrange(a, b + 1)
        } else {
            t
        },
        _ => t,
    }
}

/// The first position of `c` in `s`.
fn find_first_char(s: &str, c: char) -> (r: Option<usize>)
    ensures
        match r {
            Some(i) => first_index_of(s@, c, 0) == Some(i as int),
            None => first_index_of(s@, c, 0) is None,
        },
{
    let n = s.unicode_len();
    let mut i: usize = 0;
    while i < n
        invariant
            n == s@.len(),
            i <= n,
            first_index_of(s@, c, 0) == first_index_of(s@, c, i as int),
        decreases n - i,
    {
        if s.get_char(i) == c {
            return Some(i);
        }
        i = i + 1;
    }
    None
}

/// The last position of `c` in `s`.
fn find_last_char(s: &str, c: char) -> (r: Option<usize>)
    ensures
        match r {
            Some(i) => last_index_of(s@, c, s@.len() as int) == Some(i as int),
            None => last_index_of(s@, c, s@.len() as int) is None,
        },
{
    let n = s.unicode_len();
    let mut j: usize = n;
    while j > 0
        invariant
            n == s@.len(),
            j <= n,
            last_index_of(s@, c, n as int) == last_index_of(s@, c, j as int),
        decreases j,
    {
        if s.get_char(j - 1) == c {
            return Some(j - 1);
        }
        j = j - 1;
    }
    None
}

/// Cuts the reply of the remote parser down to its JSON span.
pub fn extract_json_span(content: &str) -> (r: String)
    ensures
        r@ == json_span(content@),
{
    let n = content.unicode_len();
    let open_at = find_first_char(content, '{');
    let close_at = find_last_char(content, '}');
    proof {
        if open_at is Some {
            lemma_first_index_in_range(content@, '{', 0);
        }
        if close_at is Some {
            lemma_last_index_in_range(content@, '}', content@.len() as int);
        }
    }
    match (open_at, close_at) {
        (Some(a), Some(b)) => {
            proof {
                assert(b < n);
            }
            if a <= b {
                let piece = content.substring_char(a, b + 1);
                piece.to_owned()
            } else {
                content.to_owned()
            }
        },
        _ => content.to_owned(),
    }
}

/// A found first index lies in range.
proof fn lemma_first_index_in_range(t: Seq<char>, c: char, i: int)
    requires
        0 <= i <= t.len(),
        first_index_of(t, c, i) is Some,
    ensures
        i <= first_index_of(t, c, i)->0 < t.len(),
    decreases t.len() - i,
{
    if i < t.len() && t[i] != c {
        lemma_first_index_in_range(t, c, i + 1);
    }
}

/// A found last index lies in range.
proof fn lemma_last_index_in_range(t: Seq<char>, c: char, i: int)
    requires
        0 <= i <= t.len(),
        last_index_of(t, c, i) is Some,
    ensures
        0 <= last_index_of(t, c, i)->0 < i,
    decreases i,
{
    if i > 0 && t[i - 1] != c {
        lemma_last_index_in_range(t, c, i - 1);
    }
}

/// The game type a remote parser's tag names; an unknown tag becomes a
/// custom type under its own name.
pub open spec fn llm_game_type(tag: Seq<char>) -> GameTypeView {
    if tag == "tictactoe"@ || tag == "tic-tac-toe"@ {
        GameTypeView::TicTacToe
    } else if tag == "chess"@ {
        GameTypeView::Chess
    } else if tag == "checkers"@ {
        GameTypeView::Checkers
    } else if tag == "poker"@ {
        GameTypeView::Poker { variant: PokerVariant::TexasHoldem }
    } else {
        GameTypeView::Custom { name: tag }
    }
}

/// Assembles the structured request from the fields a remote parser's JSON
/// reply carried: the tagged game type, the player count (two when absent,
/// also recorded as the maximum), and the optional settings.
pub fn build_game_request(
    game_type: &str,
    player_count: Option<usize>,
    time_limit: Option<u32>,
    buy_in: Option<u64>,
    custom_rules: Vec<String>,
    original_prompt: &str,
) -> (r: GameRequest)
    ensures
        r.game_type@ == llm_game_type(game_type@),
        r.player_count == (match player_count {
            Some(v) => v,
            None => 2usize,
        }),
        r.config.time_limit == time_limit,
        r.config.buy_in == buy_in,
        r.config.max_players == Some(
            match player_count {
                Some(v) => v,
                None => 2usize,
            },
        ),
        r.config@.custom_rules == Seq::new(custom_rules@.len(), |i: int| custom_rules@[i]@),
        r.raw_prompt@ == original_prompt@,
{
    let parsed_type: GameType = if str_eq(game_type, "tictactoe") || str_eq(
        game_type,
        "tic-tac-toe",
    ) {
        GameType::TicTacToe
    } else if str_eq(game_type, "chess") {
        GameType::Chess
    } else if str_eq(game_type, "checkers") {
        GameType::Checkers
    } else if str_eq(game_type, "poker") {
        GameType::Poker { variant: PokerVariant::TexasHoldem }
    } else {
        GameType::Custom { name: game_type.to_owned() }
    };
    let count: usize = match player_count {
        Some(v) => v,
        None => 2,
    };
    GameRequest {
        game_type: parsed_type,
        player_count: count,
        config: GameConfig { time_limit, buy_in, max_players: Some(count), custom_rules },
        raw_prompt: original_prompt.to_owned(),
    }
}

} // verus!
