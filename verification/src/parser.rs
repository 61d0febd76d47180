use vstd::prelude::*;
use vstd::string::StrSliceExecFns;

use crate::numbers::{digits_value, is_digit};
use crate::strings::{contains_seq, matches_at, matches_here};

verus! {

/// The kinds of game an episode can host.
#[derive(Debug)]
pub enum GameType {
    TicTacToe,
    Chess,
    Checkers,
    Poker { variant: PokerVariant },
    Custom { name: String },
}

/// The poker variants the parser distinguishes.
#[derive(Debug, Clone, Copy, PartialEq, Eq, Structural)]
pub enum PokerVariant {
    TexasHoldem,
    Omaha,
    FiveCard,
}

/// Mathematical image of a `GameType`.
#[verifier::ext_equal]
pub enum GameTypeView {
    TicTacToe,
    Chess,
    Checkers,
    Poker { variant: PokerVariant },
    Custom { name: Seq<char> },
}

impl View for GameType {
    type V = GameTypeView;

    open spec fn view(&self) -> GameTypeView {
        match self {
            GameType::TicTacToe => GameTypeView::TicTacToe,
            GameType::Chess => GameTypeView::Chess,
            GameType::Checkers => GameTypeView::Checkers,
            GameType::Poker { variant } => GameTypeView::Poker { variant: *variant },
            GameType::Custom { name } => GameTypeView::Custom { name: name@ },
        }
    }
}

/// The display label of a game type.
pub open spec fn game_type_label(g: GameTypeView) -> Seq<char> {
    match g {
        GameTypeView::TicTacToe => "TicTacToe"@,
        GameTypeView::Chess => "Chess"@,
        GameTypeView::Checkers => "Checkers"@,
        GameTypeView::Poker { variant } => match variant {
            PokerVariant::TexasHoldem => "Poker_TexasHoldem"@,
            PokerVariant::Omaha => "Poker_Omaha"@,
            PokerVariant::FiveCard => "Poker_FiveCard"@,
        },
        GameTypeView::Custom { name } => name,
    }
}

impl GameType {
    /// The type's display label; the poker label carries its variant.
    pub fn to_string(&self) -> (r: String)
        ensures
            r@ == game_type_label(self@),
    {
        match self {
            GameType::TicTacToe => "TicTacToe".to_owned(),
            GameType::Chess => "Chess".to_owned(),
            GameType::Checkers => "Checkers".to_owned(),
            GameType::Poker { variant } => match variant {
                PokerVariant::TexasHoldem => "Poker_TexasHoldem".to_owned(),
                PokerVariant::Omaha => "Poker_Omaha".to_owned(),
                PokerVariant::FiveCard => "Poker_FiveCard".to_owned(),
            },
            GameType::Custom { name } => name.clone(),
        }
    }
}

/// Optional settings extracted from a prompt.
#[derive(Debug)]
pub struct GameConfig {
    pub time_limit: Option<u32>,
    pub buy_in: Option<u64>,
    pub max_players: Option<usize>,
    pub custom_rules: Vec<String>,
}

/// Mathematical image of a `GameConfig`.
#[verifier::ext_equal]
pub struct GameConfigView {
    pub time_limit: Option<u32>,
    pub buy_in: Option<u64>,
    pub max_players: Option<usize>,
    pub custom_rules: Seq<Seq<char>>,
}

impl View for GameConfig {
    type V = GameConfigView;

    open spec fn view(&self) -> GameConfigView {
        GameConfigView {
            time_limit: self.time_limit,
            buy_in: self.buy_in,
            max_players: self.max_players,
            custom_rules: Seq::new(self.custom_rules@.len(), |i: int| self.custom_rules@[i]@),
        }
    }
}

/// The configuration with nothing set.
pub open spec fn empty_config() -> GameConfigView {
    GameConfigView {
        time_limit: None,
        buy_in: None,
        max_players: None,
        custom_rules: Seq::empty(),
    }
}

impl Default for GameConfig {
    fn default() -> (r: Self)
        ensures
            r@ == empty_config(),
    {
        let r = GameConfig {
            time_limit: None,
            buy_in: None,
            max_players: None,
            custom_rules: Vec::new(),
        };
        proof {
            assert(r@ =~~= empty_config());
        }
        r
    }
}

/// A structured game request distilled from a natural-language prompt.
#[derive(Debug)]
pub struct GameRequest {
    pub game_type: GameType,
    pub player_count: usize,
    pub config: GameConfig,
    pub raw_prompt: String,
}

/// The lowercase image of a character; only the ASCII letters fold.
pub open spec fn lower_char(c: char) -> char {
    if 'A' <= c && c <= 'Z' {
        ((c as u8) + 32) as char
    } else {
        c
    }
}

/// The character-wise ASCII lowercase of a string.
pub open spec fn lower_seq(s: Seq<char>) -> Seq<char> {
    s.map_values(|c: char| lower_char(c))
}

/// The ASCII lowercase of the characters of `s`, one element per character.
fn lower_chars(s: &str) -> (r: Vec<char>)
    ensures
        r@ == lower_seq(s@),
{
    let n = s.unicode_len();
    let mut out: Vec<char> = Vec::new();
    let mut i: usize = 0;
    while i < n
        invariant
            n == s@.len(),
            i <= n,
            out@ =~= lower_seq(s@).take(i as int),
        decreases n - i,
    {
        let c = s.get_char(i);
        let lc: char = if c >= 'A' && c <= 'Z' {
            ((c as u8) + 32) as char
        } else {
            c
        };
        proof {
            assert(lc == lower_char(s@[i as int]));
        }
        out.push(lc);
        proof {
            assert(out@ =~= lower_seq(s@).take(i + 1));
        }
        i = i + 1;
    }
    proof {
        assert(lower_seq(s@).take(n as int) =~= lower_seq(s@));
    }
    out
}

/// Whether `pat` occurs anywhere in `t`.
fn contains_pat(t: &Vec<char>, pat: &str) -> (r: bool)
    ensures
        r == contains_seq(t@, pat@),
{
    let n = t.len();
    if pat.unicode_len() == 0 {
        proof {
            assert(t@.subrange(0, 0) =~= pat@);
            assert(matches_at(t@, pat@, 0));
        }
        return true;
    }
    let mut i: usize = 0;
    while i < n
        invariant
            n == t@.len(),
            i <= n,
            forall|k: int| 0 <= k < i ==> !matches_at(t@, pat@, k),
        decreases n - i,
    {
        if matches_here(t, pat, i) {
            return true;
        }
        i = i + 1;
    }
    proof {
        if contains_seq(t@, pat@) {
            let w = choose|w: int| matches_at(t@, pat@, w);
            assert(w < n);
        }
    }
    false
}


/// The whitespace characters the separator classes accept.
pub open spec fn is_space(c: char) -> bool {
    c == ' ' || c == '\t' || c == '\n' || c == '\r' || c == '\u{b}' || c == '\u{c}'
}

/// A separator between a count and its noun: whitespace or a dash.
pub open spec fn is_sep(c: char) -> bool {
    is_space(c) || c == '-'
}

/// The first index at or after `i` that does not hold a digit.
pub open spec fn digit_run_end(t: Seq<char>, i: int) -> int
    decreases t.len() - i,
        when 0 <= i <= t.len()
{
    if i >= t.len() {
        i
    } else if !is_digit(t[i]) {
        i
    } else {
        digit_run_end(t, i + 1)
    }
}

/// The first index at or after `i` that does not hold whitespace.
pub open spec fn space_run_end(t: Seq<char>, i: int) -> int
    decreases t.len() - i,
        when 0 <= i <= t.len()
{
    if i >= t.len() {
        i
    } else if !is_space(t[i]) {
        i
    } else {
        space_run_end(t, i + 1)
    }
}

/// Basic shape of a digit run: its end stays in range and everything up to
/// it is a digit.
pub proof fn lemma_digit_run_end(t: Seq<char>, i: int)
    requires
        0 <= i <= t.len(),
    ensures
        i <= digit_run_end(t, i) <= t.len(),
        forall|k: int| i <= k < digit_run_end(t, i) ==> is_digit(#[trigger] t[k]),
    decreases t.len() - i,
{
    if i < t.len() && is_digit(t[i]) {
        lemma_digit_run_end(t, i + 1);
    }
}

/// After a count, the noun may follow at once or after exactly one
/// separator character — never more: "3 players" and "3-player" count,
/// "3  players" does not. (The run-based rules for minutes and the buy-in
/// accept any whitespace run instead.)
pub open spec fn sep_then(t: Seq<char>, j: int, pat: Seq<char>) -> bool {
    matches_at(t, pat, j) || (j < t.len() && is_sep(t[j]) && matches_at(t, pat, j + 1))
}

/// Where the player-count rule matches: a digit run, then at most one
/// separator, then the word for a player.
pub open spec fn p1_at(t: Seq<char>, i: int) -> bool {
    0 <= i < t.len() && is_digit(t[i]) && sep_then(t, digit_run_end(t, i), "player"@)
}

/// Where the alternative count rule matches: the word "for", whitespace,
/// then a digit.
pub open spec fn p2_at(t: Seq<char>, i: int) -> bool {
    matches_at(t, "for"@, i) && ({
        let k = space_run_end(t, i + 3);
        k > i + 3 && k < t.len() && is_digit(t[k])
    })
}

/// Where the person-count rule matches: a digit run, then at most one
/// separator, then the word for a person.
pub open spec fn p3_at(t: Seq<char>, i: int) -> bool {
    0 <= i < t.len() && is_digit(t[i]) && sep_then(t, digit_run_end(t, i), "person"@)
}

/// Where the time-limit rule matches: a digit run, then whitespace, then the
/// word for a minute.
pub open spec fn pmin_at(t: Seq<char>, i: int) -> bool {
    0 <= i < t.len() && is_digit(t[i]) && matches_at(
        t,
        "minute"@,
        space_run_end(t, digit_run_end(t, i)),
    )
}

/// Where the buy-in rule matches: a digit run, then whitespace, then the
/// currency word.
pub open spec fn pkas_at(t: Seq<char>, i: int) -> bool {
    0 <= i < t.len() && is_digit(t[i]) && matches_at(
        t,
        "kas"@,
        space_run_end(t, digit_run_end(t, i)),
    )
}

/// The leftmost index at or after `i` where the player-count rule matches.
pub open spec fn first_p1(t: Seq<char>, i: int) -> Option<int>
    decreases t.len() - i,
        when 0 <= i <= t.len()
{
    if i >= t.len() {
        None
    } else if p1_at(t, i) {
        Some(i)
    } else {
        first_p1(t, i + 1)
    }
}

/// The leftmost index at or after `i` where the alternative count rule
/// matches.
pub open spec fn first_p2(t: Seq<char>, i: int) -> Option<int>
    decreases t.len() - i,
        when 0 <= i <= t.len()
{
    if i >= t.len() {
        None
    } else if p2_at(t, i) {
        Some(i)
    } else {
        first_p2(t, i + 1)
    }
}

/// The leftmost index at or after `i` where the person-count rule matches.
pub open spec fn first_p3(t: Seq<char>, i: int) -> Option<int>
    decreases t.len() - i,
        when 0 <= i <= t.len()
{
    if i >= t.len() {
        None
    } else if p3_at(t, i) {
        Some(i)
    } else {
        first_p3(t, i + 1)
    }
}

/// The leftmost index at or after `i` where the time-limit rule matches.
pub open spec fn first_pmin(t: Seq<char>, i: int) -> Option<int>
    decreases t.len() - i,
        when 0 <= i <= t.len()
{
    if i >= t.len() {
        None
    } else if pmin_at(t, i) {
        Some(i)
    } else {
        first_pmin(t, i + 1)
    }
}

/// The leftmost index at or after `i` where the buy-in rule matches.
pub open spec fn first_pkas(t: Seq<char>, i: int) -> Option<int>
    decreases t.len() - i,
        when 0 <= i <= t.len()
{
    if i >= t.len() {
        None
    } else if pkas_at(t, i) {
        Some(i)
    } else {
        first_pkas(t, i + 1)
    }
}

/// The number captured by a count rule matching at `i`: its digit run's
/// value.
pub open spec fn captured_value(t: Seq<char>, i: int) -> int {
    digits_value(t.subrange(i, digit_run_end(t, i)))
}

/// The player count the person rule extracts, if any.
pub open spec fn count_from_p3(t: Seq<char>) -> Option<int> {
    match first_p3(t, 0) {
        Some(i) => if captured_value(t, i) <= usize::MAX {
            Some(captured_value(t, i))
        } else {
            None
        },
        None => None,
    }
}

/// The player count the "for N" rule extracts, falling back to the person
/// rule when it is absent or its number does not fit.
pub open spec fn count_from_p2(t: Seq<char>) -> Option<int> {
    match first_p2(t, 0) {
        Some(i) => {
            let k = space_run_end(t, i + 3);
            if captured_value(t, k) <= usize::MAX {
                Some(captured_value(t, k))
            } else {
                count_from_p3(t)
            }
        },
        None => count_from_p3(t),
    }
}

/// The player count a prompt states: the first rule that matches with a
/// number that fits wins; a rule whose number does not fit yields to the
/// next rule.
pub open spec fn extract_player_count_spec(t: Seq<char>) -> Option<int> {
    match first_p1(t, 0) {
        Some(i) => if captured_value(t, i) <= usize::MAX {
            Some(captured_value(t, i))
        } else {
            count_from_p2(t)
        },
        None => count_from_p2(t),
    }
}

/// The per-turn time limit a prompt states, in seconds: the captured minutes
/// times sixty. Minutes that do not fit, or whose seconds would not, set no
/// limit.
pub open spec fn time_limit_spec(t: Seq<char>) -> Option<u32> {
    match first_pmin(t, 0) {
        Some(i) => if captured_value(t, i) <= u32::MAX && captured_value(t, i) * 60 <= u32::MAX {
            Some((captured_value(t, i) * 60) as u32)
        } else {
            None
        },
        None => None,
    }
}

/// The buy-in a prompt states. An amount that does not fit sets none.
pub open spec fn buy_in_spec(t: Seq<char>) -> Option<u64> {
    match first_pkas(t, 0) {
        Some(i) => if captured_value(t, i) <= u64::MAX {
            Some(captured_value(t, i) as u64)
        } else {
            None
        },
        None => None,
    }
}

/// The configuration a prompt states.
pub open spec fn config_spec(t: Seq<char>) -> GameConfigView {
    GameConfigView {
        time_limit: time_limit_spec(t),
        buy_in: buy_in_spec(t),
        max_players: None,
        custom_rules: Seq::empty(),
    }
}

/// The game type a prompt names, by keyword; the first keyword wins.
pub open spec fn detect_game_type(t: Seq<char>) -> Option<GameTypeView> {
    if contains_seq(t, "tic-tac-toe"@) || contains_seq(t, "tic tac toe"@) {
        Some(GameTypeView::TicTacToe)
    } else if contains_seq(t, "chess"@) {
        Some(GameTypeView::Chess)
    } else if contains_seq(t, "checkers"@) {
        Some(GameTypeView::Checkers)
    } else if contains_seq(t, "poker"@) || contains_seq(t, "hold'em"@) || contains_seq(
        t,
        "holdem"@,
    ) {
        Some(
            GameTypeView::Poker {
                variant: if contains_seq(t, "omaha"@) {
                    PokerVariant::Omaha
                } else {
                    PokerVariant::TexasHoldem
                },
            },
        )
    } else {
        None
    }
}

/// The parser's refusal: the prompt names no supported game.
#[derive(Debug, Clone, Copy, PartialEq, Eq, Structural)]
pub enum ParseError {
    UnsupportedGameType,
}

impl ParseError {
    /// The human-readable account of the refusal.
    pub fn message(&self) -> (r: String)
        ensures
            r@ == "Unsupported game type. Try: tic-tac-toe, chess, checkers, or poker"@,
    {
        "Unsupported game type. Try: tic-tac-toe, chess, checkers, or poker".to_owned()
    }
}

/// The end of the digit run starting at `i`.
fn digit_run_end_exec(t: &Vec<char>, i: usize) -> (r: usize)
    requires
        i <= t@.len(),
    ensures
        r == digit_run_end(t@, i as int),
{
    let n = t.len();
    let mut j: usize = i;
    while j < n && t[j] >= '0' && t[j] <= '9'
        invariant
            i <= j <= n,
            n == t@.len(),
            digit_run_end(t@, i as int) == digit_run_end(t@, j as int),
        decreases n - j,
    {
        j = j + 1;
    }
    j
}

/// The end of the whitespace run starting at `i`.
fn space_run_end_exec(t: &Vec<char>, i: usize) -> (r: usize)
    requires
        i <= t@.len(),
    ensures
        r == space_run_end(t@, i as int),
{
    let n = t.len();
    let mut j: usize = i;
    while j < n && (t[j] == ' ' || t[j] == '\t' || t[j] == '\n' || t[j] == '\r' || t[j]
        == '\u{b}' || t[j] == '\u{c}')
        invariant
            i <= j <= n,
            n == t@.len(),
            space_run_end(t@, i as int) == space_run_end(t@, j as int),
        decreases n - j,
    {
        j = j + 1;
    }
    j
}

/// Whether `pat` follows position `j` at once or after one separator.
fn sep_then_exec(t: &Vec<char>, j: usize, pat: &str) -> (r: bool)
    requires
        j <= t@.len(),
    ensures
        r == sep_then(t@, j as int, pat@),
{
    if matches_here(t, pat, j) {
        return true;
    }
    if j < t.len() {
        let c = t[j];
        if c == '-' || c == ' ' || c == '\t' || c == '\n' || c == '\r' || c == '\u{b}' || c
            == '\u{c}' {
            return matches_here(t, pat, j + 1);
        }
    }
    false
}

/// The value of the digit run `[i, j)`, when it fits a `u64`.
fn digits_to_u64(t: &Vec<char>, i: usize, j: usize) -> (r: Option<u64>)
    requires
        i <= j <= t@.len(),
        forall|k: int| i <= k < j ==> is_digit(#[trigger] t@[k]),
    ensures
        r is Some <==> digits_value(t@.subrange(i as int, j as int)) <= u64::MAX,
        r is Some ==> r->0 == digits_value(t@.subrange(i as int, j as int)),
{
    let mut v: u64 = 0;
    let mut over: bool = false;
    let mut k: usize = i;
    while k < j
        invariant
            i <= k <= j <= t@.len(),
            forall|m: int| i <= m < j ==> is_digit(#[trigger] t@[m]),
            !over ==> v == digits_value(t@.subrange(i as int, k as int)),
            over ==> digits_value(t@.subrange(i as int, k as int)) > u64::MAX,
        decreases j - k,
    {
        let c = t[k];
        proof {
            assert(is_digit(t@[k as int]));
        }
        let d: u64 = (c as u32 as u64) - 48;
        proof {
            assert(t@.subrange(i as int, k + 1) =~= t@.subrange(i as int, k as int).push(
                t@[k as int],
            ));
            assert(t@.subrange(i as int, k + 1).drop_last() =~= t@.subrange(i as int, k as int));
            assert(d == crate::numbers::digit_val(t@[k as int]));
        }
        if over {
            proof {
                let prev = digits_value(t@.subrange(i as int, k as int));
                assert(digits_value(t@.subrange(i as int, k + 1)) == prev * 10 + d);
                assert(prev * 10 >= prev) by (nonlinear_arith)
                    requires
                        prev > 0,
                ;
            }
        } else {
            if v > (u64::MAX - d) / 10 {
                proof {
                    let m = u64::MAX as int;
                    assert(v * 10 + d > m) by (nonlinear_arith)
                        requires
                            v > (m - d) / 10,
                            0 <= d <= 9,
                            v >= 0,
                            m == 0xffff_ffff_ffff_ffff,
                    ;
                }
                over = true;
            } else {
                proof {
                    let m = u64::MAX as int;
                    assert(v * 10 + d <= m) by (nonlinear_arith)
                        requires
                            v <= (m - d) / 10,
                            0 <= d <= 9,
                            v >= 0,
                            m == 0xffff_ffff_ffff_ffff,
                    ;
                }
                v = v * 10 + d;
            }
        }
        k = k + 1;
    }
    if over {
        None
    } else {
        Some(v)
    }
}


/// Whether the player-count rule matches at `i`.
fn p1_at_exec(t: &Vec<char>, i: usize) -> (r: bool)
    requires
        i < t@.len(),
    ensures
        r == p1_at(t@, i as int),
{
    let c = t[i];
    if c >= '0' && c <= '9' {
        let j = digit_run_end_exec(t, i);
        proof {
            lemma_digit_run_end(t@, i as int);
        }
        sep_then_exec(t, j, "player")
    } else {
        false
    }
}

/// Whether the alternative count rule matches at `i`.
fn p2_at_exec(t: &Vec<char>, i: usize) -> (r: bool)
    requires
        i < t@.len(),
    ensures
        r == p2_at(t@, i as int),
{
    if !matches_here(t, "for", i) {
        proof {
            reveal_strlit("for");
        }
        return false;
    }
    let n = t.len();
    proof {
        reveal_strlit("for");
        assert("for"@.len() == 3);
        assert(i + 3 <= n);
    }
    let k = space_run_end_exec(t, i + 3);
    proof {
        lemma_space_run_end(t@, i + 3);
    }
    if k > i + 3 && k < t.len() {
        let c = t[k];
        c >= '0' && c <= '9'
    } else {
        false
    }
}

/// Whether the person-count rule matches at `i`.
fn p3_at_exec(t: &Vec<char>, i: usize) -> (r: bool)
    requires
        i < t@.len(),
    ensures
        r == p3_at(t@, i as int),
{
    let c = t[i];
    if c >= '0' && c <= '9' {
        let j = digit_run_end_exec(t, i);
        proof {
            lemma_digit_run_end(t@, i as int);
        }
        sep_then_exec(t, j, "person")
    } else {
        false
    }
}

/// Whether the time-limit rule matches at `i`.
fn pmin_at_exec(t: &Vec<char>, i: usize) -> (r: bool)
    requires
        i < t@.len(),
    ensures
        r == pmin_at(t@, i as int),
{
    let c = t[i];
    if c >= '0' && c <= '9' {
        let j = digit_run_end_exec(t, i);
        proof {
            lemma_digit_run_end(t@, i as int);
        }
        let k = space_run_end_exec(t, j);
        proof {
            lemma_space_run_end(t@, j as int);
        }
        matches_here(t, "minute", k)
    } else {
        false
    }
}

/// Whether the buy-in rule matches at `i`.
fn pkas_at_exec(t: &Vec<char>, i: usize) -> (r: bool)
    requires
        i < t@.len(),
    ensures
        r == pkas_at(t@, i as int),
{
    let c = t[i];
    if c >= '0' && c <= '9' {
        let j = digit_run_end_exec(t, i);
        proof {
            lemma_digit_run_end(t@, i as int);
        }
        let k = space_run_end_exec(t, j);
        proof {
            lemma_space_run_end(t@, j as int);
        }
        matches_here(t, "kas", k)
    } else {
        false
    }
}

/// Basic shape of a whitespace run: its end stays in range.
pub proof fn lemma_space_run_end(t: Seq<char>, i: int)
    requires
        0 <= i <= t.len(),
    ensures
        i <= space_run_end(t, i) <= t.len(),
    decreases t.len() - i,
{
    if i < t.len() && is_space(t[i]) {
        lemma_space_run_end(t, i + 1);
    }
}

/// The leftmost player-count match.
fn find_p1(t: &Vec<char>) -> (r: Option<usize>)
    ensures
        match r {
            Some(i) => first_p1(t@, 0) == Some(i as int),
            None => first_p1(t@, 0) is None,
        },
{
    let n = t.len();
    let mut i: usize = 0;
    while i < n
        invariant
            i <= n,
            n == t@.len(),
            first_p1(t@, 0) == first_p1(t@, i as int),
        decreases n - i,
    {
        if p1_at_exec(t, i) {
            return Some(i);
        }
        i = i + 1;
    }
    None
}

/// The leftmost alternative-count match.
fn find_p2(t: &Vec<char>) -> (r: Option<usize>)
    ensures
        match r {
            Some(i) => first_p2(t@, 0) == Some(i as int),
            None => first_p2(t@, 0) is None,
        },
{
    let n = t.len();
    let mut i: usize = 0;
    while i < n
        invariant
            i <= n,
            n == t@.len(),
            first_p2(t@, 0) == first_p2(t@, i as int),
        decreases n - i,
    {
        if p2_at_exec(t, i) {
            return Some(i);
        }
        i = i + 1;
    }
    None
}

/// The leftmost person-count match.
fn find_p3(t: &Vec<char>) -> (r: Option<usize>)
    ensures
        match r {
            Some(i) => first_p3(t@, 0) == Some(i as int),
            None => first_p3(t@, 0) is None,
        },
{
    let n = t.len();
    let mut i: usize = 0;
    while i < n
        invariant
            i <= n,
            n == t@.len(),
            first_p3(t@, 0) == first_p3(t@, i as int),
        decreases n - i,
    {
        if p3_at_exec(t, i) {
            return Some(i);
        }
        i = i + 1;
    }
    None
}

/// The leftmost time-limit match.
fn find_pmin(t: &Vec<char>) -> (r: Option<usize>)
    ensures
        match r {
            Some(i) => first_pmin(t@, 0) == Some(i as int),
            None => first_pmin(t@, 0) is None,
        },
{
    let n = t.len();
    let mut i: usize = 0;
    while i < n
        invariant
            i <= n,
            n == t@.len(),
            first_pmin(t@, 0) == first_pmin(t@, i as int),
        decreases n - i,
    {
        if pmin_at_exec(t, i) {
            return Some(i);
        }
        i = i + 1;
    }
    None
}

/// The leftmost buy-in match.
fn find_pkas(t: &Vec<char>) -> (r: Option<usize>)
    ensures
        match r {
            Some(i) => first_pkas(t@, 0) == Some(i as int),
            None => first_pkas(t@, 0) is None,
        },
{
    let n = t.len();
    let mut i: usize = 0;
    while i < n
        invariant
            i <= n,
            n == t@.len(),
            first_pkas(t@, 0) == first_pkas(t@, i as int),
        decreases n - i,
    {
        if pkas_at_exec(t, i) {
            return Some(i);
        }
        i = i + 1;
    }
    None
}

/// The value a count rule matching at `i` captured, when it fits a `usize`.
fn captured_usize(t: &Vec<char>, i: usize) -> (r: Option<usize>)
    requires
        i < t@.len(),
        is_digit(t@[i as int]),
    ensures
        r is Some <==> captured_value(t@, i as int) <= usize::MAX,
        r is Some ==> r->0 == captured_value(t@, i as int),
{
    let j = digit_run_end_exec(t, i);
    proof {
        lemma_digit_run_end(t@, i as int);
    }
    match digits_to_u64(t, i, j) {
        None => {
            proof {
                assert(usize::MAX <= u64::MAX);
            }
            None
        },
        Some(v) => {
            if v <= usize::MAX as u64 {
                Some(v as usize)
            } else {
                None
            }
        },
    }
}

/// The person-rule fallback of the player-count extraction.
fn count_from_p3_exec(t: &Vec<char>) -> (r: Option<usize>)
    ensures
        match r {
            Some(v) => count_from_p3(t@) == Some(v as int),
            None => count_from_p3(t@) is None,
        },
{
    match find_p3(t) {
        None => None,
        Some(i) => {
            proof {
                lemma_first_p3_hit(t@, 0, i as int);
            }
            captured_usize(t, i)
        },
    }
}

/// A successful `first_p3` names a position where the rule matches.
proof fn lemma_first_p3_hit(t: Seq<char>, i: int, j: int)
    requires
        0 <= i <= t.len(),
        first_p3(t, i) == Some(j),
    ensures
        0 <= j < t.len(),
        p3_at(t, j),
    decreases t.len() - i,
{
    if i < t.len() && !p3_at(t, i) {
        lemma_first_p3_hit(t, i + 1, j);
    }
}

/// A successful `first_p1` names a position where the rule matches.
proof fn lemma_first_p1_hit(t: Seq<char>, i: int, j: int)
    requires
        0 <= i <= t.len(),
        first_p1(t, i) == Some(j),
    ensures
        0 <= j < t.len(),
        p1_at(t, j),
    decreases t.len() - i,
{
    if i < t.len() && !p1_at(t, i) {
        lemma_first_p1_hit(t, i + 1, j);
    }
}

/// A successful `first_p2` names a position where the rule matches.
proof fn lemma_first_p2_hit(t: Seq<char>, i: int, j: int)
    requires
        0 <= i <= t.len(),
        first_p2(t, i) == Some(j),
    ensures
        0 <= j < t.len(),
        p2_at(t, j),
    decreases t.len() - i,
{
    if i < t.len() && !p2_at(t, i) {
        lemma_first_p2_hit(t, i + 1, j);
    }
}

/// A successful `first_pmin` names a position where the rule matches.
proof fn lemma_first_pmin_hit(t: Seq<char>, i: int, j: int)
    requires
        0 <= i <= t.len(),
        first_pmin(t, i) == Some(j),
    ensures
        0 <= j < t.len(),
        pmin_at(t, j),
    decreases t.len() - i,
{
    if i < t.len() && !pmin_at(t, i) {
        lemma_first_pmin_hit(t, i + 1, j);
    }
}

/// A successful `first_pkas` names a position where the rule matches.
proof fn lemma_first_pkas_hit(t: Seq<char>, i: int, j: int)
    requires
        0 <= i <= t.len(),
        first_pkas(t, i) == Some(j),
    ensures
        0 <= j < t.len(),
        pkas_at(t, j),
    decreases t.len() - i,
{
    if i < t.len() && !pkas_at(t, i) {
        lemma_first_pkas_hit(t, i + 1, j);
    }
}

/// The player count the prompt states, when any rule captures one.
fn extract_player_count(t: &Vec<char>) -> (r: Option<usize>)
    ensures
        match r {
            Some(v) => extract_player_count_spec(t@) == Some(v as int),
            None => extract_player_count_spec(t@) is None,
        },
{
    match find_p1(t) {
        Some(i) => {
            proof {
                lemma_first_p1_hit(t@, 0, i as int);
            }
            match captured_usize(t, i) {
                Some(v) => Some(v),
                None => extract_count_p2(t),
            }
        },
        None => extract_count_p2(t),
    }
}

/// The "for N" rule of the player-count extraction, with its fallback.
fn extract_count_p2(t: &Vec<char>) -> (r: Option<usize>)
    ensures
        match r {
            Some(v) => count_from_p2(t@) == Some(v as int),
            None => count_from_p2(t@) is None,
        },
{
    match find_p2(t) {
        Some(i) => {
            let n = t.len();
            proof {
                lemma_first_p2_hit(t@, 0, i as int);
                reveal_strlit("for");
                assert("for"@.len() == 3);
                assert(i + 3 <= n);
                lemma_space_run_end(t@, i + 3);
            }
            let k = space_run_end_exec(t, i + 3);
            match captured_usize(t, k) {
                Some(v) => Some(v),
                None => count_from_p3_exec(t),
            }
        },
        None => count_from_p3_exec(t),
    }
}

/// The configuration the prompt states.
fn extract_config(t: &Vec<char>) -> (r: GameConfig)
    ensures
        r@ == config_spec(t@),
{
    let time_limit: Option<u32> = match find_pmin(t) {
        None => None,
        Some(i) => {
            proof {
                lemma_first_pmin_hit(t@, 0, i as int);
            }
            let j = digit_run_end_exec(t, i);
            proof {
                lemma_digit_run_end(t@, i as int);
            }
            match digits_to_u64(t, i, j) {
                None => None,
                Some(v) => {
                    if v <= 0xffff_ffff && v * 60 <= 0xffff_ffff {
                        Some((v as u32) * 60)
                    } else {
                        None
                    }
                },
            }
        },
    };
    let buy_in: Option<u64> = match find_pkas(t) {
        None => None,
        Some(i) => {
            proof {
                lemma_first_pkas_hit(t@, 0, i as int);
            }
            let j = digit_run_end_exec(t, i);
            proof {
                lemma_digit_run_end(t@, i as int);
            }
            match digits_to_u64(t, i, j) {
                None => None,
                Some(v) => Some(v),
            }
        },
    };
    let r = GameConfig { time_limit, buy_in, max_players: None, custom_rules: Vec::new() };
    proof {
        assert(r@ =~~= config_spec(t@));
    }
    r
}

/// The pattern-based prompt parser.
pub struct SimpleParser {}

impl SimpleParser {
    pub fn new() -> (r: Self) {
        SimpleParser {  }
    }

    /// Distills a prompt into a structured game request: the game type by
    /// keyword, the player count by the counting rules (two when none is
    /// stated), and the optional settings. A prompt naming no supported game
    /// is refused.
    pub fn parse(&self, prompt: &str) -> (r: Result<GameRequest, ParseError>)
        ensures
            ({
                let t = lower_seq(prompt@);
                &&& (r is Ok <==> detect_game_type(t) is Some)
                &&& (r is Err ==> r == Err::<GameRequest, ParseError>(
                    ParseError::UnsupportedGameType,
                ))
                &&& (r is Ok ==> ({
                    let req = r->Ok_0;
                    &&& req.game_type@ == detect_game_type(t)->0
                    &&& req.player_count as int == (match extract_player_count_spec(t) {
                        Some(v) => v,
                        None => 2,
                    })
                    &&& req.config@ == config_spec(t)
                    &&& req.raw_prompt@ == prompt@
                }))
            }),
    {
        let t = lower_chars(prompt);
        let game_type: GameType = if contains_pat(&t, "tic-tac-toe") || contains_pat(
            &t,
            "tic tac toe",
        ) {
            GameType::TicTacToe
        } else if contains_pat(&t, "chess") {
            GameType::Chess
        } else if contains_pat(&t, "checkers") {
            GameType::Checkers
        } else if contains_pat(&t, "poker") || contains_pat(&t, "hold'em") || contains_pat(
            &t,
            "holdem",
        ) {
            let variant = if contains_pat(&t, "omaha") {
                PokerVariant::Omaha
            } else {
                PokerVariant::TexasHoldem
            };
            GameType::Poker { variant }
        } else {
            return Err(ParseError::UnsupportedGameType);
        };
        let player_count: usize = match extract_player_count(&t) {
            Some(v) => v,
            None => 2,
        };
        let config = extract_config(&t);
        Ok(GameRequest { game_type, player_count, config, raw_prompt: prompt.to_owned() })
    }
}

} // verus!
