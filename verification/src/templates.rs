use vstd::prelude::*;

use crate::strings::str_eq;

verus! {

/// A pre-built episode pattern: its name, its base source text, and the
/// player counts it supports.
pub trait GameTemplate {
    fn name(&self) -> &str;

    fn base_code(&self) -> String;

    fn supported_player_counts(&self) -> Vec<usize>;
}

/// The base structure every template builds on.
#[derive(Debug)]
pub struct BaseEpisode {
    pub name: String,
    pub player_count: usize,
}

impl BaseEpisode {
    pub fn new(name: String, player_count: usize) -> (r: Self)
        ensures
            r.name@ == name@,
            r.player_count == player_count,
    {
        BaseEpisode { name, player_count }
    }
}

/// The source text of the tic-tac-toe template.
pub open spec fn ttt_template_text() -> Seq<char> {
    "pub struct TicTacToeEpisode {\n    board: [[Option<Player>; 3]; 3],\n    current_player: Player,\n    winner: Option<Player>,\n}\n\npub enum Player {\n    X,\n    O,\n}\n\npub enum TicTacToeCommand {\n    Move { row: usize, col: usize },\n}\n"@
}

/// The built-in two-player tic-tac-toe template.
#[derive(Debug)]
pub struct TicTacToeTemplate {}

impl TicTacToeTemplate {
    pub fn new() -> (r: Self) {
        TicTacToeTemplate {  }
    }

    /// The template's base source text.
    pub fn code_text(&self) -> (r: String)
        ensures
            r@ == ttt_template_text(),
    {
        "pub struct TicTacToeEpisode {\n    board: [[Option<Player>; 3]; 3],\n    current_player: Player,\n    winner: Option<Player>,\n}\n\npub enum Player {\n    X,\n    O,\n}\n\npub enum TicTacToeCommand {\n    Move { row: usize, col: usize },\n}\n".to_owned()
    }
}

impl GameTemplate for TicTacToeTemplate {
    fn name(&self) -> &str {
        "tictactoe"
    }

    fn base_code(&self) -> String {
        self.code_text()
    }

    fn supported_player_counts(&self) -> Vec<usize> {
        let mut counts: Vec<usize> = Vec::new();
        counts.push(2);
        counts
    }
}

/// A registered template; one kind exists so far.
#[derive(Debug)]
pub enum TemplateKind {
    TicTacToe(TicTacToeTemplate),
}

impl TemplateKind {
    /// The template's name.
    pub fn name(&self) -> (r: &str)
        ensures
            self is TicTacToe ==> r@ == "tictactoe"@,
    {
        match self {
            TemplateKind::TicTacToe(_) => "tictactoe",
        }
    }

    /// The template's base source text.
    pub fn base_code(&self) -> (r: String)
        ensures
            self is TicTacToe ==> r@ == ttt_template_text(),
    {
        match self {
            TemplateKind::TicTacToe(t) => t.code_text(),
        }
    }

    /// The player counts the template supports.
    pub fn supported_player_counts(&self) -> (r: Vec<usize>)
        ensures
            self is TicTacToe ==> r@ =~= seq![2usize],
    {
        let mut counts: Vec<usize> = Vec::new();
        counts.push(2);
        proof {
            assert(counts@ =~= seq![2usize]);
        }
        counts
    }
}

/// The registry of available episode templates.
pub struct TemplateRegistry {
    entries: Vec<(String, TemplateKind)>,
}

impl TemplateRegistry {
    /// The registered template names, in registration order.
    pub closed spec fn names(&self) -> Seq<Seq<char>> {
        Seq::new(self.entries@.len(), |i: int| self.entries@[i].0@)
    }

    /// A registry holding the built-in templates: tic-tac-toe.
    pub fn new() -> (r: Self)
        ensures
            r.names() =~= seq!["tictactoe"@],
    {
        let mut entries: Vec<(String, TemplateKind)> = Vec::new();
        entries.push(("tictactoe".to_owned(), TemplateKind::TicTacToe(TicTacToeTemplate::new())));
        let r = TemplateRegistry { entries };
        proof {
            assert(r.names() =~= seq!["tictactoe"@]);
        }
        r
    }

    /// The template registered under `name`, when one is.
    pub fn get(&self, name: &str) -> (r: Option<&TemplateKind>)
        ensures
            r is Some <==> exists|i: int|
                0 <= i < self.names().len() && self.names()[i] == name@,
    {
        let mut i: usize = 0;
        while i < self.entries.len()
            invariant
                i <= self.names().len(),
                self.names().len() == self.entries@.len(),
                forall|k: int| 0 <= k < i ==> self.names()[k] != name@,
            decreases self.entries@.len() - i,
        {
            proof {
                assert(self.names()[i as int] == self.entries@[i as int].0@);
            }
            if str_eq(self.entries[i].0.as_str(), name) {
                return Some(&self.entries[i].1);
            }
            i = i + 1;
        }
        None
    }

    /// Every registered template name.
    pub fn list(&self) -> (r: Vec<&str>)
        ensures
            r@.len() == self.names().len(),
            forall|i: int| 0 <= i < r@.len() ==> (#[trigger] r@[i])@ == self.names()[i],
    {
        let mut out: Vec<&str> = Vec::new();
        let mut i: usize = 0;
        while i < self.entries.len()
            invariant
                i <= self.names().len(),
                self.names().len() == self.entries@.len(),
                out@.len() == i,
                forall|k: int| 0 <= k < i ==> (#[trigger] out@[k])@ == self.names()[k],
            decreases self.entries@.len() - i,
        {
            proof {
                assert(self.names()[i as int] == self.entries@[i as int].0@);
            }
            out.push(self.entries[i].0.as_str());
            i = i + 1;
        }
        out
    }
}

} // verus!
