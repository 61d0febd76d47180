use vstd::prelude::*;
use vstd::string::{StrSliceExecFns, StringExecFns};

use crate::errors::ApiError;
use crate::numbers::{dec_str, u64_to_string};
use crate::parser::{GameRequest, GameType};
use crate::strings::{chars_of, matches_at, matches_here};
use crate::templates::{ttt_template_text, TemplateRegistry};

verus! {

/// The text with every occurrence of `pat` from position `i` on replaced by
/// `rep`, leftmost first, without overlap.
pub open spec fn replace_from(h: Seq<char>, pat: Seq<char>, rep: Seq<char>, i: int) -> Seq<char>
    decreases h.len() - i,
        when 0 <= i <= h.len() && pat.len() > 0
{
    if i > h.len() - pat.len() {
        h.subrange(i, h.len() as int)
    } else if matches_at(h, pat, i) {
        rep + replace_from(h, pat, rep, i + pat.len())
    } else {
        seq![h[i]] + replace_from(h, pat, rep, i + 1)
    }
}

/// The text with every occurrence of `pat` replaced by `rep`.
pub open spec fn replace_all(h: Seq<char>, pat: Seq<char>, rep: Seq<char>) -> Seq<char> {
    replace_from(h, pat, rep, 0)
}

/// Replaces every occurrence of `pat` in `s` by `rep`, leftmost first,
/// without overlap.
fn replace_all_exec(s: &str, pat: &str, rep: &str) -> (r: String)
    requires
        pat@.len() > 0,
    ensures
        r@ == replace_all(s@, pat@, rep@),
{
    let t = chars_of(s);
    let n = t.len();
    let m = pat.unicode_len();
    let mut out = String::new();
    let mut i: usize = 0;
    while i < n
        invariant
            n == s@.len(),
            t@ == s@,
            m == pat@.len(),
            m > 0,
            i <= n,
            replace_all(s@, pat@, rep@) == out@ + replace_from(s@, pat@, rep@, i as int),
        decreases n - i,
    {
        let ghost before = out@;
        if m <= n - i && matches_here(&t, pat, i) {
            out.append(rep);
            proof {
                assert(replace_from(s@, pat@, rep@, i as int) == rep@ + replace_from(
                    s@,
                    pat@,
                    rep@,
                    i + m,
                ));
                assert(out@ + replace_from(s@, pat@, rep@, i + m) =~= before + replace_from(
                    s@,
                    pat@,
                    rep@,
                    i as int,
                ));
            }
            i = i + m;
        } else {
            let piece = s.substring_char(i, i + 1);
            out.append(piece);
            proof {
                assert(piece@ =~= seq![s@[i as int]]);
                if i as int > n - m {
                    assert(replace_from(s@, pat@, rep@, i as int) == s@.subrange(
                        i as int,
                        n as int,
                    ));
                    assert(replace_from(s@, pat@, rep@, i + 1) == s@.subrange(i + 1, n as int));
                    assert(s@.subrange(i as int, n as int) =~= seq![s@[i as int]] + s@.subrange(
                        i + 1,
                        n as int,
                    ));
                } else {
                    assert(replace_from(s@, pat@, rep@, i as int) == seq![s@[i as int]]
                        + replace_from(s@, pat@, rep@, i + 1));
                }
                assert(out@ + replace_from(s@, pat@, rep@, i + 1) =~= before + replace_from(
                    s@,
                    pat@,
                    rep@,
                    i as int,
                ));
            }
            i = i + 1;
        }
    }
    proof {
        assert(replace_from(s@, pat@, rep@, n as int) =~= Seq::<char>::empty());
        assert(out@ =~= out@ + replace_from(s@, pat@, rep@, n as int));
    }
    out
}

/// The label the builder substitutes for the game-name marker: the type's
/// structural rendering, the variant written out field by field. A custom
/// name renders between plain quotes; one holding characters that string
/// escaping would rewrite renders without the escapes.
pub open spec fn debug_label(g: crate::parser::GameTypeView) -> Seq<char> {
    match g {
        crate::parser::GameTypeView::TicTacToe => "TicTacToe"@,
        crate::parser::GameTypeView::Chess => "Chess"@,
        crate::parser::GameTypeView::Checkers => "Checkers"@,
        crate::parser::GameTypeView::Poker { variant } => match variant {
            crate::parser::PokerVariant::TexasHoldem => "Poker { variant: TexasHoldem }"@,
            crate::parser::PokerVariant::Omaha => "Poker { variant: Omaha }"@,
            crate::parser::PokerVariant::FiveCard => "Poker { variant: FiveCard }"@,
        },
        crate::parser::GameTypeView::Custom { name } => "Custom { name: \""@ + name + "\" }"@,
    }
}

impl GameType {
    /// The type's structural rendering, as `debug_label` fixes it.
    pub fn debug_string(&self) -> (r: String)
        ensures
            r@ == debug_label(self@),
    {
        match self {
            GameType::TicTacToe => "TicTacToe".to_owned(),
            GameType::Chess => "Chess".to_owned(),
            GameType::Checkers => "Checkers".to_owned(),
            GameType::Poker { variant } => match variant {
                crate::parser::PokerVariant::TexasHoldem => "Poker { variant: TexasHoldem }".to_owned(),
                crate::parser::PokerVariant::Omaha => "Poker { variant: Omaha }".to_owned(),
                crate::parser::PokerVariant::FiveCard => "Poker { variant: FiveCard }".to_owned(),
            },
            GameType::Custom { name } => {
                let mut out = "Custom { name: \"".to_owned();
                out.append(name.as_str());
                out.append("\" }");
                out
            },
        }
    }

    /// A field-for-field copy with its contents pinned down.
    pub fn duplicate(&self) -> (r: Self)
        ensures
            r@ == self@,
    {
        match self {
            GameType::TicTacToe => GameType::TicTacToe,
            GameType::Chess => GameType::Chess,
            GameType::Checkers => GameType::Checkers,
            GameType::Poker { variant } => GameType::Poker { variant: *variant },
            GameType::Custom { name } => GameType::Custom { name: name.clone() },
        }
    }
}

/// Generated episode source, ready for the deployment pipeline.
#[derive(Debug)]
pub struct GeneratedCode {
    pub episode_code: String,
    pub game_type: GameType,
    pub deployment_ready: bool,
}

/// Customizes a template's source text for one request.
pub struct EpisodeBuilder {}

/// The source text the builder produces: the template with the player-count
/// and game-name markers filled in from the request.
pub open spec fn built_code(
    template: Seq<char>,
    player_count: usize,
    game_type: crate::parser::GameTypeView,
) -> Seq<char> {
    replace_all(
        replace_all(template, "{{PLAYER_COUNT}}"@, dec_str(player_count as int)),
        "{{GAME_NAME}}"@,
        debug_label(game_type),
    )
}

impl EpisodeBuilder {
    pub fn new() -> (r: Self) {
        EpisodeBuilder {  }
    }

    /// Fills the template's markers in from the request.
    pub fn build(&self, template: String, request: &GameRequest) -> (r: Result<String, ApiError>)
        ensures
            r is Ok,
            r->Ok_0@ == built_code(template@, request.player_count, request.game_type@),
    {
        proof {
            reveal_strlit("{{PLAYER_COUNT}}");
            reveal_strlit("{{GAME_NAME}}");
        }
        let count_text = u64_to_string(request.player_count as u64);
        let once = replace_all_exec(template.as_str(), "{{PLAYER_COUNT}}", count_text.as_str());
        let name_text = request.game_type.debug_string();
        let twice = replace_all_exec(once.as_str(), "{{GAME_NAME}}", name_text.as_str());
        Ok(twice)
    }
}

/// Selects the template a request's game type calls for.
pub struct TemplateEngine {
    registry: TemplateRegistry,
}

impl TemplateEngine {
    /// Invariant: the built-in templates are registered.
    pub closed spec fn wf(&self) -> bool {
        self.registry.names() == seq!["tictactoe"@]
    }

    pub fn new() -> (r: Self)
        ensures
            r.wf(),
    {
        TemplateEngine { registry: TemplateRegistry::new() }
    }

    /// The base source text for the game type; only tic-tac-toe has a
    /// template so far, and every other type is refused.
    pub fn get_template(&self, game_type: &GameType) -> (r: Result<String, ApiError>)
        requires
            self.wf(),
        ensures
            r is Ok <==> game_type@ is TicTacToe,
            r is Ok ==> r->Ok_0@ == ttt_template_text(),
            r is Err ==> r == Err::<String, ApiError>(ApiError::NotFound),
    {
        match game_type {
            GameType::TicTacToe => {
                proof {
                    assert(self.registry.names()[0] == "tictactoe"@);
                }
                match self.registry.get("tictactoe") {
                    Some(t) => Ok(t.base_code()),
                    None => Err(ApiError::NotFound),
                }
            },
            _ => Err(ApiError::NotFound),
        }
    }
}

/// The code generator: turns a structured game request into episode source.
pub struct Generator {
    template_engine: TemplateEngine,
    episode_builder: EpisodeBuilder,
}

impl Generator {
    /// Invariant: the template engine holds the built-in templates.
    pub closed spec fn wf(&self) -> bool {
        self.template_engine.wf()
    }

    pub fn new() -> (r: Self)
        ensures
            r.wf(),
    {
        Generator { template_engine: TemplateEngine::new(), episode_builder: EpisodeBuilder::new() }
    }

    /// Generates episode source for the request: the game type's template
    /// with the request's parameters filled in. A game type without a
    /// template is refused.
    pub fn generate(&self, request: &GameRequest) -> (r: Result<GeneratedCode, ApiError>)
        requires
            self.wf(),
        ensures
            r is Ok <==> request.game_type@ is TicTacToe,
            r is Ok ==> ({
                &&& r->Ok_0.episode_code@ == built_code(
                    ttt_template_text(),
                    request.player_count,
                    request.game_type@,
                )
                &&& r->Ok_0.game_type@ == request.game_type@
                &&& r->Ok_0.deployment_ready
            }),
            r is Err ==> r == Err::<GeneratedCode, ApiError>(ApiError::NotFound),
    {
        let template = match self.template_engine.get_template(&request.game_type) {
            Ok(t) => t,
            Err(e) => {
                return Err(e);
            },
        };
        let code = match self.episode_builder.build(template, request) {
            Ok(c) => c,
            Err(_) => {
                return Err(ApiError::NotFound);
            },
        };
        Ok(
            GeneratedCode {
                episode_code: code,
                game_type: request.game_type.duplicate(),
                deployment_ready: true,
            },
        )
    }
}

} // verus!
