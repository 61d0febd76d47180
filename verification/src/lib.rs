pub mod bridge;
pub mod bytes;
pub mod codec;
pub mod commands;
pub mod episode;
pub mod fanout;
pub mod generation;
pub mod errors;
pub mod keys;
pub mod ledger;
pub mod deployment;
pub mod nlp;
pub mod numbers;
pub mod parser;
pub mod pipeline;
pub mod rate_limiter;
pub mod registry;
pub mod seqs;
pub mod session;
pub mod storage;
pub mod transactions;
pub mod strings;
pub mod tictactoe;
pub mod web;
pub mod templates;

pub use errors::ApiError;
pub use ledger::{Outpoint, Utxo, UtxoManager};
pub use rate_limiter::{RateLimiter, SessionLimits};
pub use episode::EpisodeMetadata;
pub use storage::{EphemeralStorage, EpisodeStorage, PersistentStorage};
pub use registry::{EpisodeEvent, EpisodeExecutor, EpisodeManager, RunningEpisode};
pub use fanout::EventHub;
pub use pipeline::{PlannedTransaction, ServerWallet};
pub use commands::{ActionCommand, CommandProcessor, EpisodeCommand, InitCommand, UiCommand};
pub use transactions::{CommandOutput, TransactionBuilder};
pub use parser::{GameConfig, GameRequest, GameType, ParseError, PokerVariant, SimpleParser};
pub use session::{Claims, Manager, Session, SessionToken};
pub use keys::parse_private_key;
pub use templates::{BaseEpisode, GameTemplate, TemplateKind, TemplateRegistry, TicTacToeTemplate};
pub use generation::{EpisodeBuilder, GeneratedCode, Generator, TemplateEngine};
pub use deployment::{Deployer, DeploymentResult, EpisodeInfo};
pub use tictactoe::{TttState, TttStatus, TttSummary};
pub use bridge::{CommandBridge, PlannedUiCommand, WalletChoice};
pub use web::{connect_messages, generate_app_html, get_default_wrpc_url, AppState,
    GenerateRequest, GenerateResponse, WsMessage};

