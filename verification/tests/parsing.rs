use nl_kdapp::deployment::Manager as DeploymentManager;
use nl_kdapp::templates::GameTemplate as _;
use nl_kdapp::{
    ApiError, CommandProcessor, Deployer, EpisodeMetadata, EventHub, GameType, Generator,
    Outpoint, ParseError, PokerVariant, ServerWallet, SessionLimits, SimpleParser, TemplateEngine,
    TemplateRegistry, TicTacToeTemplate, TransactionBuilder, TttState, TttStatus, UiCommand, Utxo,
    WalletChoice,
};
use nl_kdapp::pipeline::TRANSACTION_FEE;
use nl_kdapp::CommandBridge;

#[test]
fn test_parse_tictactoe() {
    let parser = SimpleParser::new();
    let request = parser.parse("Make me a tic-tac-toe game").unwrap();
    matches!(request.game_type, GameType::TicTacToe);
}

#[test]
fn test_parse_poker_with_players() {
    let parser = SimpleParser::new();
    let request = parser.parse("Create a poker game for 6 players").unwrap();
    matches!(request.game_type, GameType::Poker { .. });
    assert_eq!(request.player_count, 6);
}

#[test]
fn test_parse_defaults_and_variants() {
    let parser = SimpleParser::new();
    let request = parser.parse("I want CHESS").unwrap();
    assert!(matches!(request.game_type, GameType::Chess));
    assert_eq!(request.player_count, 2);
    assert_eq!(request.raw_prompt, "I want CHESS");

    let request = parser.parse("omaha hold'em for 4 players").unwrap();
    assert!(matches!(
        request.game_type,
        GameType::Poker { variant: PokerVariant::Omaha }
    ));
    assert_eq!(request.player_count, 4);

    let request = parser.parse("checkers, 3-player").unwrap();
    assert!(matches!(request.game_type, GameType::Checkers));
    assert_eq!(request.player_count, 3);

    // at most one separator may stand between the count and its noun:
    // with two spaces no counting rule matches and the default holds
    let request = parser.parse("chess with 3  players").unwrap();
    assert_eq!(request.player_count, 2);
}

#[test]
fn test_parse_config_extraction() {
    let parser = SimpleParser::new();
    let request = parser
        .parse("poker for 5 players with 10 minute turns and 100 kas buy-in")
        .unwrap();
    assert_eq!(request.player_count, 5);
    assert_eq!(request.config.time_limit, Some(600));
    assert_eq!(request.config.buy_in, Some(100));
    assert_eq!(request.config.max_players, None);
    assert!(request.config.custom_rules.is_empty());
}

#[test]
fn test_parse_unsupported_game() {
    let parser = SimpleParser::new();
    assert_eq!(
        parser.parse("Make me a racing game").err(),
        Some(ParseError::UnsupportedGameType)
    );
    assert!(ParseError::UnsupportedGameType
        .message()
        .contains("Unsupported game type"));
}

#[test]
fn test_game_type_labels() {
    assert_eq!(GameType::TicTacToe.to_string(), "TicTacToe");
    assert_eq!(
        GameType::Poker { variant: PokerVariant::TexasHoldem }.to_string(),
        "Poker_TexasHoldem"
    );
    assert_eq!(
        GameType::Custom { name: "quiz".to_string() }.to_string(),
        "quiz"
    );
}

#[test]
fn test_command_processor_tictactoe_move() {
    let processor = CommandProcessor::new();
    let bytes = processor
        .process(UiCommand::GameMove {
            position: vec![4],
            player_id: "p1".to_string(),
        })
        .unwrap();
    // cell 4 is row 1, column 1; each coordinate rides as a 64-bit
    // little-endian value
    assert_eq!(
        bytes,
        vec![1, 0, 0, 0, 0, 0, 0, 0, 1, 0, 0, 0, 0, 0, 0, 0]
    );
}

#[test]
fn test_command_processor_generic_commands() {
    let processor = CommandProcessor::new();
    let vote = processor
        .process(UiCommand::CastVote {
            option_id: "a".to_string(),
            voter_id: "v".to_string(),
        })
        .unwrap();
    // enum tag, action tag, framed payload of two framed strings
    assert_eq!(
        vote,
        vec![1, 2, 10, 0, 0, 0, 1, 0, 0, 0, 97, 1, 0, 0, 0, 118]
    );
    let bid = processor
        .process(UiCommand::PlaceBid {
            amount: 256,
            bidder_id: "b".to_string(),
        })
        .unwrap();
    assert_eq!(
        bid,
        vec![1, 3, 13, 0, 0, 0, 0, 1, 0, 0, 0, 0, 0, 0, 1, 0, 0, 0, 98]
    );
    let init = processor
        .process(UiCommand::Initialize {
            episode_type: "ttt".to_string(),
            config: vec![123, 125],
        })
        .unwrap();
    assert_eq!(
        init,
        vec![0, 3, 0, 0, 0, 116, 116, 116, 2, 0, 0, 0, 123, 125]
    );
    let custom = processor
        .process(UiCommand::CustomAction {
            action_type: "spin".to_string(),
            params: vec![110],
        })
        .unwrap();
    assert_eq!(custom, vec![1, 255, 1, 0, 0, 0, 110]);
}

#[test]
fn test_transaction_builder_payload() {
    let builder = TransactionBuilder::new();
    let output = builder
        .build_command_transaction("17", vec![0xDE, 0xAD])
        .unwrap();
    assert_eq!(output.value, 0);
    let mut expected = b"KDAPP:17:".to_vec();
    expected.extend_from_slice(&[0xDE, 0xAD]);
    assert_eq!(output.script_public_key, expected);

    let outputs = vec![
        nl_kdapp::CommandOutput { value: 5, script_public_key: vec![1] },
        output,
    ];
    let extracted = TransactionBuilder::extract_command(&outputs).unwrap();
    assert_eq!(extracted, expected);
    assert!(TransactionBuilder::extract_command(&vec![]).is_none());
}

#[test]
fn test_generation_pipeline() {
    let generator = Generator::new();
    let parser = SimpleParser::new();
    let request = parser.parse("tic tac toe please").unwrap();
    let generated = generator.generate(&request).unwrap();
    assert!(generated.deployment_ready);
    assert!(generated.episode_code.contains("TicTacToeEpisode"));
    assert!(matches!(generated.game_type, GameType::TicTacToe));

    let request = parser.parse("chess game").unwrap();
    assert_eq!(generator.generate(&request).err(), Some(ApiError::NotFound));

    let engine = TemplateEngine::new();
    assert!(engine.get_template(&GameType::TicTacToe).is_ok());
    assert_eq!(
        engine.get_template(&GameType::Chess).err(),
        Some(ApiError::NotFound)
    );
}

#[test]
fn test_template_registry() {
    let registry = TemplateRegistry::new();
    assert_eq!(registry.list(), vec!["tictactoe"]);
    let template = registry.get("tictactoe").unwrap();
    assert_eq!(template.name(), "tictactoe");
    assert_eq!(template.supported_player_counts(), vec![2]);
    assert!(registry.get("chess").is_none());
    let direct = TicTacToeTemplate::new();
    assert_eq!(direct.name(), "tictactoe");
    assert_eq!(direct.base_code(), template.base_code());
}

#[test]
fn test_episode_builder_markers() {
    let builder = nl_kdapp::EpisodeBuilder::new();
    let parser = SimpleParser::new();
    let request = parser.parse("poker for 6 players").unwrap();
    let built = builder
        .build(
            "game {{GAME_NAME}} of {{PLAYER_COUNT}}: {{PLAYER_COUNT}}".to_string(),
            &request,
        )
        .unwrap();
    assert_eq!(built, "game Poker { variant: TexasHoldem } of 6: 6");
}

#[test]
fn test_deployment() {
    let deployer = Deployer::new("testnet-10", None);
    let info = deployer.deploy("abc").unwrap();
    assert_eq!(info.id, "ep_abc");
    assert_eq!(info.share_link, "https://kdapp.fun/play/abc");

    let manager = DeploymentManager::new("testnet-10", None);
    let result = manager.deploy_with_id("abc").unwrap();
    assert_eq!(result.deployment_id, "abc");
    assert_eq!(result.episode_id, "ep_abc");
    assert_eq!(result.network, "testnet-10");
}

#[test]
fn test_storage_listing_is_exact() {
    let mut storage = nl_kdapp::EphemeralStorage::new();
    storage.put_state("a", &[1]);
    storage.put_state("b", &[2]);
    storage.put_state("a", &[3]);
    // one entry per id, in first-insertion order, even after an overwrite
    assert_eq!(storage.list_ids(), vec!["a".to_string(), "b".to_string()]);
}

#[test]
fn test_wrpc_defaults() {
    assert_eq!(
        nl_kdapp::get_default_wrpc_url("mainnet"),
        "wss://kaspa.aspectron.org/wrpc/mainnet"
    );
    assert_eq!(
        nl_kdapp::get_default_wrpc_url("testnet-10"),
        "wss://kaspa.aspectron.org/wrpc/testnet-10"
    );
    assert_eq!(
        nl_kdapp::get_default_wrpc_url("simnet"),
        "wss://localhost:17110"
    );
}

#[test]
fn test_llm_response_mapping() {
    let span = nl_kdapp::nlp::extract_json_span("noise {\"game_type\": \"poker\"} trailing");
    assert_eq!(span, "{\"game_type\": \"poker\"}");
    assert_eq!(nl_kdapp::nlp::extract_json_span("no braces"), "no braces");

    let request = nl_kdapp::nlp::build_game_request(
        "poker",
        Some(6),
        None,
        Some(100),
        vec!["no rebuys".to_string()],
        "poker for 6",
    );
    assert!(matches!(
        request.game_type,
        GameType::Poker { variant: PokerVariant::TexasHoldem }
    ));
    assert_eq!(request.player_count, 6);
    assert_eq!(request.config.max_players, Some(6));
    assert_eq!(request.config.buy_in, Some(100));
    assert_eq!(request.config.custom_rules, vec!["no rebuys".to_string()]);

    let request = nl_kdapp::nlp::build_game_request("quiz", None, None, None, vec![], "quiz");
    assert!(matches!(request.game_type, GameType::Custom { .. }));
    assert_eq!(request.player_count, 2);
}

#[test]
fn test_app_html() {
    let meta = EpisodeMetadata::new(
        "e7".to_string(),
        "tictactoe".to_string(),
        "sess".to_string(),
        1_000,
    );
    let html = nl_kdapp::generate_app_html(&meta, 1_000);
    assert!(html.contains("<title>tictactoe - kdapp.fun</title>"));
    assert!(html.contains("data-episode-id=\"e7\""));
    assert!(html.contains("72 hours"));
    assert!(html.contains("0 participants"));
    assert!(html.contains(&format!("data-expires=\"{}\"", 1_000 + 259_200)));
}

#[test]
fn test_connect_messages() {
    let meta = EpisodeMetadata::new(
        "e7".to_string(),
        "tictactoe".to_string(),
        "sess".to_string(),
        1_000,
    );
    let fresh = nl_kdapp::connect_messages(&meta, 1_000);
    assert_eq!(fresh.len(), 1);
    assert!(matches!(
        &fresh[0],
        nl_kdapp::WsMessage::StateUpdate { timestamp: 1_000, .. }
    ));
    // less than an hour remains: a warning follows the snapshot
    let late = nl_kdapp::connect_messages(&meta, 1_000 + 259_200 - 100);
    assert_eq!(late.len(), 2);
    match &late[1] {
        nl_kdapp::WsMessage::ExpirationWarning { episode_id, remaining_seconds } => {
            assert_eq!(episode_id, "e7");
            assert_eq!(*remaining_seconds, 100);
        }
        _ => panic!("expected an expiration warning"),
    }
}

#[test]
fn test_tictactoe_summary() {
    let state = TttState {
        cells: vec![1, 2, 0, 0, 1, 0, 0, 0, 2],
        status: TttStatus::InProgress { first_player_turn: true },
    };
    let summary = nl_kdapp::tictactoe::ui_summary(&state);
    assert_eq!(summary.cells, vec!['X', 'O', ' ', ' ', 'X', ' ', ' ', ' ', 'O']);
    assert_eq!(summary.current_player, Some('X'));
    assert_eq!(summary.status, "in_progress");
    assert_eq!(summary.winner, None);
    assert_eq!(summary.turn, 4);

    let won = TttState {
        cells: vec![1, 1, 1, 2, 2, 0, 0, 0, 0],
        status: TttStatus::Winner { first_player_won: true },
    };
    let summary = nl_kdapp::tictactoe::ui_summary(&won);
    assert_eq!(summary.status, "winner");
    assert_eq!(summary.winner, Some('X'));
    assert_eq!(summary.current_player, None);
}

#[test]
fn test_tictactoe_publish() {
    let mut hub = EventHub::new(8);
    let sub = hub.subscribe();
    let finished = TttState {
        cells: vec![1, 1, 1, 2, 2, 0, 0, 0, 0],
        status: TttStatus::Winner { first_player_won: true },
    };
    nl_kdapp::tictactoe::publish_tictactoe_update(&mut hub, "e1", &finished);
    assert!(matches!(
        hub.recv(sub),
        Some(nl_kdapp::fanout::EpisodeEvent::StateUpdate { .. })
    ));
    match hub.recv(sub) {
        Some(nl_kdapp::fanout::EpisodeEvent::GameOver { winner, .. }) => {
            assert_eq!(winner, Some("X".to_string()));
        }
        _ => panic!("expected the game-over announcement"),
    }
}

#[test]
fn test_command_bridge_plans() {
    let mut wallet = ServerWallet::new("kaspatest:qs".to_string(), SessionLimits::default());
    wallet
        .refresh_utxos(vec![Utxo {
            outpoint: Outpoint { transaction_id: 1, index: 0 },
            amount: 1_000_000,
            script_public_key: vec![],
            is_spent: false,
        }])
        .unwrap();
    let mut bridge = CommandBridge::new(wallet).with_player_wallets(None, None);
    let plan = bridge
        .process_ui_command(
            "42",
            UiCommand::GameMove { position: vec![0], player_id: "p".to_string() },
            Some(1),
            100,
        )
        .unwrap();
    // no player wallet is configured: the server pays, under that player's
    // session
    assert_eq!(plan.wallet, WalletChoice::Server);
    assert_eq!(plan.session_id, "player_1");
    assert_eq!(plan.planned.input_amount, 1_000_000);
    assert_eq!(plan.planned.change_amount, Some(1_000_000 - TRANSACTION_FEE));
    bridge
        .confirm_submission(WalletChoice::Server, &plan.planned.consumed, 2, vec![])
        .unwrap();
}
