use vstd::prelude::*;
use vstd::string::StringExecFns;

use crate::commands::{encoded_ui_command, ui_command_encodable, CommandProcessor, UiCommand};
use crate::errors::ApiError;
use crate::ledger::{available_of, has_unspent, mark_spent_seq, Outpoint, UtxoView};
use crate::numbers::{all_digits, digits_value, u64_to_string};
use crate::pipeline::{spec_change, spec_consumed_amount, PlannedTransaction, ServerWallet,
    TRANSACTION_FEE};
use crate::rate_limiter::check_op_spec;
use crate::transactions::TransactionBuilder;

verus! {

/// Which wallet funds a command: the server pays by default; a configured
/// player wallet pays for that player's own moves.
#[derive(Debug, Clone, Copy, PartialEq, Eq, Structural)]
pub enum WalletChoice {
    Server,
    Player1,
    Player2,
}

/// The wallet a player number selects, given which player wallets exist.
pub open spec fn spec_wallet_choice(player_number: Option<u8>, p1: bool, p2: bool) -> WalletChoice {
    match player_number {
        Some(n) => if n == 1 && p1 {
            WalletChoice::Player1
        } else if n == 2 && p2 {
            WalletChoice::Player2
        } else {
            WalletChoice::Server
        },
        None => WalletChoice::Server,
    }
}

/// The session a player number is accounted under.
pub open spec fn spec_session_id(player_number: Option<u8>) -> Seq<char> {
    match player_number {
        Some(n) => "player_"@ + crate::numbers::dec_str(n as int),
        None => "web_session"@,
    }
}

/// A planned UI command: which wallet funds it, under which session it was
/// admitted, and the planned transaction itself.
#[derive(Debug)]
pub struct PlannedUiCommand {
    pub wallet: WalletChoice,
    pub session_id: String,
    pub planned: PlannedTransaction,
}

/// The bridge between the interface and the chain: it encodes UI commands,
/// selects the funding wallet, and plans and settles the transactions;
/// signing and network submission stay with the external node collaborator.
pub struct CommandBridge {
    server_wallet: ServerWallet,
    player1_wallet: Option<ServerWallet>,
    player2_wallet: Option<ServerWallet>,
    command_processor: CommandProcessor,
    tx_builder: TransactionBuilder,
}

impl CommandBridge {
    /// The wallet a choice names.
    pub closed spec fn wallet_of(&self, c: WalletChoice) -> ServerWallet {
        match c {
            WalletChoice::Server => self.server_wallet,
            WalletChoice::Player1 => self.player1_wallet->0,
            WalletChoice::Player2 => self.player2_wallet->0,
        }
    }

    /// Whether the first player's wallet is configured.
    pub closed spec fn has_player1(&self) -> bool {
        self.player1_wallet is Some
    }

    /// Whether the second player's wallet is configured.
    pub closed spec fn has_player2(&self) -> bool {
        self.player2_wallet is Some
    }

    pub open spec fn wf(&self) -> bool {
        &&& self.wallet_of(WalletChoice::Server).wf()
        &&& self.has_player1() ==> self.wallet_of(WalletChoice::Player1).wf()
        &&& self.has_player2() ==> self.wallet_of(WalletChoice::Player2).wf()
    }

    pub fn new(server_wallet: ServerWallet) -> (r: Self)
        requires
            server_wallet.wf(),
        ensures
            r.wf(),
            r.wallet_of(WalletChoice::Server) == server_wallet,
            !r.has_player1(),
            !r.has_player2(),
    {
        CommandBridge {
            server_wallet,
            player1_wallet: None,
            player2_wallet: None,
            command_processor: CommandProcessor::new(),
            tx_builder: TransactionBuilder::new(),
        }
    }

    /// Equips the bridge with the configured player wallets.
    pub fn with_player_wallets(
        self,
        player1_wallet: Option<ServerWallet>,
        player2_wallet: Option<ServerWallet>,
    ) -> (r: Self)
        requires
            self.wf(),
            player1_wallet is Some ==> player1_wallet->0.wf(),
            player2_wallet is Some ==> player2_wallet->0.wf(),
        ensures
            r.wf(),
            r.wallet_of(WalletChoice::Server) == self.wallet_of(WalletChoice::Server),
            r.has_player1() == (player1_wallet is Some),
            r.has_player2() == (player2_wallet is Some),
            player1_wallet is Some ==> r.wallet_of(WalletChoice::Player1) == player1_wallet->0,
            player2_wallet is Some ==> r.wallet_of(WalletChoice::Player2) == player2_wallet->0,
    {
        CommandBridge { player1_wallet, player2_wallet, ..self }
    }

    /// Plans a command from the interface: encodes it, selects the funding
    /// wallet by player number, accounts it to that player's session, and
    /// plans the transaction through the wallet — admission first, then
    /// first-available resource selection and the fee policy. Nothing is
    /// consumed until the submission is acknowledged.
    pub fn process_ui_command(
        &mut self,
        episode_id: &str,
        command: UiCommand,
        player_number: Option<u8>,
        now: u64,
    ) -> (r: Result<PlannedUiCommand, ApiError>)
        requires
            old(self).wf(),
        ensures
            final(self).wf(),
            final(self).has_player1() == old(self).has_player1(),
            final(self).has_player2() == old(self).has_player2(),
            !ui_command_encodable(command@) ==> r == Err::<PlannedUiCommand, ApiError>(
                ApiError::EncodingFailed,
            ) && *final(self) == *old(self),
            ui_command_encodable(command@) ==> ({
                let choice = spec_wallet_choice(
                    player_number,
                    old(self).has_player1(),
                    old(self).has_player2(),
                );
                let w = old(self).wallet_of(choice);
                let step = check_op_spec(
                    w.limiter().effective_usage(spec_session_id(player_number), now),
                    w.limiter().limits(),
                    now,
                );
                let avail = available_of(w.ledger().resources());
                &&& final(self).wallet_of(choice).ledger() == w.ledger()
                &&& (forall|c: WalletChoice|
                    c != choice ==> final(self).wallet_of(c) == old(self).wallet_of(c))
                // the chosen wallet's admission step is consumed exactly
                // once: a denial leaves only pruned windows behind, a success
                // records exactly one operation
                &&& final(self).wallet_of(choice).limiter().has_session(
                    spec_session_id(player_number),
                )
                &&& final(self).wallet_of(choice).limiter().usage(spec_session_id(player_number))
                    == step.0
                &&& (forall|other: Seq<char>|
                    other != spec_session_id(player_number) ==> final(self).wallet_of(
                        choice,
                    ).limiter().has_session(other) == w.limiter().has_session(other))
                &&& (forall|other: Seq<char>|
                    other != spec_session_id(player_number) && w.limiter().has_session(other)
                        ==> final(self).wallet_of(choice).limiter().usage(other)
                        == w.limiter().usage(other))
                &&& (!step.1 ==> r == Err::<PlannedUiCommand, ApiError>(ApiError::RateLimited))
                &&& (step.1 && avail.len() == 0 ==> r == Err::<PlannedUiCommand, ApiError>(
                    ApiError::NoResourcesAvailable,
                ))
                &&& (step.1 && avail.len() > 0 && !(episode_id@.len() > 0 && all_digits(
                    episode_id@,
                ) && digits_value(episode_id@) <= u32::MAX) ==> r == Err::<
                    PlannedUiCommand,
                    ApiError,
                >(ApiError::EncodingFailed))
                &&& (step.1 && avail.len() > 0 && episode_id@.len() > 0 && all_digits(episode_id@)
                    && digits_value(episode_id@) <= u32::MAX ==> ({
                    &&& r is Ok
                    &&& r->Ok_0.wallet == choice
                    &&& r->Ok_0.session_id@ == spec_session_id(player_number)
                    &&& r->Ok_0.planned.consumed == avail[0].outpoint
                    &&& r->Ok_0.planned.input_amount == avail[0].amount
                    &&& r->Ok_0.planned.change_amount == spec_change(avail[0].amount)
                    &&& r->Ok_0.planned.episode_id == digits_value(episode_id@)
                    &&& r->Ok_0.planned.payload@ == encoded_ui_command(command@)
                }))
            }),
    {
        let payload = match self.command_processor.process(command) {
            Ok(p) => p,
            Err(e) => {
                return Err(e);
            },
        };
        let session_id: String = match player_number {
            Some(n) => {
                let mut s = "player_".to_owned();
                let num = u64_to_string(n as u64);
                s.append(num.as_str());
                s
            },
            None => "web_session".to_owned(),
        };
        let use_player1 = match player_number {
            Some(n) => n == 1 && self.player1_wallet.is_some(),
            None => false,
        };
        let use_player2 = match player_number {
            Some(n) => n == 2 && self.player2_wallet.is_some(),
            None => false,
        };
        if use_player1 {
            let wallet = match &mut self.player1_wallet {
                Some(w) => w,
                None => {
                    return Err(ApiError::SigningFailed);
                },
            };
            let planned = match wallet.create_episode_transaction(
                episode_id,
                payload,
                session_id.as_str(),
                now,
            ) {
                Ok(p) => p,
                Err(e) => {
                    return Err(e);
                },
            };
            Ok(PlannedUiCommand { wallet: WalletChoice::Player1, session_id, planned })
        } else if use_player2 {
            let wallet = match &mut self.player2_wallet {
                Some(w) => w,
                None => {
                    return Err(ApiError::SigningFailed);
                },
            };
            let planned = match wallet.create_episode_transaction(
                episode_id,
                payload,
                session_id.as_str(),
                now,
            ) {
                Ok(p) => p,
                Err(e) => {
                    return Err(e);
                },
            };
            Ok(PlannedUiCommand { wallet: WalletChoice::Player2, session_id, planned })
        } else {
            let planned = match self.server_wallet.create_episode_transaction(
                episode_id,
                payload,
                session_id.as_str(),
                now,
            ) {
                Ok(p) => p,
                Err(e) => {
                    return Err(e);
                },
            };
            Ok(PlannedUiCommand { wallet: WalletChoice::Server, session_id, planned })
        }
    }

    /// Settles an acknowledged submission in the funding wallet's ledger:
    /// the consumed resource is spent and the transaction's own output
    /// chained in.
    pub fn confirm_submission(
        &mut self,
        choice: WalletChoice,
        consumed: &Outpoint,
        new_txid: u64,
        new_script: Vec<u8>,
    ) -> (r: Result<(), ApiError>)
        requires
            old(self).wf(),
            choice is Player1 ==> old(self).has_player1(),
            choice is Player2 ==> old(self).has_player2(),
        ensures
            final(self).wf(),
            final(self).has_player1() == old(self).has_player1(),
            final(self).has_player2() == old(self).has_player2(),
            forall|c: WalletChoice|
                c != choice ==> final(self).wallet_of(c) == old(self).wallet_of(c),
            ({
                let w = old(self).wallet_of(choice);
                let s = w.ledger().resources();
                &&& (!has_unspent(s, *consumed) ==> r == Err::<(), ApiError>(ApiError::NotFound)
                    && final(self).wallet_of(choice).ledger() == w.ledger())
                &&& (has_unspent(s, *consumed) ==> ({
                    let marked = mark_spent_seq(s, *consumed);
                    let amount = spec_consumed_amount(s, *consumed);
                    let fresh = UtxoView {
                        outpoint: Outpoint { transaction_id: new_txid, index: 0 },
                        amount: (amount - TRANSACTION_FEE) as u64,
                        script_public_key: new_script@,
                        is_spent: false,
                    };
                    &&& (amount <= TRANSACTION_FEE ==> r is Ok && final(self).wallet_of(
                        choice,
                    ).ledger().resources() == marked)
                    &&& (amount > TRANSACTION_FEE && !crate::ledger::has_outpoint(
                        s,
                        Outpoint { transaction_id: new_txid, index: 0 },
                    ) ==> r is Ok && final(self).wallet_of(choice).ledger().resources()
                        == marked.push(fresh))
                    &&& (amount > TRANSACTION_FEE && crate::ledger::has_outpoint(
                        s,
                        Outpoint { transaction_id: new_txid, index: 0 },
                    ) ==> r == Err::<(), ApiError>(ApiError::CreationDenied) && final(self).wallet_of(choice).ledger().resources() == marked)
                }))
            }),
    {
        match choice {
            WalletChoice::Server => self.server_wallet.apply_submission_success(
                consumed,
                new_txid,
                new_script,
            ),
            WalletChoice::Player1 => {
                match &mut self.player1_wallet {
                    Some(w) => w.apply_submission_success(consumed, new_txid, new_script),
                    None => Err(ApiError::SigningFailed),
                }
            },
            WalletChoice::Player2 => {
                match &mut self.player2_wallet {
                    Some(w) => w.apply_submission_success(consumed, new_txid, new_script),
                    None => Err(ApiError::SigningFailed),
                }
            },
        }
    }
}

} // verus!
