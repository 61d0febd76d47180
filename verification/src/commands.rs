use vstd::prelude::*;
use vstd::utf8::encode_utf8;

use crate::codec::{bytes_frame, push_bytes_frame, push_string_frame, push_u32_le, push_u64_le,
    string_frame, u32_le_bytes, u64_le_bytes};
use crate::errors::ApiError;

verus! {

/// Wire tag of a game-move action.
pub const ACTION_TYPE_GAME_MOVE: u8 = 1;

/// Wire tag of a vote action.
pub const ACTION_TYPE_VOTE: u8 = 2;

/// Wire tag of a bid action.
pub const ACTION_TYPE_BID: u8 = 3;

/// Wire tag of a custom action.
pub const ACTION_TYPE_CUSTOM: u8 = 255;

/// High-level commands arriving from the UI. Configuration and custom
/// parameters arrive as already-serialized bytes; the boundary that speaks
/// JSON turns values into bytes before handing them in.
#[derive(Debug)]
pub enum UiCommand {
    Initialize { episode_type: String, config: Vec<u8> },
    GameMove { position: Vec<u32>, player_id: String },
    CastVote { option_id: String, voter_id: String },
    PlaceBid { amount: u64, bidder_id: String },
    CustomAction { action_type: String, params: Vec<u8> },
}

/// Mathematical image of a `UiCommand`.
#[verifier::ext_equal]
pub enum UiCommandView {
    Initialize { episode_type: Seq<char>, config: Seq<u8> },
    GameMove { position: Seq<u32>, player_id: Seq<char> },
    CastVote { option_id: Seq<char>, voter_id: Seq<char> },
    PlaceBid { amount: u64, bidder_id: Seq<char> },
    CustomAction { action_type: Seq<char>, params: Seq<u8> },
}

impl View for UiCommand {
    type V = UiCommandView;

    open spec fn view(&self) -> UiCommandView {
        match self {
            UiCommand::Initialize { episode_type, config } => UiCommandView::Initialize {
                episode_type: episode_type@,
                config: config@,
            },
            UiCommand::GameMove { position, player_id } => UiCommandView::GameMove {
                position: position@,
                player_id: player_id@,
            },
            UiCommand::CastVote { option_id, voter_id } => UiCommandView::CastVote {
                option_id: option_id@,
                voter_id: voter_id@,
            },
            UiCommand::PlaceBid { amount, bidder_id } => UiCommandView::PlaceBid {
                amount: *amount,
                bidder_id: bidder_id@,
            },
            UiCommand::CustomAction { action_type, params } => UiCommandView::CustomAction {
                action_type: action_type@,
                params: params@,
            },
        }
    }
}

/// An episode-initialization command on the wire.
#[derive(Debug)]
pub struct InitCommand {
    pub episode_type: String,
    pub config: Vec<u8>,
}

/// A generic episode action on the wire: a tag and its payload.
#[derive(Debug)]
pub struct ActionCommand {
    pub action_type: u8,
    pub data: Vec<u8>,
}

/// The episode-specific command format.
#[derive(Debug)]
pub enum EpisodeCommand {
    Initialize(InitCommand),
    Action(ActionCommand),
}

/// The wire bytes of an `EpisodeCommand`: a variant tag, then the framed
/// fields.
pub open spec fn encoded_episode_command(
    episode_type: Seq<char>,
    config: Seq<u8>,
    is_init: bool,
    action_type: u8,
    data: Seq<u8>,
) -> Seq<u8> {
    if is_init {
        seq![0u8] + string_frame(episode_type) + bytes_frame(config)
    } else {
        seq![1u8, action_type] + bytes_frame(data)
    }
}

/// The little-endian bytes of each element of `s`, in order.
pub open spec fn u32s_le_bytes(s: Seq<u32>) -> Seq<u8>
    decreases s.len(),
{
    if s.len() == 0 {
        Seq::empty()
    } else {
        u32s_le_bytes(s.drop_last()) + u32_le_bytes(s.last())
    }
}

/// The wire bytes of a game move's payload: the position vector, then the
/// player id.
pub open spec fn game_move_data(position: Seq<u32>, player_id: Seq<char>) -> Seq<u8> {
    u32_le_bytes(position.len() as u32) + u32s_le_bytes(position) + string_frame(player_id)
}

/// The wire bytes of a tic-tac-toe move: the row then the column, each a
/// 64-bit little-endian value, derived from a single cell position on a
/// three-wide board.
pub open spec fn ttt_move_bytes(pos: u32) -> Seq<u8> {
    u64_le_bytes((pos / 3) as u64) + u64_le_bytes((pos % 3) as u64)
}

/// Whether the wire format can carry this command: every length must fit its
/// 32-bit prefix.
pub open spec fn ui_command_encodable(c: UiCommandView) -> bool {
    match c {
        UiCommandView::Initialize { episode_type, config } => encode_utf8(episode_type).len()
            <= u32::MAX && config.len() <= u32::MAX,
        UiCommandView::GameMove { position, player_id } => position.len() > 0 || (4 + 4
            * position.len() + string_frame(player_id).len() <= u32::MAX && encode_utf8(
            player_id,
        ).len() <= u32::MAX),
        UiCommandView::CastVote { option_id, voter_id } => encode_utf8(option_id).len() <= u32::MAX
            && encode_utf8(voter_id).len() <= u32::MAX && string_frame(option_id).len()
            + string_frame(voter_id).len() <= u32::MAX,
        UiCommandView::PlaceBid { amount, bidder_id } => encode_utf8(bidder_id).len() <= u32::MAX
            && 8 + string_frame(bidder_id).len() <= u32::MAX,
        UiCommandView::CustomAction { action_type, params } => params.len() <= u32::MAX,
    }
}

/// The wire bytes of a UI command. A game move names a cell on the
/// three-wide board and travels as a bare tic-tac-toe move; everything else
/// travels as a tagged `EpisodeCommand`. The custom action's name rides only
/// in its parameters, as the wire format has no field for it.
pub open spec fn encoded_ui_command(c: UiCommandView) -> Seq<u8> {
    match c {
        UiCommandView::Initialize { episode_type, config } => encoded_episode_command(
            episode_type,
            config,
            true,
            0,
            Seq::empty(),
        ),
        UiCommandView::GameMove { position, player_id } => if position.len() > 0 {
            ttt_move_bytes(position[0])
        } else {
            encoded_episode_command(
                Seq::empty(),
                Seq::empty(),
                false,
                ACTION_TYPE_GAME_MOVE,
                game_move_data(position, player_id),
            )
        },
        UiCommandView::CastVote { option_id, voter_id } => encoded_episode_command(
            Seq::empty(),
            Seq::empty(),
            false,
            ACTION_TYPE_VOTE,
            string_frame(option_id) + string_frame(voter_id),
        ),
        UiCommandView::PlaceBid { amount, bidder_id } => encoded_episode_command(
            Seq::empty(),
            Seq::empty(),
            false,
            ACTION_TYPE_BID,
            u64_le_bytes(amount) + string_frame(bidder_id),
        ),
        UiCommandView::CustomAction { action_type, params } => encoded_episode_command(
            Seq::empty(),
            Seq::empty(),
            false,
            ACTION_TYPE_CUSTOM,
            params,
        ),
    }
}

/// Converts UI commands into episode command bytes.
pub struct CommandProcessor {}

impl CommandProcessor {
    pub fn new() -> (r: Self) {
        CommandProcessor {  }
    }

    /// Encodes a UI command into the wire format the consensus layer's
    /// transactions embed. A command whose parts outgrow the format's 32-bit
    /// length prefixes is refused with `EncodingFailed`.
    pub fn process(&self, ui_command: UiCommand) -> (r: Result<Vec<u8>, ApiError>)
        ensures
            r is Ok <==> ui_command_encodable(ui_command@),
            r is Ok ==> r->Ok_0@ == encoded_ui_command(ui_command@),
            r is Err ==> r == Err::<Vec<u8>, ApiError>(ApiError::EncodingFailed),
    {
        match ui_command {
            UiCommand::GameMove { position, player_id } => {
                if position.len() > 0 {
                    let pos = position[0];
                    let mut out: Vec<u8> = Vec::new();
                    push_u64_le(&mut out, (pos / 3) as u64);
                    push_u64_le(&mut out, (pos % 3) as u64);
                    proof {
                        assert(out@ =~= ttt_move_bytes(pos));
                    }
                    Ok(out)
                } else {
                    if player_id.as_str().as_bytes().len() as u128 > u32::MAX as u128 {
                        return Err(ApiError::EncodingFailed);
                    }
                    let mut data: Vec<u8> = Vec::new();
                    push_u32_le(&mut data, position.len() as u32);
                    proof {
                        assert(u32s_le_bytes(position@) =~= Seq::<u8>::empty());
                        assert(data@ =~= u32_le_bytes(position@.len() as u32) + u32s_le_bytes(
                            position@,
                        ));
                    }
                    push_string_frame(&mut data, player_id.as_str());
                    proof {
                        assert(data@ =~= game_move_data(position@, player_id@));
                    }
                    if data.len() as u128 > u32::MAX as u128 {
                        return Err(ApiError::EncodingFailed);
                    }
                    let mut out: Vec<u8> = Vec::new();
                    out.push(1u8);
                    out.push(ACTION_TYPE_GAME_MOVE);
                    push_bytes_frame(&mut out, &data);
                    proof {
                        assert(out@ =~= encoded_ui_command(ui_command@));
                    }
                    Ok(out)
                }
            },
            UiCommand::Initialize { episode_type, config } => {
                if episode_type.as_str().as_bytes().len() as u128 > u32::MAX as u128 || config.len() as u128
                    > u32::MAX as u128 {
                    return Err(ApiError::EncodingFailed);
                }
                let mut out: Vec<u8> = Vec::new();
                out.push(0u8);
                push_string_frame(&mut out, episode_type.as_str());
                push_bytes_frame(&mut out, &config);
                proof {
                    assert(out@ =~= encoded_ui_command(ui_command@));
                }
                Ok(out)
            },
            UiCommand::CastVote { option_id, voter_id } => {
                if option_id.as_str().as_bytes().len() as u128 > u32::MAX as u128 || voter_id.as_str().as_bytes().len()
                    as u128 > u32::MAX as u128 {
                    return Err(ApiError::EncodingFailed);
                }
                let mut data: Vec<u8> = Vec::new();
                push_string_frame(&mut data, option_id.as_str());
                push_string_frame(&mut data, voter_id.as_str());
                proof {
                    assert(data@ =~= string_frame(option_id@) + string_frame(voter_id@));
                }
                if data.len() as u128 > u32::MAX as u128 {
                    return Err(ApiError::EncodingFailed);
                }
                let mut out: Vec<u8> = Vec::new();
                out.push(1u8);
                out.push(ACTION_TYPE_VOTE);
                push_bytes_frame(&mut out, &data);
                proof {
                    assert(out@ =~= encoded_ui_command(ui_command@));
                }
                Ok(out)
            },
            UiCommand::PlaceBid { amount, bidder_id } => {
                if bidder_id.as_str().as_bytes().len() as u128 > u32::MAX as u128 {
                    return Err(ApiError::EncodingFailed);
                }
                let mut data: Vec<u8> = Vec::new();
                push_u64_le(&mut data, amount);
                push_string_frame(&mut data, bidder_id.as_str());
                proof {
                    assert(data@ =~= u64_le_bytes(amount) + string_frame(bidder_id@));
                }
                if data.len() as u128 > u32::MAX as u128 {
                    return Err(ApiError::EncodingFailed);
                }
                let mut out: Vec<u8> = Vec::new();
                out.push(1u8);
                out.push(ACTION_TYPE_BID);
                push_bytes_frame(&mut out, &data);
                proof {
                    assert(out@ =~= encoded_ui_command(ui_command@));
                }
                Ok(out)
            },
            UiCommand::CustomAction { action_type, params } => {
                if params.len() as u128 > u32::MAX as u128 {
                    return Err(ApiError::EncodingFailed);
                }
                let _ = action_type;
                let mut out: Vec<u8> = Vec::new();
                out.push(1u8);
                out.push(ACTION_TYPE_CUSTOM);
                push_bytes_frame(&mut out, &params);
                proof {
                    assert(out@ =~= encoded_ui_command(ui_command@));
                }
                Ok(out)
            },
        }
    }
}

} // verus!
