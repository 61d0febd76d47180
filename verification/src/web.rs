use vstd::prelude::*;
use vstd::string::StringExecFns;

use crate::bridge::CommandBridge;
use crate::deployment::Manager as DeploymentPipeline;
use crate::episode::{EpisodeMetadata, MetadataView};
use crate::generation::Generator;
use crate::numbers::{dec_str, dec_str_signed, i64_to_string, u64_to_string};
use crate::registry::EpisodeManager;
use crate::session::Manager as SessionManager;
use crate::storage::EpisodeStorage;
use crate::strings::str_eq;

verus! {

/// A request to generate an episode from a prompt.
#[derive(Debug)]
pub struct GenerateRequest {
    pub prompt: String,
}

/// What a generation request comes back with.
#[derive(Debug)]
pub struct GenerateResponse {
    pub status: String,
    pub episode_id: Option<String>,
    pub share_link: Option<String>,
    pub error: Option<String>,
    pub generated_code: Option<String>,
}

/// Everything the request handlers share: the verified components, owned in
/// one place. The boundary wraps this in its own synchronization; a command
/// bridge exists only when a funding wallet was configured.
pub struct AppState<S: EpisodeStorage> {
    pub code_generator: Generator,
    pub deployment_manager: DeploymentPipeline,
    pub session_manager: SessionManager,
    pub episode_manager: EpisodeManager<S>,
    pub command_bridge: Option<CommandBridge>,
}

/// The messages crossing a live interface connection. State and action
/// payloads travel as bytes; the boundary that speaks JSON converts.
#[derive(Debug)]
pub enum WsMessage {
    Subscribe { episode_id: String, session_id: String },
    StateUpdate { episode_id: String, state: Vec<u8>, timestamp: u64 },
    Action { episode_id: String, action: Vec<u8> },
    ParticipantUpdate { episode_id: String, participant_count: usize, event: String },
    Error { message: String },
    ExpirationWarning { episode_id: String, remaining_seconds: i64 },
}

/// Mathematical image of a `WsMessage`.
#[verifier::ext_equal]
pub enum WsMessageView {
    Subscribe { episode_id: Seq<char>, session_id: Seq<char> },
    StateUpdate { episode_id: Seq<char>, state: Seq<u8>, timestamp: u64 },
    Action { episode_id: Seq<char>, action: Seq<u8> },
    ParticipantUpdate { episode_id: Seq<char>, participant_count: usize, event: Seq<char> },
    Error { message: Seq<char> },
    ExpirationWarning { episode_id: Seq<char>, remaining_seconds: i64 },
}

impl View for WsMessage {
    type V = WsMessageView;

    open spec fn view(&self) -> WsMessageView {
        match self {
            WsMessage::Subscribe { episode_id, session_id } => WsMessageView::Subscribe {
                episode_id: episode_id@,
                session_id: session_id@,
            },
            WsMessage::StateUpdate { episode_id, state, timestamp } => WsMessageView::StateUpdate {
                episode_id: episode_id@,
                state: state@,
                timestamp: *timestamp,
            },
            WsMessage::Action { episode_id, action } => WsMessageView::Action {
                episode_id: episode_id@,
                action: action@,
            },
            WsMessage::ParticipantUpdate {
                episode_id,
                participant_count,
                event,
            } => WsMessageView::ParticipantUpdate {
                episode_id: episode_id@,
                participant_count: *participant_count,
                event: event@,
            },
            WsMessage::Error { message } => WsMessageView::Error { message: message@ },
            WsMessage::ExpirationWarning {
                episode_id,
                remaining_seconds,
            } => WsMessageView::ExpirationWarning {
                episode_id: episode_id@,
                remaining_seconds: *remaining_seconds,
            },
        }
    }
}

/// What a freshly connected subscriber is sent: a state update carrying the
/// episode's metadata snapshot, and — when less than an hour remains — a
/// warning with the remaining seconds. The byte payload of the snapshot is
/// the boundary's to render.
pub fn connect_messages(meta: &EpisodeMetadata, now: u64) -> (r: Vec<WsMessage>)
    requires
        meta.expires_at <= i64::MAX,
        now <= i64::MAX,
    ensures
        r@.len() == (if meta.expires_at - now < 3600 {
            2int
        } else {
            1int
        }),
        r@[0]@ == (WsMessageView::StateUpdate {
            episode_id: meta@.id,
            state: Seq::<u8>::empty(),
            timestamp: now,
        }),
        meta.expires_at - now < 3600 ==> r@[1]@ == (WsMessageView::ExpirationWarning {
            episode_id: meta@.id,
            remaining_seconds: (meta.expires_at - now) as i64,
        }),
{
    let mut out: Vec<WsMessage> = Vec::new();
    out.push(
        WsMessage::StateUpdate { episode_id: meta.id.clone(), state: Vec::new(), timestamp: now },
    );
    let remaining = meta.remaining_seconds(now);
    if remaining < 3600 {
        out.push(
            WsMessage::ExpirationWarning {
                episode_id: meta.id.clone(),
                remaining_seconds: remaining,
            },
        );
    }
    proof {
        assert(out@[0]@ =~~= WsMessageView::StateUpdate {
            episode_id: meta@.id,
            state: Seq::<u8>::empty(),
            timestamp: now,
        });
    }
    out
}

/// The whole hours until expiry, negative once past it, truncated toward
/// zero.
pub open spec fn remaining_hours(expires_at: u64, now: u64) -> int {
    if expires_at >= now {
        (expires_at - now) / 3600
    } else {
        -((now - expires_at) / 3600)
    }
}

/// The interface page for an episode.
pub open spec fn html_of(m: MetadataView, now: u64) -> Seq<char> {
    "<!DOCTYPE html><html lang=\"en\"><head><meta charset=\"UTF-8\"><meta name=\"viewport\" content=\"width=device-width, initial-scale=1.0\"><title>"@
        + m.episode_type
        + " - kdapp.fun</title><link rel=\"stylesheet\" href=\"/style.css\"></head><body><div class=\"app-container\"><header class=\"app-header\"><h1>"@
        + m.episode_type
        + "</h1><div class=\"expiration-info\"><span class=\"expires-label\">Expires in:</span><span class=\"countdown\" data-expires=\""@
        + dec_str(m.expires_at as int) + "\">"@ + dec_str_signed(remaining_hours(m.expires_at, now))
        + " hours</span></div><div class=\"participant-info\"><span class=\"participant-count\">"@
        + dec_str(m.participant_count as int)
        + " participants</span><button class=\"share-btn\" onclick=\"shareApp()\">Share</button></div></header><main id=\"app-content\" class=\"app-content\" data-episode-id=\""@
        + m.id + "\" data-episode-type=\""@ + m.episode_type
        + "\"><div class=\"loading\">Loading application...</div></main></div><script src=\"/app.js\"></script><script>window.episodeId = '"@
        + m.id + "';window.episodeType = '"@ + m.episode_type
        + "';initializeApp();</script></body></html>"@
}

/// Renders the interface page for an episode: its type in the title and
/// heading, the expiry timestamp with the remaining whole hours, the
/// participant count, and the episode's id and type for the script.
pub fn generate_app_html(metadata: &EpisodeMetadata, now: u64) -> (r: String)
    requires
        metadata.expires_at <= i64::MAX,
        now <= i64::MAX,
    ensures
        r@ == html_of(metadata@, now),
{
    let hours: i64 = if metadata.expires_at >= now {
        let q = (metadata.expires_at - now) / 3600;
        q as i64
    } else {
        let q = (now - metadata.expires_at) / 3600;
        -(q as i64)
    };
    proof {
        assert(hours == remaining_hours(metadata.expires_at, now));
    }
    let mut out =
        "<!DOCTYPE html><html lang=\"en\"><head><meta charset=\"UTF-8\"><meta name=\"viewport\" content=\"width=device-width, initial-scale=1.0\"><title>".to_owned();
    out.append(metadata.episode_type.as_str());
    out.append(
        " - kdapp.fun</title><link rel=\"stylesheet\" href=\"/style.css\"></head><body><div class=\"app-container\"><header class=\"app-header\"><h1>",
    );
    out.append(metadata.episode_type.as_str());
    out.append(
        "</h1><div class=\"expiration-info\"><span class=\"expires-label\">Expires in:</span><span class=\"countdown\" data-expires=\"",
    );
    let expires_text = u64_to_string(metadata.expires_at);
    out.append(expires_text.as_str());
    out.append("\">");
    let hours_text = i64_to_string(hours);
    out.append(hours_text.as_str());
    out.append(
        " hours</span></div><div class=\"participant-info\"><span class=\"participant-count\">",
    );
    let count_text = u64_to_string(metadata.participant_count as u64);
    out.append(count_text.as_str());
    out.append(
        " participants</span><button class=\"share-btn\" onclick=\"shareApp()\">Share</button></div></header><main id=\"app-content\" class=\"app-content\" data-episode-id=\"",
    );
    out.append(metadata.id.as_str());
    out.append("\" data-episode-type=\"");
    out.append(metadata.episode_type.as_str());
    out.append(
        "\"><div class=\"loading\">Loading application...</div></main></div><script src=\"/app.js\"></script><script>window.episodeId = '",
    );
    out.append(metadata.id.as_str());
    out.append("';window.episodeType = '");
    out.append(metadata.episode_type.as_str());
    out.append("';initializeApp();</script></body></html>");
    out
}

/// The default node endpoint for a network name.
pub open spec fn default_wrpc_url(network: Seq<char>) -> Seq<char> {
    if network == "mainnet"@ {
        "wss://kaspa.aspectron.org/wrpc/mainnet"@
    } else if network == "testnet-10"@ {
        "wss://kaspa.aspectron.org/wrpc/testnet-10"@
    } else {
        "wss://localhost:17110"@
    }
}

/// The default node endpoint for a network name.
pub fn get_default_wrpc_url(network: &str) -> (r: String)
    ensures
        r@ == default_wrpc_url(network@),
{
    if str_eq(network, "mainnet") {
        "wss://kaspa.aspectron.org/wrpc/mainnet".to_owned()
    } else if str_eq(network, "testnet-10") {
        "wss://kaspa.aspectron.org/wrpc/testnet-10".to_owned()
    } else {
        "wss://localhost:17110".to_owned()
    }
}

} // verus!
