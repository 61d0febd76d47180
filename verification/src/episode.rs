use vstd::prelude::*;

verus! {

/// How long an episode lives after creation: three days, the pruning window
/// of the underlying chain.
pub const EPISODE_TTL_SECONDS: u64 = 259200;

/// Metadata of one episode, for tracking and display.
#[derive(Debug)]
pub struct EpisodeMetadata {
    pub id: String,
    pub episode_type: String,
    pub created_at: u64,
    pub expires_at: u64,
    pub participant_count: usize,
    pub is_ephemeral: bool,
    pub creator_session: String,
}

/// Mathematical image of an `EpisodeMetadata`.
#[verifier::ext_equal]
pub struct MetadataView {
    pub id: Seq<char>,
    pub episode_type: Seq<char>,
    pub created_at: u64,
    pub expires_at: u64,
    pub participant_count: usize,
    pub is_ephemeral: bool,
    pub creator_session: Seq<char>,
}

impl View for EpisodeMetadata {
    type V = MetadataView;

    open spec fn view(&self) -> MetadataView {
        MetadataView {
            id: self.id@,
            episode_type: self.episode_type@,
            created_at: self.created_at,
            expires_at: self.expires_at,
            participant_count: self.participant_count,
            is_ephemeral: self.is_ephemeral,
            creator_session: self.creator_session@,
        }
    }
}

/// The metadata an episode created at `now` starts with.
pub open spec fn fresh_metadata(
    id: Seq<char>,
    episode_type: Seq<char>,
    creator_session: Seq<char>,
    now: u64,
) -> MetadataView {
    MetadataView {
        id,
        episode_type,
        created_at: now,
        expires_at: (now + EPISODE_TTL_SECONDS) as u64,
        participant_count: 0,
        is_ephemeral: true,
        creator_session,
    }
}

/// Whether an episode with this metadata is past its lifetime at time `now`.
pub open spec fn spec_expired(m: MetadataView, now: u64) -> bool {
    now > m.expires_at
}

impl EpisodeMetadata {
    /// Fresh metadata: created at `now`, expiring a fixed time later, with no
    /// participants yet. The creation time staying clear of the end of the
    /// `u64` range is a machine limit.
    pub fn new(id: String, episode_type: String, creator_session: String, now: u64) -> (r: Self)
        requires
            now + EPISODE_TTL_SECONDS <= u64::MAX,
        ensures
            r@ == fresh_metadata(id@, episode_type@, creator_session@, now),
    {
        let r = EpisodeMetadata {
            id,
            episode_type,
            created_at: now,
            expires_at: now + EPISODE_TTL_SECONDS,
            participant_count: 0,
            is_ephemeral: true,
            creator_session,
        };
        proof {
            assert(r@ =~~= fresh_metadata(r.id@, r.episode_type@, r.creator_session@, now));
        }
        r
    }

    /// Whether the episode has expired by time `now`: strictly after its
    /// expiry timestamp.
    pub fn is_expired(&self, now: u64) -> (r: bool)
        ensures
            r == spec_expired(self@, now),
    {
        now > self.expires_at
    }

    /// Seconds until expiry, negative once past it. The timestamps fitting
    /// `i64` is a machine limit.
    pub fn remaining_seconds(&self, now: u64) -> (r: i64)
        requires
            self.expires_at <= i64::MAX,
            now <= i64::MAX,
        ensures
            r == self.expires_at - now,
    {
        self.expires_at as i64 - now as i64
    }

    /// A field-for-field copy with its contents pinned down.
    pub fn duplicate(&self) -> (r: Self)
        ensures
            r@ == self@,
    {
        let r = EpisodeMetadata {
            id: self.id.clone(),
            episode_type: self.episode_type.clone(),
            created_at: self.created_at,
            expires_at: self.expires_at,
            participant_count: self.participant_count,
            is_ephemeral: self.is_ephemeral,
            creator_session: self.creator_session.clone(),
        };
        proof {
            assert(r@ =~~= self@);
        }
        r
    }
}

/// Expiry monotonicity: with expiry fixed at creation time plus the lifetime,
/// every query strictly before the deadline reports the episode live, and
/// every query strictly after it reports the episode expired.
pub proof fn lemma_expiry_monotonic(m: MetadataView, earlier: u64, later: u64)
    requires
        m.expires_at == m.created_at + EPISODE_TTL_SECONDS,
        earlier < m.created_at + EPISODE_TTL_SECONDS,
        later > m.created_at + EPISODE_TTL_SECONDS,
    ensures
        !spec_expired(m, earlier),
        spec_expired(m, later),
{
}

} // verus!
