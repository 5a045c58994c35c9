use vstd::prelude::*;

use crate::models::post::PostId;

verus! {

/// Surrogate key of a stored vote.
#[derive(Clone, Copy, Debug, PartialEq, Eq, Structural)]
pub struct VoteId(pub i32);

/// One user's vote for one post.
#[derive(Clone, Copy, Debug, PartialEq, Eq, Structural)]
pub struct Vote {
    pub id: VoteId,
    pub post_id: PostId,
    pub user_id: i32,
}

/// The fields a client supplies to cast or retract a vote.
#[derive(Clone, Copy, Debug, PartialEq, Eq, Structural)]
pub struct CreateVote {
    pub post_id: PostId,
    pub user_id: i32,
}

/// A vote lookup request by id.
pub struct GetVoteById {
    pub vote_id: i32,
}

} // verus!
