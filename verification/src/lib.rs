//! A crowdfunding campaign: contributions, pledges, refunds, the creator's
//! payout with a platform fee, reward tiers, stretch goals and the campaign's
//! public record (roadmap, updates, metadata).
pub mod contract;
pub mod laws;
pub mod ledger;
pub mod state;
pub mod sums;
pub mod types;
