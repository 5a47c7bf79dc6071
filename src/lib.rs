//! Vote tallying and proof aggregation for a proof-of-stake ledger.
//!
//! * [`tally`]: the tally of a voting subject and the merge of a batch of new
//!   votes into it.
//! * [`signatures`]: a multi-signature proof that holds one signature per
//!   signing key.
//! * [`valset`]: aggregation of validator-set-update votes into a tally and a
//!   proof.
//! * [`governance`]: the stake-weighted tally of a governance proposal.
//! * [`proposals`]: the settlement of proposals whose voting period ended.

pub mod governance;
pub mod proposals;
pub mod signatures;
pub mod tally;
pub mod valset;
