//! Verified state-transition core of a ledger execution engine: overflow-checked
//! 512-bit balances, native purse-to-purse transfers, the era step (slashing,
//! rewards and the validator auction), the step request builder, and the codec
//! between stored ledger values and their externally readable form.

pub mod amount;
pub mod transfer;
pub mod step_request;
pub mod era_step;
pub mod hex;
pub mod codec;
