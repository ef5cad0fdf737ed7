//! Readers that check a payload against a scheme and extract its fields.
pub mod bcel_one_proof;
pub mod slip_verify;
pub mod true_money_slip_verify;

pub use bcel_one_proof::{bcel_one_proof, BcelOneProofData};
pub use slip_verify::{slip_verify, SlipVerifyData};
pub use true_money_slip_verify::{true_money_slip_verify, TrueMoneySlipVerifyData};
