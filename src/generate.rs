//! Builders of payloads for particular schemes.
pub mod any_id;
pub mod bill_payment;
pub mod bot_barcode;
pub mod fields;
pub mod slip_verify;
pub mod true_money;
pub mod true_money_slip_verify;

pub use any_id::{any_id, AnyIdConfig, ProxyType};
pub use bill_payment::{bill_payment, BillPaymentConfig};
pub use bot_barcode::{bot_barcode, BotBarcodeConfig};
pub use slip_verify::{slip_verify, SlipVerifyConfig};
pub use true_money::{true_money, TrueMoneyConfig};
pub use true_money_slip_verify::{true_money_slip_verify, TrueMoneySlipVerifyConfig};
