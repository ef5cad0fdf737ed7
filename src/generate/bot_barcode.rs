//! The pipe-delimited bill payment barcode.
use vstd::prelude::*;

use crate::bot_barcode::{barcode_text, BotBarcode};

verus! {

/// What a bill payment barcode carries.
#[derive(Debug, Clone)]
pub struct BotBarcodeConfig {
    /// Biller id: tax id and a suffix
    pub biller_id: String,
    /// Reference 1, the customer number
    pub ref1: String,
    /// Reference 2
    pub ref2: Option<String>,
    /// Transaction amount in hundredths of the currency unit
    pub amount: Option<i64>,
}

/// Builds a bill payment barcode from its fields.
pub fn bot_barcode(config: BotBarcodeConfig) -> (r: String)
    ensures
        r@ == barcode_text(
            BotBarcode {
                biller_id: config.biller_id,
                ref1: config.ref1,
                ref2: config.ref2,
                amount: config.amount,
            },
        ),
{
    let barcode = BotBarcode::new(config.biller_id, config.ref1, config.ref2, config.amount);
    barcode.to_string()
}

} // verus!
