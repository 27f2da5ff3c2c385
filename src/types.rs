//! Trade records as the venue reports them, and the pages they come in.

use vstd::prelude::*;

verus! {

/// One trade fill as the venue reports it. Amounts are decimal text.
#[derive(Debug)]
pub struct FillData {
    pub ts: u64,
    pub tx_sig: String,
    pub tx_sig_index: u64,
    pub slot: u64,
    pub filler_reward: String,
    pub base_asset_amount_filled: String,
    pub quote_asset_amount_filled: String,
    pub taker_fee: String,
    pub maker_rebate: String,
    pub referrer_reward: String,
    pub quote_asset_amount_surplus: String,
    pub taker_order_base_asset_amount: String,
    pub taker_order_cumulative_base_asset_amount_filled: String,
    pub taker_order_cumulative_quote_asset_amount_filled: String,
    pub maker_order_base_asset_amount: String,
    pub maker_order_cumulative_base_asset_amount_filled: String,
    pub maker_order_cumulative_quote_asset_amount_filled: String,
    pub oracle_price: String,
    pub maker_fee: String,
    pub action: String,
    pub action_explanation: String,
    pub market_index: u64,
    pub market_type: String,
    pub filler: String,
    pub fill_record_id: String,
    pub taker: String,
    pub taker_order_id: String,
    pub taker_order_direction: String,
    pub maker: String,
    pub maker_order_id: String,
    pub maker_order_direction: String,
    pub spot_fulfillment_method_fee: String,
    pub market_filter: String,
    pub user: String,
    pub symbol: String,
    pub bit_flags: u64,
    pub taker_existing_quote_entry_amount: String,
    pub taker_existing_base_asset_amount: String,
    pub maker_existing_quote_entry_amount: String,
    pub maker_existing_base_asset_amount: String,
}

/// Where the next page of a listing starts, if there is one.
#[derive(Debug)]
pub struct FillsMeta {
    pub next_page: Option<String>,
}

/// One page of trade fills.
#[derive(Debug)]
pub struct FillsApiResponse {
    pub success: bool,
    pub records: Vec<FillData>,
    pub meta: FillsMeta,
}

} // verus!
