//! What flows into the engine and what flows out of it.

use vstd::prelude::*;
use crate::binary64::Binary64;
use crate::clock::utc_now_rfc3339;
use crate::window::WINDOW_CAPACITY;

verus! {

/// One observed trade of an asset.
#[derive(Clone, Debug, PartialEq, Eq)]
pub struct TradeEvent {
    /// The asset that was traded; windows are kept per asset key.
    pub asset_key: String,
    /// The price of the trade.
    pub price: Binary64,
    /// When the trade was observed, as the source reported it.
    pub observed_at: String,
}

/// One indicator value, ready to be published.
#[derive(Clone, Debug, PartialEq, Eq)]
pub struct IndicatorResult {
    /// The asset that the value was derived for.
    pub asset_key: String,
    /// When the value was derived, as an RFC 3339 string.
    pub emitted_at: String,
    /// The Relative Strength Index of the asset's window.
    pub rsi: Binary64,
}

/// A full window that awaits its indicator value.
///
/// The engine hands one out for every trade that completes or renews a full
/// window.  Whoever computes the indicator turns it into the result to
/// publish, which keeps the asset key of the trade it came from.
#[derive(Debug)]
pub struct PendingEmission {
    asset_key: String,
    window: Vec<Binary64>,
}

/// What a pending emission stands for: the asset key and its full window,
/// oldest price first.
pub struct PendingView {
    pub asset_key: Seq<char>,
    pub window: Seq<Binary64>,
}

impl View for PendingEmission {
    type V = PendingView;

    closed spec fn view(&self) -> PendingView {
        PendingView { asset_key: self.asset_key@, window: self.window@ }
    }
}

impl PendingEmission {
    #[verifier::type_invariant]
    spec fn full(self) -> bool {
        self.window@.len() == WINDOW_CAPACITY
    }

    /// A pending emission for `asset_key` over a full `window`.
    pub(crate) fn new(asset_key: String, window: Vec<Binary64>) -> (pending: Self)
        requires
            window@.len() == WINDOW_CAPACITY,
        ensures
            pending@ == (PendingView { asset_key: asset_key@, window: window@ }),
    {
        PendingEmission { asset_key, window }
    }

    /// The asset that the value is due for.
    pub fn asset_key(&self) -> (key: &str)
        ensures
            key@ == self@.asset_key,
    {
        self.asset_key.as_str()
    }

    /// The window to compute the value from: exactly `WINDOW_CAPACITY`
    /// prices, oldest first.
    pub fn window(&self) -> (prices: &[Binary64])
        ensures
            prices@ == self@.window,
            prices@.len() == WINDOW_CAPACITY,
    {
        proof {
            use_type_invariant(self);
        }
        self.window.as_slice()
    }

    /// The result to publish, given the indicator value and the time of its
    /// derivation.
    pub fn complete_at(self, rsi: Binary64, emitted_at: String) -> (result: IndicatorResult)
        ensures
            result.asset_key@ == self@.asset_key,
            result.emitted_at@ == emitted_at@,
            result.rsi == rsi,
    {
        IndicatorResult { asset_key: self.asset_key, emitted_at, rsi }
    }

    /// The result to publish, given the indicator value; it is stamped with
    /// the current time, whatever the clock says.
    pub fn complete(self, rsi: Binary64) -> (result: IndicatorResult)
        ensures
            result.asset_key@ == self@.asset_key,
            result.rsi == rsi,
    {
        let emitted_at = utc_now_rfc3339();
        self.complete_at(rsi, emitted_at)
    }
}

} // verus!
