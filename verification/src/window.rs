//! A bounded first-in first-out window of recent prices.

use vstd::prelude::*;
use crate::binary64::Binary64;

verus! {

/// The number of consecutive price differences that the indicator looks
/// back on.
pub const LOOKBACK: usize = 14;

/// The most prices a window holds: fourteen differences need fifteen prices.
pub const WINDOW_CAPACITY: usize = LOOKBACK + 1;

/// The most recent `WINDOW_CAPACITY` entries of `history`, oldest first, or
/// all of it where it is shorter.
pub open spec fn latest(history: Seq<Binary64>) -> Seq<Binary64> {
    if history.len() <= WINDOW_CAPACITY {
        history
    } else {
        history.subrange(history.len() - WINDOW_CAPACITY, history.len() as int)
    }
}

/// What a window holds once `price` has been recorded in it: the price goes
/// to the end and, where that made the window too long, the oldest entry
/// leaves.
pub open spec fn appended(window: Seq<Binary64>, price: Binary64) -> Seq<Binary64> {
    let grown = window.push(price);
    if grown.len() > WINDOW_CAPACITY {
        grown.subrange(1, grown.len() as int)
    } else {
        grown
    }
}

/// What a window holds once every price of `prices` has been recorded in
/// it, in order.
pub open spec fn extended(window: Seq<Binary64>, prices: Seq<Binary64>) -> Seq<Binary64>
    decreases prices.len(),
{
    if prices.len() == 0 {
        window
    } else {
        appended(extended(window, prices.drop_last()), prices.last())
    }
}

/// Recording one more price keeps a window within its capacity and never
/// leaves it empty.
pub proof fn lemma_appended_len(window: Seq<Binary64>, price: Binary64)
    requires
        window.len() <= WINDOW_CAPACITY,
    ensures
        1 <= appended(window, price).len() <= WINDOW_CAPACITY,
        appended(window, price).len() == if window.len() < WINDOW_CAPACITY {
            window.len() + 1
        } else {
            window.len()
        },
        appended(window, price).last() == price,
{
}

/// Within capacity, recording a price is taking the latest prices of the
/// window with the price at its end.
pub proof fn lemma_appended_is_latest(window: Seq<Binary64>, price: Binary64)
    requires
        window.len() <= WINDOW_CAPACITY,
    ensures
        appended(window, price) == latest(window.push(price)),
{
    assert(appended(window, price) =~= latest(window.push(price)));
}

/// The latest prices of a history that grew by one are the latest prices of
/// the history before, with the new price recorded.
pub proof fn lemma_latest_push(history: Seq<Binary64>, price: Binary64)
    ensures
        latest(history.push(price)) == appended(latest(history), price),
{
    assert(latest(history.push(price)) =~= appended(latest(history), price));
}

/// After any number of recorded prices a window holds at most
/// `WINDOW_CAPACITY` of them: the most recent ones among those it held
/// before and those recorded since, oldest first.
pub proof fn lemma_extended_is_latest(window: Seq<Binary64>, prices: Seq<Binary64>)
    requires
        window.len() <= WINDOW_CAPACITY,
    ensures
        extended(window, prices) == latest(window + prices),
        extended(window, prices).len() <= WINDOW_CAPACITY,
        extended(window, prices).len() == if window.len() + prices.len() <= WINDOW_CAPACITY {
            window.len() + prices.len()
        } else {
            WINDOW_CAPACITY as nat
        },
    decreases prices.len(),
{
    if prices.len() == 0 {
        assert(window + prices =~= window);
    } else {
        lemma_extended_is_latest(window, prices.drop_last());
        lemma_latest_push(window + prices.drop_last(), prices.last());
        assert((window + prices.drop_last()).push(prices.last()) =~= window + prices);
    }
}

/// A window that started empty holds the most recent prices of all that
/// were recorded in it, oldest first, and never more than
/// `WINDOW_CAPACITY`.
pub proof fn lemma_window_holds_latest(history: Seq<Binary64>)
    ensures
        extended(Seq::empty(), history) == latest(history),
        extended(Seq::empty(), history).len() <= WINDOW_CAPACITY,
{
    lemma_extended_is_latest(Seq::empty(), history);
    assert(Seq::<Binary64>::empty() + history =~= history);
}

/// The recent prices of one asset, oldest first, never more than
/// `WINDOW_CAPACITY` of them.
pub struct PriceWindow {
    prices: Vec<Binary64>,
}

impl View for PriceWindow {
    type V = Seq<Binary64>;

    closed spec fn view(&self) -> Seq<Binary64> {
        self.prices@
    }
}

impl PriceWindow {
    #[verifier::type_invariant]
    spec fn within_capacity(self) -> bool {
        self.prices@.len() <= WINDOW_CAPACITY
    }

    /// An empty window.
    pub fn new() -> (window: Self)
        ensures
            window@ == Seq::<Binary64>::empty(),
    {
        PriceWindow { prices: Vec::new() }
    }

    /// Records `price` as the newest entry, evicting the oldest one where
    /// the window was full.
    pub fn push(&mut self, price: Binary64)
        ensures
            final(self)@ == appended(old(self)@, price),
            final(self)@ == latest(old(self)@.push(price)),
            1 <= final(self)@.len() <= WINDOW_CAPACITY,
    {
        proof {
            use_type_invariant(&*self);
            lemma_appended_is_latest(self@, price);
        }
        let mut prices: Vec<Binary64> = Vec::new();
        std::mem::swap(&mut prices, &mut self.prices);
        prices.push(price);
        if prices.len() > WINDOW_CAPACITY {
            prices.remove(0);
        }
        assert(prices@ =~= appended(old(self)@, price));
        self.prices = prices;
    }

    /// The number of prices held, which never exceeds `WINDOW_CAPACITY`.
    pub fn len(&self) -> (n: usize)
        ensures
            n == self@.len(),
            n <= WINDOW_CAPACITY,
    {
        proof {
            use_type_invariant(self);
        }
        self.prices.len()
    }

    /// Whether the window holds no price yet.
    pub fn is_empty(&self) -> (empty: bool)
        ensures
            empty == (self@.len() == 0),
    {
        self.prices.len() == 0
    }

    /// The price at position `i`, counted from the oldest, if there is one.
    pub fn get(&self, i: usize) -> (price: Option<Binary64>)
        ensures
            price == if i < self@.len() {
                Some(self@[i as int])
            } else {
                None::<Binary64>
            },
    {
        if i < self.prices.len() {
            Some(self.prices[i])
        } else {
            None
        }
    }

    /// The prices held, oldest first.
    pub fn as_slice(&self) -> (prices: &[Binary64])
        ensures
            prices@ == self@,
            prices@.len() <= WINDOW_CAPACITY,
    {
        proof {
            use_type_invariant(self);
        }
        self.prices.as_slice()
    }

    /// A copy of the prices held, oldest first.
    pub fn to_vec(&self) -> (prices: Vec<Binary64>)
        ensures
            prices@ == self@,
            prices@.len() <= WINDOW_CAPACITY,
    {
        proof {
            use_type_invariant(self);
        }
        let mut copy: Vec<Binary64> = Vec::new();
        let mut i: usize = 0;
        while i < self.prices.len()
            invariant
                i <= self.prices.len(),
                copy@ == self.prices@.subrange(0, i as int),
            decreases self.prices.len() - i,
        {
            copy.push(self.prices[i]);
            i += 1;
            assert(copy@ =~= self.prices@.subrange(0, i as int));
        }
        assert(copy@ =~= self.prices@);
        copy
    }
}

} // verus!
