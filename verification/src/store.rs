//! The per-asset store of price windows.

use vstd::prelude::*;
use vstd::hash_map::StringHashMap;
use crate::binary64::Binary64;
use crate::window::{
    appended, extended, latest, lemma_appended_is_latest, lemma_appended_len,
    lemma_window_holds_latest, PriceWindow, WINDOW_CAPACITY,
};

verus! {

/// The windows of a store, by asset key, as the contracts speak of them.
pub type Windows = Map<Seq<char>, Seq<Binary64>>;

/// The window that `windows` holds for `key`; a key never seen has the empty
/// window.
pub open spec fn window_of(windows: Windows, key: Seq<char>) -> Seq<Binary64> {
    if windows.contains_key(key) {
        windows[key]
    } else {
        Seq::empty()
    }
}

/// The windows once `price` has been recorded for `key`: the window of that
/// key takes the price, being created first where the key is new, and every
/// other window stays as it is.
pub open spec fn recorded(windows: Windows, key: Seq<char>, price: Binary64) -> Windows {
    windows.insert(key, appended(window_of(windows, key), price))
}

/// The windows once every record of `records`, a key and a price each, has
/// been recorded in order.
pub open spec fn recorded_all(windows: Windows, records: Seq<(Seq<char>, Binary64)>) -> Windows
    decreases records.len(),
{
    if records.len() == 0 {
        windows
    } else {
        recorded(recorded_all(windows, records.drop_last()), records.last().0, records.last().1)
    }
}

/// The prices that `records` holds for `key`, in the order of the records.
pub open spec fn prices_for(records: Seq<(Seq<char>, Binary64)>, key: Seq<char>) -> Seq<
    Binary64,
>
    decreases records.len(),
{
    if records.len() == 0 {
        Seq::empty()
    } else if records.last().0 == key {
        prices_for(records.drop_last(), key).push(records.last().1)
    } else {
        prices_for(records.drop_last(), key)
    }
}

/// Whether no window of `windows` is empty or longer than
/// `WINDOW_CAPACITY`.
pub open spec fn bounded(windows: Windows) -> bool {
    forall|key: Seq<char>| #[trigger]
        windows.contains_key(key) ==> 1 <= windows[key].len() <= WINDOW_CAPACITY
}

/// Recording a price touches the window of its key and no other, and keeps
/// every window within bounds.
pub proof fn lemma_recorded(windows: Windows, key: Seq<char>, price: Binary64)
    requires
        bounded(windows),
    ensures
        bounded(recorded(windows, key, price)),
        recorded(windows, key, price).dom() == windows.dom().insert(key),
        forall|other: Seq<char>|
            other != key ==> window_of(#[trigger] recorded(windows, key, price), other)
                == window_of(windows, other),
        window_of(recorded(windows, key, price), key) == appended(window_of(windows, key), price),
{
    lemma_appended_len(window_of(windows, key), price);
}

/// The windows of different keys are independent: whatever records arrive
/// in whatever interleaving, the window of a key is what it would be had
/// the records of that key arrived alone.
pub proof fn lemma_keys_independent(
    windows: Windows,
    records: Seq<(Seq<char>, Binary64)>,
    key: Seq<char>,
)
    ensures
        window_of(recorded_all(windows, records), key) == extended(
            window_of(windows, key),
            prices_for(records, key),
        ),
        recorded_all(windows, records).contains_key(key) <==> windows.contains_key(key)
            || prices_for(records, key).len() > 0,
    decreases records.len(),
{
    if records.len() > 0 {
        let earlier = records.drop_last();
        let before = recorded_all(windows, earlier);
        lemma_keys_independent(windows, earlier, key);
        if records.last().0 == key {
            assert(window_of(recorded(before, key, records.last().1), key) == appended(
                window_of(before, key),
                records.last().1,
            ));
            assert(prices_for(records, key).drop_last() =~= prices_for(earlier, key));
        } else {
            assert(window_of(recorded(before, records.last().0, records.last().1), key)
                == window_of(before, key));
        }
    }
}

/// In a store that started empty, after any number of records, the window
/// of a key exists once a price was recorded for it, is never longer than
/// `WINDOW_CAPACITY`, and holds the most recent prices recorded for that
/// key, oldest first.
pub proof fn lemma_store_holds_latest(records: Seq<(Seq<char>, Binary64)>, key: Seq<char>)
    ensures
        window_of(recorded_all(Map::empty(), records), key) == latest(prices_for(records, key)),
        window_of(recorded_all(Map::empty(), records), key).len() <= WINDOW_CAPACITY,
        recorded_all(Map::empty(), records).contains_key(key) <==> prices_for(records, key).len()
            > 0,
{
    lemma_keys_independent(Map::empty(), records, key);
    lemma_window_holds_latest(prices_for(records, key));
}

/// The windows that a slot table describes: each key of `index` names the
/// slot that holds its window.
spec fn windows_in(index: Map<Seq<char>, usize>, slots: Seq<PriceWindow>) -> Windows {
    Map::new(
        |key: Seq<char>| index.contains_key(key),
        |key: Seq<char>| slots[index[key] as int]@,
    )
}

/// The keys are finitely many, every key names a slot of its own, and no
/// slot holds an empty or an overlong window.
spec fn consistent(index: Map<Seq<char>, usize>, slots: Seq<PriceWindow>) -> bool {
    &&& index.dom().finite()
    &&& forall|key: Seq<char>| index.contains_key(key) ==> (#[trigger] index[key]) < slots.len()
    &&& forall|a: Seq<char>, b: Seq<char>|
        index.contains_key(a) && index.contains_key(b) && a != b ==> #[trigger] index[a]
            != #[trigger] index[b]
    &&& forall|i: int|
        0 <= i < slots.len() ==> 1 <= (#[trigger] slots[i])@.len() <= WINDOW_CAPACITY
}

/// One bounded price window per asset key ever seen.
///
/// A window comes into being with the first price recorded for its key and
/// lives as long as the store; windows of different keys share nothing.
pub struct WindowStore {
    index: StringHashMap<usize>,
    slots: Vec<PriceWindow>,
}

impl View for WindowStore {
    type V = Windows;

    closed spec fn view(&self) -> Windows {
        windows_in(self.index@, self.slots@)
    }
}

impl WindowStore {
    #[verifier::type_invariant]
    spec fn well_formed(self) -> bool {
        consistent(self.index@, self.slots@)
    }

    /// A store that has seen no key.
    pub fn new() -> (store: Self)
        ensures
            store@ == Map::<Seq<char>, Seq<Binary64>>::empty(),
            bounded(store@),
    {
        let store = WindowStore { index: StringHashMap::new(), slots: Vec::new() };
        assert(store@ =~= Map::<Seq<char>, Seq<Binary64>>::empty());
        store
    }

    /// Records `price` for `asset_key` and returns the window of that key as
    /// it now stands.
    pub fn record(&mut self, asset_key: &str, price: Binary64) -> (window: &PriceWindow)
        ensures
            final(self)@ == recorded(old(self)@, asset_key@, price),
            bounded(final(self)@),
            window@ == final(self)@[asset_key@],
            window@ == latest(window_of(old(self)@, asset_key@).push(price)),
            1 <= window@.len() <= WINDOW_CAPACITY,
    {
        proof {
            use_type_invariant(&*self);
            lemma_appended_is_latest(window_of(self@, asset_key@), price);
        }
        // Both parts are taken out and put back when they agree again, so
        // that the store is never seen half updated.
        let mut index: StringHashMap<usize> = StringHashMap::new();
        let mut slots: Vec<PriceWindow> = Vec::new();
        std::mem::swap(&mut index, &mut self.index);
        std::mem::swap(&mut slots, &mut self.slots);
        let ghost index_before = index@;
        let ghost slots_before = slots@;
        let slot: usize = match index.get(asset_key) {
            Some(found) => {
                let slot: usize = *found;
                slots[slot].push(price);
                slot
            },
            None => {
                let mut window = PriceWindow::new();
                window.push(price);
                let slot: usize = slots.len();
                slots.push(window);
                index.insert(asset_key.to_owned(), slot);
                slot
            },
        };
        assert(windows_in(index@, slots@) =~= recorded(
            windows_in(index_before, slots_before),
            asset_key@,
            price,
        ));
        self.slots = slots;
        self.index = index;
        &self.slots[slot]
    }

    /// The number of asset keys seen so far.
    pub fn len(&self) -> (n: usize)
        ensures
            self@.dom().finite(),
            n == self@.dom().len(),
    {
        proof {
            use_type_invariant(self);
            assert(self@.dom() =~= self.index@.dom());
        }
        self.index.len()
    }

    /// The window of `asset_key`, if a price was ever recorded for it.
    pub fn window(&self, asset_key: &str) -> (window: Option<&PriceWindow>)
        ensures
            match window {
                Some(found) => self@.contains_key(asset_key@) && found@ == self@[asset_key@] && 1
                    <= found@.len() <= WINDOW_CAPACITY,
                None => !self@.contains_key(asset_key@),
            },
    {
        proof {
            use_type_invariant(self);
        }
        match self.index.get(asset_key) {
            Some(found) => Some(&self.slots[*found]),
            None => None,
        }
    }
}

} // verus!
