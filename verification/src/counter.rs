//! Per-record-category monotonic identifier allocation.
//!
//! One cursor per category, seeded at startup from the highest persisted
//! identifier of that category so that continuity survives restarts. Each
//! category carries an optional upper bound from configuration; the bound
//! is advisory: `increment` never consults it, matching every observed
//! call site, and `within_bound` reports it to callers that care. A host
//! process serializes concurrent increments behind a lock, so each
//! increment is one atomic read-modify-write.

use vstd::prelude::*;

verus! {

/// The record category a counter cursor belongs to.
#[derive(Clone, Copy, Debug, PartialEq, Eq, Structural)]
pub enum CounterType {
    Position,
    Price,
    Pnl,
}

/// The three identifier cursors with their optional advisory bounds.
#[derive(Clone, Copy, Debug)]
pub struct Counter {
    position: u32,
    price: u32,
    pnl: u32,
    max_position: Option<u32>,
    max_price: Option<u32>,
    max_pnl: Option<u32>,
}

impl Counter {
    /// The cursor of a category: the identifier handed out last.
    pub closed spec fn value_spec(self, t: CounterType) -> u32 {
        match t {
            CounterType::Position => self.position,
            CounterType::Price => self.price,
            CounterType::Pnl => self.pnl,
        }
    }

    /// The advisory bound of a category.
    pub closed spec fn bound_spec(self, t: CounterType) -> Option<u32> {
        match t {
            CounterType::Position => self.max_position,
            CounterType::Price => self.max_price,
            CounterType::Pnl => self.max_pnl,
        }
    }

    /// Cursors seeded from the last persisted identifier of each category,
    /// with the configured advisory bounds.
    pub fn new(
        max_position: Option<u32>,
        max_price: Option<u32>,
        max_pnl: Option<u32>,
        last_position: u32,
        last_price: u32,
        last_pnl: u32,
    ) -> (r: Self)
        ensures
            r.value_spec(CounterType::Position) == last_position,
            r.value_spec(CounterType::Price) == last_price,
            r.value_spec(CounterType::Pnl) == last_pnl,
            r.bound_spec(CounterType::Position) == max_position,
            r.bound_spec(CounterType::Price) == max_price,
            r.bound_spec(CounterType::Pnl) == max_pnl,
    {
        Counter {
            position: last_position,
            price: last_price,
            pnl: last_pnl,
            max_position,
            max_price,
            max_pnl,
        }
    }

    /// Advances the category's cursor by one and returns the fresh
    /// identifier. The advisory bound is not consulted.
    pub fn increment(&mut self, t: CounterType) -> (r: u32)
        requires
            old(self).value_spec(t) < u32::MAX,
        ensures
            r == old(self).value_spec(t) + 1,
            final(self).value_spec(t) == r,
            forall|u: CounterType| u != t ==> final(self).value_spec(u) == old(self).value_spec(u),
            forall|u: CounterType| final(self).bound_spec(u) == old(self).bound_spec(u),
    {
        match t {
            CounterType::Position => {
                self.position = self.position + 1;
                self.position
            },
            CounterType::Price => {
                self.price = self.price + 1;
                self.price
            },
            CounterType::Pnl => {
                self.pnl = self.pnl + 1;
                self.pnl
            },
        }
    }

    /// The identifier handed out last for this category.
    pub fn value(&self, t: CounterType) -> (r: u32)
        ensures
            r == self.value_spec(t),
    {
        match t {
            CounterType::Position => self.position,
            CounterType::Price => self.price,
            CounterType::Pnl => self.pnl,
        }
    }

    /// The advisory bound of this category.
    pub fn bound(&self, t: CounterType) -> (r: Option<u32>)
        ensures
            r == self.bound_spec(t),
    {
        match t {
            CounterType::Position => self.max_position,
            CounterType::Price => self.max_price,
            CounterType::Pnl => self.max_pnl,
        }
    }

    /// Whether the category's cursor is within its advisory bound; a
    /// category without a bound always is.
    pub fn within_bound(&self, t: CounterType) -> (r: bool)
        ensures
            r == match self.bound_spec(t) {
                Some(m) => self.value_spec(t) <= m,
                None => true,
            },
    {
        match self.bound(t) {
            Some(m) => self.value(t) <= m,
            None => true,
        }
    }
}

} // verus!
