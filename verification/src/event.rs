//! The decoded events of the order-book feed, and the mathematical models that the
//! contracts speak of.

use vstd::prelude::*;
use crate::decimal::{law_parsed_is_well_formed, law_zero_digits, Decimal, DecimalModel};

verus! {

/// The side of the book that a price change concerns.
#[derive(Clone, Copy, Debug, PartialEq, Eq, Structural)]
pub enum Side {
    Buy,
    Sell,
}

/// What a price change does to its level.
#[derive(Clone, Copy, Debug, PartialEq, Eq, Structural)]
pub enum LevelEffect {
    /// The level leaves the book.
    Removed,
    /// The level is set to the given size, whether it existed or not.
    Updated,
}

/// One price level of a book snapshot.
#[derive(Clone, Debug, PartialEq, Eq)]
pub struct PriceLevel {
    pub price: Decimal,
    pub size: Decimal,
}

/// A full snapshot of one asset's book.
#[derive(Clone, Debug, PartialEq, Eq)]
pub struct BookEvent {
    pub market: String,
    pub asset_id: String,
    pub bids: Vec<PriceLevel>,
    pub asks: Vec<PriceLevel>,
}

/// One delta of a price-change event.
#[derive(Clone, Debug, PartialEq, Eq)]
pub struct PriceChange {
    pub side: Side,
    pub price: Decimal,
    pub size: Decimal,
}

/// An incremental update of a market's books.
#[derive(Clone, Debug, PartialEq, Eq)]
pub struct PriceChangeEvent {
    pub market: String,
    pub price_changes: Vec<PriceChange>,
}

/// A decoded event.
#[derive(Clone, Debug, PartialEq, Eq)]
pub enum WsEvent {
    Book(BookEvent),
    PriceChange(PriceChangeEvent),
}

pub ghost struct PriceLevelModel {
    pub price: DecimalModel,
    pub size: DecimalModel,
}

pub ghost struct BookModel {
    pub market: Seq<char>,
    pub asset_id: Seq<char>,
    pub bids: Seq<PriceLevelModel>,
    pub asks: Seq<PriceLevelModel>,
}

pub ghost struct PriceChangeModel {
    pub side: Side,
    pub price: DecimalModel,
    pub size: DecimalModel,
}

pub ghost struct PriceChangeEventModel {
    pub market: Seq<char>,
    pub price_changes: Seq<PriceChangeModel>,
}

pub ghost enum EventModel {
    Book(BookModel),
    PriceChange(PriceChangeEventModel),
}

impl PriceChangeModel {
    /// A size of exactly zero removes the level; any other size sets it.
    pub open spec fn effect(self) -> LevelEffect {
        if self.size.is_zero() {
            LevelEffect::Removed
        } else {
            LevelEffect::Updated
        }
    }
}

/// A change removes its level exactly when its size is the number zero, however the
/// zero is written.
pub proof fn law_zero_size_removes(change: PriceChangeModel)
    requires
        change.size.wf(),
    ensures
        change.effect() == LevelEffect::Removed <==> change.size.unscaled() == 0,
        change.effect() == LevelEffect::Updated <==> change.size.unscaled() != 0,
{
    law_parsed_is_well_formed(change.size.text);
    law_zero_digits(change.size.digits);
}

impl View for PriceLevel {
    type V = PriceLevelModel;

    open spec fn view(&self) -> PriceLevelModel {
        PriceLevelModel { price: self.price@, size: self.size@ }
    }
}

impl DeepView for PriceLevel {
    type V = PriceLevelModel;

    open spec fn deep_view(&self) -> PriceLevelModel {
        self@
    }
}

impl View for PriceChange {
    type V = PriceChangeModel;

    open spec fn view(&self) -> PriceChangeModel {
        PriceChangeModel { side: self.side, price: self.price@, size: self.size@ }
    }
}

impl DeepView for PriceChange {
    type V = PriceChangeModel;

    open spec fn deep_view(&self) -> PriceChangeModel {
        self@
    }
}

impl View for BookEvent {
    type V = BookModel;

    open spec fn view(&self) -> BookModel {
        BookModel {
            market: self.market@,
            asset_id: self.asset_id@,
            bids: self.bids.deep_view(),
            asks: self.asks.deep_view(),
        }
    }
}

impl View for PriceChangeEvent {
    type V = PriceChangeEventModel;

    open spec fn view(&self) -> PriceChangeEventModel {
        PriceChangeEventModel {
            market: self.market@,
            price_changes: self.price_changes.deep_view(),
        }
    }
}

impl View for WsEvent {
    type V = EventModel;

    open spec fn view(&self) -> EventModel {
        match self {
            WsEvent::Book(book) => EventModel::Book(book@),
            WsEvent::PriceChange(change) => EventModel::PriceChange(change@),
        }
    }
}

impl PriceChange {
    /// Whether the change removes its level or sets it.
    pub fn effect(&self) -> (effect: LevelEffect)
        ensures
            effect == self@.effect(),
    {
        if self.size.is_zero() {
            LevelEffect::Removed
        } else {
            LevelEffect::Updated
        }
    }

    pub fn is_removal(&self) -> (removal: bool)
        ensures
            removal == self@.size.is_zero(),
            removal == (self@.effect() == LevelEffect::Removed),
    {
        self.size.is_zero()
    }
}

} // verus!
